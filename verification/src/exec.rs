//! The child-completion protocol: how the completion watcher encodes the
//! child's exit status into one chunk, and how the consumer's read loop
//! classifies chunks, forwards output with the one-shot report prefix, and
//! resolves the final status.
//!
//! Spawning the real child, waiting on it and copying its pipes are I/O and
//! live outside the library; they feed this module's state machine through
//! [`crate::mux::Tag`]-classified chunks and a [`WaitOutcome`].

use vstd::prelude::*;
use vstd::seq_lib::*;
use vstd::slice::slice_index_get;

use crate::mux::{Chunk, EntryView, Mux, Tag};
use crate::{Report, ReportView, Status, SOFTWARE};

verus! {

/// The two bytes written between the report prefix and the first chunk:
/// a colon and a newline.
pub open spec fn colon_newline() -> Seq<u8> {
    seq![58u8, 10u8]
}

/// Append `data` to the byte sink.
fn append_bytes(w: &mut Vec<u8>, data: &[u8])
    ensures
        final(w)@ == old(w)@ + data@,
{
    let n = data.len();
    let mut i: usize = 0;
    while i < n
        invariant
            i <= n,
            n == data@.len(),
            w@ == old(w)@ + data@.take(i as int),
        decreases n - i,
    {
        w.push(*slice_index_get(data, i));
        proof {
            assert(w@ =~= old(w)@ + data@.take(i + 1));
        }
        i = i + 1;
    }
    proof {
        assert(w@ =~= old(w)@ + data@);
    }
}

/// Write one chunk to a destination stream: the report prefix first, when one
/// is due, then a colon and a newline, then the chunk's bytes.
pub fn write(w: &mut Vec<u8>, data: &[u8], report: Option<&Vec<u8>>)
    ensures
        final(w)@ == old(w)@ + (match report {
            Some(p) => p@ + colon_newline(),
            None => Seq::<u8>::empty(),
        }) + data@,
{
    if let Some(p) = report {
        append_bytes(w, p.as_slice());
        w.push(58u8);
        w.push(10u8);
        proof {
            assert(w@ =~= old(w)@ + (p@ + colon_newline()));
        }
    }
    append_bytes(w, data);
    proof {
        assert(final(w)@ =~= old(w)@ + (match report {
            Some(p) => p@ + colon_newline(),
            None => Seq::<u8>::empty(),
        }) + data@);
    }
}

/// How one child invocation ended, as the completion watcher saw it.
pub enum WaitOutcome {
    /// The child exited normally with this code.
    Exited(i32),
    /// The child was terminated by this signal.
    Signaled(i32),
    /// Waiting on the child itself failed; the bytes describe the failure.
    Failed(Vec<u8>),
}

/// The outcomes the watcher can encode: a normal exit code fits in one byte,
/// a signal number leaves `128 + s` in one byte, and a failure description
/// must not be one byte long, since the consumer tells the two payload shapes
/// apart by length alone.
pub open spec fn wait_outcome_wf(w: WaitOutcome) -> bool {
    match w {
        WaitOutcome::Exited(c) => 0 <= c <= 255,
        WaitOutcome::Signaled(s) => 1 <= s < 128,
        WaitOutcome::Failed(m) => m@.len() != 1,
    }
}

/// The payload of the single completion chunk: the exit code `c` for a normal
/// exit, `128 + s` for death by signal `s`, and the descriptive text itself
/// when waiting failed.
pub open spec fn done_payload(w: WaitOutcome) -> Seq<u8> {
    match w {
        WaitOutcome::Exited(c) => seq![c as u8],
        WaitOutcome::Signaled(s) => seq![(s + 128) as u8],
        WaitOutcome::Failed(m) => m@,
    }
}

/// Encode the wait outcome as the completion chunk's payload.
pub fn encode_done_payload(w: WaitOutcome) -> (p: Vec<u8>)
    requires
        wait_outcome_wf(w),
    ensures
        p@ == done_payload(w),
{
    match w {
        WaitOutcome::Exited(c) => {
            let mut v: Vec<u8> = Vec::new();
            v.push(c as u8);
            proof {
                assert(v@ =~= done_payload(w));
            }
            v
        },
        WaitOutcome::Signaled(s) => {
            let mut v: Vec<u8> = Vec::new();
            v.push((s + 128) as u8);
            proof {
                assert(v@ =~= done_payload(w));
            }
            v
        },
        WaitOutcome::Failed(m) => m,
    }
}

/// The status the consumer resolves from a completion payload: a single byte
/// is the encoded exit status; any other length marks an internal failure to
/// determine it, resolved to the fixed [`SOFTWARE`] code.
pub open spec fn resolved_status(payload: Seq<u8>) -> int {
    if payload.len() == 1 {
        payload[0] as int
    } else {
        SOFTWARE as int
    }
}

/// Resolving the payload the watcher encoded recovers the child's fate: code
/// `c` for a normal exit, `128 + s` for death by signal `s`, and the fixed
/// internal-error code when waiting failed.
pub proof fn lemma_status_round_trip(w: WaitOutcome)
    requires
        wait_outcome_wf(w),
    ensures
        resolved_status(done_payload(w)) == match w {
            WaitOutcome::Exited(c) => c as int,
            WaitOutcome::Signaled(s) => 128 + s,
            WaitOutcome::Failed(_) => SOFTWARE as int,
        },
{
}

/// Whether a stdout chunk is prefixed: exactly when reporting is requested.
pub open spec fn out_condition(r: ReportView) -> bool {
    r.report
}

/// Whether a stderr chunk is prefixed: when reporting is requested and
/// verbose mode is not already printing names to stderr.
pub open spec fn err_condition(r: ReportView) -> bool {
    r.report && !r.verbose
}

/// The bytes emitted ahead of a chunk: the prefix and a colon-newline when
/// the one-shot is still unused and the stream's condition holds.
pub open spec fn emitted_prefix(r: ReportView, condition: bool) -> Seq<u8> {
    if !r.used && condition {
        r.prefix + colon_newline()
    } else {
        Seq::<u8>::empty()
    }
}

/// The report state after a data chunk was handled: the one-shot is used.
pub open spec fn after_emit(r: ReportView) -> ReportView {
    ReportView { used: true, ..r }
}

/// What one invocation's read loop produces: the bytes forwarded to each
/// destination stream, the resolved status once the completion chunk arrived
/// (`None` when the transport ended first), and how many times the report
/// prefix was emitted.
pub ghost struct SpecOutcome {
    pub out: Seq<u8>,
    pub err: Seq<u8>,
    pub result: Option<int>,
    pub prefixes: nat,
}

/// What the read loop does with one chunk, and the report state it leaves
/// behind. A completion chunk of exactly one byte resolves that byte and
/// terminates; any other completion payload is an error description, written
/// verbatim to the error destination and resolved to [`SOFTWARE`]; data
/// chunks are forwarded to their stream behind the prefix that is due.
pub open spec fn step_spec(r: ReportView, tag: Tag, data: Seq<u8>) -> (SpecOutcome, ReportView) {
    match tag {
        Tag::Done => if data.len() == 1 {
            (
                SpecOutcome {
                    out: Seq::<u8>::empty(),
                    err: Seq::<u8>::empty(),
                    result: Some(data[0] as int),
                    prefixes: 0,
                },
                r,
            )
        } else {
            (
                SpecOutcome {
                    out: Seq::<u8>::empty(),
                    err: data,
                    result: Some(SOFTWARE as int),
                    prefixes: 0,
                },
                r,
            )
        },
        Tag::Stdout => (
            SpecOutcome {
                out: emitted_prefix(r, out_condition(r)) + data,
                err: Seq::<u8>::empty(),
                result: None,
                prefixes: if !r.used && out_condition(r) {
                    1nat
                } else {
                    0nat
                },
            },
            after_emit(r),
        ),
        Tag::Stderr => (
            SpecOutcome {
                out: Seq::<u8>::empty(),
                err: emitted_prefix(r, err_condition(r)) + data,
                result: None,
                prefixes: if !r.used && err_condition(r) {
                    1nat
                } else {
                    0nat
                },
            },
            after_emit(r),
        ),
    }
}

/// What the read loop does with a whole arrival sequence: it forwards data
/// chunks in order until the first completion chunk resolves the status, and
/// reads nothing after that.
pub open spec fn run_spec(chunks: Seq<EntryView>, r: ReportView) -> SpecOutcome
    decreases chunks.len(),
{
    if chunks.len() == 0 {
        SpecOutcome {
            out: Seq::<u8>::empty(),
            err: Seq::<u8>::empty(),
            result: None,
            prefixes: 0,
        }
    } else {
        let (head, r2) = step_spec(r, chunks[0].tag, chunks[0].data);
        if head.result is Some {
            head
        } else {
            let rest = run_spec(chunks.drop_first(), r2);
            SpecOutcome {
                out: head.out + rest.out,
                err: head.err + rest.err,
                result: rest.result,
                prefixes: head.prefixes + rest.prefixes,
            }
        }
    }
}

/// What the consumer does after classifying one chunk.
pub enum Step {
    /// Write `bytes` (prefix included, where one was due) to stderr when
    /// `to_err` holds, to stdout otherwise, and keep reading.
    Forward { to_err: bool, bytes: Vec<u8> },
    /// The child terminated with this resolved status; stop reading.
    Finish { exit_code: i32 },
    /// The watcher reported a failure: write `message` verbatim to stderr,
    /// resolve the fixed internal-error status, stop reading.
    FinishError { message: Vec<u8>, exit_code: i32 },
}

/// Classify one chunk and decide what the consumer does with it.
pub fn step(report: &mut Report, chunk: Chunk) -> (s: Step)
    ensures
        final(report)@ == step_spec(old(report)@, chunk.tag, chunk.data@).1,
        match s {
            Step::Forward { to_err, bytes } => {
                &&& !(chunk.tag is Done)
                &&& to_err == (chunk.tag is Stderr)
                &&& step_spec(old(report)@, chunk.tag, chunk.data@).0 == (SpecOutcome {
                    out: if to_err {
                        Seq::<u8>::empty()
                    } else {
                        bytes@
                    },
                    err: if to_err {
                        bytes@
                    } else {
                        Seq::<u8>::empty()
                    },
                    result: None,
                    prefixes: step_spec(old(report)@, chunk.tag, chunk.data@).0.prefixes,
                })
            },
            Step::Finish { exit_code } => {
                &&& chunk.tag is Done
                &&& chunk.data@.len() == 1
                &&& exit_code as int == resolved_status(chunk.data@)
            },
            Step::FinishError { message, exit_code } => {
                &&& chunk.tag is Done
                &&& chunk.data@.len() != 1
                &&& message@ == chunk.data@
                &&& exit_code == SOFTWARE
            },
        },
{
    match chunk.tag {
        Tag::Done => {
            if chunk.data.len() == 1 {
                Step::Finish { exit_code: chunk.data[0] as i32 }
            } else {
                Step::FinishError { message: chunk.data, exit_code: SOFTWARE }
            }
        },
        Tag::Stdout => {
            let mut bytes: Vec<u8> = Vec::new();
            let pre = report.out_report();
            write(&mut bytes, chunk.data.as_slice(), pre);
            Step::Forward { to_err: false, bytes }
        },
        Tag::Stderr => {
            let mut bytes: Vec<u8> = Vec::new();
            let pre = report.err_report();
            write(&mut bytes, chunk.data.as_slice(), pre);
            Step::Forward { to_err: true, bytes }
        },
    }
}

/// The read loop's failure: the transport under the multiplexer ended before
/// a completion chunk arrived.
pub enum ExecError {
    MuxClosed,
}

/// The consumer's read loop over the multiplexer: forward every data chunk to
/// its destination, terminate on the first completion chunk and store the
/// resolved status, never read past it. Fails only when the pending chunks
/// run out with no completion chunk among them.
///
/// Deliberate design decision: the loop honours the first completion chunk it
/// sees, so output the child wrote that had not yet reached the multiplexing
/// point is discarded, for compatibility with the conventional behaviour.
#[verifier::loop_isolation(false)]
pub fn run_read_loop(
    mux: &mut Mux,
    report: &mut Report,
    out: &mut Vec<u8>,
    err: &mut Vec<u8>,
    status: &mut Status,
) -> (res: Result<(), ExecError>)
    requires
        old(mux).wf(),
    ensures
        final(mux).wf(),
        ({
            let r = run_spec(old(mux).pending(), old(report)@);
            &&& final(out)@ == old(out)@ + r.out
            &&& final(err)@ == old(err)@ + r.err
            &&& (res is Ok <==> r.result is Some)
            &&& match r.result {
                Some(code) => final(status).exit_code as int == code,
                None => final(status).exit_code == old(status).exit_code,
            }
        }),
{
    broadcast use vstd::seq_lib::group_seq_properties;

    let ghost orig: SpecOutcome = run_spec(old(mux).pending(), old(report)@);
    loop
        invariant
            mux.wf(),
            old(out)@.is_prefix_of(out@),
            old(err)@.is_prefix_of(err@),
            status.exit_code == old(status).exit_code,
            ({
                let sub = run_spec(mux.pending(), report@);
                &&& orig.out == out@.skip(old(out)@.len() as int) + sub.out
                &&& orig.err == err@.skip(old(err)@.len() as int) + sub.err
                &&& orig.result == sub.result
            }),
        decreases mux.pending().len(),
    {
        let ghost pend = mux.pending();
        let ghost rep0 = report@;
        let next = mux.read_next();
        match next {
            None => {
                proof {
                    assert(out@ =~= old(out)@ + out@.skip(old(out)@.len() as int));
                    assert(err@ =~= old(err)@ + err@.skip(old(err)@.len() as int));
                    assert(orig.out =~= out@.skip(old(out)@.len() as int));
                    assert(orig.err =~= err@.skip(old(err)@.len() as int));
                }
                return Err(ExecError::MuxClosed);
            },
            Some(chunk) => {
                proof {
                    assert(pend.len() > 0);
                    assert(chunk.tag == pend[0].tag && chunk.data@ == pend[0].data);
                }
                let ghost head_and_rep = step_spec(rep0, pend[0].tag, pend[0].data);
                let s = step(report, chunk);
                match s {
                    Step::Forward { to_err, bytes } => {
                        let ghost rest = run_spec(pend.drop_first(), head_and_rep.1);
                        proof {
                            assert(run_spec(pend, rep0).out == head_and_rep.0.out + rest.out);
                            assert(run_spec(pend, rep0).err == head_and_rep.0.err + rest.err);
                        }
                        if to_err {
                            let ghost pre_err = err@;
                            append_bytes(err, bytes.as_slice());
                            proof {
                                assert(err@.skip(old(err)@.len() as int) =~= pre_err.skip(
                                    old(err)@.len() as int,
                                ) + bytes@);
                                assert(orig.err =~= err@.skip(old(err)@.len() as int) + rest.err);
                                assert(orig.out =~= out@.skip(old(out)@.len() as int) + rest.out);
                            }
                        } else {
                            let ghost pre_out = out@;
                            append_bytes(out, bytes.as_slice());
                            proof {
                                assert(out@.skip(old(out)@.len() as int) =~= pre_out.skip(
                                    old(out)@.len() as int,
                                ) + bytes@);
                                assert(orig.out =~= out@.skip(old(out)@.len() as int) + rest.out);
                                assert(orig.err =~= err@.skip(old(err)@.len() as int) + rest.err);
                            }
                        }
                    },
                    Step::Finish { exit_code } => {
                        status.exit_code = exit_code;
                        proof {
                            assert(run_spec(pend, rep0) == head_and_rep.0);
                            assert(orig.out =~= out@.skip(old(out)@.len() as int));
                            assert(orig.err =~= err@.skip(old(err)@.len() as int));
                            assert(out@ =~= old(out)@ + orig.out);
                            assert(err@ =~= old(err)@ + orig.err);
                        }
                        return Ok(());
                    },
                    Step::FinishError { message, exit_code } => {
                        status.exit_code = exit_code;
                        let ghost pre_err = err@;
                        append_bytes(err, message.as_slice());
                        proof {
                            assert(run_spec(pend, rep0) == head_and_rep.0);
                            assert(orig.out =~= out@.skip(old(out)@.len() as int));
                            assert(out@ =~= old(out)@ + orig.out);
                            assert(orig.err =~= pre_err.skip(old(err)@.len() as int) + message@);
                            assert(pre_err =~= old(err)@ + pre_err.skip(old(err)@.len() as int));
                            assert(err@ =~= old(err)@ + orig.err);
                        }
                        return Ok(());
                    },
                }
            },
        }
    }
}

/// Once the one-shot is used, no later chunk emits a prefix.
proof fn lemma_used_no_prefix(chunks: Seq<EntryView>, r: ReportView)
    requires
        r.used,
    ensures
        run_spec(chunks, r).prefixes == 0,
    decreases chunks.len(),
{
    if chunks.len() > 0 {
        let (head, r2) = step_spec(r, chunks[0].tag, chunks[0].data);
        if !(head.result is Some) {
            lemma_used_no_prefix(chunks.drop_first(), r2);
        }
    }
}

/// The report prefix is emitted at most once per invocation, whichever
/// streams produce data and in whatever order.
pub proof fn lemma_prefix_at_most_once(chunks: Seq<EntryView>, r: ReportView)
    requires
        !r.used,
    ensures
        run_spec(chunks, r).prefixes <= 1,
    decreases chunks.len(),
{
    if chunks.len() > 0 {
        let (head, r2) = step_spec(r, chunks[0].tag, chunks[0].data);
        if !(head.result is Some) {
            if chunks[0].tag is Done {
            } else {
                lemma_used_no_prefix(chunks.drop_first(), r2);
            }
        }
    }
}

/// When reporting is enabled and verbose mode is off, the prefix is emitted
/// exactly once as soon as any data chunk precedes termination, on whichever
/// stream is first to emit.
pub proof fn lemma_prefix_exactly_once(chunks: Seq<EntryView>, r: ReportView)
    requires
        !r.used,
        r.report,
        !r.verbose,
        chunks.len() > 0,
        !(chunks[0].tag is Done),
    ensures
        run_spec(chunks, r).prefixes == 1,
{
    let (head, r2) = step_spec(r, chunks[0].tag, chunks[0].data);
    lemma_used_no_prefix(chunks.drop_first(), r2);
}

/// The completion chunk is authoritative: whatever data chunks precede it,
/// the read loop resolves exactly the status encoded in the first completion
/// chunk of the arrival sequence.
pub proof fn lemma_done_chunk_is_authoritative(chunks: Seq<EntryView>, r: ReportView, d: int)
    requires
        0 <= d < chunks.len(),
        chunks[d].tag is Done,
        forall|j: int| 0 <= j < d ==> !((#[trigger] chunks[j]).tag is Done),
    ensures
        run_spec(chunks, r).result == Some(resolved_status(chunks[d].data)),
    decreases d,
{
    if d > 0 {
        let (_, r2) = step_spec(r, chunks[0].tag, chunks[0].data);
        lemma_done_chunk_is_authoritative(chunks.drop_first(), r2, d - 1);
    }
}

/// And only the completion chunk terminates the loop: an arrival sequence
/// without one resolves no status at all.
pub proof fn lemma_no_done_chunk_no_status(chunks: Seq<EntryView>, r: ReportView)
    requires
        forall|j: int| 0 <= j < chunks.len() ==> !((#[trigger] chunks[j]).tag is Done),
    ensures
        run_spec(chunks, r).result is None,
    decreases chunks.len(),
{
    if chunks.len() > 0 {
        let (_, r2) = step_spec(r, chunks[0].tag, chunks[0].data);
        lemma_no_done_chunk_no_status(chunks.drop_first(), r2);
    }
}

/// A completion chunk that is not a single byte is the watcher's failure
/// report: its text goes verbatim to the error destination, nothing goes to
/// the output destination, and the status resolves to the fixed
/// internal-error code.
pub proof fn lemma_wait_failure_reported(chunks: Seq<EntryView>, r: ReportView)
    requires
        chunks.len() > 0,
        chunks[0].tag is Done,
        chunks[0].data.len() != 1,
    ensures
        run_spec(chunks, r) == (SpecOutcome {
            out: Seq::<u8>::empty(),
            err: chunks[0].data,
            result: Some(SOFTWARE as int),
            prefixes: 0,
        }),
{
}

} // verus!

