use run_parts::exec::{encode_done_payload, run_read_loop, step, Step, WaitOutcome};
use run_parts::mux::{Mux, Tag};
use run_parts::{act_decision, should_report_failure, FileAction, Opt, Report, Status, OK, SOFTWARE};

fn mk_opt() -> Opt {
    Opt {
        test: false,
        list: false,
        verbose: false,
        report: false,
        reverse: false,
        exit_on_error: false,
        umask: String::from("022"),
        lsbsysinit: false,
        regex: None,
        arg: Vec::new(),
        dir: String::from("."),
    }
}

fn run_invocation(
    opt: &Opt,
    path: &[u8],
    chunks: Vec<(Tag, Vec<u8>)>,
) -> (Result<(), run_parts::exec::ExecError>, Vec<u8>, Vec<u8>, Status) {
    let mut mux = Mux::new();
    let p_out = mux.make_sender(Tag::Stdout);
    let p_err = mux.make_sender(Tag::Stderr);
    let p_done = mux.make_sender(Tag::Done);
    for (tag, data) in chunks {
        match tag {
            Tag::Stdout => mux.write(&p_out, data),
            Tag::Stderr => mux.write(&p_err, data),
            Tag::Done => mux.write(&p_done, data),
        }
    }
    let mut report = Report::new(opt, path);
    let mut out: Vec<u8> = Vec::new();
    let mut err: Vec<u8> = Vec::new();
    let mut status = Status::default();
    let res = run_read_loop(&mut mux, &mut report, &mut out, &mut err, &mut status);
    (res, out, err, status)
}

fn count_occurrences(haystack: &[u8], needle: &[u8]) -> usize {
    if needle.is_empty() || haystack.len() < needle.len() {
        return 0;
    }
    let mut n = 0;
    for i in 0..=(haystack.len() - needle.len()) {
        if &haystack[i..i + needle.len()] == needle {
            n += 1;
        }
    }
    n
}

#[test]
fn producer_fifo_order_is_kept() {
    let mut mux = Mux::new();
    let a = mux.make_sender(Tag::Stdout);
    let b = mux.make_sender(Tag::Stderr);
    mux.write(&a, b"b1".to_vec());
    mux.write(&b, b"x1".to_vec());
    mux.write(&a, b"b2".to_vec());
    mux.write(&a, b"b3".to_vec());
    let mut from_a: Vec<Vec<u8>> = Vec::new();
    while let Some(c) = mux.read_next() {
        if matches!(c.tag, Tag::Stdout) {
            from_a.push(c.data);
        }
    }
    assert_eq!(from_a, vec![b"b1".to_vec(), b"b2".to_vec(), b"b3".to_vec()]);
}

#[test]
fn read_next_delivers_in_arrival_order() {
    let mut mux = Mux::new();
    let a = mux.make_sender(Tag::Stdout);
    let b = mux.make_sender(Tag::Stderr);
    mux.write(&b, b"first".to_vec());
    mux.write(&a, b"second".to_vec());
    let c1 = mux.read_next().unwrap();
    let c2 = mux.read_next().unwrap();
    assert!(matches!(c1.tag, Tag::Stderr));
    assert_eq!(c1.data, b"first".to_vec());
    assert!(matches!(c2.tag, Tag::Stdout));
    assert_eq!(c2.data, b"second".to_vec());
    assert!(mux.read_next().is_none());
}

#[test]
fn exit_code_42_resolves_to_42() {
    let opt = mk_opt();
    let payload = encode_done_payload(WaitOutcome::Exited(42));
    let (res, out, err, status) = run_invocation(&opt, b"/d/x", vec![(Tag::Done, payload)]);
    assert!(res.is_ok());
    assert_eq!(status.exit_code, 42);
    assert!(out.is_empty());
    assert!(err.is_empty());
}

#[test]
fn signal_9_resolves_to_137() {
    let opt = mk_opt();
    let payload = encode_done_payload(WaitOutcome::Signaled(9));
    assert_eq!(payload, vec![137u8]);
    let (res, _, _, status) = run_invocation(&opt, b"/d/x", vec![(Tag::Done, payload)]);
    assert!(res.is_ok());
    assert_eq!(status.exit_code, 137);
}

#[test]
fn wait_failure_resolves_to_software_and_reports_text() {
    let opt = mk_opt();
    let text = b"Error: waitpid failed\n".to_vec();
    let payload = encode_done_payload(WaitOutcome::Failed(text.clone()));
    assert_eq!(payload, text);
    let (res, out, err, status) = run_invocation(&opt, b"/d/x", vec![(Tag::Done, payload)]);
    assert!(res.is_ok());
    assert_eq!(status.exit_code, SOFTWARE);
    assert_eq!(err, text);
    assert!(out.is_empty());
}

#[test]
fn hello_on_stdout_then_exit_zero() {
    let opt = mk_opt();
    let (res, out, err, status) = run_invocation(
        &opt,
        b"/d/x",
        vec![
            (Tag::Stdout, b"hello\n".to_vec()),
            (Tag::Done, encode_done_payload(WaitOutcome::Exited(0))),
        ],
    );
    assert!(res.is_ok());
    assert_eq!(out, b"hello\n".to_vec());
    assert!(err.is_empty());
    assert_eq!(status.exit_code, 0);
}

#[test]
fn oops_on_stderr_then_exit_three() {
    let opt = mk_opt();
    let (res, out, err, status) = run_invocation(
        &opt,
        b"/d/x",
        vec![
            (Tag::Stderr, b"oops\n".to_vec()),
            (Tag::Done, encode_done_payload(WaitOutcome::Exited(3))),
        ],
    );
    assert!(res.is_ok());
    assert_eq!(err, b"oops\n".to_vec());
    assert!(out.is_empty());
    assert_eq!(status.exit_code, 3);
}

#[test]
fn report_prefix_precedes_stdout_data() {
    let mut opt = mk_opt();
    opt.report = true;
    let (res, out, err, status) = run_invocation(
        &opt,
        b"/d/10foo",
        vec![
            (Tag::Stdout, b"output line\n".to_vec()),
            (Tag::Done, encode_done_payload(WaitOutcome::Exited(0))),
        ],
    );
    assert!(res.is_ok());
    let mut expected = b"/d/10foo:\n".to_vec();
    expected.extend_from_slice(b"output line\n");
    assert_eq!(out, expected);
    assert!(err.is_empty());
    assert_eq!(status.exit_code, 0);
}

#[test]
fn report_prefix_appears_once_when_both_streams_emit() {
    let mut opt = mk_opt();
    opt.report = true;
    let (res, out, err, _) = run_invocation(
        &opt,
        b"/d/10foo",
        vec![
            (Tag::Stdout, b"a\n".to_vec()),
            (Tag::Stderr, b"b\n".to_vec()),
            (Tag::Stdout, b"c\n".to_vec()),
            (Tag::Done, encode_done_payload(WaitOutcome::Exited(0))),
        ],
    );
    assert!(res.is_ok());
    let mut combined = out.clone();
    combined.extend_from_slice(&err);
    assert_eq!(count_occurrences(&combined, b"/d/10foo:\n"), 1);
    assert_eq!(out, b"/d/10foo:\na\nc\n".to_vec());
    assert_eq!(err, b"b\n".to_vec());
}

#[test]
fn report_prefix_lands_on_stderr_when_it_is_first() {
    let mut opt = mk_opt();
    opt.report = true;
    let (res, out, err, _) = run_invocation(
        &opt,
        b"/d/s",
        vec![
            (Tag::Stderr, b"warn\n".to_vec()),
            (Tag::Stdout, b"data\n".to_vec()),
            (Tag::Done, encode_done_payload(WaitOutcome::Exited(0))),
        ],
    );
    assert!(res.is_ok());
    assert_eq!(err, b"/d/s:\nwarn\n".to_vec());
    assert_eq!(out, b"data\n".to_vec());
}

#[test]
fn verbose_suppresses_stderr_prefix_and_consumes_the_one_shot() {
    let mut opt = mk_opt();
    opt.report = true;
    opt.verbose = true;
    let (res, out, err, _) = run_invocation(
        &opt,
        b"/d/s",
        vec![
            (Tag::Stderr, b"warn\n".to_vec()),
            (Tag::Stdout, b"data\n".to_vec()),
            (Tag::Done, encode_done_payload(WaitOutcome::Exited(0))),
        ],
    );
    assert!(res.is_ok());
    assert_eq!(err, b"warn\n".to_vec());
    assert_eq!(out, b"data\n".to_vec());
}

#[test]
fn transport_end_without_done_chunk_is_a_read_failure() {
    let opt = mk_opt();
    let (res, out, err, status) =
        run_invocation(&opt, b"/d/x", vec![(Tag::Stdout, b"partial".to_vec())]);
    assert!(res.is_err());
    assert_eq!(out, b"partial".to_vec());
    assert!(err.is_empty());
    assert_eq!(status.exit_code, OK);
}

#[test]
fn chunks_after_done_are_not_forwarded() {
    let opt = mk_opt();
    let (res, out, _, status) = run_invocation(
        &opt,
        b"/d/x",
        vec![
            (Tag::Done, encode_done_payload(WaitOutcome::Exited(5))),
            (Tag::Stdout, b"late\n".to_vec()),
        ],
    );
    assert!(res.is_ok());
    assert!(out.is_empty());
    assert_eq!(status.exit_code, 5);
}

#[test]
fn write_prepends_prefix_and_colon_newline() {
    let mut w: Vec<u8> = b"pre".to_vec();
    let prefix = b"/d/s".to_vec();
    run_parts::exec::write(&mut w, b"data", Some(&prefix));
    assert_eq!(w, b"pre/d/s:\ndata".to_vec());
    let mut w2: Vec<u8> = Vec::new();
    run_parts::exec::write(&mut w2, b"data", None);
    assert_eq!(w2, b"data".to_vec());
}

#[test]
fn step_classifies_chunks() {
    let mut opt = mk_opt();
    opt.report = true;
    let mut report = Report::new(&opt, b"/d/s");
    let s1 = step(
        &mut report,
        run_parts::mux::Chunk { tag: Tag::Stdout, data: b"x".to_vec() },
    );
    match s1 {
        Step::Forward { to_err, bytes } => {
            assert!(!to_err);
            assert_eq!(bytes, b"/d/s:\nx".to_vec());
        }
        _ => panic!("expected a forwarded chunk"),
    }
    let s2 = step(
        &mut report,
        run_parts::mux::Chunk { tag: Tag::Done, data: vec![7u8] },
    );
    match s2 {
        Step::Finish { exit_code } => assert_eq!(exit_code, 7),
        _ => panic!("expected termination"),
    }
    let mut report2 = Report::new(&opt, b"/d/s");
    let s3 = step(
        &mut report2,
        run_parts::mux::Chunk { tag: Tag::Done, data: b"Error: boom\n".to_vec() },
    );
    match s3 {
        Step::FinishError { message, exit_code } => {
            assert_eq!(message, b"Error: boom\n".to_vec());
            assert_eq!(exit_code, SOFTWARE);
        }
        _ => panic!("expected the failure report"),
    }
}

#[test]
fn report_one_shot_is_never_returned_twice() {
    let mut opt = mk_opt();
    opt.report = true;
    let mut report = Report::new(&opt, b"/d/s");
    assert_eq!(report.out_report().cloned(), Some(b"/d/s".to_vec()));
    assert!(report.out_report().is_none());
    assert!(report.err_report().is_none());
}

#[test]
fn report_disabled_returns_nothing_but_consumes_the_one_shot() {
    let opt = mk_opt();
    let mut report = Report::new(&opt, b"/d/s");
    assert!(report.out_report().is_none());
    assert!(report.err_report().is_none());
}

#[test]
fn status_reset_returns_to_ok() {
    let mut status = Status { exit_code: 9 };
    status.reset();
    assert_eq!(status.exit_code, OK);
    assert_eq!(Status::default().exit_code, OK);
}

#[test]
fn encode_done_payload_exact_values() {
    assert_eq!(encode_done_payload(WaitOutcome::Exited(0)), vec![0u8]);
    assert_eq!(encode_done_payload(WaitOutcome::Exited(42)), vec![42u8]);
    assert_eq!(encode_done_payload(WaitOutcome::Exited(255)), vec![255u8]);
    assert_eq!(encode_done_payload(WaitOutcome::Signaled(1)), vec![129u8]);
    assert_eq!(encode_done_payload(WaitOutcome::Signaled(15)), vec![143u8]);
    assert_eq!(
        encode_done_payload(WaitOutcome::Failed(b"Error: e\n".to_vec())),
        b"Error: e\n".to_vec()
    );
}

#[test]
fn act_decision_covers_every_branch() {
    let mut opt = mk_opt();
    assert_eq!(act_decision(&opt, OK, true), FileAction::Run { announce: false });
    assert_eq!(act_decision(&opt, OK, false), FileAction::Skip);
    opt.verbose = true;
    assert_eq!(act_decision(&opt, OK, true), FileAction::Run { announce: true });
    opt.verbose = false;
    opt.exit_on_error = true;
    assert_eq!(act_decision(&opt, 1, true), FileAction::Skip);
    assert_eq!(act_decision(&opt, OK, true), FileAction::Run { announce: false });
    opt.list = true;
    assert_eq!(act_decision(&opt, OK, false), FileAction::Print);
    opt.list = false;
    opt.test = true;
    assert_eq!(act_decision(&opt, OK, true), FileAction::Print);
    assert_eq!(act_decision(&opt, OK, false), FileAction::Skip);
}

#[test]
fn failure_reporting_follows_report_and_verbose() {
    let mut opt = mk_opt();
    assert!(!should_report_failure(&opt, 1));
    opt.report = true;
    assert!(should_report_failure(&opt, 1));
    assert!(!should_report_failure(&opt, OK));
    opt.report = false;
    opt.verbose = true;
    assert!(should_report_failure(&opt, 137));
}
