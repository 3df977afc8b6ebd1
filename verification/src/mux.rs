//! The tagged multiplexer: several producer endpoints, each bound to a tag,
//! merged into one ordered sequence of chunks read by a single consumer.
//!
//! This is the sequential model of the multiplexing point. Producers append
//! chunks in arrival order; the consumer takes them in that same order, so
//! each producer's own writes are delivered first-in first-out (a proved law,
//! [`lemma_per_producer_fifo`]). The operating-system transport that carries a
//! real child's pipes to this point lives outside the library.

use vstd::prelude::*;
use vstd::seq_lib::*;
use vstd::slice::slice_to_vec;

verus! {

/// Which logical stream a chunk belongs to. The set is closed for this
/// system: a child's standard output, its standard error, and the one
/// out-of-band completion signal.
#[derive(Clone, Copy, Debug, PartialEq, Eq, Structural)]
pub enum Tag {
    /// The child's standard output (the untagged stream).
    Stdout,
    /// The child's standard error.
    Stderr,
    /// The completion signal carrying the encoded exit status.
    Done,
}

/// One atomic unit of bytes delivered by the multiplexer. Chunk boundaries
/// follow the producer's write boundaries, not line boundaries.
pub struct Chunk {
    pub tag: Tag,
    pub data: Vec<u8>,
}

/// A write endpoint bound to a fixed tag, created once per logical stream for
/// the lifetime of one child invocation.
pub struct Producer {
    pub id: usize,
    pub tag: Tag,
}

/// Mathematical view of one write: which producer issued it, under which tag,
/// with which bytes.
pub ghost struct EntryView {
    pub producer: nat,
    pub tag: Tag,
    pub data: Seq<u8>,
}

struct Entry {
    producer: usize,
    tag: Tag,
    data: Vec<u8>,
}

impl Entry {
    spec fn view_entry(self) -> EntryView {
        EntryView { producer: self.producer as nat, tag: self.tag, data: self.data@ }
    }
}

/// The multiplexer. It owns all producers for one child invocation and hands
/// out chunks, in arrival order, to exactly one consumer.
pub struct Mux {
    tags: Vec<Tag>,
    entries: Vec<Entry>,
    next: usize,
}

impl Mux {
    /// The tag of each producer made so far, by producer id.
    pub closed spec fn producer_tags(self) -> Seq<Tag> {
        self.tags@
    }

    /// Every write that ever arrived at the multiplexing point, in arrival
    /// order.
    pub closed spec fn history(self) -> Seq<EntryView> {
        self.entries@.map_values(|e: Entry| e.view_entry())
    }

    /// How many chunks the consumer has taken so far.
    pub closed spec fn delivered_count(self) -> nat {
        self.next as nat
    }

    /// The chunks the consumer has already taken, in delivery order.
    pub open spec fn delivered(self) -> Seq<EntryView> {
        self.history().take(self.delivered_count() as int)
    }

    /// The chunks that arrived but were not yet taken, in arrival order.
    pub open spec fn pending(self) -> Seq<EntryView> {
        self.history().skip(self.delivered_count() as int)
    }

    /// Internal consistency: the cursor is in range and every recorded write
    /// carries the tag its producer was bound to.
    pub closed spec fn wf(self) -> bool {
        &&& self.next <= self.entries@.len()
        &&& forall|i: int|
            0 <= i < self.entries@.len() ==> (#[trigger] self.entries@[i]).producer
                < self.tags@.len() && self.entries@[i].tag == self.tags@[self.entries@[i].producer as int]
    }

    /// A fresh multiplexer with no producers and no chunks.
    pub fn new() -> (m: Mux)
        ensures
            m.wf(),
            m.producer_tags() == Seq::<Tag>::empty(),
            m.history() == Seq::<EntryView>::empty(),
            m.delivered_count() == 0,
    {
        let m = Mux { tags: Vec::new(), entries: Vec::new(), next: 0 };
        proof {
            assert(m.history() =~= Seq::<EntryView>::empty());
        }
        m
    }

    /// Create a producer endpoint bound to `tag`.
    pub fn make_sender(&mut self, tag: Tag) -> (p: Producer)
        requires
            old(self).wf(),
        ensures
            final(self).wf(),
            final(self).producer_tags() == old(self).producer_tags().push(tag),
            final(self).history() == old(self).history(),
            final(self).delivered_count() == old(self).delivered_count(),
            p.id == old(self).producer_tags().len(),
            p.tag == tag,
    {
        let id = self.tags.len();
        self.tags.push(tag);
        Producer { id, tag }
    }

    /// Append one chunk from producer `p` to the arrival order. Safe
    /// concurrent writes from independent producers are serialised here: the
    /// model records the one order in which they arrived.
    pub fn write(&mut self, p: &Producer, data: Vec<u8>)
        requires
            old(self).wf(),
            p.id < old(self).producer_tags().len(),
            old(self).producer_tags()[p.id as int] == p.tag,
        ensures
            final(self).wf(),
            final(self).producer_tags() == old(self).producer_tags(),
            final(self).history() == old(self).history().push(
                EntryView { producer: p.id as nat, tag: p.tag, data: data@ },
            ),
            final(self).delivered_count() == old(self).delivered_count(),
    {
        self.entries.push(Entry { producer: p.id, tag: p.tag, data });
        proof {
            assert(final(self).history() =~= old(self).history().push(
                EntryView { producer: p.id as nat, tag: p.tag, data: data@ },
            ));
        }
    }

    /// Take the next chunk in arrival order, or nothing when no chunk is
    /// pending. The live system blocks here instead; a `None` before the
    /// completion chunk models the transport breaking underneath the
    /// consumer.
    pub fn read_next(&mut self) -> (r: Option<Chunk>)
        requires
            old(self).wf(),
        ensures
            final(self).wf(),
            final(self).producer_tags() == old(self).producer_tags(),
            final(self).history() == old(self).history(),
            old(self).pending().len() > 0 ==> {
                &&& final(self).delivered_count() == old(self).delivered_count() + 1
                &&& final(self).pending() == old(self).pending().drop_first()
                &&& match r {
                    Some(c) => c.tag == old(self).pending()[0].tag && c.data@ == old(
                        self,
                    ).pending()[0].data,
                    None => false,
                }
            },
            old(self).pending().len() == 0 ==> r is None && final(self).delivered_count() == old(
                self,
            ).delivered_count(),
    {
        if self.next < self.entries.len() {
            let e = &self.entries[self.next];
            let chunk = Chunk { tag: e.tag, data: slice_to_vec(e.data.as_slice()) };
            self.next = self.next + 1;
            proof {
                assert(self.pending() =~= old(self).pending().drop_first());
            }
            Some(chunk)
        } else {
            None
        }
    }
}

/// The writes producer `p` issued, in the order they arrived.
pub open spec fn writes_of(m: Mux, p: int) -> Seq<EntryView> {
    m.history().filter(from_producer(p))
}

/// The writes of producer `p` the consumer has observed, in delivery order.
pub open spec fn observed_of(m: Mux, p: int) -> Seq<EntryView> {
    m.delivered().filter(from_producer(p))
}

/// Selects the writes of one producer.
pub open spec fn from_producer(p: int) -> spec_fn(EntryView) -> bool {
    |e: EntryView| e.producer == p
}

/// Per-producer first-in first-out delivery: whatever a producer wrote, in
/// order `b1, b2, ..., bn`, the consumer observes via [`Mux::read_next`] in
/// that same relative order — the observed writes of each producer are a
/// prefix of its issued writes.
pub proof fn lemma_per_producer_fifo(m: Mux, p: int)
    requires
        m.wf(),
    ensures
        observed_of(m, p).is_prefix_of(writes_of(m, p)),
        m.delivered_count() == m.history().len() ==> observed_of(m, p) == writes_of(m, p),
{
    assert(m.delivered().is_prefix_of(m.history()));
    m.delivered().lemma_filter_monotone(m.history(), from_producer(p));
    if m.delivered_count() == m.history().len() {
        assert(m.delivered() =~= m.history());
    }
}

} // verus!
