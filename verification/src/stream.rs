//! The chunk protocol of a streamed page.
//!
//! Producing a page alternates between outside work (waiting for a markup
//! fragment, sending a chunk) and decisions. The decisions stand here, as a
//! machine that is handed the outcome of each piece of work and answers with
//! the next piece of work to do.

use crate::headers::clone_bytes;
use crate::response::{BodyView, SpinBody};
use crate::route_table::SsrMode;
use vstd::prelude::*;

verus! {

/// What the machine waits for.
#[derive(Clone, Copy, Debug, PartialEq, Eq, Structural)]
pub enum Phase {
    /// A fragment that comes before anything is sent.
    First,
    /// The head and tail of the document.
    Frame,
    /// The status and headers being handed to the host.
    Commit,
    /// The head chunk being taken by the sink.
    Head,
    /// A body chunk being taken by the sink.
    Body,
    /// A fragment that comes after the head was sent.
    Next,
    /// The render context being released, with the last chunk still to send.
    Release,
    /// The last chunk being taken by the sink.
    Tail,
    /// The render context being released after a failure.
    Abort,
    /// Nothing: the response is over.
    Done,
}

/// The outcome of a piece of outside work.
#[derive(Debug)]
pub enum StreamEvent {
    /// The producer gave a fragment.
    Fragment(Vec<u8>),
    /// The producer has no more fragments.
    Exhausted,
    /// The head and the tail of the document were computed.
    Frame(Vec<u8>, Vec<u8>),
    /// The host took the status and headers.
    Committed,
    /// The sink took the chunk.
    Accepted,
    /// The sink refused the chunk.
    Rejected,
    /// The render context was released.
    Released,
    /// The stream of a body broke off with an error.
    Broken,
}

/// The next piece of outside work.
#[derive(Debug)]
pub enum StreamAction {
    /// Wait for the producer's next fragment.
    NextFragment,
    /// Compute the head and the tail of the document.
    BuildFrame,
    /// Hand the status and headers to the host.
    Commit,
    /// Send a chunk and wait until the sink takes it.
    Send(Vec<u8>),
    /// Release the render context.
    Release,
    /// Close the response.
    Finish,
}

/// An outcome, as the contracts see it.
pub enum EventView {
    Fragment(Seq<u8>),
    Exhausted,
    Frame(Seq<u8>, Seq<u8>),
    Committed,
    Accepted,
    Rejected,
    Released,
    Broken,
}

/// A piece of work, as the contracts see it.
pub enum ActionView {
    NextFragment,
    BuildFrame,
    Commit,
    Send(Seq<u8>),
    Release,
    Finish,
}

impl View for StreamEvent {
    type V = EventView;

    open spec fn view(&self) -> EventView {
        match self {
            StreamEvent::Fragment(f) => EventView::Fragment(f@),
            StreamEvent::Exhausted => EventView::Exhausted,
            StreamEvent::Frame(h, t) => EventView::Frame(h@, t@),
            StreamEvent::Committed => EventView::Committed,
            StreamEvent::Accepted => EventView::Accepted,
            StreamEvent::Rejected => EventView::Rejected,
            StreamEvent::Released => EventView::Released,
            StreamEvent::Broken => EventView::Broken,
        }
    }
}

impl View for StreamAction {
    type V = ActionView;

    open spec fn view(&self) -> ActionView {
        match self {
            StreamAction::NextFragment => ActionView::NextFragment,
            StreamAction::BuildFrame => ActionView::BuildFrame,
            StreamAction::Commit => ActionView::Commit,
            StreamAction::Send(c) => ActionView::Send(c@),
            StreamAction::Release => ActionView::Release,
            StreamAction::Finish => ActionView::Finish,
        }
    }
}

/// The state of a page's stream, as the contracts see it.
pub struct StreamView {
    pub mode: SsrMode,
    pub phase: Phase,
    /// The head of the document, once computed.
    pub head: Option<Seq<u8>>,
    /// The tail of the document, once computed.
    pub tail: Option<Seq<u8>>,
    /// The first fragment, held back until the head is sent.
    pub pending: Option<Seq<u8>>,
    /// The first fragment was asked for.
    pub asked: bool,
    /// The producer has no more fragments.
    pub exhausted: bool,
    /// The status and headers were handed to the host.
    pub committed: bool,
    /// The fragments gathered for a page that is sent in one piece.
    pub buffer: Seq<u8>,
    /// The release of the render context was asked for.
    pub released: bool,
    /// The response was cut short.
    pub failed: bool,
    /// The chunks handed to the sink so far, in order.
    pub sent: Seq<Seq<u8>>,
    /// The fragments that the producer gave so far, in order.
    pub consumed: Seq<Seq<u8>>,
}

/// The bytes of a list of fragments, one after the other.
pub open spec fn flat(fragments: Seq<Seq<u8>>) -> Seq<u8>
    decreases fragments.len(),
{
    if fragments.len() == 0 {
        Seq::empty()
    } else {
        flat(fragments.drop_last()) + fragments.last()
    }
}

/// The state in which a page's stream starts.
pub open spec fn initial(mode: SsrMode) -> StreamView {
    StreamView {
        mode,
        phase: if mode == SsrMode::InOrder {
            Phase::Frame
        } else {
            Phase::First
        },
        head: None,
        tail: None,
        pending: None,
        asked: mode != SsrMode::InOrder,
        exhausted: false,
        committed: false,
        buffer: Seq::empty(),
        released: false,
        failed: false,
        sent: Seq::empty(),
        consumed: Seq::empty(),
    }
}

/// The work with which a page's stream starts: the head of a page that is
/// rendered in order is computed before its first fragment is asked for; in
/// every other mode the first fragment comes first.
pub open spec fn initial_action(mode: SsrMode) -> ActionView {
    if mode == SsrMode::InOrder {
        ActionView::BuildFrame
    } else {
        ActionView::NextFragment
    }
}

/// The step after something went wrong: the render context is released if
/// it was not, and the response is closed without another chunk.
pub open spec fn fail(s: StreamView) -> (StreamView, ActionView) {
    if s.released {
        (StreamView { phase: Phase::Done, failed: true, ..s }, ActionView::Finish)
    } else {
        (StreamView { phase: Phase::Abort, failed: true, released: true, ..s }, ActionView::Release)
    }
}

/// The step of a streamed page once a fragment or the frame has come in
/// before the head is sent: whatever of the two is still missing is asked
/// for, then the status and headers are committed.
pub open spec fn after_gather(s: StreamView) -> (StreamView, ActionView) {
    if s.head is None {
        (StreamView { phase: Phase::Frame, ..s }, ActionView::BuildFrame)
    } else if !s.asked {
        (StreamView { phase: Phase::First, asked: true, ..s }, ActionView::NextFragment)
    } else {
        (StreamView { phase: Phase::Commit, ..s }, ActionView::Commit)
    }
}

/// The whole document of a page that is sent in one piece.
pub open spec fn whole_document(s: StreamView) -> Seq<u8> {
    s.head.unwrap() + s.buffer + s.tail.unwrap()
}

/// One step of the machine: the state after an outcome, and the next work.
pub open spec fn step_spec(s: StreamView, e: EventView) -> (StreamView, ActionView) {
    match s.phase {
        Phase::First => match e {
            EventView::Fragment(f) => if s.mode == SsrMode::Async {
                (
                    StreamView { buffer: s.buffer + f, consumed: s.consumed.push(f), ..s },
                    ActionView::NextFragment,
                )
            } else {
                after_gather(StreamView { pending: Some(f), consumed: s.consumed.push(f), ..s })
            },
            EventView::Exhausted => if s.mode == SsrMode::Async {
                (StreamView { phase: Phase::Frame, exhausted: true, ..s }, ActionView::BuildFrame)
            } else {
                after_gather(StreamView { exhausted: true, ..s })
            },
            _ => fail(s),
        },
        Phase::Frame => match e {
            EventView::Frame(h, t) => if s.mode == SsrMode::Async {
                (
                    StreamView {
                        phase: Phase::Release,
                        head: Some(h),
                        tail: Some(t),
                        released: true,
                        ..s
                    },
                    ActionView::Release,
                )
            } else {
                after_gather(StreamView { head: Some(h), tail: Some(t), ..s })
            },
            _ => fail(s),
        },
        Phase::Commit => match e {
            EventView::Committed => if s.head is None || s.tail is None {
                fail(s)
            } else if s.mode == SsrMode::Async {
                (
                    StreamView {
                        phase: Phase::Tail,
                        committed: true,
                        sent: s.sent.push(whole_document(s)),
                        ..s
                    },
                    ActionView::Send(whole_document(s)),
                )
            } else {
                (
                    StreamView {
                        phase: Phase::Head,
                        committed: true,
                        sent: s.sent.push(s.head.unwrap()),
                        ..s
                    },
                    ActionView::Send(s.head.unwrap()),
                )
            },
            _ => fail(s),
        },
        Phase::Head => match e {
            EventView::Accepted => match s.pending {
                Some(f) => (
                    StreamView { phase: Phase::Body, pending: None, sent: s.sent.push(f), ..s },
                    ActionView::Send(f),
                ),
                None => if s.exhausted {
                    (StreamView { phase: Phase::Release, released: true, ..s }, ActionView::Release)
                } else {
                    (StreamView { phase: Phase::Next, ..s }, ActionView::NextFragment)
                },
            },
            _ => fail(s),
        },
        Phase::Body => match e {
            EventView::Accepted => (StreamView { phase: Phase::Next, ..s }, ActionView::NextFragment),
            _ => fail(s),
        },
        Phase::Next => match e {
            EventView::Fragment(f) => (
                StreamView {
                    phase: Phase::Body,
                    consumed: s.consumed.push(f),
                    sent: s.sent.push(f),
                    ..s
                },
                ActionView::Send(f),
            ),
            EventView::Exhausted => (
                StreamView { phase: Phase::Release, exhausted: true, released: true, ..s },
                ActionView::Release,
            ),
            _ => fail(s),
        },
        Phase::Release => match e {
            EventView::Released => if s.tail is None {
                fail(s)
            } else if s.mode == SsrMode::Async {
                (StreamView { phase: Phase::Commit, ..s }, ActionView::Commit)
            } else {
                (
                    StreamView { phase: Phase::Tail, sent: s.sent.push(s.tail.unwrap()), ..s },
                    ActionView::Send(s.tail.unwrap()),
                )
            },
            _ => fail(s),
        },
        Phase::Tail => match e {
            EventView::Accepted => (StreamView { phase: Phase::Done, ..s }, ActionView::Finish),
            _ => fail(s),
        },
        Phase::Abort => (StreamView { phase: Phase::Done, ..s }, ActionView::Finish),
        Phase::Done => (s, ActionView::Finish),
    }
}


/// The chunks of a complete response: one chunk with the whole document for
/// a page that is sent in one piece; else the head, each fragment in the
/// order in which the producer gave it, and the tail.
pub open spec fn framed(s: StreamView) -> Seq<Seq<u8>> {
    if s.mode == SsrMode::Async {
        seq![s.head.unwrap() + flat(s.consumed) + s.tail.unwrap()]
    } else {
        seq![s.head.unwrap()] + s.consumed + seq![s.tail.unwrap()]
    }
}

/// What was gathered before the head is sent: the first fragment, or the
/// knowledge that there is none.
pub open spec fn gathered(s: StreamView) -> bool {
    match s.pending {
        Some(f) => s.consumed == seq![f] && !s.exhausted,
        None => s.exhausted && s.consumed == Seq::<Seq<u8>>::empty(),
    }
}

/// What holds of every state that the machine reaches.
pub open spec fn inv(s: StreamView) -> bool {
    &&& s.head is Some <==> s.tail is Some
    &&& s.buffer == if s.mode == SsrMode::Async {
        flat(s.consumed)
    } else {
        Seq::<u8>::empty()
    }
    &&& s.failed ==> (s.phase == Phase::Abort || s.phase == Phase::Done) && s.released
    &&& !s.failed ==> match s.phase {
        Phase::First => {
            &&& !s.released && !s.committed && s.asked && !s.exhausted
            &&& s.sent == Seq::<Seq<u8>>::empty()
            &&& s.pending is None
            &&& s.mode == SsrMode::Async ==> s.head is None
            &&& s.mode != SsrMode::Async ==> s.consumed == Seq::<Seq<u8>>::empty()
            &&& s.mode == SsrMode::InOrder ==> s.head is Some
        },
        Phase::Frame => {
            &&& !s.released && !s.committed && s.head is None
            &&& s.sent == Seq::<Seq<u8>>::empty()
            &&& s.mode == SsrMode::Async ==> s.exhausted && s.asked && s.pending is None
            &&& s.mode == SsrMode::InOrder ==> !s.asked && !s.exhausted && s.pending is None
                && s.consumed == Seq::<Seq<u8>>::empty()
            &&& s.mode != SsrMode::Async && s.mode != SsrMode::InOrder ==> s.asked && gathered(s)
        },
        Phase::Commit => {
            &&& !s.committed && s.head is Some && s.asked
            &&& s.sent == Seq::<Seq<u8>>::empty()
            &&& if s.mode == SsrMode::Async {
                s.released && s.exhausted && s.pending is None
            } else {
                !s.released && gathered(s)
            }
        },
        Phase::Head => {
            &&& s.mode != SsrMode::Async
            &&& s.committed && !s.released && s.head is Some && s.asked
            &&& s.sent == seq![s.head.unwrap()]
            &&& gathered(s)
        },
        Phase::Body => {
            &&& s.mode != SsrMode::Async
            &&& s.committed && !s.released && s.head is Some && s.asked
            &&& !s.exhausted && s.pending is None
            &&& s.sent == seq![s.head.unwrap()] + s.consumed
        },
        Phase::Next => {
            &&& s.mode != SsrMode::Async
            &&& s.committed && !s.released && s.head is Some && s.asked
            &&& !s.exhausted && s.pending is None
            &&& s.sent == seq![s.head.unwrap()] + s.consumed
        },
        Phase::Release => {
            &&& s.released && s.head is Some && s.exhausted && s.asked && s.pending is None
            &&& if s.mode == SsrMode::Async {
                !s.committed && s.sent == Seq::<Seq<u8>>::empty()
            } else {
                s.committed && s.sent == seq![s.head.unwrap()] + s.consumed
            }
        },
        Phase::Tail => {
            &&& s.released && s.committed && s.head is Some && s.exhausted && s.pending is None
            &&& s.sent == framed(s)
        },
        Phase::Abort => false,
        Phase::Done => {
            &&& s.released && s.committed && s.head is Some && s.exhausted && s.pending is None
            &&& s.sent == framed(s)
        },
    }
}

/// The machine starts in a state that it can reach.
pub proof fn lemma_initial_inv(mode: SsrMode)
    ensures
        inv(initial(mode)),
{
    assert(flat(Seq::<Seq<u8>>::empty()) =~= Seq::<u8>::empty());
}

proof fn lemma_flat_push(fragments: Seq<Seq<u8>>, f: Seq<u8>)
    ensures
        flat(fragments.push(f)) == flat(fragments) + f,
{
    assert(fragments.push(f).drop_last() =~= fragments);
}

/// Every step leads from a state that the machine can reach to another one.
pub proof fn lemma_step_inv(s: StreamView, e: EventView)
    requires
        inv(s),
    ensures
        inv(step_spec(s, e).0),
{
    let next = step_spec(s, e).0;
    match e {
        EventView::Fragment(f) => {
            lemma_flat_push(s.consumed, f);
            assert(Seq::<Seq<u8>>::empty().push(f) =~= seq![f]);
            assert((seq![s.head.unwrap()] + s.consumed).push(f) =~= seq![s.head.unwrap()]
                + s.consumed.push(f));
        },
        _ => {},
    }
    if !s.failed && s.phase == Phase::Commit && e is Committed {
        if s.mode == SsrMode::Async {
            assert(next.sent =~= framed(next));
        } else {
            assert(next.sent =~= seq![s.head.unwrap()]);
        }
    }
    if !s.failed && s.phase == Phase::Head && e is Accepted {
        match s.pending {
            Some(f) => {
                assert(next.sent =~= seq![s.head.unwrap()] + next.consumed);
            },
            None => {
                assert(next.sent =~= seq![s.head.unwrap()] + next.consumed);
            },
        }
    }
    if !s.failed && s.phase == Phase::Release && e is Released && s.mode != SsrMode::Async {
        assert(next.sent =~= framed(next));
    }
}

/// A response that ends without a failure went out whole: the chunks handed
/// to the sink are the head, every fragment that the producer gave, in its
/// order, and the tail (for a page sent in one piece: their bytes in one
/// chunk); the status and headers were committed and the render context was
/// released.
pub proof fn lemma_complete_response(s: StreamView)
    requires
        inv(s),
        s.phase == Phase::Done,
        !s.failed,
    ensures
        s.sent == framed(s),
        s.committed,
        s.released,
        s.exhausted,
{
}

/// The head of a page that is rendered in order is computed before any
/// fragment is asked for.
pub proof fn lemma_in_order_head_first(s: StreamView, e: EventView)
    requires
        inv(s),
        s.mode == SsrMode::InOrder,
        step_spec(s, e).1 is NextFragment,
    ensures
        step_spec(s, e).0.head is Some,
        initial_action(SsrMode::InOrder) is BuildFrame,
{
}

/// In every other mode the head is computed only after the producer was
/// heard: after its first fragment, or after it said that it has none; for
/// a page that is sent in one piece, after its last fragment.
pub proof fn lemma_head_after_first(s: StreamView, e: EventView)
    requires
        inv(s),
        s.mode != SsrMode::InOrder,
        step_spec(s, e).1 is BuildFrame,
    ensures
        s.mode == SsrMode::Async ==> step_spec(s, e).0.exhausted,
        s.mode != SsrMode::Async ==> gathered(step_spec(s, e).0),
        !(initial_action(s.mode) is BuildFrame),
{
    if s.mode != SsrMode::Async && s.phase == Phase::First {
        match e {
            EventView::Fragment(f) => {
                assert(s.consumed.push(f) =~= seq![f]);
            },
            _ => {},
        }
    }
}

/// A chunk goes to the sink only after the status and headers were
/// committed, and each chunk that goes out is recorded after those before it.
pub proof fn lemma_committed_before_chunk(s: StreamView, e: EventView)
    requires
        inv(s),
    ensures
        match step_spec(s, e).1 {
            ActionView::Send(chunk) => step_spec(s, e).0.committed && step_spec(s, e).0.sent
                == s.sent.push(chunk),
            _ => step_spec(s, e).0.sent == s.sent,
        },
{
}

/// Once the sink refuses a chunk, or anything else goes wrong, no further
/// chunk is produced.
pub proof fn lemma_rejection_stops(s: StreamView, e: EventView)
    requires
        inv(s),
        (e is Rejected && s.phase != Phase::Done) || s.failed,
    ensures
        step_spec(s, e).0.failed,
        !(step_spec(s, e).1 is Send),
        step_spec(s, e).0.sent == s.sent,
{
}

/// The render context is released exactly once: its release is asked for
/// only while it is held, it stays released, and the response is closed only
/// after the release.
pub proof fn lemma_release_once(s: StreamView, e: EventView)
    requires
        inv(s),
    ensures
        step_spec(s, e).1 is Release <==> !s.released && step_spec(s, e).0.released,
        s.released ==> step_spec(s, e).0.released,
        step_spec(s, e).1 is Finish ==> step_spec(s, e).0.released,
        step_spec(s, e).1 is Finish <==> step_spec(s, e).0.phase == Phase::Done,
{
}

/// The state that the machine reaches from its start on a list of
/// outcomes, each the outcome of the work that was asked for before it.
pub open spec fn reached(mode: SsrMode, events: Seq<EventView>) -> StreamView
    decreases events.len(),
{
    if events.len() == 0 {
        initial(mode)
    } else {
        step_spec(reached(mode, events.drop_last()), events.last()).0
    }
}

/// The work that the machine asks for on a list of outcomes, in order: its
/// first work, then its answer to each outcome.
pub open spec fn asked(mode: SsrMode, events: Seq<EventView>) -> Seq<ActionView>
    decreases events.len(),
{
    if events.len() == 0 {
        seq![initial_action(mode)]
    } else {
        asked(mode, events.drop_last()).push(
            step_spec(reached(mode, events.drop_last()), events.last()).1,
        )
    }
}

/// The chunks that a list of work hands to the sink, in order.
pub open spec fn chunks_of(work: Seq<ActionView>) -> Seq<Seq<u8>>
    decreases work.len(),
{
    if work.len() == 0 {
        Seq::empty()
    } else {
        match work.last() {
            ActionView::Send(chunk) => chunks_of(work.drop_last()).push(chunk),
            _ => chunks_of(work.drop_last()),
        }
    }
}

/// How often a list of work releases the render context.
pub open spec fn releases_of(work: Seq<ActionView>) -> nat
    decreases work.len(),
{
    if work.len() == 0 {
        0
    } else if work.last() is Release {
        releases_of(work.drop_last()) + 1
    } else {
        releases_of(work.drop_last())
    }
}

/// The fragments that a list of outcomes holds, in order.
pub open spec fn fragments_of(events: Seq<EventView>) -> Seq<Seq<u8>>
    decreases events.len(),
{
    if events.len() == 0 {
        Seq::empty()
    } else {
        match events.last() {
            EventView::Fragment(f) => fragments_of(events.drop_last()).push(f),
            _ => fragments_of(events.drop_last()),
        }
    }
}

/// Whatever the outcomes are, the machine stays in states that it can
/// reach; the chunks that it hands to the sink are those that its state
/// records; and it asks for the release of the render context once if its
/// state says so, and never otherwise.
pub proof fn lemma_run(mode: SsrMode, events: Seq<EventView>)
    ensures
        inv(reached(mode, events)),
        chunks_of(asked(mode, events)) == reached(mode, events).sent,
        releases_of(asked(mode, events)) == if reached(mode, events).released {
            1nat
        } else {
            0nat
        },
    decreases events.len(),
{
    if events.len() == 0 {
        lemma_initial_inv(mode);
        let first = seq![initial_action(mode)];
        assert(first.drop_last() =~= Seq::<ActionView>::empty());
        assert(chunks_of(first.drop_last()) =~= Seq::<Seq<u8>>::empty());
        assert(releases_of(first.drop_last()) == 0);
        assert(chunks_of(first) =~= Seq::<Seq<u8>>::empty());
    } else {
        let before = events.drop_last();
        let s = reached(mode, before);
        let e = events.last();
        lemma_run(mode, before);
        lemma_step_inv(s, e);
        lemma_committed_before_chunk(s, e);
        lemma_release_once(s, e);
        let work = asked(mode, before);
        let a = step_spec(s, e).1;
        assert(work.push(a).drop_last() =~= work);
        assert(work.push(a).last() == a);
    }
}

/// A page that ends without a failure went out whole, whatever the order
/// of the outcomes was: the chunks handed to the sink are the head, every
/// fragment that was taken from the producer, in its order, and the tail
/// (for a page sent in one piece, their bytes in one chunk), and the render
/// context was released exactly once.
pub proof fn lemma_page_is_framed(mode: SsrMode, events: Seq<EventView>)
    requires
        reached(mode, events).phase == Phase::Done,
        !reached(mode, events).failed,
    ensures
        chunks_of(asked(mode, events)) == framed(reached(mode, events)),
        releases_of(asked(mode, events)) == 1,
{
    lemma_run(mode, events);
}

/// However a response ends, the render context was released exactly once
/// when it is over, and at most once before.
pub proof fn lemma_released_exactly_once(mode: SsrMode, events: Seq<EventView>)
    ensures
        releases_of(asked(mode, events)) <= 1,
        reached(mode, events).phase == Phase::Done ==> releases_of(asked(mode, events)) == 1,
{
    lemma_run(mode, events);
}

/// A failure stays: once the response was cut short, every later state
/// says so.
pub proof fn lemma_failure_stays(mode: SsrMode, events: Seq<EventView>, k: int)
    requires
        0 <= k <= events.len(),
        reached(mode, events.take(k)).failed,
    ensures
        reached(mode, events).failed,
    decreases events.len() - k,
{
    if k == events.len() {
        assert(events.take(k) =~= events);
    } else {
        let longer = events.take(k + 1);
        assert(longer.drop_last() =~= events.take(k));
        assert(longer.last() == events[k]);
        lemma_run(mode, events.take(k));
        lemma_rejection_stops(reached(mode, events.take(k)), events[k]);
        lemma_failure_stays(mode, events, k + 1);
    }
}

/// In a run that did not fail and was not over before its last outcome,
/// the fragments that the state records are exactly those that the
/// producer gave, in their order.
pub proof fn lemma_consumed_is_produced(mode: SsrMode, events: Seq<EventView>)
    requires
        !reached(mode, events).failed,
        forall|k: int|
            0 <= k < events.len() ==> (#[trigger] reached(mode, events.take(k))).phase
                != Phase::Done,
    ensures
        reached(mode, events).consumed == fragments_of(events),
    decreases events.len(),
{
    if events.len() > 0 {
        let before = events.drop_last();
        let n = events.len() - 1;
        assert(before =~= events.take(n));
        assert(reached(mode, events.take(n)).phase != Phase::Done);
        if reached(mode, before).failed {
            lemma_failure_stays(mode, events, n);
        }
        assert forall|k: int| 0 <= k < before.len() implies (#[trigger] reached(
            mode,
            before.take(k),
        )).phase != Phase::Done by {
            assert(before.take(k) =~= events.take(k));
        }
        lemma_consumed_is_produced(mode, before);
        lemma_run(mode, before);
    }
}

/// Adds the bytes of `src` to `dst`.
pub fn append_bytes(dst: &mut Vec<u8>, src: &Vec<u8>)
    ensures
        final(dst)@ == old(dst)@ + src@,
{
    let n: usize = src.len();
    let mut i: usize = 0;
    proof {
        assert(dst@ =~= old(dst)@ + src@.take(0));
    }
    while i < n
        invariant
            i <= n,
            n == src@.len(),
            dst@ == old(dst)@ + src@.take(i as int),
        decreases n - i,
    {
        dst.push(src[i]);
        proof {
            assert(dst@ =~= old(dst)@ + src@.take(i as int + 1));
        }
        i = i + 1;
    }
    proof {
        assert(src@.take(n as int) =~= src@);
    }
}

/// The view of bytes that may be missing.
pub open spec fn view_bytes(v: Option<Vec<u8>>) -> Option<Seq<u8>> {
    match v {
        Some(b) => Some(b@),
        None => None,
    }
}

/// The stream of one page.
pub struct PageStream {
    mode: SsrMode,
    phase: Phase,
    head: Option<Vec<u8>>,
    tail: Option<Vec<u8>>,
    pending: Option<Vec<u8>>,
    asked: bool,
    exhausted: bool,
    committed: bool,
    buffer: Vec<u8>,
    released: bool,
    failed: bool,
    sent: Ghost<Seq<Seq<u8>>>,
    consumed: Ghost<Seq<Seq<u8>>>,
}

impl View for PageStream {
    type V = StreamView;

    closed spec fn view(&self) -> StreamView {
        StreamView {
            mode: self.mode,
            phase: self.phase,
            head: view_bytes(self.head),
            tail: view_bytes(self.tail),
            pending: view_bytes(self.pending),
            asked: self.asked,
            exhausted: self.exhausted,
            committed: self.committed,
            buffer: self.buffer@,
            released: self.released,
            failed: self.failed,
            sent: self.sent@,
            consumed: self.consumed@,
        }
    }
}

impl PageStream {
    /// Starts the stream of a page: the state, and the first work to do.
    pub fn start(mode: SsrMode) -> (r: (PageStream, StreamAction))
        ensures
            r.0@ == initial(mode),
            r.1@ == initial_action(mode),
    {
        let in_order = match mode {
            SsrMode::InOrder => true,
            _ => false,
        };
        let stream = PageStream {
            mode,
            phase: if in_order {
                Phase::Frame
            } else {
                Phase::First
            },
            head: None,
            tail: None,
            pending: None,
            asked: !in_order,
            exhausted: false,
            committed: false,
            buffer: Vec::new(),
            released: false,
            failed: false,
            sent: Ghost(Seq::empty()),
            consumed: Ghost(Seq::empty()),
        };
        if in_order {
            (stream, StreamAction::BuildFrame)
        } else {
            (stream, StreamAction::NextFragment)
        }
    }

    /// What the machine waits for.
    pub fn phase(&self) -> (r: Phase)
        ensures
            r == self@.phase,
    {
        self.phase
    }

    /// Tells whether the response is over.
    pub fn is_done(&self) -> (r: bool)
        ensures
            r == (self@.phase == Phase::Done),
    {
        match self.phase {
            Phase::Done => true,
            _ => false,
        }
    }

    /// Tells whether the response was cut short.
    pub fn has_failed(&self) -> (r: bool)
        ensures
            r == self@.failed,
    {
        self.failed
    }

    /// Tells whether the release of the render context was asked for.
    pub fn is_released(&self) -> (r: bool)
        ensures
            r == self@.released,
    {
        self.released
    }

    fn is_async(&self) -> (r: bool)
        ensures
            r == (self@.mode == SsrMode::Async),
    {
        match self.mode {
            SsrMode::Async => true,
            _ => false,
        }
    }

    fn fail(self) -> (r: (PageStream, StreamAction))
        ensures
            r.0@ == fail(self@).0,
            r.1@ == fail(self@).1,
    {
        let mut next = self;
        next.failed = true;
        if next.released {
            next.phase = Phase::Done;
            (next, StreamAction::Finish)
        } else {
            next.phase = Phase::Abort;
            next.released = true;
            (next, StreamAction::Release)
        }
    }

    fn after_gather(self) -> (r: (PageStream, StreamAction))
        ensures
            r.0@ == after_gather(self@).0,
            r.1@ == after_gather(self@).1,
    {
        let mut next = self;
        if next.head.is_none() {
            next.phase = Phase::Frame;
            (next, StreamAction::BuildFrame)
        } else if !next.asked {
            next.phase = Phase::First;
            next.asked = true;
            (next, StreamAction::NextFragment)
        } else {
            next.phase = Phase::Commit;
            (next, StreamAction::Commit)
        }
    }

    /// Takes the outcome of the work that was asked for last and answers
    /// with the next work to do. An outcome that does not belong to that
    /// work counts as a failure.
    pub fn step(self, event: StreamEvent) -> (r: (PageStream, StreamAction))
        ensures
            r.0@ == step_spec(self@, event@).0,
            r.1@ == step_spec(self@, event@).1,
    {
        let mut next = self;
        let is_async = next.is_async();
        match next.phase {
            Phase::First => match event {
                StreamEvent::Fragment(f) => {
                    next.consumed = Ghost(next.consumed@.push(f@));
                    if is_async {
                        append_bytes(&mut next.buffer, &f);
                        (next, StreamAction::NextFragment)
                    } else {
                        next.pending = Some(f);
                        next.after_gather()
                    }
                },
                StreamEvent::Exhausted => {
                    next.exhausted = true;
                    if is_async {
                        next.phase = Phase::Frame;
                        (next, StreamAction::BuildFrame)
                    } else {
                        next.after_gather()
                    }
                },
                _ => next.fail(),
            },
            Phase::Frame => match event {
                StreamEvent::Frame(h, t) => {
                    next.head = Some(h);
                    next.tail = Some(t);
                    if is_async {
                        next.phase = Phase::Release;
                        next.released = true;
                        (next, StreamAction::Release)
                    } else {
                        next.after_gather()
                    }
                },
                _ => next.fail(),
            },
            Phase::Commit => match event {
                StreamEvent::Committed => {
                    if next.head.is_none() || next.tail.is_none() {
                        return next.fail();
                    }
                    let mut chunk = clone_bytes(next.head.as_ref().unwrap());
                    if is_async {
                        append_bytes(&mut chunk, &next.buffer);
                        append_bytes(&mut chunk, next.tail.as_ref().unwrap());
                        next.phase = Phase::Tail;
                    } else {
                        next.phase = Phase::Head;
                    }
                    next.committed = true;
                    next.sent = Ghost(next.sent@.push(chunk@));
                    (next, StreamAction::Send(chunk))
                },
                _ => next.fail(),
            },
            Phase::Head => match event {
                StreamEvent::Accepted => {
                    let held = next.pending.take();
                    match held {
                        Some(f) => {
                            next.phase = Phase::Body;
                            next.sent = Ghost(next.sent@.push(f@));
                            (next, StreamAction::Send(f))
                        },
                        None => {
                            if next.exhausted {
                                next.phase = Phase::Release;
                                next.released = true;
                                (next, StreamAction::Release)
                            } else {
                                next.phase = Phase::Next;
                                (next, StreamAction::NextFragment)
                            }
                        },
                    }
                },
                _ => next.fail(),
            },
            Phase::Body => match event {
                StreamEvent::Accepted => {
                    next.phase = Phase::Next;
                    (next, StreamAction::NextFragment)
                },
                _ => next.fail(),
            },
            Phase::Next => match event {
                StreamEvent::Fragment(f) => {
                    next.phase = Phase::Body;
                    next.consumed = Ghost(next.consumed@.push(f@));
                    next.sent = Ghost(next.sent@.push(f@));
                    (next, StreamAction::Send(f))
                },
                StreamEvent::Exhausted => {
                    next.phase = Phase::Release;
                    next.exhausted = true;
                    next.released = true;
                    (next, StreamAction::Release)
                },
                _ => next.fail(),
            },
            Phase::Release => match event {
                StreamEvent::Released => {
                    if next.tail.is_none() {
                        return next.fail();
                    }
                    if is_async {
                        next.phase = Phase::Commit;
                        (next, StreamAction::Commit)
                    } else {
                        let chunk = clone_bytes(next.tail.as_ref().unwrap());
                        next.phase = Phase::Tail;
                        next.sent = Ghost(next.sent@.push(chunk@));
                        (next, StreamAction::Send(chunk))
                    }
                },
                _ => next.fail(),
            },
            Phase::Tail => match event {
                StreamEvent::Accepted => {
                    next.phase = Phase::Done;
                    (next, StreamAction::Finish)
                },
                _ => next.fail(),
            },
            Phase::Abort => {
                next.phase = Phase::Done;
                (next, StreamAction::Finish)
            },
            Phase::Done => (next, StreamAction::Finish),
        }
    }
}


/// What the stream of a remote call's response waits for.
#[derive(Clone, Copy, Debug, PartialEq, Eq, Structural)]
pub enum RpcPhase {
    /// The status and headers being handed to the host.
    Commit,
    /// The whole body being taken by the sink.
    Whole,
    /// The next chunk of a streamed body.
    Next,
    /// A chunk being taken by the sink.
    Chunk,
    /// Nothing: the response is over.
    Done,
}

/// The state of the stream of a remote call's response, as the contracts
/// see it.
pub struct RpcStreamView {
    pub phase: RpcPhase,
    /// The body that the response has, whole or as a stream.
    pub body: BodyView,
    /// The response was cut short.
    pub failed: bool,
    /// The chunks handed to the sink so far, in order.
    pub sent: Seq<Seq<u8>>,
    /// The chunks that the body's stream gave so far, in order.
    pub consumed: Seq<Seq<u8>>,
}

/// The state in which the stream of a remote call's response starts; its
/// first work is to commit the status and headers.
pub open spec fn rpc_initial(body: BodyView) -> RpcStreamView {
    RpcStreamView {
        phase: RpcPhase::Commit,
        body,
        failed: false,
        sent: Seq::empty(),
        consumed: Seq::empty(),
    }
}

/// The step after something went wrong: the response is closed as it is.
pub open spec fn rpc_fail(s: RpcStreamView) -> (RpcStreamView, ActionView) {
    (RpcStreamView { phase: RpcPhase::Done, failed: true, ..s }, ActionView::Finish)
}

/// One step of the stream of a remote call's response. A body that is all
/// there goes out as one chunk. Of a streamed body each chunk goes out as
/// soon as it comes, and the response ends where the stream ends or breaks.
pub open spec fn rpc_step_spec(s: RpcStreamView, e: EventView) -> (RpcStreamView, ActionView) {
    match s.phase {
        RpcPhase::Commit => match e {
            EventView::Committed => match s.body {
                BodyView::Plain(bytes) => (
                    RpcStreamView { phase: RpcPhase::Whole, sent: s.sent.push(bytes), ..s },
                    ActionView::Send(bytes),
                ),
                BodyView::Streaming => (
                    RpcStreamView { phase: RpcPhase::Next, ..s },
                    ActionView::NextFragment,
                ),
            },
            _ => rpc_fail(s),
        },
        RpcPhase::Whole => match e {
            EventView::Accepted => (RpcStreamView { phase: RpcPhase::Done, ..s }, ActionView::Finish),
            _ => rpc_fail(s),
        },
        RpcPhase::Next => match e {
            EventView::Fragment(c) => (
                RpcStreamView {
                    phase: RpcPhase::Chunk,
                    consumed: s.consumed.push(c),
                    sent: s.sent.push(c),
                    ..s
                },
                ActionView::Send(c),
            ),
            EventView::Exhausted => (
                RpcStreamView { phase: RpcPhase::Done, ..s },
                ActionView::Finish,
            ),
            _ => rpc_fail(s),
        },
        RpcPhase::Chunk => match e {
            EventView::Accepted => (
                RpcStreamView { phase: RpcPhase::Next, ..s },
                ActionView::NextFragment,
            ),
            _ => rpc_fail(s),
        },
        RpcPhase::Done => (s, ActionView::Finish),
    }
}

/// What holds of every state that the stream of a remote call's response
/// reaches.
pub open spec fn rpc_inv(s: RpcStreamView) -> bool {
    &&& s.failed ==> s.phase == RpcPhase::Done
    &&& match s.body {
        BodyView::Plain(bytes) => {
            &&& s.consumed == Seq::<Seq<u8>>::empty()
            &&& match s.phase {
                RpcPhase::Commit => s.sent == Seq::<Seq<u8>>::empty(),
                RpcPhase::Whole => s.sent == seq![bytes],
                RpcPhase::Done => if s.failed {
                    s.sent == Seq::<Seq<u8>>::empty() || s.sent == seq![bytes]
                } else {
                    s.sent == seq![bytes]
                },
                _ => false,
            }
        },
        BodyView::Streaming => s.sent == s.consumed && s.phase != RpcPhase::Whole,
    }
}

/// The stream of a remote call's response starts in a state that it can
/// reach, and every step leads from such a state to another one.
pub proof fn lemma_rpc_step_inv(s: RpcStreamView, e: EventView)
    requires
        rpc_inv(s),
    ensures
        rpc_inv(step_of_rpc(s, e)),
        rpc_inv(rpc_initial(s.body)),
{
    if s.phase == RpcPhase::Commit && e is Committed && s.body is Plain {
        assert(s.sent.push(s.body->Plain_0) =~= seq![s.body->Plain_0]);
    }
}

/// The state after one step.
pub open spec fn step_of_rpc(s: RpcStreamView, e: EventView) -> RpcStreamView {
    rpc_step_spec(s, e).0
}

/// Of a streamed body the chunks that went to the sink are exactly the
/// chunks that the stream gave, in their order: none is held back, and none
/// is added where the stream ends or breaks. A body that is all there goes
/// out as one chunk.
pub proof fn lemma_rpc_forwarding(s: RpcStreamView)
    requires
        rpc_inv(s),
    ensures
        s.body is Streaming ==> s.sent == s.consumed,
        s.phase == RpcPhase::Done && !s.failed ==> match s.body {
            BodyView::Plain(bytes) => s.sent == seq![bytes],
            BodyView::Streaming => s.sent == s.consumed,
        },
{
}

/// Once the stream breaks or the sink refuses a chunk, the response is
/// closed and no further chunk is produced.
pub proof fn lemma_rpc_stops(s: RpcStreamView, e: EventView)
    requires
        rpc_inv(s),
        e is Broken || e is Rejected,
    ensures
        rpc_step_spec(s, e).1 is Finish,
        rpc_step_spec(s, e).0.phase == RpcPhase::Done,
        rpc_step_spec(s, e).0.sent == s.sent,
{
}

/// The state that the stream of a remote call's response reaches from its
/// start on a list of outcomes.
pub open spec fn rpc_reached(body: BodyView, events: Seq<EventView>) -> RpcStreamView
    decreases events.len(),
{
    if events.len() == 0 {
        rpc_initial(body)
    } else {
        rpc_step_spec(rpc_reached(body, events.drop_last()), events.last()).0
    }
}

/// The work that the stream of a remote call's response asks for on a list
/// of outcomes, in order: its first work, then its answer to each outcome.
pub open spec fn rpc_asked(body: BodyView, events: Seq<EventView>) -> Seq<ActionView>
    decreases events.len(),
{
    if events.len() == 0 {
        seq![ActionView::Commit]
    } else {
        rpc_asked(body, events.drop_last()).push(
            rpc_step_spec(rpc_reached(body, events.drop_last()), events.last()).1,
        )
    }
}

/// Whatever the outcomes are, the chunks handed to the sink are those that
/// the state records; of a streamed body they are exactly the chunks that
/// were taken from the body's stream, in their order.
pub proof fn lemma_rpc_run(body: BodyView, events: Seq<EventView>)
    ensures
        rpc_inv(rpc_reached(body, events)),
        rpc_reached(body, events).body == body,
        chunks_of(rpc_asked(body, events)) == rpc_reached(body, events).sent,
        body is Streaming ==> chunks_of(rpc_asked(body, events)) == rpc_reached(
            body,
            events,
        ).consumed,
    decreases events.len(),
{
    if events.len() == 0 {
        let first = seq![ActionView::Commit];
        assert(first.drop_last() =~= Seq::<ActionView>::empty());
        assert(chunks_of(first.drop_last()) =~= Seq::<Seq<u8>>::empty());
        assert(chunks_of(first) =~= Seq::<Seq<u8>>::empty());
    } else {
        let before = events.drop_last();
        let s = rpc_reached(body, before);
        let e = events.last();
        lemma_rpc_run(body, before);
        lemma_rpc_step_inv(s, e);
        let work = rpc_asked(body, before);
        let a = rpc_step_spec(s, e).1;
        assert(work.push(a).drop_last() =~= work);
        assert(work.push(a).last() == a);
    }
}

/// The stream of the response of one remote call.
pub struct RpcStream {
    phase: RpcPhase,
    body: SpinBody,
    failed: bool,
    sent: Ghost<Seq<Seq<u8>>>,
    consumed: Ghost<Seq<Seq<u8>>>,
}

impl View for RpcStream {
    type V = RpcStreamView;

    closed spec fn view(&self) -> RpcStreamView {
        RpcStreamView {
            phase: self.phase,
            body: self.body@,
            failed: self.failed,
            sent: self.sent@,
            consumed: self.consumed@,
        }
    }
}

impl RpcStream {
    /// Starts the stream of a response with the given body: the state, and
    /// the first work to do, which is to commit the status and headers.
    pub fn start(body: SpinBody) -> (r: (RpcStream, StreamAction))
        ensures
            r.0@ == rpc_initial(body@),
            r.1@ == ActionView::Commit,
    {
        (
            RpcStream {
                phase: RpcPhase::Commit,
                body,
                failed: false,
                sent: Ghost(Seq::empty()),
                consumed: Ghost(Seq::empty()),
            },
            StreamAction::Commit,
        )
    }

    /// Tells whether the response is over.
    pub fn is_done(&self) -> (r: bool)
        ensures
            r == (self@.phase == RpcPhase::Done),
    {
        match self.phase {
            RpcPhase::Done => true,
            _ => false,
        }
    }

    /// Tells whether the response was cut short.
    pub fn has_failed(&self) -> (r: bool)
        ensures
            r == self@.failed,
    {
        self.failed
    }

    fn fail(self) -> (r: (RpcStream, StreamAction))
        ensures
            r.0@ == rpc_fail(self@).0,
            r.1@ == rpc_fail(self@).1,
    {
        let mut next = self;
        next.phase = RpcPhase::Done;
        next.failed = true;
        (next, StreamAction::Finish)
    }

    /// Takes the outcome of the work that was asked for last and answers
    /// with the next work to do. An outcome that does not belong to that
    /// work counts as a failure.
    pub fn step(self, event: StreamEvent) -> (r: (RpcStream, StreamAction))
        ensures
            r.0@ == rpc_step_spec(self@, event@).0,
            r.1@ == rpc_step_spec(self@, event@).1,
    {
        let mut next = self;
        match next.phase {
            RpcPhase::Commit => match event {
                StreamEvent::Committed => match &next.body {
                    SpinBody::Plain(bytes) => {
                        let chunk = clone_bytes(bytes);
                        next.phase = RpcPhase::Whole;
                        next.sent = Ghost(next.sent@.push(chunk@));
                        (next, StreamAction::Send(chunk))
                    },
                    SpinBody::Streaming => {
                        next.phase = RpcPhase::Next;
                        (next, StreamAction::NextFragment)
                    },
                },
                _ => next.fail(),
            },
            RpcPhase::Whole => match event {
                StreamEvent::Accepted => {
                    next.phase = RpcPhase::Done;
                    (next, StreamAction::Finish)
                },
                _ => next.fail(),
            },
            RpcPhase::Next => match event {
                StreamEvent::Fragment(c) => {
                    next.phase = RpcPhase::Chunk;
                    next.consumed = Ghost(next.consumed@.push(c@));
                    next.sent = Ghost(next.sent@.push(c@));
                    (next, StreamAction::Send(c))
                },
                StreamEvent::Exhausted => {
                    next.phase = RpcPhase::Done;
                    (next, StreamAction::Finish)
                },
                _ => next.fail(),
            },
            RpcPhase::Chunk => match event {
                StreamEvent::Accepted => {
                    next.phase = RpcPhase::Next;
                    (next, StreamAction::NextFragment)
                },
                _ => next.fail(),
            },
            RpcPhase::Done => (next, StreamAction::Finish),
        }
    }
}

} // verus!
