//! Buffered reading from a source that blocks.
//!
//! The blocking read runs elsewhere, one chunk at a time. This module decides
//! when a chunk is asked for, keeps what has arrived, and hands it out.
use crate::pipe::{append_bytes, drain_into};
use std::collections::VecDeque;
use vstd::prelude::*;

verus! {

/// The size of one chunk, and the fill level from which no more is asked for.
pub const READ_CHUNK: usize = 65536;

/// What has to be done about the source before the next poll.
#[derive(Clone, Copy, Debug, PartialEq, Eq, Structural)]
pub enum FetchAction {
    /// Nothing: the buffer is full enough, or the source has ended.
    Skip,
    /// Start reading a chunk of at most so many bytes, then look whether it has
    /// arrived.
    Start(usize),
    /// Look whether the chunk that is being read has arrived.
    Await,
}

/// What came of a `FetchAction`.
#[derive(Debug)]
pub enum FetchEvent {
    /// Nothing was to be done.
    Skipped,
    /// The chunk has not arrived yet.
    Pending,
    /// The chunk has arrived. An empty one is the end of the source.
    Data(Vec<u8>),
    /// The read failed.
    Failed,
}

/// The state of a buffered reader.
#[verifier::ext_equal]
pub struct ReaderModel<W> {
    /// The bytes that have arrived and were not handed out yet.
    pub queue: Seq<u8>,
    /// Whether the source has ended.
    pub fin: bool,
    /// Who is woken when the chunk that is being read arrives, if one is being
    /// read.
    pub waker: Option<W>,
}

/// Whether a reader in this state wants the next chunk.
pub open spec fn wants_fetch<W>(m: ReaderModel<W>) -> bool {
    !m.fin && m.queue.len() < READ_CHUNK
}

/// What a reader in this state asks for: a chunk when it wants one, and the
/// one that is being read rather than another.
pub open spec fn fetch_action<W>(m: ReaderModel<W>) -> FetchAction {
    if !wants_fetch(m) {
        FetchAction::Skip
    } else if m.waker is Some {
        FetchAction::Await
    } else {
        FetchAction::Start(READ_CHUNK)
    }
}

/// Whether an event can come of the action that a reader in this state asks
/// for.
pub open spec fn event_fits<W>(m: ReaderModel<W>, event: FetchEvent) -> bool {
    wants_fetch(m) <==> !(event is Skipped)
}

/// The queue after an event: data joins it.
pub open spec fn queue_with<W>(m: ReaderModel<W>, event: FetchEvent) -> Seq<u8> {
    match event {
        FetchEvent::Data(data) => m.queue + data@,
        _ => m.queue,
    }
}

/// Whether the source has ended after an event: an empty chunk or a failure
/// ends it.
pub open spec fn fin_with<W>(m: ReaderModel<W>, event: FetchEvent) -> bool {
    match event {
        FetchEvent::Data(data) => m.fin || data@.len() == 0,
        FetchEvent::Failed => true,
        _ => m.fin,
    }
}

/// Who is woken when the chunk that is being read arrives, after a poll by
/// `waker` met an event: who looks for a chunk that has not arrived is the one.
pub open spec fn waker_with<W>(m: ReaderModel<W>, event: FetchEvent, waker: W) -> Option<W> {
    match event {
        FetchEvent::Skipped => m.waker,
        FetchEvent::Pending => Some(waker),
        _ => None,
    }
}

/// Who is woken by the arrival that an event tells of.
pub open spec fn woken<W>(m: ReaderModel<W>, event: FetchEvent) -> Option<W> {
    match event {
        FetchEvent::Data(_) | FetchEvent::Failed => m.waker,
        _ => None,
    }
}

/// How many bytes a poll hands out when `room` bytes fit.
pub open spec fn polled_count<W>(m: ReaderModel<W>, event: FetchEvent, room: nat) -> nat {
    crate::pipe::transfer(queue_with(m, event).len(), room)
}

/// What a poll returns: the number of bytes handed out, or `None` while there
/// are none and the source has not ended.
pub open spec fn poll_result<W>(
    m: ReaderModel<W>,
    event: FetchEvent,
    room: nat,
) -> Option<usize> {
    let count = polled_count(m, event, room);
    if !fin_with(m, event) && count == 0 {
        None
    } else {
        Some(count as usize)
    }
}

/// The state after a poll by `waker`.
pub open spec fn after_poll<W>(
    m: ReaderModel<W>,
    event: FetchEvent,
    waker: W,
    room: nat,
) -> ReaderModel<W> {
    ReaderModel {
        queue: queue_with(m, event).skip(polled_count(m, event, room) as int),
        fin: fin_with(m, event),
        waker: waker_with(m, event, waker),
    }
}

/// A buffered reader over a source that is read chunk by chunk.
pub struct BufferBlockingRead<W> {
    buf: VecDeque<u8>,
    buf_fin: bool,
    waker: Option<W>,
}

impl<W> View for BufferBlockingRead<W> {
    type V = ReaderModel<W>;

    closed spec fn view(&self) -> ReaderModel<W> {
        ReaderModel { queue: self.buf@, fin: self.buf_fin, waker: self.waker }
    }
}

impl<W> BufferBlockingRead<W> {
    /// A reader that has read nothing yet.
    pub fn new() -> (reader: BufferBlockingRead<W>)
        ensures
            reader@ == (ReaderModel { queue: Seq::empty(), fin: false, waker: None::<W> }),
            reader_inv(reader@),
    {
        let reader = BufferBlockingRead { buf: VecDeque::new(), buf_fin: false, waker: None };
        assert(reader@.queue =~= Seq::<u8>::empty());
        reader
    }

    /// What has to be done about the source before the next poll.
    pub fn next_fetch(&self) -> (action: FetchAction)
        ensures
            action == fetch_action(self@),
    {
        if self.buf_fin || self.buf.len() >= READ_CHUNK {
            FetchAction::Skip
        } else if self.waker.is_some() {
            FetchAction::Await
        } else {
            FetchAction::Start(READ_CHUNK)
        }
    }

    /// Who is woken when the chunk that is being read arrives.
    pub fn waiter(&self) -> (waiter: Option<&W>)
        ensures
            waiter == match self@.waker {
                Some(waker) => Some(&waker),
                None => None,
            },
    {
        self.waker.as_ref()
    }

    /// Takes in what came of the last `next_fetch`, then moves buffered bytes
    /// to the start of `buf`. `waker` is who polls.
    ///
    /// Returns how many bytes were moved, zero of them at the end of the
    /// source, or `None` when there is nothing to hand out yet.
    pub fn poll_read(&mut self, event: &FetchEvent, waker: W, buf: &mut [u8]) -> (read: Option<
        usize,
    >)
        requires
            event_fits(old(self)@, *event),
        ensures
            read == poll_result(old(self)@, *event, old(buf)@.len()),
            final(self)@ == after_poll(old(self)@, *event, waker, old(buf)@.len()),
            final(buf)@ == crate::pipe::filled(
                queue_with(old(self)@, *event),
                old(buf)@,
                polled_count(old(self)@, *event, old(buf)@.len()),
            ),
    {
        match event {
            FetchEvent::Skipped => {},
            FetchEvent::Pending => {
                self.waker = Some(waker);
            },
            FetchEvent::Data(data) => {
                self.waker = None;
                if data.len() == 0 {
                    self.buf_fin = true;
                }
                append_bytes(&mut self.buf, data.as_slice());
            },
            FetchEvent::Failed => {
                self.waker = None;
                self.buf_fin = true;
            },
        }
        assert(self@.queue =~= queue_with(old(self)@, *event));
        let size: usize = drain_into(&mut self.buf, buf);
        if !self.buf_fin && size == 0 {
            None
        } else {
            Some(size)
        }
    }
}

/// One poll hands out bytes in the order in which they arrived and loses none:
/// what it hands out, followed by what stays queued, is what was queued before
/// followed by what arrived.
pub proof fn law_poll_conserves_bytes<W>(
    m: ReaderModel<W>,
    event: FetchEvent,
    waker: W,
    room: nat,
)
    ensures
        handed_out(m, event, room) + after_poll(m, event, waker, room).queue == m.queue + arrived(
            event,
        ),
        handed_out(m, event, room).len() == polled_count(m, event, room) <= room,
        poll_result(m, event, room) is None ==> polled_count(m, event, room) == 0,
{
    let queue = queue_with(m, event);
    let count = polled_count(m, event, room) as int;
    assert(queue.take(count) + queue.skip(count) =~= queue);
    assert(queue =~= m.queue + arrived(event));
}

/// The bytes that an event brings.
pub open spec fn arrived(event: FetchEvent) -> Seq<u8> {
    match event {
        FetchEvent::Data(data) => data@,
        _ => Seq::empty(),
    }
}

/// The bytes that a poll hands out.
pub open spec fn handed_out<W>(m: ReaderModel<W>, event: FetchEvent, room: nat) -> Seq<u8> {
    queue_with(m, event).take(polled_count(m, event, room) as int)
}

/// The state after a run of polls, each with the event that preceded it, who
/// polled, and the room that it had.
pub open spec fn after_polls<W>(
    m: ReaderModel<W>,
    polls: Seq<(FetchEvent, W, nat)>,
) -> ReaderModel<W>
    decreases polls.len(),
{
    if polls.len() == 0 {
        m
    } else {
        let before = after_polls(m, polls.drop_last());
        after_poll(before, polls.last().0, polls.last().1, polls.last().2)
    }
}

/// All bytes that a run of polls hands out.
pub open spec fn all_handed_out<W>(
    m: ReaderModel<W>,
    polls: Seq<(FetchEvent, W, nat)>,
) -> Seq<u8>
    decreases polls.len(),
{
    if polls.len() == 0 {
        Seq::empty()
    } else {
        let before = after_polls(m, polls.drop_last());
        all_handed_out(m, polls.drop_last()) + handed_out(before, polls.last().0, polls.last().2)
    }
}

/// All bytes that arrive in a run of polls.
pub open spec fn all_arrived<W>(polls: Seq<(FetchEvent, W, nat)>) -> Seq<u8>
    decreases polls.len(),
{
    if polls.len() == 0 {
        Seq::empty()
    } else {
        all_arrived(polls.drop_last()) + arrived(polls.last().0)
    }
}

/// Over any run of polls, whatever room each had, the bytes handed out are the
/// bytes that arrived, in order, but for those that are still queued.
pub proof fn law_stream_is_faithful<W>(m: ReaderModel<W>, polls: Seq<(FetchEvent, W, nat)>)
    ensures
        all_handed_out(m, polls) + after_polls(m, polls).queue == m.queue + all_arrived(polls),
    decreases polls.len(),
{
    if polls.len() == 0 {
        assert(all_handed_out(m, polls) + after_polls(m, polls).queue =~= m.queue + all_arrived(
            polls,
        ));
    } else {
        let front = polls.drop_last();
        let (event, waker, room) = polls.last();
        let before = after_polls(m, front);
        law_stream_is_faithful(m, front);
        law_poll_conserves_bytes(before, event, waker, room);
        assert(all_handed_out(m, polls) + after_polls(m, polls).queue =~= all_handed_out(m, front)
            + (handed_out(before, event, room) + after_poll(before, event, waker, room).queue));
        assert(all_handed_out(m, front) + (before.queue + arrived(event)) =~= (all_handed_out(
            m,
            front,
        ) + before.queue) + arrived(event));
        assert((m.queue + all_arrived(front)) + arrived(event) =~= m.queue + all_arrived(polls));
    }
}

/// A source that has ended stays ended: no more is asked of it, and a poll
/// with room returns zero once the queue is empty.
pub proof fn law_end_is_final<W>(m: ReaderModel<W>, event: FetchEvent, waker: W, room: nat)
    requires
        m.fin,
        event_fits(m, event),
    ensures
        !wants_fetch(m),
        after_poll(m, event, waker, room).fin,
        poll_result(m, event, room) is Some,
        m.queue.len() == 0 ==> poll_result(m, event, room) == Some(0usize),
        m.queue.len() == 0 ==> after_poll(m, event, waker, room) == m,
{
    if m.queue.len() == 0 {
        assert(after_poll(m, event, waker, room) =~= m);
    }
}

/// Zero is the end of the source and nothing else: a poll with room returns
/// it only when the source has ended and everything was handed out.
pub proof fn law_zero_is_the_end<W>(m: ReaderModel<W>, event: FetchEvent, waker: W, room: nat)
    requires
        0 < room <= usize::MAX,
        poll_result(m, event, room) == Some(0usize),
    ensures
        after_poll(m, event, waker, room).fin,
        after_poll(m, event, waker, room).queue.len() == 0,
{
}

/// Whether a state can be reached: a chunk that is being read is one that is
/// wanted, so the next poll looks for it.
pub open spec fn reader_inv<W>(m: ReaderModel<W>) -> bool {
    m.waker is Some ==> wants_fetch(m)
}

/// Every poll keeps the state reachable, and with chunks of at most
/// `READ_CHUNK` bytes the queue never holds two chunks' worth.
pub proof fn law_poll_keeps_invariant<W>(m: ReaderModel<W>, event: FetchEvent, waker: W, room: nat)
    requires
        reader_inv(m),
        event_fits(m, event),
    ensures
        reader_inv(after_poll(m, event, waker, room)),
        m.queue.len() < 2 * READ_CHUNK && arrived(event).len() <= READ_CHUNK ==> (
        after_poll(m, event, waker, room).queue.len() < 2 * READ_CHUNK),
{
}

/// Whether every event of a run of polls can come of what the reader asked
/// for, with no chunk longer than that.
pub open spec fn all_fit<W>(m: ReaderModel<W>, polls: Seq<(FetchEvent, W, nat)>) -> bool
    decreases polls.len(),
{
    if polls.len() == 0 {
        true
    } else {
        &&& all_fit(m, polls.drop_last())
        &&& event_fits(after_polls(m, polls.drop_last()), polls.last().0)
        &&& arrived(polls.last().0).len() <= READ_CHUNK
    }
}

/// From a new reader on, over any run of polls, a chunk is asked for only
/// while less than one chunk waits, and never while another is being read. So
/// less than two chunks ever wait.
pub proof fn law_reader_is_bounded<W>(polls: Seq<(FetchEvent, W, nat)>)
    requires
        all_fit(ReaderModel { queue: Seq::empty(), fin: false, waker: None::<W> }, polls),
    ensures
        ({
            let m = after_polls(
                ReaderModel { queue: Seq::empty(), fin: false, waker: None::<W> },
                polls,
            );
            &&& reader_inv(m)
            &&& m.queue.len() < 2 * READ_CHUNK
            &&& fetch_action(m) is Start ==> fetch_action(m) == FetchAction::Start(READ_CHUNK)
                && m.waker is None && !m.fin && m.queue.len() < READ_CHUNK
            &&& m.waker is Some ==> fetch_action(m) == FetchAction::Await
        }),
    decreases polls.len(),
{
    if polls.len() > 0 {
        let new = ReaderModel { queue: Seq::empty(), fin: false, waker: None::<W> };
        let front = polls.drop_last();
        law_reader_is_bounded(front);
        let (event, waker, room) = polls.last();
        law_poll_keeps_invariant(after_polls(new, front), event, waker, room);
    }
}

/// A poll with room comes up empty only while a chunk is being read and
/// nothing is queued. When that chunk arrives, or its read fails, the last one
/// who came up empty is woken, and the next poll with room does not come up
/// empty.
pub proof fn law_pending_poll_is_woken<W>(
    m: ReaderModel<W>,
    event: FetchEvent,
    waker: W,
    room: nat,
    next: FetchEvent,
    next_room: nat,
)
    requires
        event_fits(m, event),
        room > 0,
        poll_result(m, event, room) is None,
        next is Data || next is Failed,
        next_room > 0,
    ensures
        ({
            let after = after_poll(m, event, waker, room);
            &&& event is Pending
            &&& after.queue.len() == 0
            &&& !after.fin
            &&& after.waker == Some(waker)
            &&& event_fits(after, next)
            &&& woken(after, next) == Some(waker)
            &&& poll_result(after, next, next_room) is Some
        }),
{
}

/// A source ends at an empty chunk or a failed read, and at nothing else: data
/// of any other length leaves it open. A source that is open goes on being
/// read once less than a chunk waits.
pub proof fn law_source_ends_only_at_its_end<W>(
    m: ReaderModel<W>,
    event: FetchEvent,
    waker: W,
    room: nat,
)
    ensures
        ({
            let after = after_poll(m, event, waker, room);
            &&& m.fin ==> after.fin
            &&& event is Failed ==> after.fin
            &&& event matches FetchEvent::Data(data) ==> (data@.len() == 0 ==> after.fin)
            &&& event matches FetchEvent::Data(data) ==> (data@.len() > 0 ==> after.fin == m.fin)
            &&& event is Skipped || event is Pending ==> after.fin == m.fin
            &&& !after.fin && after.queue.len() < 65536 ==> fetch_action(after) is Start
                || fetch_action(after) is Await
        }),
{
}

/// What waits, followed by what arrived, is handed out from the front, as much
/// as there is and as fits, and the rest waits. A poll that hands out nothing
/// is pending unless the source has ended.
pub proof fn law_poll_hands_out_what_fits<W>(
    m: ReaderModel<W>,
    event: FetchEvent,
    waker: W,
    room: nat,
)
    requires
        room <= usize::MAX,
    ensures
        ({
            let all = match event {
                FetchEvent::Data(data) => m.queue + data@,
                _ => m.queue,
            };
            let out = handed_out(m, event, room);
            let after = after_poll(m, event, waker, room);
            let result = poll_result(m, event, room);
            &&& out.len() <= room
            &&& out.len() == room || out.len() == all.len()
            &&& out == all.take(out.len() as int)
            &&& after.queue == all.skip(out.len() as int)
            &&& polled_count(m, event, room) == out.len()
            &&& queue_with(m, event) == all
            &&& out.len() > 0 ==> result == Some(out.len() as usize)
            &&& out.len() == 0 && after.fin ==> result == Some(0usize)
            &&& out.len() == 0 && !after.fin ==> result is None
        }),
{
}

/// A reader asks for nothing once its source has ended or a whole chunk waits.
/// Otherwise it asks for a chunk of 65536 bytes, or for the one that is being
/// read already. Only a reader that asks for nothing is answered with nothing.
pub proof fn law_reader_asks_for_whole_chunks<W>(m: ReaderModel<W>, event: FetchEvent)
    ensures
        m.fin || m.queue.len() >= 65536 ==> fetch_action(m) == FetchAction::Skip,
        !m.fin && m.queue.len() < 65536 && m.waker is Some ==> fetch_action(m)
            == FetchAction::Await,
        !m.fin && m.queue.len() < 65536 && m.waker is None ==> fetch_action(m)
            == FetchAction::Start(65536),
        event is Skipped ==> (event_fits(m, event) <==> fetch_action(m) is Skip),
        !(event is Skipped) ==> (event_fits(m, event) <==> !(fetch_action(m) is Skip)),
{
}

/// Who polls while a chunk is being read is woken by its end, in place of who
/// polled before, and that end wakes nobody else.
pub proof fn law_reader_remembers_who_polled<W>(
    m: ReaderModel<W>,
    event: FetchEvent,
    waker: W,
    room: nat,
)
    ensures
        event is Pending ==> after_poll(m, event, waker, room).waker == Some(waker),
        event is Skipped ==> after_poll(m, event, waker, room).waker == m.waker,
        event is Data || event is Failed ==> after_poll(m, event, waker, room).waker is None,
        event is Data || event is Failed ==> woken(m, event) == m.waker,
        event is Pending || event is Skipped ==> woken(m, event) is None,
        event matches FetchEvent::Data(data) ==> arrived(event) == data@,
        !(event is Data) ==> arrived(event).len() == 0,
        reader_inv(m) <==> (m.waker is Some ==> !m.fin && m.queue.len() < 65536),
{
}

/// Over any run of polls in which no read fails and no chunk is empty, a source
/// that was open stays open, so it is read on whenever less than a chunk waits.
pub proof fn law_open_source_is_read_on<W>(m: ReaderModel<W>, polls: Seq<(FetchEvent, W, nat)>)
    requires
        !m.fin,
        forall|i: int|
            0 <= i < polls.len() ==> match (#[trigger] polls[i]).0 {
                FetchEvent::Data(data) => data@.len() > 0,
                FetchEvent::Failed => false,
                _ => true,
            },
    ensures
        !after_polls(m, polls).fin,
        after_polls(m, polls).queue.len() < 65536 ==> !(fetch_action(after_polls(m, polls))
            is Skip),
    decreases polls.len(),
{
    if polls.len() > 0 {
        let front = polls.drop_last();
        assert forall|i: int| 0 <= i < front.len() implies match (#[trigger] front[i]).0 {
            FetchEvent::Data(data) => data@.len() > 0,
            FetchEvent::Failed => false,
            _ => true,
        } by {
            assert(front[i] == polls[i]);
        }
        law_open_source_is_read_on(m, front);
        assert(polls[polls.len() - 1] == polls.last());
        let (event, waker, room) = polls.last();
        law_source_ends_only_at_its_end(after_polls(m, front), event, waker, room);
    }
}

} // verus!
