//! One source that is being played, and what is known of its progress.
use crate::reader::{BufferBlockingRead, FetchAction, FetchEvent, ReaderModel};
use crate::scratch::{MixModel, Scratch};
use vstd::prelude::*;

verus! {

/// How far a player has come.
#[derive(Clone, Copy, Debug, PartialEq, Eq, Structural)]
pub struct PlayerStatus {
    /// The bytes played so far, counted modulo the size of the type.
    pub read_size: usize,
    /// Whether the source has ended.
    pub finished: bool,
}

/// What came of reading from a player's source.
#[derive(Clone, Copy, Debug, PartialEq, Eq, Structural)]
pub enum ReadOutcome {
    /// Nothing to read yet.
    Pending,
    /// The source failed.
    Failed,
    /// This many bytes were read.
    Ready(usize),
}

/// The bytes that a read contributes to the mix, if it contributes any.
///
/// Nothing, and an odd number of bytes, which cannot be whole samples, end
/// the player.
pub open spec fn contribution(outcome: ReadOutcome) -> Option<usize> {
    match outcome {
        ReadOutcome::Ready(size) => if size == 0 || size % 2 == 1 {
            None
        } else {
            Some(size)
        },
        _ => None,
    }
}

/// A count that starts over at zero where the type ends.
pub open spec fn wrapped(count: int) -> usize {
    if count > usize::MAX {
        (count - usize::MAX - 1) as usize
    } else {
        count as usize
    }
}

/// The status after a read.
pub open spec fn settled(status: PlayerStatus, outcome: ReadOutcome) -> PlayerStatus {
    match contribution(outcome) {
        Some(size) => PlayerStatus {
            read_size: wrapped(status.read_size + size),
            finished: status.finished,
        },
        None => PlayerStatus {
            read_size: status.read_size,
            finished: status.finished || !(outcome is Pending),
        },
    }
}

impl PlayerStatus {
    /// The status of a player that has not read anything.
    pub fn new() -> (status: PlayerStatus)
        ensures
            status == (PlayerStatus { read_size: 0, finished: false }),
    {
        PlayerStatus { read_size: 0, finished: false }
    }

    /// Notes a read and returns how many bytes of it go into the mix.
    pub fn settle(&mut self, outcome: ReadOutcome) -> (size: Option<usize>)
        ensures
            size == contribution(outcome),
            *final(self) == settled(*old(self), outcome),
    {
        match outcome {
            ReadOutcome::Pending => None,
            ReadOutcome::Failed => {
                self.finished = true;
                None
            },
            ReadOutcome::Ready(size) => {
                if size == 0 || size % 2 == 1 {
                    self.finished = true;
                    None
                } else {
                    self.read_size = self.read_size.wrapping_add(size);
                    Some(size)
                }
            },
        }
    }
}

/// The state of a player.
#[verifier::ext_equal]
pub struct PlayerModel {
    pub reader: ReaderModel<()>,
    pub status: PlayerStatus,
}

/// What a player's read of up to `room` bytes comes to.
pub open spec fn read_outcome(p: PlayerModel, event: FetchEvent, room: nat) -> ReadOutcome {
    match crate::reader::poll_result(p.reader, event, room) {
        Some(size) => ReadOutcome::Ready(size),
        None => ReadOutcome::Pending,
    }
}

/// The state of a player after it was read with room for `room` bytes.
pub open spec fn player_after(p: PlayerModel, event: FetchEvent, room: nat) -> PlayerModel {
    PlayerModel {
        reader: crate::reader::after_poll(p.reader, event, (), room),
        status: settled(p.status, read_outcome(p, event, room)),
    }
}

/// The frame under construction after a player was read into it.
pub open spec fn mix_after(p: PlayerModel, event: FetchEvent, room: nat, m: MixModel) -> MixModel {
    let read = MixModel {
        buf: crate::pipe::filled(
            crate::reader::queue_with(p.reader, event),
            m.buf,
            crate::reader::polled_count(p.reader, event, room),
        ),
        ..m
    };
    match contribution(read_outcome(p, event, room)) {
        Some(size) => crate::scratch::absorbed(read, size as nat),
        None => read,
    }
}

/// A player counts exactly the bytes that it adds to the frame, and ends when
/// a read brings something that it cannot add.
pub proof fn law_progress_counts_mixed_bytes(p: PlayerModel, event: FetchEvent, room: nat)
    requires
        room <= usize::MAX,
    ensures
        ({
            let out = crate::reader::handed_out(p.reader, event, room);
            let after = player_after(p, event, room).status;
            match contribution(read_outcome(p, event, room)) {
                Some(size) => {
                    &&& size == out.len()
                    &&& after.read_size == wrapped(p.status.read_size + out.len())
                    &&& after.finished == p.status.finished
                },
                None => {
                    &&& after.read_size == p.status.read_size
                    &&& after.finished == (p.status.finished
                        || crate::reader::poll_result(p.reader, event, room) is Some)
                },
            }
        }),
{
    crate::reader::law_poll_conserves_bytes(p.reader, event, (), room);
}

/// A player that has ended never plays on.
pub proof fn law_finished_is_final(status: PlayerStatus, outcome: ReadOutcome)
    requires
        status.finished,
    ensures
        settled(status, outcome).finished,
{
}

/// A player whose source has ended, and everything of it was handed out, ends
/// with the next read.
pub proof fn law_end_of_source_ends_player(p: PlayerModel, event: FetchEvent, room: nat)
    requires
        p.reader.fin,
        p.reader.queue.len() == 0,
        crate::reader::event_fits(p.reader, event),
    ensures
        player_after(p, event, room).status.finished,
        contribution(read_outcome(p, event, room)) is None,
{
    crate::reader::law_end_is_final(p.reader, event, (), room);
}

/// A source that is being played. The mixing loop looks again by itself, so
/// nobody is woken when a chunk arrives. `link` is the owner's tie to the source; it
/// is carried along and never looked at.
pub struct Player<R> {
    reader: BufferBlockingRead<()>,
    status: PlayerStatus,
    link: R,
}

impl<R> View for Player<R> {
    type V = PlayerModel;

    closed spec fn view(&self) -> PlayerModel {
        PlayerModel { reader: self.reader@, status: self.status }
    }
}

impl<R> Player<R> {
    /// The owner's tie to the source.
    pub closed spec fn spec_link(&self) -> R {
        self.link
    }

    /// A player at the start of its source.
    pub fn new(link: R) -> (player: Player<R>)
        ensures
            player@ == (PlayerModel {
                reader: ReaderModel { queue: Seq::empty(), fin: false, waker: None::<()> },
                status: PlayerStatus { read_size: 0, finished: false },
            }),
            player.spec_link() == link,
    {
        Player { reader: BufferBlockingRead::new(), status: PlayerStatus::new(), link }
    }

    /// The owner's tie to the source.
    pub fn link(&self) -> (link: &R)
        ensures
            *link == self.spec_link(),
    {
        &self.link
    }

    /// How far the player has come.
    pub fn status(&self) -> (status: PlayerStatus)
        ensures
            status == self@.status,
    {
        self.status
    }

    /// The bytes played so far.
    pub fn read_size(&self) -> (size: usize)
        ensures
            size == self@.status.read_size,
    {
        self.status.read_size
    }

    /// Whether the source has ended.
    pub fn finished(&self) -> (finished: bool)
        ensures
            finished == self@.status.finished,
    {
        self.status.finished
    }

    /// Whether a player with this many owners, the mixer among them, was given
    /// up by everyone else.
    pub fn dropped(owners: usize) -> (dropped: bool)
        ensures
            dropped == (owners <= 1),
    {
        owners <= 1
    }

    /// What has to be done about the source before the next frame.
    pub fn next_fetch(&self) -> (action: FetchAction)
        ensures
            action == crate::reader::fetch_action(self@.reader),
    {
        self.reader.next_fetch()
    }

    /// Reads up to `room` bytes of the source and mixes them into the frame.
    pub fn feed(&mut self, event: &FetchEvent, room: usize, scratch: &mut Scratch)
        requires
            crate::reader::event_fits(old(self)@.reader, *event),
            room <= crate::scratch::BUFFER_BYTES,
            crate::scratch::mix_inv(old(scratch)@),
        ensures
            final(self)@ == player_after(old(self)@, *event, room as nat),
            final(self).spec_link() == old(self).spec_link(),
            final(scratch)@ == mix_after(old(self)@, *event, room as nat, old(scratch)@),
            crate::scratch::mix_inv(final(scratch)@),
    {
        let outcome = match scratch.read_source(&mut self.reader, event, (), room) {
            Some(size) => ReadOutcome::Ready(size),
            None => ReadOutcome::Pending,
        };
        if let Some(size) = self.status.settle(outcome) {
            scratch.absorb(size);
        }
    }
}

/// A read of a positive even number of bytes always counts, whatever its size:
/// all of it goes into the mix and is added to the count, and it does not end
/// the player. An empty, an odd and a failed read add nothing and end the
/// player. A read that is pending changes nothing.
pub proof fn law_whole_samples_always_count(status: PlayerStatus, outcome: ReadOutcome)
    ensures
        outcome matches ReadOutcome::Ready(size) ==> (size > 0 && size % 2 == 0) ==> {
            let after = settled(status, outcome);
            &&& contribution(outcome) == Some(size)
            &&& after.finished == status.finished
            &&& status.read_size + size <= usize::MAX ==> after.read_size == status.read_size
                + size
            &&& status.read_size + size > usize::MAX ==> after.read_size == status.read_size
                + size - usize::MAX - 1
        },
        outcome matches ReadOutcome::Ready(size) ==> (size == 0 || size % 2 == 1) ==> {
            &&& contribution(outcome) is None
            &&& settled(status, outcome).finished
            &&& settled(status, outcome).read_size == status.read_size
        },
        outcome is Failed ==> {
            &&& contribution(outcome) is None
            &&& settled(status, outcome).finished
            &&& settled(status, outcome).read_size == status.read_size
        },
        outcome is Pending ==> {
            &&& contribution(outcome) is None
            &&& settled(status, outcome) == status
        },
{
}

/// What a player adds to a frame is what its reader hands out, all of it, sample
/// by sample and in numbers, when that is a positive even number of bytes. Its
/// count grows by as much, and it has not ended by that. A player newly ends
/// only with a poll that is not pending and hands out nothing or an odd number
/// of bytes, and then the frame is as it was.
pub proof fn law_player_adds_what_it_is_handed(
    p: PlayerModel,
    event: FetchEvent,
    room: nat,
    m: MixModel,
    k: int,
)
    requires
        room <= m.buf.len() <= usize::MAX,
        m.buf.len() == m.mixed.len(),
        0 <= k,
        2 * k + 2 <= m.mixed.len(),
    ensures
        ({
            let out = crate::reader::handed_out(p.reader, event, room);
            let pending = crate::reader::poll_result(p.reader, event, room) is None;
            let plays = out.len() > 0 && out.len() % 2 == 0;
            let after = player_after(p, event, room);
            let mix = mix_after(p, event, room, m);
            let value = |bytes: Seq<u8>|
                bytes[2 * k] + 256 * bytes[2 * k + 1] - (if bytes[2 * k + 1] >= 128 {
                    65536int
                } else {
                    0int
                });
            let sum = value(out) + value(m.mixed);
            &&& after.reader == crate::reader::after_poll(p.reader, event, (), room)
            &&& mix.buf.len() == m.buf.len() && mix.mixed.len() == m.mixed.len()
            &&& plays ==> {
                &&& after.status.finished == p.status.finished
                &&& after.status.read_size == p.status.read_size + out.len()
                    || after.status.read_size == p.status.read_size + out.len() - usize::MAX - 1
                &&& mix.size >= out.len() && mix.size >= m.size
                &&& mix.size == out.len() || mix.size == m.size
                &&& 2 * k < out.len() && -32768 <= sum <= 32767 ==> value(mix.mixed) == sum
                &&& 2 * k < out.len() && sum > 32767 ==> value(mix.mixed) == 32767
                &&& 2 * k < out.len() && sum < -32768 ==> value(mix.mixed) == -32768
                &&& 2 * k >= out.len() ==> value(mix.mixed) == value(m.mixed)
            }
            &&& !plays ==> {
                &&& after.status.finished == (p.status.finished || !pending)
                &&& after.status.read_size == p.status.read_size
                &&& mix.mixed == m.mixed && mix.size == m.size
            }
        }),
{
    crate::reader::law_poll_hands_out_what_fits(p.reader, event, (), room);
    let out = crate::reader::handed_out(p.reader, event, room);
    let queue = crate::reader::queue_with(p.reader, event);
    let buf = crate::pipe::filled(queue, m.buf, out.len());
    law_whole_samples_always_count(p.status, read_outcome(p, event, room));
    crate::sample::law_mix_is_saturating_addition(out.len(), buf, m.mixed, k);
    if 2 * k < out.len() && out.len() % 2 == 0 {
        assert(buf[2 * k] == out[2 * k] && buf[2 * k + 1] == out[2 * k + 1]);
    }
}

} // verus!
