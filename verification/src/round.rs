//! The order of things in a mixing loop.
use crate::mixer::{added, frame_of, law_frame_fits, law_frame_is_its_longest_source};
use crate::pace::{elapsed, poll_size, pull_size, PullTimer};
use crate::player::PlayerModel;
use crate::reader::FetchEvent;
use crate::scratch::{MixModel, BUFFER_BYTES};
use vstd::prelude::*;

verus! {

/// One thing that a mixing loop has to do.
#[derive(Clone, Copy, Debug, PartialEq, Eq, Structural)]
pub enum RoundAction {
    /// Look at the clock.
    ReadClock,
    /// Work out how many bytes make up for this time, in nanoseconds.
    Scale(u128),
    /// Drop the players that leave.
    Prune,
    /// Do what each player asks for about its source.
    Fetch,
    /// Mix a frame, with room for so many bytes of each source.
    Mix(usize),
    /// Encode a frame of so many bytes, which are so many samples, into a buffer
    /// with room for so many bytes. Whether it is the last one.
    Encode { bytes: usize, samples: usize, room: usize, fin: bool },
    /// Queue so many encoded bytes for the next game frame.
    Queue(usize),
    /// Sleep a little, unless told to stop.
    Sleep,
    /// Return.
    End,
}

/// What came of a `RoundAction`.
#[derive(Clone, Copy, Debug, PartialEq, Eq, Structural)]
pub enum RoundEvent {
    /// The time, in nanoseconds.
    Clock(u128),
    /// So many bytes make up for the time that has passed.
    Scaled(usize),
    /// The players that leave are gone.
    Pruned,
    /// Every source was seen to.
    Fetched,
    /// The frame is mixed, and so many bytes long.
    Mixed(usize),
    /// The encoder gave so many bytes, no more than it had room for.
    Encoded(usize),
    /// The packet is queued.
    Queued,
    /// The sleep is over.
    Slept,
    /// The loop was told to stop.
    Stopped,
}

/// What a mixing loop waits for.
#[derive(Clone, Copy, Debug, PartialEq, Eq, Structural)]
pub enum RoundPhase {
    Clocking,
    Scaling,
    Pruning(usize),
    Fetching(usize),
    Mixing,
    Encoding,
    Queueing,
    Sleeping,
    Ended,
}

/// The state of a mixing loop.
#[verifier::ext_equal]
pub struct RoundModel {
    /// When the last pull was.
    pub last: u128,
    /// The time that has to pass between pulls.
    pub delay: u128,
    pub phase: RoundPhase,
}

/// Whether an event is one that a loop waits for.
pub open spec fn awaited(m: RoundModel, event: RoundEvent) -> bool {
    match m.phase {
        RoundPhase::Clocking => event is Clock,
        RoundPhase::Scaling => event is Scaled,
        RoundPhase::Pruning(_) => event is Pruned,
        RoundPhase::Fetching(_) => event is Fetched,
        RoundPhase::Mixing => event matches RoundEvent::Mixed(size) && size <= BUFFER_BYTES,
        RoundPhase::Encoding => event matches RoundEvent::Encoded(size) && size <= BUFFER_BYTES,
        RoundPhase::Queueing => event is Queued,
        RoundPhase::Sleeping => event is Slept || event is Stopped,
        RoundPhase::Ended => false,
    }
}

/// Whether a pull is due.
pub open spec fn due(m: RoundModel, now: u128) -> bool {
    elapsed(m.last, now) >= m.delay
}

/// How a frame of so many bytes is encoded. There is always more to come.
pub open spec fn encode_all(bytes: usize) -> RoundAction {
    RoundAction::Encode {
        bytes,
        samples: (bytes as int / 2) as usize,
        room: BUFFER_BYTES,
        fin: false,
    }
}

/// What a loop does on an event that it waits for.
pub open spec fn action_on(m: RoundModel, event: RoundEvent) -> RoundAction {
    match event {
        RoundEvent::Clock(now) => if due(m, now) {
            RoundAction::Scale(elapsed(m.last, now))
        } else {
            RoundAction::Sleep
        },
        RoundEvent::Scaled(_) => RoundAction::Prune,
        RoundEvent::Pruned => RoundAction::Fetch,
        RoundEvent::Fetched => RoundAction::Mix(m.phase->Fetching_0),
        RoundEvent::Mixed(bytes) => if bytes != 0 {
            encode_all(bytes)
        } else {
            RoundAction::Sleep
        },
        RoundEvent::Encoded(size) => if size != 0 {
            RoundAction::Queue(size)
        } else {
            RoundAction::Sleep
        },
        RoundEvent::Queued => RoundAction::Sleep,
        RoundEvent::Slept => RoundAction::ReadClock,
        RoundEvent::Stopped => RoundAction::End,
    }
}

/// What a loop waits for once it does something. From its pruning on, a round
/// carries the room that its sources get.
pub open spec fn phase_on(m: RoundModel, event: RoundEvent) -> RoundPhase {
    match action_on(m, event) {
        RoundAction::ReadClock => RoundPhase::Clocking,
        RoundAction::Scale(_) => RoundPhase::Scaling,
        RoundAction::Prune => RoundPhase::Pruning(pull_size(event->Scaled_0 as nat) as usize),
        RoundAction::Fetch => RoundPhase::Fetching(m.phase->Pruning_0),
        RoundAction::Mix(_) => RoundPhase::Mixing,
        RoundAction::Encode { .. } => RoundPhase::Encoding,
        RoundAction::Queue(_) => RoundPhase::Queueing,
        RoundAction::Sleep => RoundPhase::Sleeping,
        RoundAction::End => RoundPhase::Ended,
    }
}

/// The state of a loop after an event that it waits for.
pub open spec fn round_after(m: RoundModel, event: RoundEvent) -> RoundModel {
    RoundModel {
        last: match event {
            RoundEvent::Clock(now) => if due(m, now) {
                now
            } else {
                m.last
            },
            _ => m.last,
        },
        delay: m.delay,
        phase: phase_on(m, event),
    }
}

/// Whether the room that a round carries fits the buffers.
pub open spec fn round_inv(m: RoundModel) -> bool {
    match m.phase {
        RoundPhase::Pruning(room) => room <= BUFFER_BYTES,
        RoundPhase::Fetching(room) => room <= BUFFER_BYTES,
        _ => true,
    }
}

/// Walks through the rounds of a mixing loop.
pub struct RoundPlan {
    timer: PullTimer,
    phase: RoundPhase,
}

impl View for RoundPlan {
    type V = RoundModel;

    closed spec fn view(&self) -> RoundModel {
        RoundModel { last: self.timer.last(), delay: self.timer.delay(), phase: self.phase }
    }
}

impl RoundPlan {
    /// A loop that begins at `now`, and first of all looks at the clock.
    pub fn new(now: u128, delay: u128) -> (plan: RoundPlan)
        ensures
            plan@ == (RoundModel { last: now, delay, phase: RoundPhase::Clocking }),
            round_inv(plan@),
    {
        RoundPlan { timer: PullTimer::new(now, delay), phase: RoundPhase::Clocking }
    }

    /// Takes in what came of the last action, and returns the next one.
    pub fn next(&mut self, event: RoundEvent) -> (action: RoundAction)
        requires
            awaited(old(self)@, event),
            round_inv(old(self)@),
        ensures
            action == action_on(old(self)@, event),
            final(self)@ == round_after(old(self)@, event),
            round_inv(final(self)@),
            action matches RoundAction::Mix(room) ==> room <= BUFFER_BYTES,
            action matches RoundAction::Queue(size) ==> 0 < size <= BUFFER_BYTES,
    {
        match event {
            RoundEvent::Clock(now) => match self.timer.tick(now) {
                Some(passed) => {
                    self.phase = RoundPhase::Scaling;
                    RoundAction::Scale(passed)
                },
                None => self.sleep(),
            },
            RoundEvent::Scaled(bytes) => {
                self.phase = RoundPhase::Pruning(poll_size(bytes));
                RoundAction::Prune
            },
            RoundEvent::Pruned => {
                if let RoundPhase::Pruning(room) = self.phase {
                    self.phase = RoundPhase::Fetching(room);
                }
                RoundAction::Fetch
            },
            RoundEvent::Fetched => {
                let mut size: usize = 0;
                if let RoundPhase::Fetching(room) = self.phase {
                    size = room;
                }
                self.phase = RoundPhase::Mixing;
                RoundAction::Mix(size)
            },
            RoundEvent::Mixed(bytes) => if bytes != 0 {
                self.phase = RoundPhase::Encoding;
                RoundAction::Encode { bytes, samples: bytes / 2, room: BUFFER_BYTES, fin: false }
            } else {
                self.sleep()
            },
            RoundEvent::Encoded(size) => if size != 0 {
                self.phase = RoundPhase::Queueing;
                RoundAction::Queue(size)
            } else {
                self.sleep()
            },
            RoundEvent::Queued => self.sleep(),
            RoundEvent::Slept => {
                self.phase = RoundPhase::Clocking;
                RoundAction::ReadClock
            },
            RoundEvent::Stopped => {
                self.phase = RoundPhase::Ended;
                RoundAction::End
            },
        }
    }

    fn sleep(&mut self) -> (action: RoundAction)
        ensures
            action == RoundAction::Sleep,
            final(self)@ == (RoundModel { phase: RoundPhase::Sleeping, ..old(self)@ }),
    {
        self.phase = RoundPhase::Sleeping;
        RoundAction::Sleep
    }
}

/// The state of a loop after a run of events.
pub open spec fn round_after_all(m: RoundModel, events: Seq<RoundEvent>) -> RoundModel
    decreases events.len(),
{
    if events.len() == 0 {
        m
    } else {
        round_after(round_after_all(m, events.drop_last()), events.last())
    }
}

/// The actions of a loop on a run of events.
pub open spec fn actions_on(m: RoundModel, events: Seq<RoundEvent>) -> Seq<RoundAction>
    decreases events.len(),
{
    if events.len() == 0 {
        Seq::empty()
    } else {
        actions_on(m, events.drop_last()).push(
            action_on(round_after_all(m, events.drop_last()), events.last()),
        )
    }
}

/// Whether a loop waits for each event of a run when it comes.
pub open spec fn all_awaited(m: RoundModel, events: Seq<RoundEvent>) -> bool
    decreases events.len(),
{
    if events.len() == 0 {
        true
    } else {
        all_awaited(m, events.drop_last()) && awaited(
            round_after_all(m, events.drop_last()),
            events.last(),
        )
    }
}

/// A round in which no pull is due does nothing but look at the clock, and
/// the time of the last pull stays.
pub proof fn law_early_round_does_nothing(m: RoundModel, now: u128)
    requires
        m.phase is Clocking,
        !due(m, now),
    ensures
        action_on(m, RoundEvent::Clock(now)) == RoundAction::Sleep,
        round_after(m, RoundEvent::Clock(now)) == (RoundModel { phase: RoundPhase::Sleeping, ..m }),
{
}

/// A round in which a pull is due prunes before it reads, reads before it
/// mixes, encodes only what was mixed, queues only what was encoded, and goes
/// to sleep. The next pull is counted from the time of this one.
pub proof fn law_due_round_in_order(
    m: RoundModel,
    now: u128,
    scaled: usize,
    bytes: usize,
    size: usize,
)
    requires
        m.phase is Clocking,
        due(m, now),
        bytes <= BUFFER_BYTES,
        size <= BUFFER_BYTES,
    ensures
        ({
            let room = pull_size(scaled as nat) as usize;
            let start = seq![
                RoundEvent::Clock(now),
                RoundEvent::Scaled(scaled),
                RoundEvent::Pruned,
                RoundEvent::Fetched,
                RoundEvent::Mixed(bytes),
            ];
            let common = seq![
                RoundAction::Scale(elapsed(m.last, now)),
                RoundAction::Prune,
                RoundAction::Fetch,
                RoundAction::Mix(room),
            ];
            let (events, actions) = if bytes == 0 {
                (start, common.push(RoundAction::Sleep))
            } else if size == 0 {
                (
                    start.push(RoundEvent::Encoded(size)),
                    common.push(encode_all(bytes)).push(RoundAction::Sleep),
                )
            } else {
                (
                    start.push(RoundEvent::Encoded(size)).push(RoundEvent::Queued),
                    common.push(encode_all(bytes)).push(RoundAction::Queue(size)).push(
                        RoundAction::Sleep,
                    ),
                )
            };
            &&& all_awaited(m, events)
            &&& actions_on(m, events) == actions
            &&& round_after_all(m, events) == (RoundModel {
                last: now,
                delay: m.delay,
                phase: RoundPhase::Sleeping,
            })
            &&& room <= BUFFER_BYTES
        }),
{
    let e0 = Seq::<RoundEvent>::empty();
    let e1 = e0.push(RoundEvent::Clock(now));
    let e2 = e1.push(RoundEvent::Scaled(scaled));
    let e3 = e2.push(RoundEvent::Pruned);
    let e4 = e3.push(RoundEvent::Fetched);
    let e5 = e4.push(RoundEvent::Mixed(bytes));
    let e6 = e5.push(RoundEvent::Encoded(size));
    let e7 = e6.push(RoundEvent::Queued);
    lemma_push(m, e0, RoundEvent::Clock(now));
    lemma_push(m, e1, RoundEvent::Scaled(scaled));
    lemma_push(m, e2, RoundEvent::Pruned);
    lemma_push(m, e3, RoundEvent::Fetched);
    lemma_push(m, e4, RoundEvent::Mixed(bytes));
    lemma_push(m, e5, RoundEvent::Encoded(size));
    lemma_push(m, e6, RoundEvent::Queued);
    assert(e5 =~= seq![
        RoundEvent::Clock(now),
        RoundEvent::Scaled(scaled),
        RoundEvent::Pruned,
        RoundEvent::Fetched,
        RoundEvent::Mixed(bytes),
    ]);
}

/// What is encoded is the frame as it was mixed, all of it, once, and only if
/// some source gave something.
pub proof fn law_frame_is_encoded_whole(
    m: RoundModel,
    voice: Seq<u8>,
    players: Seq<PlayerModel>,
    fetched: Seq<FetchEvent>,
    room: nat,
    before: MixModel,
)
    requires
        m.phase is Mixing,
        0 < room <= BUFFER_BYTES,
        crate::scratch::mix_inv(before),
    ensures
        ({
            let size = frame_of(voice, players, fetched, room, before).size;
            let action = action_on(m, RoundEvent::Mixed(size as usize));
            &&& awaited(m, RoundEvent::Mixed(size as usize))
            &&& action == if size == 0 {
                RoundAction::Sleep
            } else {
                encode_all(size as usize)
            }
            &&& action is Sleep <==> voice.len() == 0 && forall|i: int|
                0 <= i < players.len() ==> added(#[trigger] players[i], fetched[i], room) == 0
        }),
{
    law_frame_fits(voice, players, fetched, room, before);
    law_frame_is_its_longest_source(voice, players, fetched, room, before);
}

proof fn lemma_push(m: RoundModel, events: Seq<RoundEvent>, event: RoundEvent)
    ensures
        round_after_all(m, events.push(event)) == round_after(round_after_all(m, events), event),
        actions_on(m, events.push(event)) == actions_on(m, events).push(
            action_on(round_after_all(m, events), event),
        ),
        all_awaited(m, events.push(event)) == (all_awaited(m, events) && awaited(
            round_after_all(m, events),
            event,
        )),
{
    assert(events.push(event).drop_last() =~= events);
}

/// A loop that sleeps ends exactly when it is told to stop, and nothing comes
/// after that.
pub proof fn law_stop_ends_the_loop(m: RoundModel, event: RoundEvent, later: RoundEvent)
    requires
        awaited(m, event),
    ensures
        action_on(m, event) == RoundAction::End <==> event == RoundEvent::Stopped,
        event == RoundEvent::Stopped ==> m.phase is Sleeping && !awaited(
            round_after(m, event),
            later,
        ),
{
}

/// The encoder gets every byte of the frame and the number of its samples, two
/// bytes each, room for 2048 bytes, and word that there is more to come. It
/// gets nothing of an empty frame.
pub proof fn law_every_sample_is_encoded(m: RoundModel, bytes: usize)
    requires
        m.phase is Mixing,
        bytes <= 2048,
    ensures
        awaited(m, RoundEvent::Mixed(bytes)),
        bytes == 0 ==> action_on(m, RoundEvent::Mixed(bytes)) is Sleep,
        bytes > 0 ==> match action_on(m, RoundEvent::Mixed(bytes)) {
            RoundAction::Encode { bytes: given, samples, room, fin } => {
                &&& given == bytes
                &&& 2 * samples <= bytes < 2 * samples + 2
                &&& room == 2048
                &&& !fin
            },
            _ => false,
        },
        bytes == 0 ==> round_after(m, RoundEvent::Mixed(bytes)).phase is Sleeping,
        bytes > 0 ==> round_after(m, RoundEvent::Mixed(bytes)).phase is Encoding,
{
}

/// A pull is due once the clock went forward by at least the delay since the
/// last one, and is scaled by exactly that time. The next one counts from now.
/// Otherwise the loop sleeps and goes on counting.
pub proof fn law_clock_decides(m: RoundModel, now: u128)
    requires
        m.phase is Clocking,
    ensures
        ({
            let event = RoundEvent::Clock(now);
            let after = round_after(m, event);
            &&& awaited(m, event)
            &&& after.delay == m.delay
            &&& now >= m.last && now - m.last >= m.delay ==> {
                &&& action_on(m, event) == RoundAction::Scale((now - m.last) as u128)
                &&& after.last == now
                &&& after.phase is Scaling
            }
            &&& now >= m.last && now - m.last < m.delay ==> {
                &&& action_on(m, event) is Sleep
                &&& after.last == m.last
                &&& after.phase is Sleeping
            }
            &&& now < m.last && m.delay > 0 ==> {
                &&& action_on(m, event) is Sleep
                &&& after.last == m.last
                &&& after.phase is Sleeping
            }
            &&& now < m.last && m.delay == 0 ==> {
                &&& action_on(m, event) == RoundAction::Scale(0)
                &&& after.last == now
                &&& after.phase is Scaling
            }
        }),
{
}

/// A round prunes, fetches and mixes with the room that was worked out for it,
/// and queues exactly what the encoder gave, if it gave anything. A loop that
/// slept looks at the clock, and one that was told to stop ends. None of this
/// touches the time of the last pull.
pub proof fn law_round_goes_on(m: RoundModel, event: RoundEvent)
    requires
        awaited(m, event),
    ensures
        ({
            let action = action_on(m, event);
            let after = round_after(m, event);
            &&& !(event is Clock) ==> after.last == m.last
            &&& after.delay == m.delay
            &&& event matches RoundEvent::Scaled(scaled) ==> {
                &&& action is Prune
                &&& after.phase == RoundPhase::Pruning(pull_size(scaled as nat) as usize)
            }
            &&& event is Pruned ==> {
                &&& action is Fetch
                &&& m.phase matches RoundPhase::Pruning(room) && after.phase
                    == RoundPhase::Fetching(room)
            }
            &&& event is Fetched ==> {
                &&& after.phase is Mixing
                &&& m.phase matches RoundPhase::Fetching(room) && action == RoundAction::Mix(room)
            }
            &&& event matches RoundEvent::Encoded(size) ==> {
                &&& size > 0 ==> action == RoundAction::Queue(size) && after.phase is Queueing
                &&& size == 0 ==> action is Sleep && after.phase is Sleeping
            }
            &&& event is Queued ==> action is Sleep && after.phase is Sleeping
            &&& event is Slept ==> action is ReadClock && after.phase is Clocking
            &&& event is Stopped ==> action is End && after.phase is Ended
        }),
{
}

/// A loop waits for the outcome of what it did last and for nothing else. A
/// sleep can end in two ways, and a frame is never longer than the buffers.
pub proof fn law_loop_waits_for_one_thing(m: RoundModel, event: RoundEvent)
    ensures
        m.phase is Clocking ==> (awaited(m, event) <==> event is Clock),
        m.phase is Scaling ==> (awaited(m, event) <==> event is Scaled),
        m.phase is Pruning ==> (awaited(m, event) <==> event is Pruned),
        m.phase is Fetching ==> (awaited(m, event) <==> event is Fetched),
        m.phase is Mixing ==> (awaited(m, event) <==> event is Mixed && event->Mixed_0 <= 2048),
        m.phase is Encoding ==> (awaited(m, event) <==> event is Encoded && event->Encoded_0
            <= 2048),
        m.phase is Queueing ==> (awaited(m, event) <==> event is Queued),
        m.phase is Sleeping ==> (awaited(m, event) <==> event is Slept || event is Stopped),
        m.phase is Ended ==> !awaited(m, event),
        m.phase matches RoundPhase::Pruning(room) ==> (round_inv(m) <==> room <= 2048),
        m.phase matches RoundPhase::Fetching(room) ==> (round_inv(m) <==> room <= 2048),
        !(m.phase is Pruning) && !(m.phase is Fetching) ==> round_inv(m),
{
}

} // verus!
