//! The mixer of one client slot.
use crate::pipe::BytesPipe;
use crate::player::{Player, PlayerModel};
use crate::reader::FetchEvent;
use crate::sample::{clamp_sample, sample_at};
use crate::scratch::{MixModel, Scratch, BUFFER_BYTES};
use vstd::prelude::*;

verus! {

/// Whether a player leaves the mixer: it has ended, or the mixer is its only
/// owner left.
pub open spec fn leaves(status: crate::player::PlayerStatus, owners: usize) -> bool {
    owners <= 1 || status.finished
}

/// The players that stay, in their order, when the player at each position has
/// the number of owners at that position.
pub open spec fn staying<R>(players: Seq<Player<R>>, owners: Seq<usize>) -> Seq<Player<R>>
    decreases players.len(),
{
    if players.len() == 0 {
        Seq::empty()
    } else {
        let front = staying(players.drop_last(), owners);
        if leaves(players.last()@.status, owners[players.len() - 1]) {
            front
        } else {
            front.push(players.last())
        }
    }
}

/// The frame after the first `k` players were read into it, in order.
pub open spec fn mix_after_players(
    players: Seq<PlayerModel>,
    events: Seq<FetchEvent>,
    room: nat,
    m: MixModel,
    k: nat,
) -> MixModel
    decreases k,
{
    if k == 0 {
        m
    } else {
        crate::player::mix_after(
            players[k - 1],
            events[k - 1],
            room,
            mix_after_players(players, events, room, m, (k - 1) as nat),
        )
    }
}

/// Encoded voice, and the slot that it is sent as.
pub struct VoicePacket {
    /// The slot of the client that seems to speak.
    pub slot: i32,
    /// The encoded frame.
    pub data: Vec<u8>,
    /// Whether that client hears it too.
    pub hearself: bool,
}

/// Mixes the voice of a client with the players that play in its slot. The
/// mixing loop looks for voice by itself, so nobody is woken when some comes.
pub struct Mixer<R> {
    players: Vec<Player<R>>,
    pipe: BytesPipe<()>,
    stoppable: bool,
    slot: i32,
    hearself: bool,
}

impl<R> Mixer<R> {
    /// The players, in the order in which they were added.
    pub closed spec fn players(&self) -> Seq<Player<R>> {
        self.players@
    }

    /// The states of the players.
    pub open spec fn models(&self) -> Seq<PlayerModel> {
        self.players().map_values(|p: Player<R>| p@)
    }

    /// The client's own voice that was not mixed yet.
    pub closed spec fn voice(&self) -> Seq<u8> {
        self.pipe@.queue
    }

    /// Whether a round found nothing of the client's voice and was left waiting
    /// for more.
    pub closed spec fn awaits_voice(&self) -> bool {
        self.pipe@.waker is Some
    }

    /// Whether the mixing loop is running and was not told to stop.
    pub closed spec fn stoppable(&self) -> bool {
        self.stoppable
    }

    pub closed spec fn spec_slot(&self) -> i32 {
        self.slot
    }

    pub closed spec fn spec_hearself(&self) -> bool {
        self.hearself
    }

    /// Whether two states differ in the players and the client's voice at most.
    pub open spec fn same_settings(&self, other: &Mixer<R>) -> bool {
        &&& self.spec_slot() == other.spec_slot()
        &&& self.spec_hearself() == other.spec_hearself()
        &&& self.stoppable() == other.stoppable()
    }

    /// A mixer with nothing to play, whose client does not hear itself.
    pub fn new(slot: i32) -> (mixer: Mixer<R>)
        ensures
            mixer.players() == Seq::<Player<R>>::empty(),
            mixer.voice() == Seq::<u8>::empty(),
            !mixer.awaits_voice(),
            !mixer.stoppable(),
            mixer.spec_slot() == slot,
            !mixer.spec_hearself(),
    {
        Mixer {
            players: Vec::new(),
            pipe: BytesPipe::new(),
            stoppable: false,
            slot,
            hearself: false,
        }
    }

    /// The slot that the mixer speaks as.
    pub fn slot(&self) -> (slot: i32)
        ensures
            slot == self.spec_slot(),
    {
        self.slot
    }

    /// Whether the client hears what is sent as itself.
    pub fn hearself(&self) -> (hearself: bool)
        ensures
            hearself == self.spec_hearself(),
    {
        self.hearself
    }

    /// Sets whether the client hears what is sent as itself.
    pub fn set_hearself(&mut self, hearself: bool)
        ensures
            final(self).spec_hearself() == hearself,
            final(self).spec_slot() == old(self).spec_slot(),
            final(self).stoppable() == old(self).stoppable(),
            final(self).players() == old(self).players(),
            final(self).voice() == old(self).voice(),
            final(self).awaits_voice() == old(self).awaits_voice(),
    {
        self.hearself = hearself;
    }

    /// Adds decoded voice of the client.
    pub fn write(&mut self, data: &[u8])
        ensures
            final(self).voice() == old(self).voice() + data@,
            final(self).awaits_voice() == old(self).awaits_voice(),
            final(self).players() == old(self).players(),
            final(self).same_settings(old(self)),
    {
        let _written: usize = self.pipe.poll_write(data);
    }

    /// Adds a player behind the others.
    pub fn push(&mut self, player: Player<R>)
        ensures
            final(self).players() == old(self).players().push(player),
            final(self).voice() == old(self).voice(),
            final(self).awaits_voice() == old(self).awaits_voice(),
            final(self).same_settings(old(self)),
    {
        self.players.push(player);
    }

    /// Marks the mixing loop as running.
    pub fn start(&mut self)
        ensures
            final(self).stoppable(),
            final(self).spec_slot() == old(self).spec_slot(),
            final(self).spec_hearself() == old(self).spec_hearself(),
            final(self).players() == old(self).players(),
            final(self).voice() == old(self).voice(),
            final(self).awaits_voice() == old(self).awaits_voice(),
    {
        self.stoppable = true;
    }

    /// Whether the mixing loop can be told to stop.
    pub fn is_stoppable(&self) -> (stoppable: bool)
        ensures
            stoppable == self.stoppable(),
    {
        self.stoppable
    }

    /// Tells the mixing loop to stop, which can be done once.
    pub fn shutdown(&mut self)
        requires
            old(self).stoppable(),
        ensures
            !final(self).stoppable(),
            final(self).spec_slot() == old(self).spec_slot(),
            final(self).spec_hearself() == old(self).spec_hearself(),
            final(self).players() == old(self).players(),
            final(self).voice() == old(self).voice(),
            final(self).awaits_voice() == old(self).awaits_voice(),
    {
        self.stoppable = false;
    }

    /// How many players there are.
    pub fn player_count(&self) -> (count: usize)
        ensures
            count == self.players().len(),
    {
        self.players.len()
    }

    /// The player at a position.
    pub fn player(&self, index: usize) -> (player: &Player<R>)
        requires
            index < self.players().len(),
        ensures
            *player == self.players()[index as int],
    {
        &self.players[index]
    }

    /// Drops the players that have ended and those that nobody else owns.
    pub fn prune(&mut self, owners: &Vec<usize>)
        requires
            owners@.len() == old(self).players().len(),
        ensures
            final(self).players() == staying(old(self).players(), owners@),
            final(self).voice() == old(self).voice(),
            final(self).awaits_voice() == old(self).awaits_voice(),
            final(self).same_settings(old(self)),
    {
        let ghost all = self.players@;
        let total: usize = self.players.len();
        let mut i: usize = 0;
        let mut seen: usize = 0;
        assert(all.take(0) =~= Seq::<Player<R>>::empty());
        assert(self.players@ =~= staying(all.take(0), owners@) + all.skip(0));
        while i != self.players.len()
            invariant
                seen <= total,
                total == all.len() == owners@.len(),
                i == staying(all.take(seen as int), owners@).len(),
                self.players@ == staying(all.take(seen as int), owners@) + all.skip(seen as int),
                self.voice() == old(self).voice(),
                self.awaits_voice() == old(self).awaits_voice(),
                self.same_settings(old(self)),
            decreases total - seen,
        {
            let ghost front = staying(all.take(seen as int), owners@);
            assert(self.players@[i as int] == all[seen as int]);
            assert(all.take(seen + 1).drop_last() =~= all.take(seen as int));
            let should_drop: bool = Player::<R>::dropped(owners[seen])
                || self.players[i].finished();
            if should_drop {
                let _gone = self.players.remove(i);
                assert(self.players@ =~= front + all.skip(seen + 1));
            } else {
                i = i + 1;
                assert(self.players@ =~= front.push(all[seen as int]) + all.skip(seen + 1));
            }
            seen = seen + 1;
        }
        assert(all.take(seen as int) =~= all);
        assert(self.players@ =~= staying(all, owners@));
    }

    /// Mixes one frame: the client's voice, then every player in turn.
    ///
    /// `room` bounds what is read of each, and `events` holds what came of
    /// each player's `next_fetch`.
    pub fn mix_frame(&mut self, room: usize, events: &Vec<FetchEvent>, scratch: &mut Scratch)
        requires
            room <= BUFFER_BYTES,
            events@.len() == old(self).players().len(),
            forall|i: int|
                0 <= i < events@.len() ==> crate::reader::event_fits(
                    #[trigger] old(self).players()[i]@.reader,
                    events@[i],
                ),
            crate::scratch::mix_inv(old(scratch)@),
        ensures
            final(self).players().len() == old(self).players().len(),
            forall|i: int|
                #![trigger final(self).players()[i]]
                0 <= i < events@.len() ==> final(self).players()[i]@
                    == crate::player::player_after(
                    old(self).players()[i]@,
                    events@[i],
                    room as nat,
                ) && final(self).players()[i].spec_link() == old(self).players()[i].spec_link(),
            final(self).voice() == old(self).voice().skip(
                crate::pipe::transfer(old(self).voice().len(), room as nat) as int,
            ),
            final(self).awaits_voice() == (old(self).awaits_voice() || crate::pipe::transfer(
                old(self).voice().len(),
                room as nat,
            ) == 0),
            final(self).same_settings(old(self)),
            final(scratch)@ == frame_of(
                old(self).voice(),
                old(self).models(),
                events@,
                room as nat,
                old(scratch)@,
            ),
            crate::scratch::mix_inv(final(scratch)@),
    {
        let ghost models = self.models();
        scratch.clear();
        scratch.read_pipe(&mut self.pipe, (), room);
        let ghost start = scratch@;
        let count: usize = self.players.len();
        let mut i: usize = 0;
        while i < count
            invariant
                i <= count,
                count == self.players@.len() == old(self).players().len() == events@.len(),
                room <= BUFFER_BYTES,
                models == old(self).models(),
                forall|j: int|
                    0 <= j < count ==> crate::reader::event_fits(
                        #[trigger] old(self).players()[j]@.reader,
                        events@[j],
                    ),
                forall|j: int|
                    #![trigger self.players@[j]]
                    0 <= j < i ==> self.players@[j]@ == crate::player::player_after(
                        old(self).players()[j]@,
                        events@[j],
                        room as nat,
                    ) && self.players@[j].spec_link() == old(self).players()[j].spec_link(),
                forall|j: int| i <= j < count ==> self.players@[j] == old(self).players()[j],
                scratch@ == mix_after_players(models, events@, room as nat, start, i as nat),
                crate::scratch::mix_inv(scratch@),
                self.voice() == old(self).voice().skip(
                    crate::pipe::transfer(old(self).voice().len(), room as nat) as int,
                ),
                self.awaits_voice() == (old(self).awaits_voice() || crate::pipe::transfer(
                    old(self).voice().len(),
                    room as nat,
                ) == 0),
                self.same_settings(old(self)),
            decreases count - i,
        {
            assert(models[i as int] == old(self).players()[i as int]@);
            self.players[i].feed(&events[i], room, scratch);
            i = i + 1;
        }
    }

    /// The packet that carries an encoded frame of `size` bytes, or `None`
    /// when the encoder gave nothing.
    pub fn packet(&self, encoded: &[u8], size: usize) -> (packet: Option<VoicePacket>)
        requires
            size <= encoded@.len(),
        ensures
            packet is None <==> size == 0,
            packet matches Some(p) ==> {
                &&& p.slot == self.spec_slot()
                &&& p.hearself == self.spec_hearself()
                &&& p.data@ == encoded@.take(size as int)
            },
    {
        if size == 0 {
            None
        } else {
            let data: Vec<u8> = vstd::slice::slice_to_vec(
                vstd::slice::slice_subrange(encoded, 0, size),
            );
            Some(VoicePacket { slot: self.slot, data, hearself: self.hearself })
        }
    }
}

/// The positions of the players that stay.
pub open spec fn stay_at<R>(players: Seq<Player<R>>, owners: Seq<usize>) -> Seq<int>
    decreases players.len(),
{
    if players.len() == 0 {
        Seq::empty()
    } else {
        let front = stay_at(players.drop_last(), owners);
        if leaves(players.last()@.status, owners[players.len() - 1]) {
            front
        } else {
            front.push(players.len() - 1)
        }
    }
}

/// The players that stay are those that have not ended and have another owner,
/// all of them, and they keep their order.
pub proof fn law_prune_keeps_the_living<R>(players: Seq<Player<R>>, owners: Seq<usize>)
    ensures
        staying(players, owners).len() == stay_at(players, owners).len() <= players.len(),
        forall|i: int|
            #![trigger stay_at(players, owners)[i]]
            #![trigger staying(players, owners)[i]]
            0 <= i < stay_at(players, owners).len() ==> {
                let position = stay_at(players, owners)[i];
                &&& 0 <= position < players.len()
                &&& staying(players, owners)[i] == players[position]
                &&& owners[position] > 1
                &&& !players[position]@.status.finished
            },
        forall|i: int, j: int|
            0 <= i < j < stay_at(players, owners).len() ==> (#[trigger] stay_at(
                players,
                owners,
            )[i]) < (#[trigger] stay_at(players, owners)[j]),
        forall|position: int|
            #![trigger players[position]]
            0 <= position < players.len() && owners[position] > 1
                && !players[position]@.status.finished ==> stay_at(players, owners).contains(
                position,
            ),
    decreases players.len(),
{
    if players.len() > 0 {
        let front = players.drop_last();
        law_prune_keeps_the_living(front, owners);
        let at = stay_at(players, owners);
        let at_front = stay_at(front, owners);
        assert forall|position: int|
            #![trigger players[position]]
            0 <= position < players.len() && owners[position] > 1
                && !players[position]@.status.finished implies at.contains(position) by {
            if position < front.len() {
                assert(front[position] == players[position]);
                let i = choose|i: int| 0 <= i < at_front.len() && at_front[i] == position;
                assert(at[i] == position);
            } else {
                assert(at[at.len() - 1] == position);
            }
        }
    }
}

/// Pruning twice drops no more than pruning once, while the owners of those
/// that stay keep them.
pub proof fn law_prune_settles<R>(
    players: Seq<Player<R>>,
    owners: Seq<usize>,
    later_owners: Seq<usize>,
)
    requires
        forall|i: int|
            0 <= i < staying(players, owners).len() ==> #[trigger] later_owners[i] > 1,
    ensures
        staying(staying(players, owners), later_owners) == staying(players, owners),
{
    law_prune_keeps_the_living(players, owners);
    lemma_all_stay(staying(players, owners), later_owners);
}

proof fn lemma_all_stay<R>(players: Seq<Player<R>>, owners: Seq<usize>)
    requires
        forall|i: int| 0 <= i < players.len() ==> #[trigger] owners[i] > 1,
        forall|i: int| 0 <= i < players.len() ==> !(#[trigger] players[i])@.status.finished,
    ensures
        staying(players, owners) == players,
    decreases players.len(),
{
    if players.len() > 0 {
        lemma_all_stay(players.drop_last(), owners);
        assert(owners[players.len() - 1] > 1);
        assert(players.drop_last().push(players.last()) =~= players);
    } else {
        assert(staying(players, owners) =~= players);
    }
}

/// The frame that a round makes of the client's voice and the players.
pub open spec fn frame_of(
    voice: Seq<u8>,
    players: Seq<PlayerModel>,
    events: Seq<FetchEvent>,
    room: nat,
    before: MixModel,
) -> MixModel {
    mix_after_players(
        players,
        events,
        room,
        crate::scratch::mix_after_pipe(voice, room, crate::scratch::cleared(before)),
        players.len(),
    )
}

/// Whether a player adds to the frame.
pub open spec fn contributes(p: PlayerModel, event: FetchEvent, room: nat) -> bool {
    crate::player::contribution(crate::player::read_outcome(p, event, room)) is Some
}

proof fn lemma_players_bounded(
    players: Seq<PlayerModel>,
    events: Seq<FetchEvent>,
    room: nat,
    m: MixModel,
    k: nat,
)
    requires
        room <= BUFFER_BYTES,
        m.size <= room,
        crate::scratch::mix_inv(m),
    ensures
        mix_after_players(players, events, room, m, k).size <= room,
        crate::scratch::mix_inv(mix_after_players(players, events, room, m, k)),
        mix_after_players(players, events, room, m, k).size >= m.size,
    decreases k,
{
    if k > 0 {
        lemma_players_bounded(players, events, room, m, (k - 1) as nat);
    }
}

/// A frame is never longer than the room that its sources had.
pub proof fn law_frame_fits(
    voice: Seq<u8>,
    players: Seq<PlayerModel>,
    events: Seq<FetchEvent>,
    room: nat,
    before: MixModel,
)
    requires
        room <= BUFFER_BYTES,
        crate::scratch::mix_inv(before),
    ensures
        frame_of(voice, players, events, room, before).size <= room,
{
    let m = crate::scratch::mix_after_pipe(voice, room, crate::scratch::cleared(before));
    lemma_players_bounded(players, events, room, m, players.len());
}

/// The bytes that a player adds to the frame.
pub open spec fn added(p: PlayerModel, event: FetchEvent, room: nat) -> nat {
    match crate::player::contribution(crate::player::read_outcome(p, event, room)) {
        Some(size) => size as nat,
        None => 0,
    }
}

proof fn lemma_players_longest(
    players: Seq<PlayerModel>,
    events: Seq<FetchEvent>,
    room: nat,
    m: MixModel,
    k: nat,
)
    ensures
        ({
            let size = mix_after_players(players, events, room, m, k).size;
            &&& size >= m.size
            &&& forall|i: int| 0 <= i < k ==> size >= added(#[trigger] players[i], events[i], room)
            &&& size == m.size || exists|i: int|
                0 <= i < k && size == added(#[trigger] players[i], events[i], room)
        }),
    decreases k,
{
    if k > 0 {
        let j = (k - 1) as nat;
        lemma_players_longest(players, events, room, m, j);
        let before = mix_after_players(players, events, room, m, j).size;
        let size = mix_after_players(players, events, room, m, k).size;
        let last = added(players[j as int], events[j as int], room);
        assert(size == if last > before {
            last
        } else {
            before
        });
        if size != m.size && size == before {
            let i = choose|i: int|
                0 <= i < j && before == added(#[trigger] players[i], events[i], room);
            assert(0 <= i < k && size == added(players[i], events[i], room));
        }
    }
}

/// A frame is as long as its longest source: no source adds more, and one of
/// them adds as much.
pub proof fn law_frame_is_its_longest_source(
    voice: Seq<u8>,
    players: Seq<PlayerModel>,
    events: Seq<FetchEvent>,
    room: nat,
    before: MixModel,
)
    ensures
        ({
            let size = frame_of(voice, players, events, room, before).size;
            let spoken = crate::pipe::transfer(voice.len(), room);
            &&& size >= spoken
            &&& forall|i: int|
                0 <= i < players.len() ==> size >= added(#[trigger] players[i], events[i], room)
            &&& size == spoken || exists|i: int|
                0 <= i < players.len() && size == added(#[trigger] players[i], events[i], room)
        }),
{
    let m = crate::scratch::mix_after_pipe(voice, room, crate::scratch::cleared(before));
    lemma_players_longest(players, events, room, m, players.len());
}

proof fn lemma_players_silent(
    players: Seq<PlayerModel>,
    events: Seq<FetchEvent>,
    room: nat,
    m: MixModel,
    k: nat,
)
    requires
        room <= BUFFER_BYTES,
        m.size <= room,
        crate::scratch::mix_inv(m),
    ensures
        mix_after_players(players, events, room, m, k).size == 0 <==> m.size == 0 && forall|i: int|
            0 <= i < k ==> !contributes(#[trigger] players[i], events[i], room),
        mix_after_players(players, events, room, m, k).size == 0 ==> mix_after_players(
            players,
            events,
            room,
            m,
            k,
        ).mixed == m.mixed,
    decreases k,
{
    if k > 0 {
        let j = (k - 1) as nat;
        lemma_players_silent(players, events, room, m, j);
        lemma_players_bounded(players, events, room, m, j);
        if mix_after_players(players, events, room, m, j).size == 0 && !contributes(
            players[j as int],
            events[j as int],
            room,
        ) {
            assert forall|i: int| 0 <= i < k implies !contributes(
                #[trigger] players[i],
                events[i],
                room,
            ) by {
                if i == j {
                }
            }
        }
    }
}

/// A round makes no frame exactly when the client said nothing and no player
/// adds anything, and the buffer is then silent.
pub proof fn law_no_source_no_frame(
    voice: Seq<u8>,
    players: Seq<PlayerModel>,
    events: Seq<FetchEvent>,
    room: nat,
    before: MixModel,
)
    requires
        0 < room <= BUFFER_BYTES,
        crate::scratch::mix_inv(before),
    ensures
        frame_of(voice, players, events, room, before).size == 0 <==> voice.len() == 0 && forall|
            i: int,
        |
            0 <= i < players.len() ==> !contributes(#[trigger] players[i], events[i], room),
        frame_of(voice, players, events, room, before).size == 0 ==> crate::sample::silent(
            frame_of(voice, players, events, room, before).mixed,
        ),
{
    let m = crate::scratch::mix_after_pipe(voice, room, crate::scratch::cleared(before));
    lemma_players_silent(players, events, room, m, players.len());
}

/// Sample `k` of a frame after the client's voice and the first `n` players
/// were added up, one after the other, each sum saturating.
///
/// Voice can end in half a sample. The byte that the last read left behind it
/// is then its other half.
pub open spec fn summed(
    voice: Seq<u8>,
    players: Seq<PlayerModel>,
    events: Seq<FetchEvent>,
    room: nat,
    last_read: Seq<u8>,
    k: int,
    n: nat,
) -> int
    decreases n,
{
    if n == 0 {
        let spoken = crate::pipe::transfer(voice.len(), room);
        if 2 * k < spoken {
            clamp_sample(0 + sample_at(crate::pipe::filled(voice, last_read, spoken), k))
        } else {
            0
        }
    } else {
        let sum = summed(voice, players, events, room, last_read, k, (n - 1) as nat);
        let player = players[n - 1];
        let event = events[n - 1];
        if 2 * k < added(player, event, room) {
            clamp_sample(sum + sample_at(crate::reader::handed_out(player.reader, event, room), k))
        } else {
            sum
        }
    }
}

proof fn lemma_players_summed(
    voice: Seq<u8>,
    players: Seq<PlayerModel>,
    events: Seq<FetchEvent>,
    room: nat,
    before: MixModel,
    k: int,
    n: nat,
)
    requires
        room <= BUFFER_BYTES,
        crate::scratch::mix_inv(before),
        0 <= k < BUFFER_BYTES / 2,
    ensures
        ({
            let start = crate::scratch::mix_after_pipe(
                voice,
                room,
                crate::scratch::cleared(before),
            );
            sample_at(mix_after_players(players, events, room, start, n).mixed, k) == summed(
                voice,
                players,
                events,
                room,
                before.buf,
                k,
                n,
            )
        }),
    decreases n,
{
    let clear = crate::scratch::cleared(before);
    let start = crate::scratch::mix_after_pipe(voice, room, clear);
    if n == 0 {
        let spoken = crate::pipe::transfer(voice.len(), room);
        let buf = crate::pipe::filled(voice, before.buf, spoken);
        crate::sample::law_mix_adds_samples(spoken, buf, clear.mixed, k);
        assert(sample_at(clear.mixed, k) == 0);
    } else {
        let j = (n - 1) as nat;
        lemma_players_summed(voice, players, events, room, before, k, j);
        lemma_players_bounded(players, events, room, start, j);
        let m = mix_after_players(players, events, room, start, j);
        let player = players[j as int];
        let event = events[j as int];
        if contributes(player, event, room) {
            let queue = crate::reader::queue_with(player.reader, event);
            let count = crate::reader::polled_count(player.reader, event, room);
            let buf = crate::pipe::filled(queue, m.buf, count);
            crate::sample::law_mix_adds_samples(count, buf, m.mixed, k);
            if 2 * k < count {
                assert(sample_at(buf, k) == sample_at(queue.take(count as int), k));
            }
        }
    }
}

/// Every sample of a frame is the sum of the samples that its sources have
/// there: the client's voice first, then the players in order, and each sum
/// saturates before the next is added.
pub proof fn law_frame_sums_its_sources(
    voice: Seq<u8>,
    players: Seq<PlayerModel>,
    events: Seq<FetchEvent>,
    room: nat,
    before: MixModel,
    k: int,
)
    requires
        room <= BUFFER_BYTES,
        crate::scratch::mix_inv(before),
        0 <= k < BUFFER_BYTES / 2,
    ensures
        sample_at(frame_of(voice, players, events, room, before).mixed, k) == summed(
            voice,
            players,
            events,
            room,
            before.buf,
            k,
            players.len(),
        ),
{
    lemma_players_summed(voice, players, events, room, before, k, players.len());
}

/// A player that is the only source of a frame is played bit for bit: the
/// frame is the bytes that its reader handed out.
pub proof fn law_lone_player_is_exact(
    player: PlayerModel,
    event: FetchEvent,
    room: nat,
    before: MixModel,
)
    requires
        room <= BUFFER_BYTES,
        crate::scratch::mix_inv(before),
        contributes(player, event, room),
    ensures
        ({
            let frame = frame_of(Seq::empty(), seq![player], seq![event], room, before);
            frame.mixed.take(frame.size as int) == crate::reader::handed_out(
                player.reader,
                event,
                room,
            )
        }),
{
    let players = seq![player];
    let events = seq![event];
    let start = crate::scratch::mix_after_pipe(
        Seq::empty(),
        room,
        crate::scratch::cleared(before),
    );
    let frame = frame_of(Seq::empty(), players, events, room, before);
    assert(mix_after_players(players, events, room, start, 0) == start);
    assert(frame == crate::player::mix_after(player, event, room, start));
    let queue = crate::reader::queue_with(player.reader, event);
    let count = crate::reader::polled_count(player.reader, event, room);
    let buf = crate::pipe::filled(queue, start.buf, count);
    crate::sample::law_mix_onto_silence_copies(count, buf, start.mixed);
    assert(frame.mixed.take(frame.size as int) =~= queue.take(count as int));
}

/// The client's voice, when it is the only source of a frame, is sent bit for
/// bit.
pub proof fn law_lone_voice_is_exact(voice: Seq<u8>, room: nat, before: MixModel)
    requires
        room <= BUFFER_BYTES,
        crate::scratch::mix_inv(before),
    ensures
        ({
            let frame = frame_of(voice, Seq::empty(), Seq::empty(), room, before);
            frame.mixed.take(frame.size as int) == voice.take(
                crate::pipe::transfer(voice.len(), room) as int,
            )
        }),
{
    let clear = crate::scratch::cleared(before);
    let frame = frame_of(voice, Seq::empty(), Seq::empty(), room, before);
    let count = crate::pipe::transfer(voice.len(), room);
    let buf = crate::pipe::filled(voice, clear.buf, count);
    if count > 0 {
        crate::sample::law_mix_onto_silence_copies(count, buf, clear.mixed);
    }
    assert(frame.mixed.take(frame.size as int) =~= voice.take(count as int));
}

/// The client's voice alone: as much of it as there is and as fits is the
/// frame, and behind it the frame is silent. When that is an odd number of
/// bytes, the byte behind it is what the last read left there.
pub proof fn law_voice_begins_the_frame(voice: Seq<u8>, room: nat, before: MixModel, i: int)
    requires
        room <= BUFFER_BYTES,
        before.buf.len() == before.mixed.len() == BUFFER_BYTES,
        0 <= i < BUFFER_BYTES,
    ensures
        ({
            let frame = frame_of(voice, Seq::empty(), Seq::empty(), room, before);
            &&& frame.size <= voice.len() && frame.size <= room
            &&& frame.size == voice.len() || frame.size == room
            &&& i < frame.size ==> frame.mixed[i] == voice[i]
            &&& i == frame.size && frame.size % 2 == 1 ==> frame.mixed[i] == before.buf[i]
            &&& i == frame.size && frame.size % 2 == 0 ==> frame.mixed[i] == 0
            &&& i > frame.size ==> frame.mixed[i] == 0
            &&& frame.mixed.len() == before.mixed.len()
        }),
{
    let clear = crate::scratch::cleared(before);
    let count = crate::pipe::transfer(voice.len(), room);
    let buf = crate::pipe::filled(voice, clear.buf, count);
    if count > 0 {
        crate::sample::law_mix_onto_silence_copies(count, buf, clear.mixed);
    }
}

proof fn lemma_players_before(
    players: Seq<PlayerModel>,
    events: Seq<FetchEvent>,
    player: PlayerModel,
    event: FetchEvent,
    room: nat,
    m: MixModel,
    k: nat,
)
    requires
        k <= players.len() == events.len(),
    ensures
        mix_after_players(players.push(player), events.push(event), room, m, k)
            == mix_after_players(players, events, room, m, k),
    decreases k,
{
    if k > 0 {
        lemma_players_before(players, events, player, event, room, m, (k - 1) as nat);
        assert(players.push(player)[k - 1] == players[k - 1]);
        assert(events.push(event)[k - 1] == events[k - 1]);
    }
}

/// One more player behind the others adds what its reader hands out to the
/// frame that the others make, sample by sample and in numbers, when that is a
/// positive even number of bytes. Otherwise the frame is the one that the
/// others make.
pub proof fn law_one_more_player_is_added(
    voice: Seq<u8>,
    players: Seq<PlayerModel>,
    events: Seq<FetchEvent>,
    player: PlayerModel,
    event: FetchEvent,
    room: nat,
    before: MixModel,
    k: int,
)
    requires
        players.len() == events.len(),
        room <= BUFFER_BYTES,
        before.buf.len() == before.mixed.len() == BUFFER_BYTES,
        0 <= k,
        2 * k + 2 <= BUFFER_BYTES,
    ensures
        ({
            let others = frame_of(voice, players, events, room, before);
            let all = frame_of(voice, players.push(player), events.push(event), room, before);
            let out = crate::reader::handed_out(player.reader, event, room);
            let plays = out.len() > 0 && out.len() % 2 == 0;
            let value = |bytes: Seq<u8>|
                bytes[2 * k] + 256 * bytes[2 * k + 1] - (if bytes[2 * k + 1] >= 128 {
                    65536int
                } else {
                    0int
                });
            let sum = value(out) + value(others.mixed);
            &&& plays ==> {
                &&& all.size >= out.len() && all.size >= others.size
                &&& all.size == out.len() || all.size == others.size
                &&& 2 * k < out.len() && -32768 <= sum <= 32767 ==> value(all.mixed) == sum
                &&& 2 * k < out.len() && sum > 32767 ==> value(all.mixed) == 32767
                &&& 2 * k < out.len() && sum < -32768 ==> value(all.mixed) == -32768
                &&& 2 * k >= out.len() ==> value(all.mixed) == value(others.mixed)
            }
            &&& !plays ==> all.size == others.size && all.mixed == others.mixed
        }),
{
    let start = crate::scratch::mix_after_pipe(voice, room, crate::scratch::cleared(before));
    let others = frame_of(voice, players, events, room, before);
    lemma_players_before(players, events, player, event, room, start, players.len());
    lemma_players_bounded(players, events, room, start, players.len());
    crate::player::law_player_adds_what_it_is_handed(player, event, room, others, k);
    assert(frame_of(voice, players.push(player), events.push(event), room, before)
        == crate::player::mix_after(player, event, room, others));
}

/// A player adds as many bytes as its reader hands out when that is a positive
/// even number, and none otherwise.
pub proof fn law_even_reads_are_added(p: PlayerModel, event: FetchEvent, room: nat)
    requires
        room <= usize::MAX,
    ensures
        ({
            let out = crate::reader::handed_out(p.reader, event, room).len();
            &&& out > 0 && out % 2 == 0 ==> added(p, event, room) == out && contributes(
                p,
                event,
                room,
            )
            &&& out == 0 || out % 2 == 1 ==> added(p, event, room) == 0 && !contributes(
                p,
                event,
                room,
            )
        }),
{
    crate::reader::law_poll_hands_out_what_fits(p.reader, event, (), room);
}

/// Mixers with the same settings speak as the same slot, are heard by their
/// client alike, and can be stopped alike. The states of the players are those
/// of the players, one by one.
pub proof fn law_mixer_parts<R>(a: Mixer<R>, b: Mixer<R>)
    ensures
        a.same_settings(&b) <==> a.spec_slot() == b.spec_slot() && a.spec_hearself()
            == b.spec_hearself() && a.stoppable() == b.stoppable(),
        a.models().len() == a.players().len(),
        forall|i: int| 0 <= i < a.players().len() ==> #[trigger] a.models()[i] == a.players()[i]@,
{
}

} // verus!
