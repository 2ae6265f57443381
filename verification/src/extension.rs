//! The extension: one mixer per slot, and the packets that wait for the next
//! game frame.
use crate::mixer::{Mixer, VoicePacket};
use crate::player::Player;
use vstd::prelude::*;
use vstd::string::StringExecFns;

verus! {

/// The highest slot that a client can have.
pub const MAXSLOT: usize = 64;

/// The bytes that one decoded voice message can take.
pub const DECODE_BYTES: usize = 22050;

/// The state of the extension.
pub struct Extension<R> {
    mixers: Vec<Mixer<R>>,
    packets: Vec<VoicePacket>,
}

/// Whether a client index, which counts from one, names one of `count` slots.
pub open spec fn names_slot(client: int, count: nat) -> bool {
    1 <= client <= count
}

impl<R> Extension<R> {
    /// The mixers, by slot.
    pub closed spec fn mixers(&self) -> Seq<Mixer<R>> {
        self.mixers@
    }

    /// The packets that wait for the next game frame, oldest first.
    pub closed spec fn packets(&self) -> Seq<VoicePacket> {
        self.packets@
    }

    /// Every slot has its mixer, and the mixer speaks as that slot.
    pub open spec fn inv(&self) -> bool {
        &&& self.mixers().len() == MAXSLOT + 1
        &&& forall|i: int| 0 <= i <= MAXSLOT ==> (#[trigger] self.mixers()[i]).spec_slot() == i
    }

    /// Whether a client hears what is sent as itself.
    pub open spec fn hears_self(&self, client: int) -> bool {
        names_slot(client, self.mixers().len()) && self.mixers()[client - 1].spec_hearself()
    }

    /// Whether `after` differs from this state only in that a client, if the
    /// index names one, hears itself or does not.
    pub open spec fn hear_self_set(
        &self,
        after: &Extension<R>,
        client: int,
        can_hear: bool,
    ) -> bool {
        &&& after.packets() == self.packets()
        &&& after.mixers().len() == self.mixers().len()
        &&& forall|i: int|
            #![trigger after.mixers()[i]]
            0 <= i < self.mixers().len() && i != client - 1 ==> after.mixers()[i]
                == self.mixers()[i]
        &&& names_slot(client, self.mixers().len()) ==> {
            let before = self.mixers()[client - 1];
            let now = after.mixers()[client - 1];
            &&& now.spec_hearself() == can_hear
            &&& now.spec_slot() == before.spec_slot()
            &&& now.stoppable() == before.stoppable()
            &&& now.players() == before.players()
            &&& now.voice() == before.voice()
            &&& now.awaits_voice() == before.awaits_voice()
        }
    }

    /// A fresh mixer for every slot, and no packets.
    pub fn init() -> (ext: Extension<R>)
        ensures
            ext.inv(),
            ext.mixers().len() == MAXSLOT + 1,
            forall|i: int|
                #![trigger ext.mixers()[i]]
                0 <= i <= MAXSLOT ==> {
                    &&& ext.mixers()[i].spec_slot() == i
                    &&& !ext.mixers()[i].spec_hearself()
                    &&& !ext.mixers()[i].stoppable()
                    &&& ext.mixers()[i].players() == Seq::<Player<R>>::empty()
                    &&& ext.mixers()[i].voice() == Seq::<u8>::empty()
                    &&& !ext.mixers()[i].awaits_voice()
                },
            ext.packets() == Seq::<VoicePacket>::empty(),
    {
        let mut mixers: Vec<Mixer<R>> = Vec::new();
        let mut slot: usize = 0;
        while slot < MAXSLOT + 1
            invariant
                slot <= MAXSLOT + 1,
                mixers@.len() == slot,
                forall|i: int|
                    #![trigger mixers@[i]]
                    0 <= i < slot ==> {
                        &&& mixers@[i].spec_slot() == i
                        &&& !mixers@[i].spec_hearself()
                        &&& !mixers@[i].stoppable()
                        &&& mixers@[i].players() == Seq::<Player<R>>::empty()
                        &&& mixers@[i].voice() == Seq::<u8>::empty()
                        &&& !mixers@[i].awaits_voice()
                    },
            decreases MAXSLOT + 1 - slot,
        {
            mixers.push(Mixer::new(slot as i32));
            slot = slot + 1;
        }
        Extension { mixers, packets: Vec::new() }
    }

    /// How many mixers there are.
    pub fn mixer_count(&self) -> (count: usize)
        ensures
            count == self.mixers().len(),
    {
        self.mixers.len()
    }

    /// The mixer of a slot.
    pub fn mixer(&self, slot: usize) -> (mixer: &Mixer<R>)
        requires
            slot < self.mixers().len(),
        ensures
            *mixer == self.mixers()[slot as int],
    {
        &self.mixers[slot]
    }

    /// The mixer of a slot, to be changed.
    pub fn mixer_mut(&mut self, slot: usize) -> (mixer: &mut Mixer<R>)
        requires
            slot < old(self).mixers().len(),
        ensures
            *mixer == old(self).mixers()[slot as int],
            final(self).mixers() == old(self).mixers().update(slot as int, *final(mixer)),
            final(self).packets() == old(self).packets(),
            old(self).inv() && final(mixer).spec_slot() == slot ==> final(self).inv(),
    {
        &mut self.mixers[slot]
    }

    /// Whether a client hears what is sent as itself. An index that names no
    /// slot hears nothing.
    pub fn client_can_hear_self(&self, client: i32) -> (hears: bool)
        ensures
            hears == self.hears_self(client as int),
    {
        if client < 1 || client as usize > self.mixers.len() {
            return false;
        }
        self.mixers[client as usize - 1].hearself()
    }

    /// Sets whether a client hears what is sent as itself. An index that names
    /// no slot is ignored.
    pub fn set_client_can_hear_self(&mut self, client: i32, can_hear: bool)
        ensures
            old(self).inv() ==> final(self).inv(),
            old(self).hear_self_set(final(self), client as int, can_hear),
    {
        if client < 1 || client as usize > self.mixers.len() {
            return;
        }
        self.mixers[client as usize - 1].set_hearself(can_hear);
    }

    /// The slot to play in, or the message for a slot that is out of range.
    pub fn play_slot(&self, slot: i32) -> (checked: Result<usize, String>)
        ensures
            match checked {
                Ok(index) => index == slot && 0 <= slot < self.mixers().len(),
                Err(message) => !(0 <= slot < self.mixers().len()) && message@
                    == "Slot out of range: "@ + crate::text::signed_text(slot as int),
            },
    {
        if slot < 0 || slot as usize >= self.mixers.len() {
            Err(
                "Slot out of range: ".to_owned().concat(
                    crate::text::signed_decimal(slot).as_str(),
                ),
            )
        } else {
            Ok(slot as usize)
        }
    }

    /// Adds a player to the mixer of a slot, or returns the message for a slot
    /// that no mixer has.
    pub fn attach(&mut self, slot: usize, player: Player<R>) -> (attached: Result<(), String>)
        ensures
            old(self).inv() ==> final(self).inv(),
            final(self).packets() == old(self).packets(),
            final(self).mixers().len() == old(self).mixers().len(),
            attached is Ok <==> slot < old(self).mixers().len(),
            match attached {
                Ok(_) => {
                    let before = old(self).mixers()[slot as int];
                    let after = final(self).mixers()[slot as int];
                    &&& after.players() == before.players().push(player)
                    &&& after.voice() == before.voice()
                    &&& after.awaits_voice() == before.awaits_voice()
                    &&& after.same_settings(&before)
                    &&& final(self).mixers() == old(self).mixers().update(slot as int, after)
                },
                Err(message) => {
                    &&& final(self).mixers() == old(self).mixers()
                    &&& message@ == "Out of slot: "@ + crate::text::decimal_text(slot as nat)
                },
            },
    {
        if slot < self.mixers.len() {
            self.mixers[slot].push(player);
            Ok(())
        } else {
            Err("Out of slot: ".to_owned().concat(crate::text::decimal(slot as u64).as_str()))
        }
    }

    /// Whether voice that comes from a slot is mixed.
    pub fn hears_slot(&self, slot: usize) -> (hears: bool)
        ensures
            hears == (slot < self.mixers().len()),
    {
        slot < self.mixers.len()
    }

    /// Adds the decoded voice of the client in a slot: `samples` samples of two
    /// bytes at the start of `decoded`. Voice from a slot without a mixer is
    /// dropped.
    pub fn write_voice(&mut self, slot: usize, decoded: &[u8], samples: usize)
        requires
            2 * samples <= decoded@.len(),
        ensures
            old(self).inv() ==> final(self).inv(),
            final(self).packets() == old(self).packets(),
            final(self).mixers().len() == old(self).mixers().len(),
            slot >= old(self).mixers().len() ==> final(self).mixers() == old(self).mixers(),
            slot < old(self).mixers().len() ==> {
                let before = old(self).mixers()[slot as int];
                let after = final(self).mixers()[slot as int];
                &&& after.voice() == before.voice() + decoded@.take(2 * samples)
                &&& after.players() == before.players()
                &&& after.awaits_voice() == before.awaits_voice()
                &&& after.same_settings(&before)
                &&& final(self).mixers() == old(self).mixers().update(slot as int, after)
            },
    {
        if slot < self.mixers.len() {
            assert(decoded.len() == decoded@.len());
            let voice: &[u8] = vstd::slice::slice_subrange(decoded, 0, samples * 2);
            self.mixers[slot].write(voice);
        }
    }

    /// Keeps a packet for the next game frame.
    pub fn queue_game_frame(&mut self, packet: VoicePacket)
        ensures
            old(self).inv() ==> final(self).inv(),
            final(self).packets() == old(self).packets().push(packet),
            final(self).mixers() == old(self).mixers(),
    {
        self.packets.push(packet);
    }

    /// Keeps a frame of a slot, as it was encoded, for the next game frame:
    /// `size` bytes at the start of `encoded`. Nothing is kept of an empty one.
    pub fn queue_encoded(&mut self, slot: usize, encoded: &[u8], size: usize)
        requires
            slot < old(self).mixers().len(),
            size <= encoded@.len(),
        ensures
            old(self).inv() ==> final(self).inv(),
            final(self).mixers() == old(self).mixers(),
            size == 0 ==> final(self).packets() == old(self).packets(),
            size != 0 ==> {
                let mixer = old(self).mixers()[slot as int];
                let packet = final(self).packets().last();
                &&& final(self).packets() == old(self).packets().push(packet)
                &&& packet.slot == mixer.spec_slot()
                &&& packet.hearself == mixer.spec_hearself()
                &&& packet.data@ == encoded@.take(size as int)
            },
    {
        if let Some(packet) = self.mixers[slot].packet(encoded, size) {
            self.queue_game_frame(packet);
        }
    }

    /// Hands out the packets that are to be sent in this game frame, the
    /// newest first, and keeps none.
    pub fn on_game_frame(&mut self) -> (sent: Vec<VoicePacket>)
        ensures
            old(self).inv() ==> final(self).inv(),
            sent@ == old(self).packets().reverse(),
            final(self).packets() == Seq::<VoicePacket>::empty(),
            final(self).mixers() == old(self).mixers(),
    {
        let ghost all = self.packets@;
        let mut sent: Vec<VoicePacket> = Vec::new();
        while self.packets.len() > 0
            invariant
                self.packets@.len() <= all.len(),
                self.packets@ == all.take(self.packets@.len() as int),
                sent@ == all.reverse().take(all.len() - self.packets@.len()),
                self.mixers() == old(self).mixers(),
            decreases self.packets@.len(),
        {
            let ghost left = self.packets@.len();
            match self.packets.pop() {
                Some(packet) => {
                    assert(packet == all[left - 1]);
                    sent.push(packet);
                },
                None => {},
            }
            assert(self.packets@ =~= all.take(self.packets@.len() as int));
            assert(sent@ =~= all.reverse().take(all.len() - self.packets@.len()));
        }
        assert(self.packets@ =~= Seq::<VoicePacket>::empty());
        assert(sent@ =~= all.reverse());
        sent
    }
}

/// What was set for a client is read back for it, and for nobody else.
pub proof fn law_hear_self_reads_back<R>(
    before: Extension<R>,
    after: Extension<R>,
    client: int,
    can_hear: bool,
    other: int,
)
    requires
        before.hear_self_set(&after, client, can_hear),
    ensures
        names_slot(client, before.mixers().len()) ==> after.hears_self(client) == can_hear,
        other != client ==> after.hears_self(other) == before.hears_self(other),
{
    if other != client && names_slot(other, before.mixers().len()) {
        assert(after.mixers()[other - 1] == before.mixers()[other - 1]);
    }
}

/// There are 65 slots, the clients from 1 to 65 are in them, and each hears
/// itself as the mixer of its slot has it. Nobody else hears anything.
pub proof fn law_clients_are_in_slots<R>(ext: Extension<R>, client: int)
    requires
        ext.inv(),
    ensures
        ext.mixers().len() == 65,
        1 <= client <= 65 ==> ext.mixers()[client - 1].spec_slot() == client - 1,
        1 <= client <= 65 ==> (ext.hears_self(client) <==> ext.mixers()[client
            - 1].spec_hearself()),
        client < 1 || client > 65 ==> !ext.hears_self(client),
{
    if 1 <= client <= 65 {
        assert(ext.mixers()[client - 1].spec_slot() == client - 1);
    }
}

/// Setting whether a client hears itself sets that, for every client there is,
/// and nothing else: not for another client, and nothing of what is played,
/// said or queued.
pub proof fn law_hear_self_sets_one_thing<R>(
    before: Extension<R>,
    after: Extension<R>,
    client: int,
    can_hear: bool,
    slot: int,
)
    requires
        before.hear_self_set(&after, client, can_hear),
        0 <= slot < before.mixers().len(),
    ensures
        after.mixers().len() == before.mixers().len(),
        after.packets() == before.packets(),
        slot != client - 1 ==> after.mixers()[slot] == before.mixers()[slot],
        slot == client - 1 ==> {
            let was = before.mixers()[slot];
            let is = after.mixers()[slot];
            &&& is.spec_hearself() == can_hear
            &&& is.spec_slot() == was.spec_slot()
            &&& is.stoppable() == was.stoppable()
            &&& is.players() == was.players()
            &&& is.voice() == was.voice()
            &&& is.awaits_voice() == was.awaits_voice()
        },
{
    assert(slot != client - 1 ==> after.mixers()[slot] == before.mixers()[slot]);
}

/// A decoded voice message is half a second of samples at most.
pub proof fn law_decoded_voice_is_bounded(samples: int)
    ensures
        2 * samples <= DECODE_BYTES <==> samples <= 11025,
{
}

} // verus!
