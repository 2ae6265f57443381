//! Decisions about the game server that the extension runs in.
use vstd::prelude::*;
use vstd::string::StringExecFns;

verus! {

/// How a packet is broadcast.
#[derive(Clone, Copy, Debug, PartialEq, Eq, Structural)]
pub enum Broadcast {
    /// Not at all: nobody is in the slot.
    Skip,
    /// As the server does it.
    Plain,
    /// So that the client in the slot hears it too.
    HearSelf,
}

/// How to broadcast a packet as the client in a slot.
pub fn broadcast(client_present: bool, hearself: bool) -> (way: Broadcast)
    ensures
        way == if !client_present {
            Broadcast::Skip
        } else if hearself {
            Broadcast::HearSelf
        } else {
            Broadcast::Plain
        },
{
    if !client_present {
        Broadcast::Skip
    } else if hearself {
        Broadcast::HearSelf
    } else {
        Broadcast::Plain
    }
}

/// Whether a client hears a slot, decided ahead of the server: it hears its
/// own, and the server decides about the others.
pub fn hearing_override(own_slot: i32, slot: i32) -> (hears: Option<bool>)
    ensures
        hears == if slot == own_slot {
            Some(true)
        } else {
            None::<bool>
        },
{
    if slot == own_slot {
        Some(true)
    } else {
        None
    }
}

/// The file of a helper program, relative to the directory of SourceMod.
pub fn helper_file(name: &str) -> (file: String)
    ensures
        file@ == "data/audio_ext/"@ + name@,
{
    "data/audio_ext/".to_owned().concat(name)
}

/// Whether the interface that is asked for by name is the wanted one.
pub fn interface_matches(name: Option<&[u8]>, wanted: &[u8]) -> (matches: bool)
    ensures
        matches == (name is Some && name->0@ == wanted@),
{
    match name {
        Some(given) => {
            if given.len() != wanted.len() {
                return false;
            }
            let mut i: usize = 0;
            while i < given.len()
                invariant
                    name == Some(given),
                    i <= given@.len(),
                    given@.len() == wanted@.len(),
                    forall|j: int| 0 <= j < i ==> given@[j] == wanted@[j],
                decreases given@.len() - i,
            {
                if given[i] != wanted[i] {
                    return false;
                }
                i = i + 1;
            }
            assert(given@ =~= wanted@);
            true
        },
        None => false,
    }
}

} // verus!
