use audio_ext::extension::Extension;
use audio_ext::host::{broadcast, hearing_override, helper_file, interface_matches, Broadcast};
use audio_ext::lifecycle::{RunPlan, RunState, RunStep, ShutdownPlan};
use audio_ext::mixer::VoicePacket;
use audio_ext::player::Player;
use audio_ext::scratch::Scratch;
use audio_ext::text::{decimal, has_prefix, signed_decimal};

fn packet(slot: i32) -> VoicePacket {
    VoicePacket { slot, data: vec![slot as u8], hearself: slot % 2 == 0 }
}

#[test]
fn every_slot_has_its_mixer() {
    let ext: Extension<u8> = Extension::init();
    assert_eq!(ext.mixer_count(), 65);
    for slot in 0..65 {
        assert_eq!(ext.mixer(slot).slot(), slot as i32);
        assert!(!ext.mixer(slot).hearself());
        assert_eq!(ext.mixer(slot).player_count(), 0);
    }
}

#[test]
fn hearing_oneself_reads_back() {
    let mut ext: Extension<u8> = Extension::init();
    ext.set_client_can_hear_self(3, true);
    assert!(ext.client_can_hear_self(3));
    assert!(ext.mixer(2).hearself());
    assert!(!ext.client_can_hear_self(2));
    assert!(!ext.client_can_hear_self(4));
    ext.set_client_can_hear_self(3, false);
    assert!(!ext.client_can_hear_self(3));
}

#[test]
fn clients_without_a_slot_are_ignored() {
    let mut ext: Extension<u8> = Extension::init();
    for client in [i32::MIN, -1, 0, 66, i32::MAX] {
        ext.set_client_can_hear_self(client, true);
        assert!(!ext.client_can_hear_self(client));
    }
    for slot in 0..65 {
        assert!(!ext.mixer(slot).hearself());
    }
    ext.set_client_can_hear_self(65, true);
    assert!(ext.mixer(64).hearself());
}

#[test]
fn slots_are_checked() {
    let ext: Extension<u8> = Extension::init();
    assert_eq!(ext.play_slot(0), Ok(0));
    assert_eq!(ext.play_slot(64), Ok(64));
    assert_eq!(ext.play_slot(65), Err("Slot out of range: 65".to_string()));
    assert_eq!(ext.play_slot(-1), Err("Slot out of range: -1".to_string()));
    assert_eq!(
        ext.play_slot(i32::MIN),
        Err("Slot out of range: -2147483648".to_string())
    );
}

#[test]
fn players_are_attached_to_their_slot() {
    let mut ext: Extension<u8> = Extension::init();
    assert!(ext.attach(5, Player::new(1)).is_ok());
    assert!(ext.attach(5, Player::new(2)).is_ok());
    assert_eq!(ext.mixer(5).player_count(), 2);
    assert_eq!(*ext.mixer(5).player(1).link(), 2);
    assert_eq!(ext.mixer(6).player_count(), 0);
    assert_eq!(ext.attach(100, Player::new(3)), Err("Out of slot: 100".to_string()));
}

#[test]
fn voice_goes_to_its_mixer() {
    let mut ext: Extension<u8> = Extension::init();
    let mut scratch = Scratch::new();
    assert!(ext.hears_slot(64));
    assert!(!ext.hears_slot(65));
    ext.write_voice(3, &[1, 2, 3, 4, 5, 6], 2);
    ext.write_voice(99, &[1, 2], 1);
    ext.mixer_mut(3).mix_frame(1024, &vec![], &mut scratch);
    assert_eq!(scratch.frame().unwrap().0, &[1, 2, 3, 4][..]);
    ext.mixer_mut(2).mix_frame(1024, &vec![], &mut scratch);
    assert!(scratch.frame().is_none());
}

#[test]
fn packets_leave_newest_first() {
    let mut ext: Extension<u8> = Extension::init();
    for slot in 1..4 {
        ext.queue_game_frame(packet(slot));
    }
    let sent = ext.on_game_frame();
    let slots: Vec<i32> = sent.iter().map(|p| p.slot).collect();
    assert_eq!(slots, vec![3, 2, 1]);
    assert_eq!(sent[0].data, vec![3]);
    assert!(sent[1].hearself);
    assert!(ext.on_game_frame().is_empty());
}

#[test]
fn encoded_frames_are_queued() {
    let mut ext: Extension<u8> = Extension::init();
    ext.set_client_can_hear_self(8, true);
    ext.queue_encoded(7, &[1, 2, 3], 0);
    assert!(ext.on_game_frame().is_empty());
    ext.queue_encoded(7, &[1, 2, 3], 2);
    ext.queue_encoded(8, &[4], 1);
    let sent = ext.on_game_frame();
    assert_eq!(sent.len(), 2);
    assert_eq!((sent[0].slot, sent[0].hearself), (8, false));
    assert_eq!(sent[0].data, vec![4]);
    assert_eq!((sent[1].slot, sent[1].hearself), (7, true));
    assert_eq!(sent[1].data, vec![1, 2]);
}

#[test]
fn run_starts_stops_and_joins() {
    let mut plan = RunPlan::new(2);
    let expected = [
        RunStep::Spawn(0),
        RunStep::Spawn(1),
        RunStep::AwaitStop,
        RunStep::Stop(0),
        RunStep::Stop(1),
        RunStep::Join(1),
        RunStep::Join(0),
        RunStep::Done,
        RunStep::Done,
    ];
    for step in expected {
        assert_eq!(plan.next(), step);
    }
    let mut empty = RunPlan::new(0);
    assert_eq!(empty.next(), RunStep::AwaitStop);
    assert_eq!(empty.next(), RunStep::Done);
}

#[test]
fn shutdown_unloads() {
    let mut state = RunState::new();
    assert!(!state.is_loaded());
    state.load();
    assert!(state.is_loaded());
    assert_eq!(state.shutdown(), ShutdownPlan { signal: false, join: false });
    assert!(!state.is_loaded());
    state.load();
    state.started();
    assert_eq!(state.shutdown(), ShutdownPlan { signal: true, join: true });
    assert!(!state.is_loaded());
    state.load();
    assert_eq!(state.shutdown(), ShutdownPlan { signal: false, join: false });
}

#[test]
fn helper_files_are_in_the_data_directory() {
    assert_eq!(helper_file("ffmpeg"), "data/audio_ext/ffmpeg");
    assert_eq!(helper_file("youtube-dl.exe"), "data/audio_ext/youtube-dl.exe");
}

#[test]
fn broadcasts_are_chosen() {
    assert_eq!(broadcast(false, true), Broadcast::Skip);
    assert_eq!(broadcast(false, false), Broadcast::Skip);
    assert_eq!(broadcast(true, true), Broadcast::HearSelf);
    assert_eq!(broadcast(true, false), Broadcast::Plain);
    assert_eq!(hearing_override(3, 3), Some(true));
    assert_eq!(hearing_override(3, 4), None);
}

#[test]
fn interfaces_are_told_apart() {
    assert!(interface_matches(Some(b"ISmmPlugin"), b"ISmmPlugin"));
    assert!(!interface_matches(Some(b"ISmmPlugiN"), b"ISmmPlugin"));
    assert!(!interface_matches(Some(b"ISmm"), b"ISmmPlugin"));
    assert!(!interface_matches(None, b""));
    assert!(interface_matches(Some(b""), b""));
}

#[test]
fn numbers_are_decimal() {
    assert_eq!(decimal(0), "0");
    assert_eq!(decimal(9), "9");
    assert_eq!(decimal(10), "10");
    assert_eq!(decimal(1234567890), "1234567890");
    assert_eq!(decimal(u64::MAX), "18446744073709551615");
    assert_eq!(signed_decimal(-7), "-7");
    assert_eq!(signed_decimal(i32::MIN), "-2147483648");
    assert_eq!(signed_decimal(i32::MAX), "2147483647");
}

#[test]
fn prefixes_are_found() {
    assert!(has_prefix("abc", ""));
    assert!(has_prefix("abc", "abc"));
    assert!(has_prefix("\u{e9}\u{e8}x", "\u{e9}\u{e8}"));
    assert!(!has_prefix("ab", "abc"));
    assert!(!has_prefix("xabc", "abc"));
}
