use audio_ext::mixer::Mixer;
use audio_ext::pace::{poll_size, PullTimer};
use audio_ext::player::{Player, PlayerStatus, ReadOutcome};
use audio_ext::reader::{FetchAction, FetchEvent, READ_CHUNK};
use audio_ext::round::{RoundAction, RoundEvent, RoundPlan};
use audio_ext::scratch::Scratch;

fn bytes(samples: &[i16]) -> Vec<u8> {
    let mut out = Vec::new();
    for s in samples {
        out.extend_from_slice(&s.to_le_bytes());
    }
    out
}

#[test]
fn status_counts_whole_samples() {
    let mut status = PlayerStatus::new();
    assert_eq!(status.settle(ReadOutcome::Pending), None);
    assert_eq!(status.settle(ReadOutcome::Ready(10)), Some(10));
    assert_eq!(status.settle(ReadOutcome::Ready(6)), Some(6));
    assert_eq!(status, PlayerStatus { read_size: 16, finished: false });
}

#[test]
fn status_count_wraps() {
    let mut status = PlayerStatus { read_size: usize::MAX, finished: false };
    assert_eq!(status.settle(ReadOutcome::Ready(4)), Some(4));
    assert_eq!(status.read_size, 3);
}

#[test]
fn nothing_odd_and_failed_reads_end_a_player() {
    for outcome in [ReadOutcome::Ready(0), ReadOutcome::Ready(3), ReadOutcome::Failed] {
        let mut status = PlayerStatus::new();
        assert_eq!(status.settle(outcome), None);
        assert_eq!(status, PlayerStatus { read_size: 0, finished: true });
        assert_eq!(status.settle(ReadOutcome::Pending), None);
        assert!(status.finished);
    }
}

#[test]
fn lone_voice_is_exact() {
    let mut mixer: Mixer<u8> = Mixer::new(7);
    let mut scratch = Scratch::new();
    mixer.write(&bytes(&[1, -2, 3]));
    mixer.mix_frame(1024, &vec![], &mut scratch);
    let (frame, samples) = scratch.frame().unwrap();
    assert_eq!(frame, &bytes(&[1, -2, 3])[..]);
    assert_eq!(samples, 3);
    mixer.mix_frame(1024, &vec![], &mut scratch);
    assert!(scratch.frame().is_none());
}

#[test]
fn odd_voice_sends_its_bytes() {
    let mut mixer: Mixer<u8> = Mixer::new(7);
    let mut scratch = Scratch::new();
    mixer.write(&[1, 2, 3]);
    mixer.mix_frame(1024, &vec![], &mut scratch);
    let (frame, samples) = scratch.frame().unwrap();
    assert_eq!(frame, &[1, 2, 3][..]);
    assert_eq!(samples, 1);
}

#[test]
fn lone_player_is_exact() {
    let mut mixer: Mixer<u8> = Mixer::new(7);
    let mut scratch = Scratch::new();
    mixer.push(Player::new(42));
    assert_eq!(mixer.player(0).next_fetch(), FetchAction::Start(READ_CHUNK));
    let data = bytes(&[100, -200, 300, -400]);
    mixer.mix_frame(4, &vec![FetchEvent::Data(data.clone())], &mut scratch);
    assert_eq!(scratch.frame().unwrap().0, &data[..4]);
    mixer.mix_frame(4, &vec![FetchEvent::Data(vec![])], &mut scratch);
    assert_eq!(scratch.frame().unwrap().0, &data[4..]);
    assert_eq!(mixer.player(0).read_size(), 8);
    assert!(!mixer.player(0).finished());
    mixer.mix_frame(4, &vec![FetchEvent::Skipped], &mut scratch);
    assert!(scratch.frame().is_none());
    assert!(mixer.player(0).finished());
    assert_eq!(mixer.player(0).status(), PlayerStatus { read_size: 8, finished: true });
    assert_eq!(*mixer.player(0).link(), 42);
}

#[test]
fn voice_and_players_are_summed() {
    let mut mixer: Mixer<u8> = Mixer::new(0);
    let mut scratch = Scratch::new();
    mixer.write(&bytes(&[10, 20000]));
    mixer.push(Player::new(1));
    mixer.push(Player::new(2));
    let events = vec![
        FetchEvent::Data(bytes(&[5, 20000, 7])),
        FetchEvent::Pending,
    ];
    mixer.mix_frame(1024, &events, &mut scratch);
    let (frame, samples) = scratch.frame().unwrap();
    assert_eq!(frame, &bytes(&[15, 32767, 7])[..]);
    assert_eq!(samples, 3);
    assert_eq!(mixer.player(1).next_fetch(), FetchAction::Await);
}

#[test]
fn odd_player_read_is_left_out() {
    let mut mixer: Mixer<u8> = Mixer::new(0);
    let mut scratch = Scratch::new();
    mixer.push(Player::new(1));
    mixer.mix_frame(1024, &vec![FetchEvent::Data(vec![1, 2, 3])], &mut scratch);
    assert!(scratch.frame().is_none());
    assert!(mixer.player(0).finished());
}

#[test]
fn prune_keeps_the_living_in_order() {
    let mut mixer: Mixer<u8> = Mixer::new(0);
    let mut scratch = Scratch::new();
    for id in 1..5 {
        mixer.push(Player::new(id));
    }
    let events = vec![
        FetchEvent::Pending,
        FetchEvent::Failed,
        FetchEvent::Pending,
        FetchEvent::Pending,
    ];
    mixer.mix_frame(1024, &events, &mut scratch);
    mixer.prune(&vec![2, 2, 1, 3]);
    assert_eq!(mixer.player_count(), 2);
    assert_eq!(*mixer.player(0).link(), 1);
    assert_eq!(*mixer.player(1).link(), 4);
    mixer.prune(&vec![2, 2]);
    assert_eq!(mixer.player_count(), 2);
    assert!(Player::<u8>::dropped(1));
    assert!(!Player::<u8>::dropped(2));
}

#[test]
fn packet_carries_slot_and_setting() {
    let mut mixer: Mixer<u8> = Mixer::new(9);
    assert!(mixer.packet(&[1, 2, 3], 0).is_none());
    let packet = mixer.packet(&[1, 2, 3], 2).unwrap();
    assert_eq!(packet.slot, 9);
    assert_eq!(packet.data, vec![1, 2]);
    assert!(!packet.hearself);
    mixer.set_hearself(true);
    assert!(mixer.hearself());
    assert!(mixer.packet(&[1], 1).unwrap().hearself);
    assert_eq!(mixer.slot(), 9);
}

#[test]
fn mixer_stops_once() {
    let mut mixer: Mixer<u8> = Mixer::new(0);
    assert!(!mixer.is_stoppable());
    mixer.start();
    assert!(mixer.is_stoppable());
    mixer.shutdown();
    assert!(!mixer.is_stoppable());
}

#[test]
fn pull_size_is_one_to_two_frames() {
    assert_eq!(poll_size(0), 1024);
    assert_eq!(poll_size(1024), 1024);
    assert_eq!(poll_size(1025), 1026);
    assert_eq!(poll_size(1500), 1500);
    assert_eq!(poll_size(2047), 2048);
    assert_eq!(poll_size(1_000_000), 2048);
}

#[test]
fn pulls_are_apart() {
    let mut timer = PullTimer::new(100, 50);
    assert_eq!(timer.tick(149), None);
    assert_eq!(timer.tick(150), Some(50));
    assert_eq!(timer.tick(190), None);
    assert_eq!(timer.tick(260), Some(110));
    assert_eq!(timer.tick(200), None);
}

#[test]
fn frame_is_its_longest_source() {
    let mut mixer: Mixer<u8> = Mixer::new(0);
    let mut scratch = Scratch::new();
    mixer.write(&bytes(&[1, 1]));
    mixer.push(Player::new(1));
    mixer.push(Player::new(2));
    let events = vec![
        FetchEvent::Data(bytes(&[1, 1, 1, 1, 1])),
        FetchEvent::Data(bytes(&[1])),
    ];
    mixer.mix_frame(8, &events, &mut scratch);
    assert_eq!(scratch.frame().unwrap().0, &bytes(&[3, 2, 1, 1])[..]);
}

#[test]
fn frame_sums_its_sources_in_order() {
    let mut mixer: Mixer<u8> = Mixer::new(0);
    let mut scratch = Scratch::new();
    mixer.write(&bytes(&[30000, -30000]));
    for id in 0..3 {
        mixer.push(Player::new(id));
    }
    let events = vec![
        FetchEvent::Data(bytes(&[10000, -10000, 1])),
        FetchEvent::Data(bytes(&[-10000])),
        FetchEvent::Data(bytes(&[1, 10000, 2, 3])),
    ];
    mixer.mix_frame(1024, &events, &mut scratch);
    assert_eq!(scratch.frame().unwrap().0, &bytes(&[22768, -22768, 3, 3])[..]);
}

#[test]
fn rounds_go_in_order() {
    let mut plan = RoundPlan::new(0, 100);
    assert_eq!(plan.next(RoundEvent::Clock(99)), RoundAction::Sleep);
    assert_eq!(plan.next(RoundEvent::Slept), RoundAction::ReadClock);
    assert_eq!(plan.next(RoundEvent::Clock(150)), RoundAction::Scale(150));
    assert_eq!(plan.next(RoundEvent::Scaled(1535)), RoundAction::Prune);
    assert_eq!(plan.next(RoundEvent::Pruned), RoundAction::Fetch);
    assert_eq!(plan.next(RoundEvent::Fetched), RoundAction::Mix(1536));
    assert_eq!(
        plan.next(RoundEvent::Mixed(1203)),
        RoundAction::Encode { bytes: 1203, samples: 601, room: 2048, fin: false }
    );
    assert_eq!(plan.next(RoundEvent::Encoded(64)), RoundAction::Queue(64));
    assert_eq!(plan.next(RoundEvent::Queued), RoundAction::Sleep);
    assert_eq!(plan.next(RoundEvent::Slept), RoundAction::ReadClock);
    assert_eq!(plan.next(RoundEvent::Clock(249)), RoundAction::Sleep);
    assert_eq!(plan.next(RoundEvent::Stopped), RoundAction::End);
}

#[test]
fn rounds_without_a_frame_or_a_packet_are_short() {
    let mut plan = RoundPlan::new(0, 100);
    for last in [RoundEvent::Mixed(0), RoundEvent::Encoded(0)] {
        assert!(matches!(plan.next(RoundEvent::Clock(u128::MAX)), RoundAction::Scale(_)));
        assert_eq!(plan.next(RoundEvent::Scaled(0)), RoundAction::Prune);
        assert_eq!(plan.next(RoundEvent::Pruned), RoundAction::Fetch);
        assert_eq!(plan.next(RoundEvent::Fetched), RoundAction::Mix(1024));
        if last == RoundEvent::Encoded(0) {
            assert!(matches!(plan.next(RoundEvent::Mixed(2)), RoundAction::Encode { .. }));
        }
        assert_eq!(plan.next(last), RoundAction::Sleep);
        plan = RoundPlan::new(0, 100);
    }
}
