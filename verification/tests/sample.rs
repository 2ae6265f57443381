use audio_ext::sample::{mix, saturating_mix};

fn bytes(samples: &[i16]) -> Vec<u8> {
    let mut out = Vec::new();
    for s in samples {
        out.extend_from_slice(&s.to_le_bytes());
    }
    out
}

#[test]
fn sums_saturate() {
    assert_eq!(saturating_mix(1000, -1), 999);
    assert_eq!(saturating_mix(30000, 30000), 32767);
    assert_eq!(saturating_mix(-30000, -30000), -32768);
    assert_eq!(saturating_mix(i16::MIN, i16::MAX), -1);
}

#[test]
fn mix_adds_little_endian_samples() {
    let buf = bytes(&[256, -1, 30000, -30000]);
    let mut mixed = bytes(&[2, -2, 10000, -10000]);
    mix(8, &buf, &mut mixed);
    assert_eq!(mixed, bytes(&[258, -3, 32767, -32768]));
}

#[test]
fn mix_stops_at_size() {
    let buf = bytes(&[1, 1, 1]);
    let mut mixed = bytes(&[5, 5, 5]);
    mix(4, &buf, &mut mixed);
    assert_eq!(mixed, bytes(&[6, 6, 5]));
}

#[test]
fn mix_stops_at_the_end_of_the_frame() {
    let buf = bytes(&[1, 1, 1]);
    let mut mixed = bytes(&[5]);
    mix(6, &buf, &mut mixed);
    assert_eq!(mixed, bytes(&[6]));
}

#[test]
fn odd_size_completes_the_last_sample() {
    let buf = bytes(&[1, 0x0102]);
    let mut mixed = bytes(&[0, 0]);
    mix(3, &buf, &mut mixed);
    assert_eq!(mixed, bytes(&[1, 0x0102]));
}

#[test]
fn silence_is_neutral() {
    let buf = bytes(&[0, 0]);
    let mut mixed = bytes(&[-7, 12345]);
    mix(4, &buf, &mut mixed);
    assert_eq!(mixed, bytes(&[-7, 12345]));
}

#[test]
fn two_sources_commute() {
    let a = bytes(&[30000, -5, 7]);
    let b = bytes(&[30000, 9, -20000]);
    let mut ab = bytes(&[0, 0, 0]);
    mix(6, &a, &mut ab);
    mix(4, &b, &mut ab);
    let mut ba = bytes(&[0, 0, 0]);
    mix(4, &b, &mut ba);
    mix(6, &a, &mut ba);
    assert_eq!(ab, ba);
    assert_eq!(ab, bytes(&[32767, 4, 7]));
}

#[test]
fn samples_survive_storing() {
    for value in [i16::MIN, -256, -1, 0, 1, 255, 256, i16::MAX] {
        let buf = bytes(&[value]);
        let mut mixed = bytes(&[0]);
        mix(2, &buf, &mut mixed);
        assert_eq!(mixed, buf);
    }
}
