//! Sixteen-bit little-endian samples and the saturating mix of two buffers.
use byteorder::{LittleEndian, ReadBytesExt, WriteBytesExt};
use vstd::prelude::*;

verus! {

/// The value of the two's complement sample stored low byte first.
pub open spec fn le_value(low: u8, high: u8) -> int {
    let raw = low + 256 * high;
    if raw < 32768 {
        raw
    } else {
        raw - 65536
    }
}

/// The bit pattern of a sample, read as an unsigned number.
pub open spec fn raw_bits(value: int) -> int {
    if value < 0 {
        value + 65536
    } else {
        value
    }
}

/// The first byte of a stored sample.
pub open spec fn le_low(value: int) -> u8 {
    (raw_bits(value) % 256) as u8
}

/// The second byte of a stored sample.
pub open spec fn le_high(value: int) -> u8 {
    (raw_bits(value) / 256) as u8
}

/// The sample at sample position `k` of a byte buffer.
pub open spec fn sample_at(bytes: Seq<u8>, k: int) -> int {
    le_value(bytes[2 * k], bytes[2 * k + 1])
}

/// `byteorder`'s `ReadBytesExt::read_i16::<LittleEndian>`, on a slice of two
/// bytes.
///
/// Claims that the result is the little-endian two's complement number that
/// the two bytes hold. Reading two bytes out of a slice of two cannot fail.
#[verifier::external_body]
fn read_sample(mut bytes: &[u8]) -> (value: i16)
    requires
        bytes@.len() == 2,
    ensures
        value == le_value(bytes@[0], bytes@[1]),
{
    bytes.read_i16::<LittleEndian>().unwrap()
}

/// `byteorder`'s `WriteBytesExt::write_i16::<LittleEndian>`, on a slice of two
/// bytes.
///
/// Claims that the two bytes become the little-endian form of `value`. Writing
/// two bytes into a slice of two cannot fail.
#[verifier::external_body]
fn write_sample(bytes: &mut [u8], value: i16)
    requires
        old(bytes)@.len() == 2,
    ensures
        final(bytes)@ == seq![le_low(value as int), le_high(value as int)],
{
    (&mut *bytes).write_i16::<LittleEndian>(value).unwrap()
}

/// The nearest value that a sample can hold.
pub open spec fn clamp_sample(sum: int) -> int {
    if sum < i16::MIN {
        i16::MIN as int
    } else if sum > i16::MAX {
        i16::MAX as int
    } else {
        sum
    }
}

/// The sum of two samples, saturating at both ends of the range.
pub fn saturating_mix(a: i16, b: i16) -> (sum: i16)
    ensures
        sum == clamp_sample(a + b),
{
    let mut sum: i32 = a as i32 + b as i32;
    if sum < i16::MIN as i32 {
        sum = i16::MIN as i32;
    } else if sum > i16::MAX as i32 {
        sum = i16::MAX as i32;
    }
    sum as i16
}

/// The samples that a mix of `size` bytes covers: an odd last byte counts as
/// the first half of one more sample.
pub open spec fn covered(size: nat, len: nat) -> nat {
    let bytes = if size < len { size } else { len };
    (bytes + 1) / 2
}

/// `mixed` after the first `count` samples of `buf` were added to it.
pub open spec fn mix_prefix(count: int, buf: Seq<u8>, mixed: Seq<u8>) -> Seq<u8> {
    Seq::new(
        mixed.len(),
        |i: int|
            if i / 2 < count {
                let sum = clamp_sample(sample_at(buf, i / 2) + sample_at(mixed, i / 2));
                if i % 2 == 0 {
                    le_low(sum)
                } else {
                    le_high(sum)
                }
            } else {
                mixed[i]
            },
    )
}

/// `mixed` after the first `size` bytes of `buf` were added to it.
pub open spec fn mix_into(size: nat, buf: Seq<u8>, mixed: Seq<u8>) -> Seq<u8> {
    mix_prefix(covered(size, mixed.len()) as int, buf, mixed)
}

/// Adds the samples in the first `size` bytes of `buf` to those in `mixed`.
///
/// Bytes beyond the end of `mixed` are left out. When `size` is odd, the byte
/// of `buf` behind the last one completes the last sample.
pub fn mix(size: usize, buf: &[u8], mixed: &mut [u8])
    requires
        2 * covered(size as nat, old(mixed)@.len()) <= buf@.len(),
        2 * covered(size as nat, old(mixed)@.len()) <= old(mixed)@.len(),
    ensures
        final(mixed)@ == mix_into(size as nat, buf@, old(mixed)@),
{
    let mut m: usize = 0;
    let ghost count = covered(size as nat, mixed@.len());
    let ghost before = mixed@;
    assert(mixed@ =~= mix_prefix(0, buf@, before));
    while m < mixed.len() && m < size
        invariant
            before == old(mixed)@,
            mixed@.len() == before.len(),
            count == covered(size as nat, before.len()),
            2 * count <= buf@.len(),
            2 * count <= before.len(),
            m % 2 == 0,
            m / 2 <= count,
            mixed@ == mix_prefix((m / 2) as int, buf@, before),
        decreases mixed@.len() - m,
    {
        let ghost k = (m / 2) as int;
        assert(m == 2 * k);
        let bi: i16 = read_sample(vstd::slice::slice_subrange(buf, m, m + 2));
        let mi: i16 = read_sample(vstd::slice::slice_subrange(mixed, m, m + 2));
        assert(mixed@[m as int] == before[2 * k]);
        assert(mixed@[m + 1] == before[2 * k + 1]);
        let sum: i16 = saturating_mix(bi, mi);
        let (_front, rest) = mixed.split_at_mut(m);
        let (pair, _back) = rest.split_at_mut(2);
        write_sample(pair, sum);
        assert(mixed@ =~= mix_prefix(k + 1, buf@, before)) by {
            assert forall|i: int| 0 <= i < before.len() implies mixed@[i] == mix_prefix(
                k + 1,
                buf@,
                before,
            )[i] by {
                if i == 2 * k || i == 2 * k + 1 {
                    assert(i / 2 == k);
                }
            }
        }
        m = m + 2;
    }
}

/// Storing a sample and reading it back gives the same sample.
pub proof fn law_sample_round_trip(value: int)
    requires
        i16::MIN <= value <= i16::MAX,
    ensures
        le_value(le_low(value), le_high(value)) == value,
{
}

/// Reading a sample and storing it again gives the same two bytes.
pub proof fn law_bytes_round_trip(low: u8, high: u8)
    ensures
        i16::MIN <= le_value(low, high) <= i16::MAX,
        le_low(le_value(low, high)) == low,
        le_high(le_value(low, high)) == high,
{
}

/// After a mix every covered sample is the saturating sum of the two samples
/// that met there, and every byte behind them is as it was.
pub proof fn law_mix_adds_samples(size: nat, buf: Seq<u8>, mixed: Seq<u8>, k: int)
    requires
        0 <= k,
        2 * k + 2 <= mixed.len(),
    ensures
        mix_into(size, buf, mixed).len() == mixed.len(),
        k < covered(size, mixed.len()) ==> sample_at(mix_into(size, buf, mixed), k)
            == clamp_sample(sample_at(buf, k) + sample_at(mixed, k)),
        k >= covered(size, mixed.len()) ==> sample_at(mix_into(size, buf, mixed), k) == sample_at(
            mixed,
            k,
        ),
{
    let out = mix_into(size, buf, mixed);
    assert((2 * k) / 2 == k && (2 * k + 1) / 2 == k);
    law_sample_round_trip(clamp_sample(sample_at(buf, k) + sample_at(mixed, k)));
    if k < covered(size, mixed.len()) {
        let sum = clamp_sample(sample_at(buf, k) + sample_at(mixed, k));
        assert(out[2 * k] == le_low(sum));
        assert(out[2 * k + 1] == le_high(sum));
    }
}

/// Whether every byte of a buffer is zero.
pub open spec fn silent(bytes: Seq<u8>) -> bool {
    forall|i: int| 0 <= i < bytes.len() ==> bytes[i] == 0
}

/// Mixing silence changes nothing.
pub proof fn law_silence_is_neutral(size: nat, buf: Seq<u8>, mixed: Seq<u8>)
    requires
        silent(buf),
        2 * covered(size, mixed.len()) <= buf.len(),
        2 * covered(size, mixed.len()) <= mixed.len(),
    ensures
        mix_into(size, buf, mixed) == mixed,
{
    let out = mix_into(size, buf, mixed);
    assert forall|i: int| 0 <= i < mixed.len() implies out[i] == mixed[i] by {
        let k = i / 2;
        if k < covered(size, mixed.len()) {
            assert(buf[2 * k] == 0 && buf[2 * k + 1] == 0);
            law_bytes_round_trip(mixed[2 * k], mixed[2 * k + 1]);
        }
    }
    assert(out =~= mixed);
}

/// The first source of a frame comes through the mix as it is: mixing onto
/// silence copies the covered bytes.
pub proof fn law_mix_onto_silence_copies(size: nat, buf: Seq<u8>, mixed: Seq<u8>)
    requires
        silent(mixed),
        2 * covered(size, mixed.len()) <= buf.len(),
        2 * covered(size, mixed.len()) <= mixed.len(),
    ensures
        mix_into(size, buf, mixed) == buf.take(2 * covered(size, mixed.len()) as int)
            + mixed.skip(2 * covered(size, mixed.len()) as int),
{
    let count = covered(size, mixed.len()) as int;
    let out = mix_into(size, buf, mixed);
    let copy = buf.take(2 * count) + mixed.skip(2 * count);
    assert forall|i: int| 0 <= i < mixed.len() implies out[i] == copy[i] by {
        let k = i / 2;
        if k < count {
            assert(mixed[2 * k] == 0 && mixed[2 * k + 1] == 0);
            law_bytes_round_trip(buf[2 * k], buf[2 * k + 1]);
        }
    }
    assert(out =~= copy);
}

/// Two sources sound the same whichever of them is mixed first.
///
/// With a third source saturation can make the order audible, so the law
/// speaks of the first two sources that meet a silent frame.
pub proof fn law_two_sources_commute(
    size_a: nat,
    a: Seq<u8>,
    size_b: nat,
    b: Seq<u8>,
    mixed: Seq<u8>,
)
    requires
        silent(mixed),
        2 * covered(size_a, mixed.len()) <= a.len(),
        2 * covered(size_a, mixed.len()) <= mixed.len(),
        2 * covered(size_b, mixed.len()) <= b.len(),
        2 * covered(size_b, mixed.len()) <= mixed.len(),
    ensures
        mix_into(size_b, b, mix_into(size_a, a, mixed)) == mix_into(
            size_a,
            a,
            mix_into(size_b, b, mixed),
        ),
{
    let only_a = mix_into(size_a, a, mixed);
    let only_b = mix_into(size_b, b, mixed);
    let ab = mix_into(size_b, b, only_a);
    let ba = mix_into(size_a, a, only_b);
    law_mix_onto_silence_copies(size_a, a, mixed);
    law_mix_onto_silence_copies(size_b, b, mixed);
    let count_a = covered(size_a, mixed.len()) as int;
    let count_b = covered(size_b, mixed.len()) as int;
    assert forall|i: int| 0 <= i < mixed.len() implies ab[i] == ba[i] by {
        let k = i / 2;
        if k < count_a {
            assert(only_a[2 * k] == a[2 * k] && only_a[2 * k + 1] == a[2 * k + 1]);
            law_bytes_round_trip(a[2 * k], a[2 * k + 1]);
        }
        if k < count_b {
            assert(only_b[2 * k] == b[2 * k] && only_b[2 * k + 1] == b[2 * k + 1]);
            law_bytes_round_trip(b[2 * k], b[2 * k + 1]);
        }
        if k < count_a && !(k < count_b) {
            assert(only_b[2 * k] == 0 && only_b[2 * k + 1] == 0);
        }
        if k < count_b && !(k < count_a) {
            assert(only_a[2 * k] == 0 && only_a[2 * k + 1] == 0);
        }
    }
    assert(ab =~= ba);
}

/// A sample is stored low byte first, in two's complement.
pub proof fn law_sample_is_little_endian(low: u8, high: u8)
    ensures
        high < 128 ==> le_value(low, high) == low + 256 * high,
        high >= 128 ==> le_value(low, high) == low + 256 * high - 65536,
{
}

/// A sum within the range of a sample stays, and any other becomes the end of
/// the range that it is beyond.
pub proof fn law_clamp_is_nearest(sum: int)
    ensures
        -32768 <= sum <= 32767 ==> clamp_sample(sum) == sum,
        sum > 32767 ==> clamp_sample(sum) == 32767,
        sum < -32768 ==> clamp_sample(sum) == -32768,
{
}

/// A mix of `size` bytes is addition, sample by sample, in numbers: where a
/// sample begins within `size`, the two samples there are added and the sum is
/// kept within sixteen bits, and all other bytes are as they were.
pub proof fn law_mix_is_saturating_addition(size: nat, buf: Seq<u8>, mixed: Seq<u8>, k: int)
    requires
        0 <= k,
        2 * k + 2 <= mixed.len(),
    ensures
        ({
            let out = mix_into(size, buf, mixed);
            let value = |bytes: Seq<u8>|
                bytes[2 * k] + 256 * bytes[2 * k + 1] - (if bytes[2 * k + 1] >= 128 {
                    65536int
                } else {
                    0int
                });
            let sum = value(buf) + value(mixed);
            &&& out.len() == mixed.len()
            &&& 2 * k < size && -32768 <= sum <= 32767 ==> value(out) == sum
            &&& 2 * k < size && sum > 32767 ==> value(out) == 32767
            &&& 2 * k < size && sum < -32768 ==> value(out) == -32768
            &&& 2 * k >= size ==> out[2 * k] == mixed[2 * k] && out[2 * k + 1] == mixed[2 * k + 1]
        }),
{
    law_mix_adds_samples(size, buf, mixed, k);
    assert((2 * k) / 2 == k && (2 * k + 1) / 2 == k);
}

/// A sample is covered when it begins within both the size and the buffer.
pub proof fn law_covered_samples_begin_within(size: nat, len: nat, k: int)
    requires
        0 <= k,
    ensures
        k < covered(size, len) <==> 2 * k < size && 2 * k < len,
{
}

} // verus!
