//! Little-endian integer encoding, and text in bytes.

use vstd::prelude::*;
use vstd::utf8::{decode_utf8, valid_utf8};

verus! {

/// `256` raised to `count`: the number of values that `count` bytes can hold.
pub open spec fn byte_span(count: nat) -> nat
    decreases count,
{
    if count == 0 {
        1
    } else {
        256 * byte_span((count - 1) as nat)
    }
}

/// The `count` low-order bytes of `value`, least significant first.
pub open spec fn le_bytes(value: nat, count: nat) -> Seq<u8>
    decreases count,
{
    if count == 0 {
        Seq::empty()
    } else {
        seq![(value % 256) as u8] + le_bytes(value / 256, (count - 1) as nat)
    }
}

/// The number whose little-endian digits are `bytes`.
pub open spec fn le_value(bytes: Seq<u8>) -> nat
    decreases bytes.len(),
{
    if bytes.len() == 0 {
        0
    } else {
        bytes[0] as nat + 256 * le_value(bytes.drop_first())
    }
}

/// The unsigned number with the same 16 two's-complement bits as `value`.
pub open spec fn u16_of_i16(value: i16) -> u16 {
    if value < 0 {
        (value + 0x1_0000) as u16
    } else {
        value as u16
    }
}

/// The signed number with the same 16 two's-complement bits as `value`.
pub open spec fn i16_of_u16(value: u16) -> i16 {
    if value >= 0x8000 {
        (value - 0x1_0000) as i16
    } else {
        value as i16
    }
}

/// Writing a number little-endian yields exactly `count` bytes.
pub proof fn lemma_le_bytes_len(value: nat, count: nat)
    ensures
        le_bytes(value, count).len() == count,
    decreases count,
{
    if count > 0 {
        lemma_le_bytes_len(value / 256, (count - 1) as nat);
    }
}

/// Reading back what was written gives the number again.
pub proof fn lemma_le_roundtrip(value: nat, count: nat)
    requires
        value < byte_span(count),
    ensures
        le_bytes(value, count).len() == count,
        le_value(le_bytes(value, count)) == value,
    decreases count,
{
    if count > 0 {
        lemma_le_roundtrip(value / 256, (count - 1) as nat);
        let tail = le_bytes(value / 256, (count - 1) as nat);
        assert(le_bytes(value, count).drop_first() =~= tail);
    }
}

/// `count` bytes hold a number below `byte_span(count)`.
pub proof fn lemma_le_value_bound(bytes: Seq<u8>)
    ensures
        le_value(bytes) < byte_span(bytes.len()),
    decreases bytes.len(),
{
    if bytes.len() > 0 {
        lemma_le_value_bound(bytes.drop_first());
    }
}

/// Writing back what was read gives the same bytes.
pub proof fn lemma_le_value_roundtrip(bytes: Seq<u8>)
    ensures
        le_bytes(le_value(bytes), bytes.len()) == bytes,
    decreases bytes.len(),
{
    if bytes.len() > 0 {
        lemma_le_value_roundtrip(bytes.drop_first());
        let v = le_value(bytes);
        assert(v / 256 == le_value(bytes.drop_first()));
        assert(v % 256 == bytes[0]);
        assert(bytes =~= seq![bytes[0]] + bytes.drop_first());
    }
}

/// The spans of the field widths in use.
pub proof fn lemma_byte_spans()
    ensures
        byte_span(0) == 1,
        byte_span(1) == 0x100,
        byte_span(2) == 0x1_0000,
        byte_span(4) == 0x1_0000_0000,
        byte_span(8) == 0x1_0000_0000_0000_0000,
{
    reveal_with_fuel(byte_span, 9);
}

proof fn lemma_byte_span_monotone(a: nat, b: nat)
    requires
        a <= b,
    ensures
        byte_span(a) <= byte_span(b),
    decreases b,
{
    if a < b {
        lemma_byte_span_monotone(a, (b - 1) as nat);
    }
}

/// Casting to 16 unsigned bits and back changes nothing.
pub proof fn lemma_i16_roundtrip(value: i16)
    ensures
        i16_of_u16(u16_of_i16(value)) == value,
{
}

pub fn i16_to_u16(value: i16) -> (bits: u16)
    ensures
        bits == u16_of_i16(value),
{
    if value < 0 {
        (value as i32 + 0x1_0000) as u16
    } else {
        value as u16
    }
}

pub fn u16_to_i16(bits: u16) -> (value: i16)
    ensures
        value == i16_of_u16(bits),
{
    if bits >= 0x8000 {
        (bits as i32 - 0x1_0000) as i16
    } else {
        bits as i16
    }
}

/// Store the `count` low-order bytes of `value` at `at`.
pub fn put_le(out: &mut [u8], at: usize, value: u64, count: usize)
    requires
        count <= 8,
        at + count <= old(out)@.len(),
    ensures
        final(out)@ == old(out)@.subrange(0, at as int) + le_bytes(value as nat, count as nat)
            + old(out)@.subrange(at + count, old(out)@.len() as int),
{
    let ghost start = out@;
    let size: usize = out.len();
    let mut rest: u64 = value;
    let mut i: usize = 0;
    proof {
        lemma_le_bytes_len(value as nat, count as nat);
        assert(out@ =~= start.subrange(0, at + 0) + start.subrange(at + 0, start.len() as int));
    }
    while i < count
        invariant
            i <= count,
            count <= 8,
            at + count <= start.len(),
            out@.len() == start.len(),
            start.len() == size,
            le_bytes(value as nat, count as nat).len() == count,
            le_bytes(value as nat, count as nat).subrange(i as int, count as int) =~= le_bytes(
                rest as nat,
                (count - i) as nat,
            ),
            forall|k: int|
                0 <= k < start.len() && !(at <= k < at + i) ==> #[trigger] out@[k] == start[k],
            forall|k: int|
                0 <= k < i ==> #[trigger] out@[at + k] == le_bytes(value as nat, count as nat)[k],
        decreases count - i,
    {
        let ghost all = le_bytes(value as nat, count as nat);
        let ghost here = le_bytes(rest as nat, (count - i) as nat);
        let byte: u8 = (rest % 256) as u8;
        proof {
            let tail = le_bytes(rest as nat / 256, (count - i - 1) as nat);
            assert(here =~= seq![byte] + tail);
            assert(all.subrange(i as int, count as int)[0] == all[i as int]);
            assert(all[i as int] == byte);
            assert(here.drop_first() =~= tail);
            assert(all.subrange(i + 1, count as int) =~= all.subrange(
                i as int,
                count as int,
            ).drop_first());
        }
        let ghost before = out@;
        out[at + i] = byte;
        rest = rest / 256;
        i = i + 1;
        proof {
            assert forall|k: int| 0 <= k < i implies #[trigger] out@[at + k] == all[k] by {
                if k < i - 1 {
                    assert(before[at + k] == all[k]);
                }
            }
        }
    }
    proof {
        let all = le_bytes(value as nat, count as nat);
        let want = start.subrange(0, at as int) + all + start.subrange(
            at + count,
            start.len() as int,
        );
        assert forall|k: int| 0 <= k < start.len() implies out@[k] == want[k] by {
            if at <= k < at + count {
                assert(out@[at + (k - at)] == all[k - at]);
            }
        }
        assert(out@ =~= want);
    }
}

/// Read `count` bytes at `at` as a number.
pub fn get_le(bytes: &[u8], at: usize, count: usize) -> (value: u64)
    requires
        count <= 8,
        at + count <= bytes@.len(),
    ensures
        value == le_value(bytes@.subrange(at as int, at + count)),
        value < byte_span(count as nat),
{
    let size: usize = bytes.len();
    let mut value: u64 = 0;
    let mut i: usize = count;
    proof {
        lemma_byte_spans();
        assert(bytes@.subrange(at + count, at + count).len() == 0);
    }
    while i > 0
        invariant
            i <= count,
            count <= 8,
            at + count <= bytes@.len(),
            bytes@.len() == size,
            value == le_value(bytes@.subrange(at + i, at + count)),
        decreases i,
    {
        let ghost here = bytes@.subrange(at + i, at + count);
        proof {
            lemma_le_value_bound(here);
            lemma_byte_span_monotone(here.len(), 7);
            reveal_with_fuel(byte_span, 8);
        }
        i = i - 1;
        proof {
            let next = bytes@.subrange(at + i, at + count);
            assert(next.drop_first() =~= here);
            assert(next[0] == bytes@[at + i]);
        }
        value = bytes[at + i] as u64 + 256 * value;
    }
    proof {
        lemma_le_value_bound(bytes@.subrange(at as int, at + count));
        assert(bytes@.subrange(at + 0, at + count) =~= bytes@.subrange(at as int, at + count));
    }
    value
}

/// `std::str::from_utf8`: the text that the bytes encode, exactly if they are
/// valid UTF-8. The text has the same bytes.
#[verifier::external_body]
pub(crate) fn text_from_utf8(bytes: &[u8]) -> (text: Option<&str>)
    ensures
        text is Some <==> valid_utf8(bytes@),
        text is Some ==> text->0@ == decode_utf8(bytes@),
{
    std::str::from_utf8(bytes).ok()
}

/// Law: a number written in two or four bytes has its low byte first, and each byte
/// counts 256 times the one before it.
pub proof fn law_low_byte_first(value: nat)
    ensures
        value < 0x1_0000 ==> {
            let b = le_bytes(value, 2);
            b.len() == 2 && b[0] + 0x100 * b[1] == value
        },
        value < 0x1_0000_0000 ==> {
            let b = le_bytes(value, 4);
            b.len() == 4 && b[0] + 0x100 * b[1] + 0x1_0000 * b[2] + 0x100_0000 * b[3] == value
        },
        value < 0x1_0000_0000_0000_0000 ==> {
            let b = le_bytes(value, 8);
            &&& b.len() == 8
            &&& b[0] + 0x100 * b[1] + 0x1_0000 * b[2] + 0x100_0000 * b[3] + 0x1_0000_0000 * (b[4]
                + 0x100 * b[5] + 0x1_0000 * b[6] + 0x100_0000 * b[7]) == value
        },
{
    lemma_byte_spans();
    lemma_le_bytes_len(value, 2);
    lemma_le_bytes_len(value, 4);
    lemma_le_bytes_len(value, 8);
    if value < 0x1_0000 {
        lemma_le_roundtrip(value, 2);
        lemma_value_of_two(le_bytes(value, 2));
    }
    if value < 0x1_0000_0000 {
        lemma_le_roundtrip(value, 4);
        lemma_value_of_four(le_bytes(value, 4));
    }
    if value < 0x1_0000_0000_0000_0000 {
        lemma_le_roundtrip(value, 8);
        lemma_value_of_eight(le_bytes(value, 8));
    }
}

/// Law: two bytes stand for the first plus 256 times the second.
pub proof fn lemma_value_of_two(b: Seq<u8>)
    requires
        b.len() == 2,
    ensures
        le_value(b) == b[0] + 0x100 * b[1],
{
    reveal_with_fuel(le_value, 3);
    assert(b.drop_first()[0] == b[1]);
}

/// Law: four bytes stand for what their digits to the base 256 do.
pub proof fn lemma_value_of_four(b: Seq<u8>)
    requires
        b.len() == 4,
    ensures
        le_value(b) == b[0] + 0x100 * b[1] + 0x1_0000 * b[2] + 0x100_0000 * b[3],
{
    let tail = b.drop_first().drop_first();
    reveal_with_fuel(le_value, 3);
    lemma_value_of_two(tail);
    assert(b.drop_first()[0] == b[1]);
}

proof fn lemma_value_of_eight(b: Seq<u8>)
    requires
        b.len() == 8,
    ensures
        le_value(b) == b[0] + 0x100 * b[1] + 0x1_0000 * b[2] + 0x100_0000 * b[3] + 0x1_0000_0000 * (
        b[4] + 0x100 * b[5] + 0x1_0000 * b[6] + 0x100_0000 * b[7]),
{
    let two = b.drop_first().drop_first();
    let four = two.drop_first().drop_first();
    lemma_value_of_four(four);
    assert(le_value(two) == two[0] + 256 * le_value(two.drop_first()));
    assert(le_value(two.drop_first()) == two.drop_first()[0] + 256 * le_value(four));
    assert(le_value(b) == b[0] + 256 * le_value(b.drop_first()));
    assert(le_value(b.drop_first()) == b.drop_first()[0] + 256 * le_value(two));
}

/// Law: a signed number and its sixteen bits differ by nothing, or by 65536 if it is
/// negative.
pub proof fn law_twos_complement(value: i16, bits: u16)
    ensures
        u16_of_i16(value) == value as int % 0x1_0000,
        i16_of_u16(bits) as int % 0x1_0000 == bits,
        i16_of_u16(bits) == bits || i16_of_u16(bits) == bits - 0x1_0000,
{
}

} // verus!
