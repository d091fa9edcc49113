//! Little-endian numbers in byte strings.

use vstd::prelude::*;

verus! {

/// The number of values that `width` bytes can hold.
pub open spec fn range(width: nat) -> nat
    decreases width,
{
    if width == 0 {
        1
    } else {
        256 * range((width - 1) as nat)
    }
}

/// The lowest `width` bytes of `value`, the lowest byte first.
pub open spec fn le_bytes(value: nat, width: nat) -> Seq<u8>
    decreases width,
{
    if width == 0 {
        Seq::empty()
    } else {
        seq![(value % 256) as u8] + le_bytes(value / 256, (width - 1) as nat)
    }
}

/// The number that `bytes` hold, the lowest byte first.
pub open spec fn le_value(bytes: Seq<u8>) -> nat
    decreases bytes.len(),
{
    if bytes.len() == 0 {
        0
    } else {
        bytes[0] as nat + 256 * le_value(bytes.subrange(1, bytes.len() as int))
    }
}

/// The bytes of a number are as many as were asked for.
pub proof fn lemma_le_bytes_len(value: nat, width: nat)
    ensures
        le_bytes(value, width).len() == width,
    decreases width,
{
    if width > 0 {
        lemma_le_bytes_len(value / 256, (width - 1) as nat);
    }
}

/// A number that fits its bytes is read back from them.
pub proof fn law_bytes_hold_the_value(value: nat, width: nat)
    requires
        value < range(width),
    ensures
        le_bytes(value, width).len() == width,
        le_value(le_bytes(value, width)) == value,
    decreases width,
{
    lemma_le_bytes_len(value, width);
    if width > 0 {
        let rest = le_bytes(value / 256, (width - 1) as nat);
        law_bytes_hold_the_value(value / 256, (width - 1) as nat);
        assert(le_bytes(value, width).subrange(1, width as int) =~= rest);
    }
}

/// Bytes that are read as a number are its bytes, and the number fits them.
pub proof fn law_value_names_the_bytes(bytes: Seq<u8>)
    ensures
        le_value(bytes) < range(bytes.len()),
        le_bytes(le_value(bytes), bytes.len()) == bytes,
    decreases bytes.len(),
{
    if bytes.len() > 0 {
        let rest = bytes.subrange(1, bytes.len() as int);
        law_value_names_the_bytes(rest);
        assert((seq![bytes[0]] + rest) =~= bytes);
        let value = le_value(bytes);
        assert(value % 256 == bytes[0] as nat && value / 256 == le_value(rest));
    } else {
        assert(le_bytes(0, 0) =~= bytes);
    }
}

/// More bytes hold more values; eight bytes hold those of a 64-bit number.
pub(crate) proof fn lemma_range_grows(narrow: nat, wide: nat)
    requires
        narrow <= wide <= 8,
    ensures
        0 < range(narrow) <= range(wide) <= 0x1_0000_0000_0000_0000,
        range(4) == 0x1_0000_0000,
        range(8) == 0x1_0000_0000_0000_0000,
    decreases wide - narrow,
{
    reveal_with_fuel(range, 9);
    if narrow < wide {
        lemma_range_grows(narrow + 1, wide);
    }
}

/// Appends the lowest `width` bytes of `value` to `out`.
pub fn put(out: &mut Vec<u8>, value: u64, width: usize)
    ensures
        final(out)@ == old(out)@ + le_bytes(value as nat, width as nat),
{
    let mut rest: u64 = value;
    let mut done: usize = 0;
    assert(out@ + le_bytes(value as nat, width as nat) == old(out)@ + le_bytes(
        value as nat,
        width as nat,
    ));
    while done < width
        invariant
            done <= width,
            out@ + le_bytes(rest as nat, (width - done) as nat) == old(out)@ + le_bytes(
                value as nat,
                width as nat,
            ),
        decreases width - done,
    {
        let ghost before = out@;
        let byte: u8 = (rest % 256) as u8;
        out.push(byte);
        proof {
            let tail = le_bytes((rest / 256) as nat, (width - done - 1) as nat);
            assert(le_bytes(rest as nat, (width - done) as nat) == seq![byte] + tail);
            assert(out@ + tail =~= before + (seq![byte] + tail));
        }
        rest = rest / 256;
        done = done + 1;
    }
    assert(out@ + le_bytes(rest as nat, 0) =~= out@);
}

/// The number that the `width` bytes of `buf` at `at` hold.
pub fn get(buf: &[u8], at: usize, width: usize) -> (value: u64)
    requires
        width <= 8,
        at + width <= buf@.len(),
    ensures
        value == le_value(buf@.subrange(at as int, at + width)),
{
    let mut value: u64 = 0;
    let mut left: usize = width;
    assert(buf@.subrange(at + width, at + width) =~= Seq::<u8>::empty());
    assert(buf@.len() == buf.len());
    while left > 0
        invariant
            left <= width <= 8,
            at + width <= buf@.len() <= usize::MAX,
            value == le_value(buf@.subrange(at + left, at + width)),
        decreases left,
    {
        let ghost tail = buf@.subrange(at + left, at + width);
        let ghost longer = buf@.subrange(at + left - 1, at + width);
        proof {
            assert(longer.subrange(1, longer.len() as int) =~= tail);
            law_value_names_the_bytes(longer);
            lemma_range_grows(longer.len(), 8);
        }
        left = left - 1;
        value = buf[at + left] as u64 + 256 * value;
    }
    value
}

/// The value of eight bytes, and of four, in numbers: the first byte counts ones, and
/// each further one counts 256 times as much.
pub proof fn law_first_byte_counts_ones(bytes: Seq<u8>)
    ensures
        bytes.len() == 8 ==> le_value(bytes) == bytes[0] + 0x100 * bytes[1] + 0x1_0000 * bytes[2]
            + 0x100_0000 * bytes[3] + 0x1_0000_0000 * bytes[4] + 0x100_0000_0000 * bytes[5]
            + 0x1_0000_0000_0000 * bytes[6] + 0x100_0000_0000_0000 * bytes[7],
        bytes.len() == 4 ==> le_value(bytes) == bytes[0] + 0x100 * bytes[1] + 0x1_0000 * bytes[2]
            + 0x100_0000 * bytes[3],
{
    lemma_value_of_tail(bytes, 1);
    lemma_value_of_tail(bytes, 2);
    lemma_value_of_tail(bytes, 3);
    lemma_value_of_tail(bytes, 4);
    lemma_value_of_tail(bytes, 5);
    lemma_value_of_tail(bytes, 6);
    lemma_value_of_tail(bytes, 7);
    lemma_value_of_tail(bytes, 8);
    assert(bytes.subrange(0, bytes.len() as int) =~= bytes);
    if bytes.len() == 4 {
        assert(le_value(bytes.subrange(4, 4)) == 0);
    }
    if bytes.len() == 8 {
        assert(le_value(bytes.subrange(8, 8)) == 0);
    }
}

/// The value of the bytes from one place on, by that from the next.
proof fn lemma_value_of_tail(bytes: Seq<u8>, next: int)
    ensures
        1 <= next <= bytes.len() ==> le_value(bytes.subrange(next - 1, bytes.len() as int))
            == bytes[next - 1] + 256 * le_value(bytes.subrange(next, bytes.len() as int)),
{
    if 1 <= next <= bytes.len() {
        let tail = bytes.subrange(next - 1, bytes.len() as int);
        assert(tail.subrange(1, tail.len() as int) =~= bytes.subrange(next, bytes.len() as int));
    }
}

} // verus!
