//! Big-endian 32-bit integers, the only integers of the wire format.

use vstd::prelude::*;

verus! {

/// The four bytes of `x`, most significant first.
#[verifier::opaque]
pub open spec fn be_bytes(x: u32) -> Seq<u8> {
    seq![
        (x / 0x100_0000) as u8,
        ((x / 0x1_0000) % 0x100) as u8,
        ((x / 0x100) % 0x100) as u8,
        (x % 0x100) as u8,
    ]
}

/// The integer that four bytes stand for, most significant first.
#[verifier::opaque]
pub open spec fn be_value(s: Seq<u8>) -> u32
    recommends
        s.len() == 4,
{
    (s[0] * 0x100_0000 + s[1] * 0x1_0000 + s[2] * 0x100 + s[3]) as u32
}

/// Writing an integer and reading it back gives the integer.
pub proof fn lemma_be_value_of_bytes(x: u32)
    ensures
        be_bytes(x).len() == 4,
        be_value(be_bytes(x)) == x,
{
    reveal(be_bytes);
    reveal(be_value);
}

/// Four bytes are the bytes of the integer they stand for.
pub proof fn lemma_be_bytes_of_value(s: Seq<u8>)
    requires
        s.len() == 4,
    ensures
        be_bytes(be_value(s)) == s,
{
    reveal(be_bytes);
    reveal(be_value);
    let x: u32 = be_value(s);
    let (a, b, c, d) = (s[0] as u32, s[1] as u32, s[2] as u32, s[3] as u32);
    assert(x == a * 0x100_0000 + b * 0x1_0000 + c * 0x100 + d);
    assert(x / 0x100_0000 == a && (x / 0x1_0000) % 0x100 == b && (x / 0x100) % 0x100 == c && x
        % 0x100 == d) by (bit_vector)
        requires
            x == a * 0x100_0000 + b * 0x1_0000 + c * 0x100 + d,
            a < 0x100,
            b < 0x100,
            c < 0x100,
            d < 0x100,
    ;
    assert(be_bytes(x) =~= s);
}

/// The bytes that an integer is written as are its digits in base 256, the first with the largest
/// weight.
pub proof fn law_written_bytes_are_digits(x: u32)
    ensures
        be_bytes(x).len() == 4,
        be_bytes(x)[0] * 0x100_0000 + be_bytes(x)[1] * 0x1_0000 + be_bytes(x)[2] * 0x100
            + be_bytes(x)[3] == x,
{
    reveal(be_bytes);
}

/// The integer that is read off four bytes has them for digits in base 256, the first with the
/// largest weight.
pub proof fn law_read_bytes_are_digits(s: Seq<u8>)
    requires
        s.len() == 4,
    ensures
        be_value(s) == s[0] * 0x100_0000 + s[1] * 0x1_0000 + s[2] * 0x100 + s[3],
{
    reveal(be_value);
}

/// Appends the four bytes of `x` to `buf`.
pub fn push_be(buf: &mut Vec<u8>, x: u32)
    ensures
        final(buf)@ == old(buf)@ + be_bytes(x),
        final(buf)@.len() == old(buf)@.len() + 4,
        final(buf)@.take(old(buf)@.len() as int) == old(buf)@,
        ({
            let added = final(buf)@.skip(old(buf)@.len() as int);
            added[0] * 0x100_0000 + added[1] * 0x1_0000 + added[2] * 0x100 + added[3] == x
        }),
{
    proof {
        reveal(be_bytes);
    }
    buf.push((x / 0x100_0000) as u8);
    buf.push(((x / 0x1_0000) % 0x100) as u8);
    buf.push(((x / 0x100) % 0x100) as u8);
    buf.push((x % 0x100) as u8);
    assert(buf@ =~= old(buf)@ + be_bytes(x));
    assert(buf@.take(old(buf)@.len() as int) =~= old(buf)@);
    assert(buf@.skip(old(buf)@.len() as int) =~= be_bytes(x));
}

/// Reads the four bytes of `bytes` that start at `at`.
pub fn read_be(bytes: &[u8], at: usize) -> (x: u32)
    requires
        at + 4 <= bytes@.len(),
    ensures
        x == be_value(bytes@.subrange(at as int, at + 4)),
        x == bytes@[at as int] * 0x100_0000 + bytes@[at + 1] * 0x1_0000 + bytes@[at + 2] * 0x100
            + bytes@[at + 3],
{
    proof {
        reveal(be_value);
    }
    let b0: u32 = bytes[at] as u32;
    let b1: u32 = bytes[at + 1] as u32;
    let b2: u32 = bytes[at + 2] as u32;
    let b3: u32 = bytes[at + 3] as u32;
    b0 * 0x100_0000 + b1 * 0x1_0000 + b2 * 0x100 + b3
}

} // verus!
