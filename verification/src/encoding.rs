//! Big-endian integers and UTF-8 strings as bytes.

use vstd::prelude::*;
use vstd::utf8::*;

verus! {

/// 256 to the power `width`: the number of values that `width` bytes hold.
pub open spec fn byte_limit(width: nat) -> nat
    decreases width,
{
    if width == 0 {
        1
    } else {
        256 * byte_limit((width - 1) as nat)
    }
}

/// The `width` low-order bytes of `n`, most significant first.
pub open spec fn be_bytes(n: nat, width: nat) -> Seq<u8>
    decreases width,
{
    if width == 0 {
        Seq::empty()
    } else {
        be_bytes(n / 256, (width - 1) as nat).push((n % 256) as u8)
    }
}

/// The number that `b` spells, most significant byte first.
pub open spec fn be_value(b: Seq<u8>) -> nat
    decreases b.len(),
{
    if b.len() == 0 {
        0
    } else {
        be_value(b.drop_last()) * 256 + b.last() as nat
    }
}

/// `be_bytes` gives exactly `width` bytes.
pub proof fn lemma_be_bytes_len(n: nat, width: nat)
    ensures
        be_bytes(n, width).len() == width,
    decreases width,
{
    if width > 0 {
        lemma_be_bytes_len(n / 256, (width - 1) as nat);
    }
}

/// Reading back the bytes of a number that fits gives the number.
pub proof fn lemma_be_round_trip(n: nat, width: nat)
    requires
        n < byte_limit(width),
    ensures
        be_value(be_bytes(n, width)) == n,
    decreases width,
{
    if width > 0 {
        let rest = be_bytes(n / 256, (width - 1) as nat);
        lemma_be_round_trip(n / 256, (width - 1) as nat);
        assert(be_bytes(n, width).drop_last() =~= rest);
    }
}

/// The number that bytes spell is below the limit of their count.
pub proof fn lemma_be_value_bound(b: Seq<u8>)
    ensures
        be_value(b) < byte_limit(b.len()),
    decreases b.len(),
{
    if b.len() > 0 {
        lemma_be_value_bound(b.drop_last());
    }
}

/// Eight bytes hold the 64-bit numbers, sixteen the 128-bit ones.
pub proof fn lemma_byte_limits()
    ensures
        byte_limit(8) == 0x1_0000_0000_0000_0000,
        byte_limit(16) == 0x1_0000_0000_0000_0000_0000_0000_0000_0000,
{
    reveal_with_fuel(byte_limit, 17);
}

/// The limit grows with the width.
pub proof fn lemma_byte_limit_monotonic(a: nat, b: nat)
    requires
        a <= b,
    ensures
        byte_limit(a) <= byte_limit(b),
        byte_limit(a) >= 1,
    decreases b,
{
    if a < b {
        lemma_byte_limit_monotonic(a, (b - 1) as nat);
    } else if a > 0 {
        lemma_byte_limit_monotonic((a - 1) as nat, (a - 1) as nat);
    }
}

/// Appends the `width` low-order bytes of `n` to `out`, most significant
/// first.
pub fn push_be(out: &mut Vec<u8>, n: u128, width: usize)
    ensures
        final(out)@ == old(out)@ + be_bytes(n as nat, width as nat),
    decreases width,
{
    if width > 0 {
        push_be(out, n / 256, width - 1);
        out.push((n % 256) as u8);
        assert(out@ =~= old(out)@ + be_bytes(n as nat, width as nat));
    } else {
        assert(out@ =~= old(out)@ + be_bytes(n as nat, width as nat));
    }
}

/// Reads the number that the `width` bytes from `pos` spell.
pub fn read_be(bytes: &[u8], pos: usize, width: usize) -> (r: u128)
    requires
        width <= 16,
        pos + width <= bytes@.len(),
    ensures
        r == be_value(bytes@.subrange(pos as int, pos + width)),
{
    let total = bytes.len();
    let mut acc: u128 = 0;
    let mut i: usize = 0;
    while i < width
        invariant
            i <= width <= 16,
            pos + width <= total,
            total == bytes@.len(),
            acc == be_value(bytes@.subrange(pos as int, pos + i)),
        decreases width - i,
    {
        let ghost before = bytes@.subrange(pos as int, pos + i);
        let ghost after = bytes@.subrange(pos as int, pos + i + 1);
        proof {
            lemma_be_value_bound(before);
            lemma_byte_limit_monotonic(i as nat, 15);
            lemma_byte_limits();
            reveal_with_fuel(byte_limit, 16);
            assert(after.drop_last() =~= before);
        }
        acc = acc * 256 + bytes[pos + i] as u128;
        i = i + 1;
    }
    acc
}

/// `String::from_utf8` of std: the string that the bytes encode, or `None`
/// where they are not UTF-8.
#[verifier::external_body]
pub(crate) fn string_from_utf8(bytes: Vec<u8>) -> (r: Option<String>)
    ensures
        match r {
            Some(s) => valid_utf8(bytes@) && s@ == decode_utf8(bytes@),
            None => !valid_utf8(bytes@),
        },
{
    match String::from_utf8(bytes) {
        Ok(text) => Some(text),
        Err(_) => None,
    }
}

/// The text whose UTF-8 encoding is `bytes`, where there is one.
pub open spec fn utf8_text(bytes: Seq<u8>) -> Option<Seq<char>> {
    if valid_utf8(bytes) {
        Some(decode_utf8(bytes))
    } else {
        None
    }
}

/// Text is read back from its own encoding.
pub proof fn lemma_utf8_round_trip(text: Seq<char>)
    ensures
        utf8_text(encode_utf8(text)) == Some(text),
{
    encode_utf8_valid_utf8(text);
    encode_utf8_decode_utf8(text);
}

/// Different texts have different encodings.
pub proof fn lemma_utf8_injective(a: Seq<char>, b: Seq<char>)
    requires
        encode_utf8(a) == encode_utf8(b),
    ensures
        a == b,
{
    lemma_utf8_round_trip(a);
    lemma_utf8_round_trip(b);
}

} // verus!
