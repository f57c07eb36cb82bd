//! Numbers, texts and decimal amounts as JSON.
//!
//! The writers give the compact form: a number as its decimal digits, a
//! text between quotes with the quote, the backslash and the control
//! characters escaped, an amount as the text of its decimal fraction. The
//! readers take what the writers give.

use crate::decimal::DECIMAL_FRACTIONAL;
use crate::encoding::lemma_utf8_round_trip;
use crate::encoding::string_from_utf8;
use crate::encoding::utf8_text;
use vstd::prelude::*;
use vstd::utf8::*;

verus! {

/// The byte `"`.
pub const QUOTE: u8 = 34;

/// The byte `\`.
pub const BACKSLASH: u8 = 92;

/// The byte `.`.
pub const POINT: u8 = 46;

/// The byte `0`.
pub const ZERO: u8 = 48;

/// The number of decimal places of an amount.
pub const PLACES: usize = 18;

/// The byte of the digit `d`.
pub open spec fn digit_byte(d: nat) -> u8 {
    (48 + d) as u8
}

/// Whether `b` is the byte of a digit.
pub open spec fn is_digit_byte(b: u8) -> bool {
    48 <= b <= 57
}

/// The decimal digits of `n`, without leading zeros.
pub open spec fn number_bytes(n: nat) -> Seq<u8>
    decreases n,
{
    if n < 10 {
        seq![digit_byte(n)]
    } else {
        number_bytes(n / 10).push(digit_byte(n % 10))
    }
}

/// Whether every byte of `s` is a digit.
pub open spec fn all_digit_bytes(s: Seq<u8>) -> bool {
    forall|i: int| 0 <= i < s.len() ==> is_digit_byte(#[trigger] s[i])
}

/// The number that the digits of `s` spell.
pub open spec fn digits_number(s: Seq<u8>) -> nat
    decreases s.len(),
{
    if s.len() == 0 {
        0
    } else {
        digits_number(s.drop_last()) * 10 + (s.last() - 48) as nat
    }
}

/// The number of digits at the start of `b`.
pub open spec fn digit_run(b: Seq<u8>) -> nat
    decreases b.len(),
{
    if b.len() > 0 && is_digit_byte(b[0]) {
        1 + digit_run(b.skip(1))
    } else {
        0
    }
}

/// The number at the start of `b`, which is its longest run of digits, and
/// what follows it. There is none where `b` starts with no digit or the
/// number exceeds 128 bits.
pub open spec fn take_number(b: Seq<u8>) -> Option<(nat, Seq<u8>)> {
    let k = digit_run(b) as int;
    if k == 0 || digits_number(b.take(k)) > u128::MAX {
        None
    } else {
        Some((digits_number(b.take(k)), b.skip(k)))
    }
}

/// The digits of a number are digits, and spell the number.
pub proof fn lemma_number_bytes(n: nat)
    ensures
        number_bytes(n).len() > 0,
        all_digit_bytes(number_bytes(n)),
        digits_number(number_bytes(n)) == n,
    decreases n,
{
    if n < 10 {
        assert(number_bytes(n).drop_last() =~= Seq::<u8>::empty());
        assert(digits_number(Seq::<u8>::empty()) == 0);
        assert(number_bytes(n).last() == digit_byte(n));
    } else {
        lemma_number_bytes(n / 10);
        assert(number_bytes(n).drop_last() =~= number_bytes(n / 10));
        assert(number_bytes(n).last() == digit_byte(n % 10));
    }
}

/// The run of digits at the start of `b` is within `b`, consists of
/// digits, and ends before a byte that is no digit.
pub proof fn lemma_digit_run(b: Seq<u8>)
    ensures
        digit_run(b) <= b.len(),
        all_digit_bytes(b.take(digit_run(b) as int)),
        digit_run(b) < b.len() ==> !is_digit_byte(b[digit_run(b) as int]),
    decreases b.len(),
{
    if b.len() > 0 && is_digit_byte(b[0]) {
        let tail = b.skip(1);
        lemma_digit_run(tail);
        let k = digit_run(b) as int;
        assert forall|i: int| 0 <= i < k implies is_digit_byte(#[trigger] b.take(k)[i]) by {
            if i > 0 {
                assert(b.take(k)[i] == tail.take(k - 1)[i - 1]);
            }
        }
        if k < b.len() {
            assert(b[k] == tail[k - 1]);
        }
    }
}

/// A run of digits before a byte that is no digit is the run of digits at
/// the start.
pub proof fn lemma_digit_run_of(d: Seq<u8>, rest: Seq<u8>)
    requires
        all_digit_bytes(d),
        rest.len() == 0 || !is_digit_byte(rest[0]),
    ensures
        digit_run(d + rest) == d.len(),
    decreases d.len(),
{
    let b = d + rest;
    if d.len() == 0 {
        assert(b =~= rest);
    } else {
        assert(b[0] == d[0]);
        let tail = d.skip(1);
        assert forall|i: int| 0 <= i < tail.len() implies is_digit_byte(#[trigger] tail[i]) by {
            assert(tail[i] == d[i + 1]);
        }
        lemma_digit_run_of(tail, rest);
        assert(b.skip(1) =~= tail + rest);
    }
}

/// A written number is read back before anything that starts with no
/// digit.
pub proof fn lemma_take_number(n: nat, rest: Seq<u8>)
    requires
        n <= u128::MAX,
        rest.len() == 0 || !is_digit_byte(rest[0]),
    ensures
        take_number(number_bytes(n) + rest) == Some((n, rest)),
{
    let d = number_bytes(n);
    lemma_number_bytes(n);
    lemma_digit_run_of(d, rest);
    assert((d + rest).take(d.len() as int) =~= d);
    assert((d + rest).skip(d.len() as int) =~= rest);
}

/// A run of digits spells at least what any of its beginnings spells.
pub proof fn lemma_digits_number_prefix(s: Seq<u8>, k: int)
    requires
        0 <= k <= s.len(),
        all_digit_bytes(s),
    ensures
        digits_number(s.take(k)) <= digits_number(s),
    decreases s.len() - k,
{
    if k < s.len() {
        lemma_digits_number_prefix(s, k + 1);
        assert(s.take(k + 1).drop_last() =~= s.take(k));
        assert(is_digit_byte(s[k]));
        assert(s.take(k + 1).last() == s[k]);
    } else {
        assert(s.take(k) =~= s);
    }
}

/// Appends the decimal digits of `n` to `out`.
pub fn push_number(out: &mut Vec<u8>, n: u128)
    ensures
        final(out)@ == old(out)@ + number_bytes(n as nat),
    decreases n,
{
    if n >= 10 {
        push_number(out, n / 10);
    }
    out.push(ZERO + (n % 10) as u8);
    assert(out@ =~= old(out)@ + number_bytes(n as nat));
}

/// Reads the number that starts at `pos`.
pub(crate) fn read_number(bytes: &[u8], pos: usize) -> (r: Option<(u128, usize)>)
    requires
        pos <= bytes@.len(),
    ensures
        match r {
            Some((n, next)) => pos < next <= bytes@.len() && take_number(bytes@.skip(pos as int))
                == Some((n as nat, bytes@.skip(next as int))),
            None => take_number(bytes@.skip(pos as int)) is None,
        },
{
    let total = bytes.len();
    let ghost b = bytes@.skip(pos as int);
    let ghost run = digit_run(b) as int;
    let mut at: usize = pos;
    let mut acc: u128 = 0;
    proof {
        lemma_digit_run(b);
        assert(b.take(0) =~= Seq::<u8>::empty());
    }
    while at < total && bytes[at] >= 48 && bytes[at] <= 57
        invariant
            pos <= at <= total,
            total == bytes@.len(),
            b == bytes@.skip(pos as int),
            run == digit_run(b),
            run <= b.len(),
            all_digit_bytes(b.take(run)),
            at - pos <= run,
            acc == digits_number(b.take(at - pos)),
            run < b.len() ==> !is_digit_byte(b[run]),
        decreases total - at,
    {
        let ghost k = at - pos;
        proof {
            assert(b[k] == bytes@[at as int]);
            if k == run {
                assert(false);
            }
            assert(b.take(k + 1).drop_last() =~= b.take(k));
            assert(b.take(k + 1).last() == b[k]);
            lemma_digits_number_prefix(b.take(run), k + 1);
            assert(b.take(run).take(k + 1) =~= b.take(k + 1));
        }
        let d: u128 = (bytes[at] - 48) as u128;
        let shifted = match acc.checked_mul(10) {
            Some(v) => v,
            None => {
                return None;
            },
        };
        acc = match shifted.checked_add(d) {
            Some(v) => v,
            None => {
                return None;
            },
        };
        at = at + 1;
    }
    proof {
        let k = at - pos;
        if k < run {
            assert(b[k] == bytes@[at as int]);
            assert(is_digit_byte(b.take(run)[k]));
        }
        assert(k == run);
        assert(b.skip(run) =~= bytes@.skip(at as int));
    }
    if at == pos {
        None
    } else {
        Some((acc, at))
    }
}

/// The digit of the hexadecimal number `d`, in lower case.
pub open spec fn hex_byte(d: nat) -> u8 {
    if d < 10 {
        (48 + d) as u8
    } else {
        (87 + d) as u8
    }
}

/// What stands for the byte `c` inside a text: two bytes for the quote,
/// the backslash and the control characters that have a short form, six
/// bytes for the other control characters, and the byte itself for every
/// other.
pub open spec fn escape_byte(c: u8) -> Seq<u8> {
    if c == 34 {
        seq![92u8, 34u8]
    } else if c == 92 {
        seq![92u8, 92u8]
    } else if c == 8 {
        seq![92u8, 98u8]
    } else if c == 12 {
        seq![92u8, 102u8]
    } else if c == 10 {
        seq![92u8, 110u8]
    } else if c == 13 {
        seq![92u8, 114u8]
    } else if c == 9 {
        seq![92u8, 116u8]
    } else if c < 32 {
        seq![92u8, 117u8, 48u8, 48u8, hex_byte((c / 16) as nat), hex_byte((c % 16) as nat)]
    } else {
        seq![c]
    }
}

/// What stands for the bytes `x` inside a text.
pub open spec fn escape_bytes(x: Seq<u8>) -> Seq<u8>
    decreases x.len(),
{
    if x.len() == 0 {
        Seq::empty()
    } else {
        escape_byte(x[0]) + escape_bytes(x.skip(1))
    }
}

/// A text as JSON: its UTF-8 bytes, escaped, between quotes.
pub open spec fn text_bytes(t: Seq<char>) -> Seq<u8> {
    seq![34u8] + escape_bytes(encode_utf8(t)) + seq![34u8]
}

/// The value of the lower-case hexadecimal digit `b`, if it is one.
pub open spec fn hex_value(b: u8) -> Option<nat> {
    if 48 <= b <= 57 {
        Some((b - 48) as nat)
    } else if 97 <= b <= 102 {
        Some((b - 87) as nat)
    } else {
        None
    }
}

/// The byte that the start of `b` stands for inside a text, and the
/// number of bytes that stand for it. There is none where `b` starts with
/// a quote, with a control character or with an unknown escape.
pub open spec fn take_escaped(b: Seq<u8>) -> Option<(u8, int)> {
    if b.len() == 0 {
        None
    } else if b[0] == 92 {
        if b.len() < 2 {
            None
        } else if b[1] == 34 {
            Some((34u8, 2))
        } else if b[1] == 92 {
            Some((92u8, 2))
        } else if b[1] == 98 {
            Some((8u8, 2))
        } else if b[1] == 102 {
            Some((12u8, 2))
        } else if b[1] == 110 {
            Some((10u8, 2))
        } else if b[1] == 114 {
            Some((13u8, 2))
        } else if b[1] == 116 {
            Some((9u8, 2))
        } else if b[1] == 117 && b.len() >= 6 && b[2] == 48 && b[3] == 48 {
            match (hex_value(b[4]), hex_value(b[5])) {
                (Some(high), Some(low)) => if high * 16 + low < 32 {
                    Some(((high * 16 + low) as u8, 6))
                } else {
                    None
                },
                _ => None,
            }
        } else {
            None
        }
    } else if b[0] == 34 || b[0] < 32 {
        None
    } else {
        Some((b[0], 1))
    }
}

/// The bytes that `b` stands for up to its first quote, and what follows
/// that quote.
pub open spec fn take_raw_text(b: Seq<u8>) -> Option<(Seq<u8>, Seq<u8>)>
    decreases b.len(),
{
    if b.len() == 0 {
        None
    } else if b[0] == 34 {
        Some((Seq::empty(), b.skip(1)))
    } else {
        match take_escaped(b) {
            Some((c, used)) => match take_raw_text(b.skip(used)) {
                Some((raw, rest)) => Some((seq![c] + raw, rest)),
                None => None,
            },
            None => None,
        }
    }
}

/// The text at the start of `b` and what follows it.
pub open spec fn take_text(b: Seq<u8>) -> Option<(Seq<char>, Seq<u8>)> {
    if b.len() == 0 || b[0] != 34 {
        None
    } else {
        match take_raw_text(b.skip(1)) {
            Some((raw, rest)) => match utf8_text(raw) {
                Some(t) => Some((t, rest)),
                None => None,
            },
            None => None,
        }
    }
}

/// What stands for a byte is read back as the byte.
pub proof fn lemma_take_escaped(c: u8, rest: Seq<u8>)
    ensures
        take_escaped(escape_byte(c) + rest) == Some((c, escape_byte(c).len() as int)),
        escape_byte(c).len() > 0,
        (escape_byte(c) + rest)[0] != 34,
{
    let e = escape_byte(c);
    let b = e + rest;
    if c < 32 && c != 8 && c != 12 && c != 10 && c != 13 && c != 9 {
        assert(b[0] == 92 && b[1] == 117 && b[2] == 48 && b[3] == 48);
        assert(b[4] == hex_byte((c / 16) as nat));
        assert(b[5] == hex_byte((c % 16) as nat));
        assert(hex_value(b[4]) == Some((c / 16) as nat));
        assert(hex_value(b[5]) == Some((c % 16) as nat));
    } else if c == 34 || c == 92 || c == 8 || c == 12 || c == 10 || c == 13 || c == 9 {
        assert(b[0] == 92);
        assert(b[1] == e[1]);
    } else {
        assert(b[0] == c);
    }
}

/// Escaped bytes are read back up to the quote that ends them.
pub proof fn lemma_take_raw_text(x: Seq<u8>, rest: Seq<u8>)
    ensures
        take_raw_text(escape_bytes(x) + seq![34u8] + rest) == Some((x, rest)),
    decreases x.len(),
{
    let b = escape_bytes(x) + seq![34u8] + rest;
    if x.len() == 0 {
        assert(b[0] == 34);
        assert(b.skip(1) =~= rest);
        assert(x =~= Seq::<u8>::empty());
    } else {
        let e = escape_byte(x[0]);
        let tail = x.skip(1);
        let after = escape_bytes(tail) + seq![34u8] + rest;
        lemma_take_escaped(x[0], after);
        assert(b =~= e + after);
        assert(b.skip(e.len() as int) =~= after);
        lemma_take_raw_text(tail, rest);
        assert(seq![x[0]] + tail =~= x);
    }
}

/// A written text is read back.
pub proof fn lemma_take_text(t: Seq<char>, rest: Seq<u8>)
    ensures
        take_text(text_bytes(t) + rest) == Some((t, rest)),
{
    let x = encode_utf8(t);
    let b = text_bytes(t) + rest;
    assert(b[0] == 34);
    assert(b.skip(1) =~= escape_bytes(x) + seq![34u8] + rest);
    lemma_take_raw_text(x, rest);
    lemma_utf8_round_trip(t);
}

/// The lower-case hexadecimal digit of `d`.
fn hex_digit(d: u8) -> (r: u8)
    requires
        d < 16,
    ensures
        r == hex_byte(d as nat),
{
    if d < 10 {
        48 + d
    } else {
        87 + d
    }
}

/// Appends what stands for the byte `c` inside a text.
fn push_escaped(out: &mut Vec<u8>, c: u8)
    ensures
        final(out)@ == old(out)@ + escape_byte(c),
{
    if c == 34 {
        out.push(BACKSLASH);
        out.push(34);
    } else if c == 92 {
        out.push(BACKSLASH);
        out.push(92);
    } else if c == 8 {
        out.push(BACKSLASH);
        out.push(98);
    } else if c == 12 {
        out.push(BACKSLASH);
        out.push(102);
    } else if c == 10 {
        out.push(BACKSLASH);
        out.push(110);
    } else if c == 13 {
        out.push(BACKSLASH);
        out.push(114);
    } else if c == 9 {
        out.push(BACKSLASH);
        out.push(116);
    } else if c < 32 {
        out.push(BACKSLASH);
        out.push(117);
        out.push(48);
        out.push(48);
        out.push(hex_digit(c / 16));
        out.push(hex_digit(c % 16));
    } else {
        out.push(c);
    }
    assert(out@ =~= old(out)@ + escape_byte(c));
}

/// What stands for bytes is what stands for all but the last of them,
/// and then for the last.
pub proof fn lemma_escape_bytes_push(x: Seq<u8>, c: u8)
    ensures
        escape_bytes(x.push(c)) == escape_bytes(x) + escape_byte(c),
    decreases x.len(),
{
    if x.len() == 0 {
        assert(x.push(c).skip(1) =~= Seq::<u8>::empty());
        assert(x.push(c)[0] == c);
        assert(escape_bytes(x.push(c).skip(1)) =~= Seq::<u8>::empty());
        assert(escape_bytes(x) =~= Seq::<u8>::empty());
        assert(escape_bytes(x.push(c)) =~= escape_byte(c));
        assert(escape_bytes(x) + escape_byte(c) =~= escape_byte(c));
    } else {
        lemma_escape_bytes_push(x.skip(1), c);
        assert(x.push(c).skip(1) =~= x.skip(1).push(c));
        assert(escape_bytes(x.push(c)) =~= escape_bytes(x) + escape_byte(c));
    }
}

/// Appends a text as JSON.
pub fn push_text(out: &mut Vec<u8>, s: &str)
    ensures
        final(out)@ == old(out)@ + text_bytes(s@),
{
    let bytes = s.as_bytes();
    let ghost x = encode_utf8(s@);
    out.push(QUOTE);
    let ghost base = out@;
    let mut i: usize = 0;
    assert(x.take(0) =~= Seq::<u8>::empty());
    assert(out@ =~= base + escape_bytes(x.take(0)));
    while i < bytes.len()
        invariant
            i <= bytes.len(),
            bytes@ == x,
            out@ == base + escape_bytes(x.take(i as int)),
        decreases bytes.len() - i,
    {
        push_escaped(out, bytes[i]);
        proof {
            lemma_escape_bytes_push(x.take(i as int), x[i as int]);
            assert(x.take(i as int).push(x[i as int]) =~= x.take(i + 1));
            assert(out@ =~= base + escape_bytes(x.take(i + 1)));
        }
        i = i + 1;
    }
    assert(x.take(bytes.len() as int) =~= x);
    out.push(QUOTE);
    assert(out@ =~= old(out)@ + text_bytes(s@));
}

/// The value of the lower-case hexadecimal digit `b`.
fn hex_digit_value(b: u8) -> (r: Option<u8>)
    ensures
        match r {
            Some(v) => hex_value(b) == Some(v as nat) && v < 16,
            None => hex_value(b) is None,
        },
{
    if b >= 48 && b <= 57 {
        Some(b - 48)
    } else if b >= 97 && b <= 102 {
        Some(b - 87)
    } else {
        None
    }
}

/// Reads the byte that the bytes at `pos` stand for inside a text.
fn read_escaped(bytes: &[u8], pos: usize) -> (r: Option<(u8, usize)>)
    requires
        pos <= bytes@.len(),
    ensures
        match r {
            Some((c, next)) => pos < next <= bytes@.len() && take_escaped(bytes@.skip(pos as int))
                == Some((c, next - pos)),
            None => take_escaped(bytes@.skip(pos as int)) is None,
        },
{
    let total = bytes.len();
    let ghost b = bytes@.skip(pos as int);
    if pos >= total {
        return None;
    }
    let first = bytes[pos];
    assert(b[0] == first);
    if first == 92 {
        if total - pos < 2 {
            return None;
        }
        let second = bytes[pos + 1];
        assert(b[1] == second);
        if second == 34 {
            Some((34, pos + 2))
        } else if second == 92 {
            Some((92, pos + 2))
        } else if second == 98 {
            Some((8, pos + 2))
        } else if second == 102 {
            Some((12, pos + 2))
        } else if second == 110 {
            Some((10, pos + 2))
        } else if second == 114 {
            Some((13, pos + 2))
        } else if second == 116 {
            Some((9, pos + 2))
        } else if second == 117 && total - pos >= 6 {
            assert(b[2] == bytes@[pos + 2]);
            assert(b[3] == bytes@[pos + 3]);
            assert(b[4] == bytes@[pos + 4]);
            assert(b[5] == bytes@[pos + 5]);
            if bytes[pos + 2] != 48 || bytes[pos + 3] != 48 {
                return None;
            }
            let high = match hex_digit_value(bytes[pos + 4]) {
                Some(v) => v,
                None => {
                    return None;
                },
            };
            let low = match hex_digit_value(bytes[pos + 5]) {
                Some(v) => v,
                None => {
                    return None;
                },
            };
            if high * 16 + low < 32 {
                Some((high * 16 + low, pos + 6))
            } else {
                None
            }
        } else {
            None
        }
    } else if first == 34 || first < 32 {
        None
    } else {
        Some((first, pos + 1))
    }
}

/// Reads the text that starts at `pos`.
pub(crate) fn read_text(bytes: &[u8], pos: usize) -> (r: Option<(String, usize)>)
    requires
        pos <= bytes@.len(),
    ensures
        match r {
            Some((s, next)) => pos < next <= bytes@.len() && take_text(bytes@.skip(pos as int))
                == Some((s@, bytes@.skip(next as int))),
            None => take_text(bytes@.skip(pos as int)) is None,
        },
{
    let total = bytes.len();
    let ghost b = bytes@.skip(pos as int);
    if pos >= total || bytes[pos] != 34 {
        proof {
            if pos < total {
                assert(b[0] == bytes@[pos as int]);
            }
        }
        return None;
    }
    assert(b[0] == bytes@[pos as int]);
    assert(b.skip(1) =~= bytes@.skip(pos + 1));
    let mut raw: Vec<u8> = Vec::new();
    let mut at: usize = pos + 1;
    let ghost whole = take_raw_text(bytes@.skip(pos + 1));
    proof {
        if whole is Some {
            assert(raw@ + whole.unwrap().0 =~= whole.unwrap().0);
        }
    }
    loop
        invariant
            pos < at <= total,
            total == bytes@.len(),
            b == bytes@.skip(pos as int),
            b.len() > 0 && b[0] == 34,
            b.skip(1) == bytes@.skip(pos + 1),
            whole == take_raw_text(bytes@.skip(pos + 1)),
            whole == match take_raw_text(bytes@.skip(at as int)) {
                Some((more, rest)) => Some((raw@ + more, rest)),
                None => None,
            },
        decreases total - at,
    {
        let ghost here = bytes@.skip(at as int);
        if at >= total {
            return None;
        }
        assert(here[0] == bytes@[at as int]);
        if bytes[at] == 34 {
            proof {
                assert(here.skip(1) =~= bytes@.skip(at + 1));
                assert(raw@ + Seq::<u8>::empty() =~= raw@);
            }
            let next = at + 1;
            return match string_from_utf8(raw) {
                Some(s) => Some((s, next)),
                None => None,
            };
        }
        match read_escaped(bytes, at) {
            Some((c, next)) => {
                proof {
                    assert(here.skip(next - at) =~= bytes@.skip(next as int));
                    let later = take_raw_text(bytes@.skip(next as int));
                    if later is Some {
                        assert(raw@ + (seq![c] + later.unwrap().0) =~= raw@.push(c)
                            + later.unwrap().0);
                    }
                }
                raw.push(c);
                at = next;
            },
            None => {
                return None;
            },
        }
    }
}

/// Ten to the power `k`.
pub open spec fn pow10(k: nat) -> nat
    decreases k,
{
    if k == 0 {
        1
    } else {
        10 * pow10((k - 1) as nat)
    }
}

/// The last `width` decimal digits of `n`, with leading zeros.
pub open spec fn fixed_digits(n: nat, width: nat) -> Seq<u8>
    decreases width,
{
    if width == 0 {
        Seq::empty()
    } else {
        fixed_digits(n / 10, (width - 1) as nat).push(digit_byte(n % 10))
    }
}

/// The digits `s` without the zeros at their end.
pub open spec fn trim_zeros(s: Seq<u8>) -> Seq<u8>
    decreases s.len(),
{
    if s.len() > 0 && s.last() == 48 {
        trim_zeros(s.drop_last())
    } else {
        s
    }
}

/// An amount as JSON: the text of its whole units, and, where it has a
/// fraction, a point and the eighteen digits of the fraction without the
/// zeros at their end.
pub open spec fn amount_bytes(a: u128) -> Seq<u8> {
    let whole = (a / DECIMAL_FRACTIONAL) as nat;
    let fraction = (a % DECIMAL_FRACTIONAL) as nat;
    let digits = if fraction == 0 {
        Seq::<u8>::empty()
    } else {
        seq![46u8] + trim_zeros(fixed_digits(fraction, PLACES as nat))
    };
    seq![34u8] + number_bytes(whole) + digits + seq![34u8]
}

/// The amount at the start of `b` and what follows it. There is none
/// where the text is no decimal fraction of at most eighteen places, or
/// is one that exceeds 128 bits of atomic units.
pub open spec fn take_amount(b: Seq<u8>) -> Option<(u128, Seq<u8>)> {
    if b.len() == 0 || b[0] != 34 {
        None
    } else {
        match take_number(b.skip(1)) {
            None => None,
            Some((whole, r)) => {
                if r.len() == 0 {
                    None
                } else if r[0] == 34 {
                    if whole * DECIMAL_FRACTIONAL <= u128::MAX {
                        Some(((whole * DECIMAL_FRACTIONAL) as u128, r.skip(1)))
                    } else {
                        None
                    }
                } else if r[0] == 46 {
                    let d = r.skip(1);
                    let k = digit_run(d) as int;
                    if k == 0 || k > PLACES || d.len() <= k || d[k] != 34 {
                        None
                    } else {
                        let value = whole * DECIMAL_FRACTIONAL + digits_number(d.take(k)) * pow10(
                            (PLACES - k) as nat,
                        );
                        if value <= u128::MAX {
                            Some((value as u128, d.skip(k + 1)))
                        } else {
                            None
                        }
                    }
                } else {
                    None
                }
            },
        }
    }
}

/// Eighteen places make the fraction of a decimal.
pub proof fn lemma_pow10_places()
    ensures
        pow10(PLACES as nat) == DECIMAL_FRACTIONAL,
        pow10(0) == 1,
{
    reveal_with_fuel(pow10, 19);
}

/// The powers of ten grow, and multiply as their exponents add.
pub proof fn lemma_pow10_step(k: nat)
    ensures
        pow10(k + 1) == 10 * pow10(k),
        pow10(k) >= 1,
    decreases k,
{
    if k > 0 {
        lemma_pow10_step((k - 1) as nat);
    }
}

/// Digits of fixed width are digits, as many as the width, and spell the
/// number where it is below ten to the power of the width.
pub proof fn lemma_fixed_digits(n: nat, width: nat)
    requires
        n < pow10(width),
    ensures
        fixed_digits(n, width).len() == width,
        all_digit_bytes(fixed_digits(n, width)),
        digits_number(fixed_digits(n, width)) == n,
    decreases width,
{
    if width > 0 {
        let s = fixed_digits(n, width);
        lemma_fixed_digits(n / 10, (width - 1) as nat);
        assert(s.drop_last() =~= fixed_digits(n / 10, (width - 1) as nat));
        assert(s.last() == digit_byte(n % 10));
        assert forall|i: int| 0 <= i < s.len() implies is_digit_byte(#[trigger] s[i]) by {
            if i < s.len() - 1 {
                assert(s[i] == s.drop_last()[i]);
            }
        }
    }
}

/// Digits without the zeros at their end are a beginning of the digits,
/// and spell the number of the digits divided by ten for each zero
/// taken. Where the number is not zero, some digit is left.
pub proof fn lemma_trim_zeros(s: Seq<u8>)
    requires
        all_digit_bytes(s),
    ensures
        trim_zeros(s).len() <= s.len(),
        trim_zeros(s) == s.take(trim_zeros(s).len() as int),
        all_digit_bytes(trim_zeros(s)),
        digits_number(s) == digits_number(trim_zeros(s)) * pow10(
            (s.len() - trim_zeros(s).len()) as nat,
        ),
        digits_number(s) > 0 ==> trim_zeros(s).len() > 0,
    decreases s.len(),
{
    if s.len() > 0 && s.last() == 48 {
        let before = s.drop_last();
        assert forall|i: int| 0 <= i < before.len() implies is_digit_byte(#[trigger] before[i]) by {
            assert(before[i] == s[i]);
        }
        lemma_trim_zeros(before);
        let t = trim_zeros(before);
        let gap = (before.len() - t.len()) as nat;
        lemma_pow10_step(gap);
        assert(t =~= s.take(t.len() as int));
        assert(digits_number(s) == digits_number(t) * pow10(gap + 1)) by (nonlinear_arith)
            requires
                digits_number(s) == digits_number(before) * 10,
                digits_number(before) == digits_number(t) * pow10(gap),
                pow10(gap + 1) == 10 * pow10(gap),
        ;
    } else {
        assert(s.take(s.len() as int) =~= s);
        lemma_pow10_places();
        assert(digits_number(s) * 1 == digits_number(s));
        if s.len() == 0 {
            assert(digits_number(s) == 0);
        }
    }
}

/// A run of digits spells a number below ten to the power of its length.
pub proof fn lemma_digits_number_bound(s: Seq<u8>)
    requires
        all_digit_bytes(s),
    ensures
        digits_number(s) < pow10(s.len()),
    decreases s.len(),
{
    if s.len() > 0 {
        let before = s.drop_last();
        assert forall|i: int| 0 <= i < before.len() implies is_digit_byte(#[trigger] before[i]) by {
            assert(before[i] == s[i]);
        }
        lemma_digits_number_bound(before);
        assert(is_digit_byte(s[s.len() - 1]));
    }
}

/// The powers of ten do not fall as the exponent grows.
pub proof fn lemma_pow10_monotonic(a: nat, b: nat)
    requires
        a <= b,
    ensures
        pow10(a) <= pow10(b),
    decreases b,
{
    if a < b {
        lemma_pow10_monotonic(a, (b - 1) as nat);
        lemma_pow10_step((b - 1) as nat);
    }
}

/// A written amount is read back.
pub proof fn lemma_take_amount(a: u128, rest: Seq<u8>)
    ensures
        take_amount(amount_bytes(a) + rest) == Some((a, rest)),
{
    let whole = (a / DECIMAL_FRACTIONAL) as nat;
    let fraction = (a % DECIMAL_FRACTIONAL) as nat;
    let b = amount_bytes(a) + rest;
    assert(b[0] == 34);
    lemma_pow10_places();
    if fraction == 0 {
        let tail = seq![34u8] + rest;
        assert(b.skip(1) =~= number_bytes(whole) + tail);
        assert(tail[0] == 34);
        lemma_take_number(whole, tail);
        assert(tail.skip(1) =~= rest);
    } else {
        let full = fixed_digits(fraction, PLACES as nat);
        let digits = trim_zeros(full);
        let after = seq![34u8] + rest;
        let tail = seq![46u8] + digits + after;
        assert(b.skip(1) =~= number_bytes(whole) + tail);
        assert(tail[0] == 46);
        lemma_take_number(whole, tail);
        lemma_fixed_digits(fraction, PLACES as nat);
        lemma_trim_zeros(full);
        let d = tail.skip(1);
        assert(d =~= digits + after);
        assert(after[0] == 34);
        lemma_digit_run_of(digits, after);
        let k = digits.len() as int;
        assert(d.take(k) =~= digits);
        assert(d[k] == 34);
        assert(d.skip(k + 1) =~= rest);
    }
}

/// Appends the last `width` decimal digits of `n`, with leading zeros.
fn push_fixed(out: &mut Vec<u8>, n: u128, width: usize)
    ensures
        final(out)@ == old(out)@ + fixed_digits(n as nat, width as nat),
    decreases width,
{
    if width > 0 {
        push_fixed(out, n / 10, width - 1);
        out.push(ZERO + (n % 10) as u8);
    }
    assert(out@ =~= old(out)@ + fixed_digits(n as nat, width as nat));
}

/// Appends an amount as JSON.
pub fn push_amount(out: &mut Vec<u8>, a: u128)
    ensures
        final(out)@ == old(out)@ + amount_bytes(a),
{
    let whole = a / DECIMAL_FRACTIONAL;
    let fraction = a % DECIMAL_FRACTIONAL;
    out.push(QUOTE);
    push_number(out, whole);
    if fraction != 0 {
        out.push(POINT);
        let ghost base = out@;
        let mut n = fraction;
        let mut width: usize = PLACES;
        while width > 0 && n % 10 == 0
            invariant
                width <= PLACES,
                trim_zeros(fixed_digits(fraction as nat, PLACES as nat)) == trim_zeros(
                    fixed_digits(n as nat, width as nat),
                ),
            decreases width,
        {
            proof {
                let s = fixed_digits(n as nat, width as nat);
                assert(s.last() == 48);
                assert(s.drop_last() =~= fixed_digits((n / 10) as nat, (width - 1) as nat));
            }
            n = n / 10;
            width = width - 1;
        }
        proof {
            let s = fixed_digits(n as nat, width as nat);
            if width > 0 {
                assert(s.last() == digit_byte((n % 10) as nat));
            }
            assert(trim_zeros(s) == s);
        }
        push_fixed(out, n, width);
    }
    out.push(QUOTE);
    assert(out@ =~= old(out)@ + amount_bytes(a));
}

/// Ten to the power `k`.
fn power_of_ten(k: usize) -> (r: u128)
    requires
        k <= PLACES,
    ensures
        r == pow10(k as nat),
{
    let mut r: u128 = 1;
    let mut i: usize = 0;
    while i < k
        invariant
            i <= k <= PLACES,
            r == pow10(i as nat),
        decreases k - i,
    {
        proof {
            lemma_pow10_step(i as nat);
            lemma_pow10_monotonic((i + 1) as nat, PLACES as nat);
            lemma_pow10_places();
        }
        r = r * 10;
        i = i + 1;
    }
    r
}

/// Reads the amount that starts at `pos`.
pub(crate) fn read_amount(bytes: &[u8], pos: usize) -> (r: Option<(u128, usize)>)
    requires
        pos <= bytes@.len(),
    ensures
        match r {
            Some((a, next)) => pos < next <= bytes@.len() && take_amount(bytes@.skip(pos as int))
                == Some((a, bytes@.skip(next as int))),
            None => take_amount(bytes@.skip(pos as int)) is None,
        },
{
    let total = bytes.len();
    let ghost b = bytes@.skip(pos as int);
    if pos >= total || bytes[pos] != 34 {
        proof {
            if pos < total {
                assert(b[0] == bytes@[pos as int]);
            }
        }
        return None;
    }
    proof {
        assert(b[0] == bytes@[pos as int]);
        assert(b.skip(1) =~= bytes@.skip(pos + 1));
    }
    let (whole, at) = match read_number(bytes, pos + 1) {
        Some(v) => v,
        None => {
            return None;
        },
    };
    let ghost r = bytes@.skip(at as int);
    if at >= total {
        return None;
    }
    assert(r[0] == bytes@[at as int]);
    if bytes[at] == 34 {
        assert(r.skip(1) =~= bytes@.skip(at + 1));
        return match whole.checked_mul(DECIMAL_FRACTIONAL) {
            Some(v) => Some((v, at + 1)),
            None => None,
        };
    }
    if bytes[at] != 46 {
        return None;
    }
    let start = at + 1;
    let ghost d = r.skip(1);
    proof {
        assert(d =~= bytes@.skip(start as int));
        lemma_digit_run(d);
    }
    let (fraction, end) = match read_number(bytes, start) {
        Some(v) => v,
        None => {
            proof {
                let k = digit_run(d) as int;
                if k > 0 {
                    lemma_digits_number_bound(d.take(k));
                    if k <= PLACES {
                        lemma_pow10_monotonic(k as nat, PLACES as nat);
                        lemma_pow10_places();
                    }
                }
            }
            return None;
        },
    };
    let ghost k = digit_run(d) as int;
    proof {
        assert(d.skip(k).len() == bytes@.skip(end as int).len());
        assert(k == end - start);
    }
    if end - start > PLACES || end >= total || bytes[end] != 34 {
        proof {
            if end < total {
                assert(d[k] == bytes@[end as int]);
            }
        }
        return None;
    }
    proof {
        assert(d[k] == bytes@[end as int]);
        assert(d.skip(k + 1) =~= bytes@.skip(end + 1));
    }
    let scale = power_of_ten(PLACES - (end - start));
    let scaled = match fraction.checked_mul(scale) {
        Some(v) => v,
        None => {
            return None;
        },
    };
    let units = match whole.checked_mul(DECIMAL_FRACTIONAL) {
        Some(v) => v,
        None => {
            proof {
                assert(digits_number(d.take(k)) * pow10((PLACES - k) as nat) >= 0) by (nonlinear_arith)
                    requires
                        digits_number(d.take(k)) >= 0,
                        pow10((PLACES - k) as nat) >= 0,
                ;
            }
            return None;
        },
    };
    match units.checked_add(scaled) {
        Some(v) => Some((v, end + 1)),
        None => None,
    }
}

} // verus!
