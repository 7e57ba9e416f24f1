//! Lowercase hexadecimal rendering of byte strings, and its inverse.
use vstd::prelude::*;

verus! {

/// The lowercase hexadecimal digit for `n` (meaningful for `n < 16`).
pub open spec fn hex_char(n: u8) -> char {
    if n < 10 {
        (n + 48) as char
    } else {
        (n + 87) as char
    }
}

/// The two digits that render one byte, high nibble first.
pub open spec fn byte_hex(b: u8) -> Seq<char> {
    seq![hex_char(b / 16), hex_char(b % 16)]
}

/// Each byte as two lowercase digits, concatenated, with no separators.
pub open spec fn hex_of(bytes: Seq<u8>) -> Seq<char>
    decreases bytes.len(),
{
    if bytes.len() == 0 {
        Seq::empty()
    } else {
        hex_of(bytes.drop_last()) + byte_hex(bytes.last())
    }
}

/// The `0x`-prefixed lowercase rendering of `bytes`.
pub open spec fn prefixed_hex(bytes: Seq<u8>) -> Seq<char> {
    seq!['0', 'x'] + hex_of(bytes)
}

/// The value of one lowercase hexadecimal digit.
pub open spec fn hex_value(c: char) -> int {
    if c <= '9' {
        c as int - 48
    } else {
        c as int - 87
    }
}

/// Reads pairs of digits back into bytes (a trailing odd digit is ignored).
pub open spec fn hex_decode(s: Seq<char>) -> Seq<u8>
    decreases s.len(),
{
    if s.len() < 2 {
        Seq::empty()
    } else {
        hex_decode(s.subrange(0, s.len() - 2)).push(
            (hex_value(s[s.len() - 2]) * 16 + hex_value(s[s.len() - 1])) as u8,
        )
    }
}

proof fn lemma_hex_value_of_char(n: u8)
    requires
        n < 16,
    ensures
        hex_value(hex_char(n)) == n as int,
{
}

/// Each byte renders as exactly two digits.
pub proof fn lemma_hex_len(bytes: Seq<u8>)
    ensures
        hex_of(bytes).len() == 2 * bytes.len(),
    decreases bytes.len(),
{
    if bytes.len() > 0 {
        lemma_hex_len(bytes.drop_last());
    }
}

/// Decoding the rendering of a byte string gives the byte string back.
pub proof fn lemma_hex_round_trip(bytes: Seq<u8>)
    ensures
        hex_decode(hex_of(bytes)) == bytes,
    decreases bytes.len(),
{
    if bytes.len() > 0 {
        let init = bytes.drop_last();
        let b = bytes.last();
        let s = hex_of(bytes);
        lemma_hex_len(bytes);
        lemma_hex_len(init);
        lemma_hex_round_trip(init);
        assert(s.subrange(0, s.len() - 2) =~= hex_of(init));
        lemma_hex_value_of_char(b / 16);
        lemma_hex_value_of_char(b % 16);
        assert(s[s.len() - 2] == hex_char(b / 16));
        assert(s[s.len() - 1] == hex_char(b % 16));
        assert((b / 16) as int * 16 + (b % 16) as int == b as int);
        assert(hex_decode(s) =~= bytes);
    }
}

/// Stripping the `0x` prefix and decoding gives the bytes back.
pub proof fn lemma_prefixed_hex_round_trip(bytes: Seq<u8>)
    ensures
        prefixed_hex(bytes).len() == 2 + 2 * bytes.len(),
        prefixed_hex(bytes).take(2) == seq!['0', 'x'],
        hex_decode(prefixed_hex(bytes).skip(2)) == bytes,
{
    lemma_hex_len(bytes);
    assert(prefixed_hex(bytes).skip(2) =~= hex_of(bytes));
    assert(prefixed_hex(bytes).take(2) =~= seq!['0', 'x']);
    lemma_hex_round_trip(bytes);
}

/// Distinct byte strings never render identically.
pub proof fn lemma_prefixed_hex_injective(a: Seq<u8>, b: Seq<u8>)
    requires
        prefixed_hex(a) == prefixed_hex(b),
    ensures
        a == b,
{
    lemma_prefixed_hex_round_trip(a);
    lemma_prefixed_hex_round_trip(b);
}

/// Relies on String::push: appends one character at the end.
#[verifier::external_body]
pub(crate) fn push_char(s: &mut String, c: char)
    ensures
        final(s)@ == old(s)@.push(c),
{
    s.push(c);
}

/// Relies on String::push_str: appends `t` at the end.
#[verifier::external_body]
pub(crate) fn push_str(s: &mut String, t: &str)
    ensures
        final(s)@ == old(s)@ + t@,
{
    s.push_str(t);
}

fn hex_digit(n: u8) -> (c: char)
    requires
        n < 16,
    ensures
        c == hex_char(n),
{
    if n < 10 {
        (n + 48) as char
    } else {
        (n + 87) as char
    }
}

/// Appends the two-digit rendering of each byte of `bytes` to `out`.
fn push_hex(out: &mut String, bytes: &Vec<u8>)
    ensures
        final(out)@ == old(out)@ + hex_of(bytes@),
{
    let ghost start = out@;
    let mut i: usize = 0;
    while i < bytes.len()
        invariant
            i <= bytes.len(),
            out@ == start + hex_of(bytes@.take(i as int)),
        decreases bytes.len() - i,
    {
        let b = bytes[i];
        proof {
            assert(bytes@.take(i + 1).drop_last() =~= bytes@.take(i as int));
        }
        push_char(out, hex_digit(b / 16));
        push_char(out, hex_digit(b % 16));
        proof {
            assert(out@ =~= start + hex_of(bytes@.take(i + 1)));
        }
        i = i + 1;
    }
    proof {
        assert(bytes@.take(i as int) =~= bytes@);
    }
}

/// Renders each byte as two lowercase hexadecimal digits, concatenated.
pub fn byte_array_to_hex(u8_vector: &Vec<u8>) -> (r: String)
    ensures
        r@ == hex_of(u8_vector@),
{
    let mut out = String::new();
    push_hex(&mut out, u8_vector);
    proof {
        assert(out@ =~= hex_of(u8_vector@));
    }
    out
}

/// Renders the bytes as lowercase hexadecimal with a leading `0x`.
pub fn byte_array_to_hex_prefixed(u8_vector: &Vec<u8>) -> (r: String)
    ensures
        r@ == prefixed_hex(u8_vector@),
{
    let mut out = String::new();
    push_char(&mut out, '0');
    push_char(&mut out, 'x');
    push_hex(&mut out, u8_vector);
    proof {
        assert(out@ =~= prefixed_hex(u8_vector@));
    }
    out
}

} // verus!
