//! Message text preparation: the fixed substitution table that replaces
//! seven Latin-1 diacritics with the panel's five-byte escape codes, and
//! UTF-8 encoding for every other character, which passes through
//! unchanged.

use vstd::prelude::*;
use vstd::utf8::encode_scalar;
use vstd::utf8::encode_utf8;
use vstd::utf8::has_width_1_encoding;
use vstd::utf8::has_width_2_encoding;
use vstd::utf8::has_width_3_encoding;

verus! {

/// True of the seven characters that the panel cannot show directly.
pub open spec fn is_escaped_char(c: char) -> bool {
    c == 'ü' || c == 'Ü' || c == 'ä' || c == 'Ä' || c == 'ö' || c == 'Ö' || c == 'ß'
}

/// The bytes sent for one message character: a five-byte escape code
/// (`<U7C>` and friends) for the seven substituted diacritics, the
/// character's own UTF-8 bytes for everything else.
pub open spec fn escape_char(c: char) -> Seq<u8> {
    if c == 'ü' {
        seq![0x3Cu8, 0x55u8, 0x37u8, 0x43u8, 0x3Eu8]  // <U7C>
    } else if c == 'Ü' {
        seq![0x3Cu8, 0x55u8, 0x35u8, 0x43u8, 0x3Eu8]  // <U5C>
    } else if c == 'ä' {
        seq![0x3Cu8, 0x55u8, 0x36u8, 0x34u8, 0x3Eu8]  // <U64>
    } else if c == 'Ä' {
        seq![0x3Cu8, 0x55u8, 0x34u8, 0x34u8, 0x3Eu8]  // <U44>
    } else if c == 'ö' {
        seq![0x3Cu8, 0x55u8, 0x37u8, 0x36u8, 0x3Eu8]  // <U76>
    } else if c == 'Ö' {
        seq![0x3Cu8, 0x55u8, 0x35u8, 0x36u8, 0x3Eu8]  // <U56>
    } else if c == 'ß' {
        seq![0x3Cu8, 0x55u8, 0x35u8, 0x46u8, 0x3Eu8]  // <U5F>
    } else {
        encode_scalar(c as u32)
    }
}

/// A whole message after substitution, character by character, in order.
pub open spec fn escaped(s: Seq<char>) -> Seq<u8>
    decreases s.len(),
{
    if s.len() == 0 {
        Seq::empty()
    } else {
        escape_char(s[0]) + escaped(s.drop_first())
    }
}

/// Escaping one more character appends that character's bytes.
pub proof fn lemma_escaped_push(s: Seq<char>, c: char)
    ensures
        escaped(s.push(c)) == escaped(s) + escape_char(c),
    decreases s.len(),
{
    if s.len() == 0 {
        assert(s.push(c)[0] == c);
        assert(s.push(c).drop_first() =~= Seq::<char>::empty());
        assert(escaped(s.push(c)) == escape_char(c) + escaped(Seq::<char>::empty()));
        assert(escaped(s.push(c)) =~= escaped(s) + escape_char(c));
    } else {
        assert(s.push(c)[0] == s[0]);
        assert(s.push(c).drop_first() =~= s.drop_first().push(c));
        lemma_escaped_push(s.drop_first(), c);
        assert(escaped(s.push(c)) == escape_char(s[0]) + escaped(s.drop_first().push(c)));
        assert(escaped(s.push(c)) =~= escaped(s) + escape_char(c));
    }
}

/// A message with none of the seven substituted characters passes
/// through unchanged: its wire bytes are exactly its own encoding.
pub proof fn lemma_escaped_no_diacritics(s: Seq<char>)
    requires
        forall|i: int| 0 <= i < s.len() ==> !is_escaped_char(#[trigger] s[i]),
    ensures
        escaped(s) == encode_utf8(s),
    decreases s.len(),
{
    if s.len() > 0 {
        assert(!is_escaped_char(s[0]));
        assert(escape_char(s[0]) == encode_scalar(s[0] as u32));
        lemma_escaped_no_diacritics(s.drop_first());
    }
}

/// A character's UTF-8 encoding never has more bytes than what the
/// substitution sends for it: a five-byte escape code replaces a
/// two-byte encoding, and every other character keeps its own bytes.
pub proof fn lemma_escaped_at_least_utf8(s: Seq<char>)
    ensures
        encode_utf8(s).len() <= escaped(s).len(),
    decreases s.len(),
{
    if s.len() > 0 {
        let c = s[0];
        assert(encode_scalar(c as u32).len() <= 4);
        if is_escaped_char(c) {
            assert(escape_char(c).len() == 5);
        } else {
            assert(escape_char(c) == encode_scalar(c as u32));
        }
        lemma_escaped_at_least_utf8(s.drop_first());
    }
}

/// UTF-8 spends at most four bytes per character.
pub proof fn lemma_utf8_at_most_four_per_char(s: Seq<char>)
    ensures
        encode_utf8(s).len() <= 4 * s.len(),
    decreases s.len(),
{
    if s.len() > 0 {
        assert(encode_scalar(s[0] as u32).len() <= 4);
        lemma_utf8_at_most_four_per_char(s.drop_first());
    }
}

/// Appends the UTF-8 bytes of one character.
fn push_utf8(out: &mut Vec<u8>, c: char)
    ensures
        final(out)@ == old(out)@ + encode_scalar(c as u32),
{
    let scalar = c as u32;
    proof {
        assert(((scalar >> 6) & 0x1F) <= 0x1F && ((scalar >> 12) & 0x0F) <= 0x0F && ((scalar >> 18)
            & 0x7) <= 0x7 && ((scalar >> 6) & 0x3F) <= 0x3F && ((scalar >> 12) & 0x3F) <= 0x3F && (
        scalar & 0x3F) <= 0x3F && (scalar & 0x7F) <= 0x7F) by (bit_vector);
    }
    if scalar <= 0x7F {
        out.push((scalar & 0x7F) as u8);
    } else if scalar <= 0x7FF {
        out.push(0xC0u8 | ((scalar >> 6) & 0x1F) as u8);
        out.push(0x80u8 | (scalar & 0x3F) as u8);
    } else if scalar <= 0xFFFF {
        out.push(0xE0u8 | ((scalar >> 12) & 0x0F) as u8);
        out.push(0x80u8 | ((scalar >> 6) & 0x3F) as u8);
        out.push(0x80u8 | (scalar & 0x3F) as u8);
    } else {
        out.push(0xF0u8 | ((scalar >> 18) & 0x7) as u8);
        out.push(0x80u8 | ((scalar >> 12) & 0x3F) as u8);
        out.push(0x80u8 | ((scalar >> 6) & 0x3F) as u8);
        out.push(0x80u8 | (scalar & 0x3F) as u8);
    }
    proof {
        if has_width_1_encoding(scalar) {
            assert(final(out)@ =~= old(out)@ + encode_scalar(scalar));
        } else if has_width_2_encoding(scalar) {
            assert(final(out)@ =~= old(out)@ + encode_scalar(scalar));
        } else if has_width_3_encoding(scalar) {
            assert(final(out)@ =~= old(out)@ + encode_scalar(scalar));
        } else {
            assert(final(out)@ =~= old(out)@ + encode_scalar(scalar));
        }
    }
}

/// Substitutes the seven Latin-1 diacritics by their escape codes and
/// encodes every other character as its own bytes, in message order.
pub fn escape_message(message: &str) -> (r: Vec<u8>)
    ensures
        r@ == escaped(message@),
{
    let mut out: Vec<u8> = Vec::new();
    let n = message.unicode_len();
    let mut i: usize = 0;
    while i < n
        invariant
            n == message@.len(),
            i <= n,
            out@ == escaped(message@.take(i as int)),
        decreases n - i,
    {
        let c = message.get_char(i);
        proof {
            lemma_escaped_push(message@.take(i as int), c);
            assert(message@.take(i + 1) =~= message@.take(i as int).push(c));
        }
        if c == 'ü' {
            push_code(&mut out, 0x37, 0x43);
        } else if c == 'Ü' {
            push_code(&mut out, 0x35, 0x43);
        } else if c == 'ä' {
            push_code(&mut out, 0x36, 0x34);
        } else if c == 'Ä' {
            push_code(&mut out, 0x34, 0x34);
        } else if c == 'ö' {
            push_code(&mut out, 0x37, 0x36);
        } else if c == 'Ö' {
            push_code(&mut out, 0x35, 0x36);
        } else if c == 'ß' {
            push_code(&mut out, 0x35, 0x46);
        } else {
            push_utf8(&mut out, c);
        }
        i = i + 1;
    }
    proof {
        assert(message@.take(n as int) =~= message@);
    }
    out
}

/// Appends one five-byte escape code `<U..>` with the two given digits.
fn push_code(out: &mut Vec<u8>, d1: u8, d2: u8)
    ensures
        final(out)@ == old(out)@ + seq![0x3Cu8, 0x55u8, d1, d2, 0x3Eu8],
{
    out.push(0x3C);
    out.push(0x55);
    out.push(d1);
    out.push(d2);
    out.push(0x3E);
    proof {
        assert(final(out)@ =~= old(out)@ + seq![0x3Cu8, 0x55u8, d1, d2, 0x3Eu8]);
    }
}

} // verus!
