//! Framing for the AM03127 wire protocol: the XOR checksum, two-digit
//! uppercase-hex rendering, the checksummed command envelope, and the
//! checksum-less panel-id assignment frame.

use vstd::prelude::*;

verus! {

/// A full command frame, envelope included, never exceeds this many bytes.
pub const MAX_FRAME_BYTES: usize = 64;

/// The number of bytes the envelope adds around a payload:
/// `<ID` + two hex digits + `>` before it, two hex digits + `<E>` after it.
pub const ENVELOPE_OVERHEAD: usize = 11;

/// XOR-fold of a byte sequence; `0` for the empty sequence.
pub open spec fn xor_fold(s: Seq<u8>) -> u8
    decreases s.len(),
{
    if s.len() == 0 {
        0u8
    } else {
        xor_fold(s.drop_last()) ^ s.last()
    }
}

/// The uppercase-hex digit for a value below sixteen.
pub open spec fn hex_digit(n: u8) -> u8 {
    if n < 10 {
        (0x30 + n) as u8
    } else {
        (0x41 + (n - 10)) as u8
    }
}

/// A byte rendered as exactly two uppercase hex digits.
pub open spec fn two_hex(n: u8) -> Seq<u8> {
    seq![hex_digit(n / 16), hex_digit(n % 16)]
}

/// The unpadded decimal rendering of a byte value, most significant
/// digit first.
pub open spec fn dec_digits(n: u8) -> Seq<u8>
    decreases n,
{
    if n < 10 {
        seq![(0x30 + n) as u8]
    } else {
        dec_digits(n / 10) + seq![(0x30 + n % 10) as u8]
    }
}

/// A value below one hundred rendered as exactly two decimal digits,
/// zero-padded.
pub open spec fn two_dec(n: u8) -> Seq<u8> {
    seq![(0x30 + n / 10) as u8, (0x30 + n % 10) as u8]
}

/// The byte a character occupies on the wire: its scalar value,
/// truncated to eight bits. Every character the protocol grammar puts
/// in this position is ASCII, where no truncation happens.
pub open spec fn char_byte(c: char) -> u8 {
    (c as u32) as u8
}

/// The wire byte of a character.
pub fn byte_of_char(c: char) -> (r: u8)
    ensures
        r == char_byte(c),
{
    #[verifier::truncate]
    let b = (c as u32) as u8;
    b
}

/// Appends the unpadded decimal digits of `n`.
pub fn push_dec(out: &mut Vec<u8>, n: u8)
    ensures
        final(out)@ == old(out)@ + dec_digits(n),
    decreases n,
{
    if n < 10 {
        out.push(0x30 + n);
        proof {
            assert(final(out)@ =~= old(out)@ + dec_digits(n));
        }
    } else {
        push_dec(out, n / 10);
        out.push(0x30 + n % 10);
        proof {
            assert(final(out)@ =~= old(out)@ + dec_digits(n));
        }
    }
}

/// Appends `n`, which must be below one hundred, as two zero-padded
/// decimal digits.
pub fn push_two_dec(out: &mut Vec<u8>, n: u8)
    requires
        n < 100,
    ensures
        final(out)@ == old(out)@ + two_dec(n),
{
    out.push(0x30 + n / 10);
    out.push(0x30 + n % 10);
    proof {
        assert(final(out)@ =~= old(out)@ + two_dec(n));
    }
}

/// The command envelope: `<ID{id:02X}>{payload}{checksum:02X}<E>`.
pub open spec fn envelope(id: u8, payload: Seq<u8>) -> Seq<u8> {
    seq![0x3Cu8, 0x49u8, 0x44u8] + two_hex(id) + seq![0x3Eu8] + payload + two_hex(xor_fold(payload))
        + seq![0x3Cu8, 0x45u8, 0x3Eu8]
}

/// The panel-id assignment frame: `<ID><{id:02X}><E>`.
pub open spec fn set_id_frame(id: u8) -> Seq<u8> {
    seq![0x3Cu8, 0x49u8, 0x44u8, 0x3Eu8, 0x3Cu8] + two_hex(id) + seq![0x3Eu8, 0x3Cu8, 0x45u8, 0x3Eu8]
}

proof fn lemma_xor_fold_step(s: Seq<u8>, i: int)
    requires
        0 <= i < s.len(),
    ensures
        xor_fold(s.take(i + 1)) == xor_fold(s.take(i)) ^ s[i],
{
    let t = s.take(i + 1);
    assert(t.drop_last() =~= s.take(i));
    assert(t.last() == s[i]);
}

/// XOR-fold of every payload byte, in order; `0` for an empty payload.
pub fn checksum(payload: &[u8]) -> (r: u8)
    ensures
        r == xor_fold(payload@),
{
    let mut check: u8 = 0;
    let mut i: usize = 0;
    while i < payload.len()
        invariant
            i <= payload@.len(),
            check == xor_fold(payload@.take(i as int)),
        decreases payload@.len() - i,
    {
        proof {
            lemma_xor_fold_step(payload@, i as int);
        }
        check = check ^ payload[i];
        i = i + 1;
    }
    proof {
        assert(payload@.take(payload@.len() as int) =~= payload@);
    }
    check
}

/// Appends the two uppercase hex digits of `n`.
fn push_hex(out: &mut Vec<u8>, n: u8)
    ensures
        final(out)@ == old(out)@ + two_hex(n),
{
    let hi = n / 16;
    let lo = n % 16;
    out.push(if hi < 10 {
        0x30 + hi
    } else {
        0x41 + (hi - 10)
    });
    out.push(if lo < 10 {
        0x30 + lo
    } else {
        0x41 + (lo - 10)
    });
    proof {
        assert(final(out)@ =~= old(out)@ + two_hex(n));
    }
}

/// Wraps a payload in the command envelope for the given panel id:
/// `<ID{id:02X}>{payload}{checksum:02X}<E>`.
pub fn command(panel_id: u8, payload: &[u8]) -> (r: Vec<u8>)
    ensures
        r@ == envelope(panel_id, payload@),
{
    let mut out: Vec<u8> = Vec::new();
    out.push(0x3Cu8);
    out.push(0x49u8);
    out.push(0x44u8);
    push_hex(&mut out, panel_id);
    out.push(0x3Eu8);
    let mut i: usize = 0;
    let ghost prefix = out@;
    while i < payload.len()
        invariant
            i <= payload@.len(),
            out@ == prefix + payload@.take(i as int),
        decreases payload@.len() - i,
    {
        out.push(payload[i]);
        proof {
            assert(prefix + payload@.take(i as int) + seq![payload@[i as int]] =~= prefix
                + payload@.take(i + 1));
        }
        i = i + 1;
    }
    proof {
        assert(payload@.take(payload@.len() as int) =~= payload@);
    }
    let check = checksum(payload);
    push_hex(&mut out, check);
    out.push(0x3Cu8);
    out.push(0x45u8);
    out.push(0x3Eu8);
    proof {
        assert(out@ =~= envelope(panel_id, payload@));
    }
    out
}

/// The provisioning command that assigns the panel's bus address:
/// `<ID><{id:02X}><E>`.
pub fn set_id(id: u8) -> (r: Vec<u8>)
    ensures
        r@ == set_id_frame(id),
{
    let mut out: Vec<u8> = Vec::new();
    out.push(0x3Cu8);
    out.push(0x49u8);
    out.push(0x44u8);
    out.push(0x3Eu8);
    out.push(0x3Cu8);
    push_hex(&mut out, id);
    out.push(0x3Eu8);
    out.push(0x3Cu8);
    out.push(0x45u8);
    out.push(0x3Eu8);
    proof {
        assert(out@ =~= set_id_frame(id));
    }
    out
}

} // verus!
