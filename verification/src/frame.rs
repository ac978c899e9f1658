//! The frame codec: composing an outbound frame from a command payload and
//! parsing/validating an inbound frame from the bytes a transport delivered.
//!
//! Wire format: `[length][payload : length - 1 bytes][checksum_hi][checksum_lo]`.
//! The length byte counts the payload bytes plus itself, so a frame occupies
//! `length + 2` bytes in all. The checksum covers the length byte and the
//! payload and is stored big-endian.

use vstd::prelude::*;
use vstd::arithmetic::div_mod::{lemma_fundamental_div_mod, lemma_mod_bound};
use crate::checksum::{byte_total, checksum, checksum_spec, lemma_byte_total_update,
    lemma_checksum_spec_bound};

verus! {

/// Why composing or parsing a frame failed.
#[derive(Debug, Clone, Copy, PartialEq, Eq, Structural)]
pub enum FrameError {
    /// The byte stream errored or closed before a whole frame arrived.
    TransportError,
    /// The frame is structurally impossible: a length byte of zero.
    MalformedFrame,
    /// The recomputed checksum (`expected`) disagrees with the checksum
    /// carried by the frame (`actual`).
    ChecksumMismatch { expected: u16, actual: u16 },
    /// The command payload cannot be described by a single length byte.
    FrameTooLarge,
}

/// A validated inbound frame: the length byte, the payload it counted
/// (without the length byte and the checksum), and the checksum it carried.
#[derive(Debug, Clone, PartialEq, Eq)]
pub struct Frame {
    pub length: u8,
    pub payload: Vec<u8>,
    pub checksum: u16,
}

/// The mathematical value of a [`Frame`].
pub ghost struct FrameView {
    pub length: u8,
    pub payload: Seq<u8>,
    pub checksum: u16,
}

impl View for Frame {
    type V = FrameView;

    open spec fn view(&self) -> FrameView {
        FrameView { length: self.length, payload: self.payload@, checksum: self.checksum }
    }
}

/// The wire bytes of a frame carrying `p`: a length byte of `p.len() + 1`
/// (the length field counts itself), then `p`, then the big-endian checksum
/// of the length byte and `p`.
pub open spec fn compose_spec(p: Seq<u8>) -> Seq<u8>
    recommends
        p.len() + 1 <= 255,
{
    let prefix = seq![(p.len() + 1) as u8] + p;
    let cs = checksum_spec(prefix);
    prefix + seq![(cs / 256) as u8, (cs % 256) as u8]
}

/// How many bytes a frame with length byte `l` occupies in all: the length
/// byte plus the `l - 1` payload bytes plus the two checksum bytes.
pub open spec fn spec_frame_len(l: u8) -> int
    recommends
        l >= 1,
{
    l + 2
}

/// What parsing the delivered bytes `s` yields. The transport is modelled
/// by the bytes it delivered before closing: too few bytes for a whole
/// frame is a transport failure, a length byte of zero a malformed frame,
/// and a checksum disagreement a detected corruption. Bytes past the frame
/// are left untouched.
pub open spec fn parse_spec(s: Seq<u8>) -> Result<FrameView, FrameError> {
    if s.len() < 1 {
        Err(FrameError::TransportError)
    } else if s[0] == 0 {
        Err(FrameError::MalformedFrame)
    } else if s.len() < spec_frame_len(s[0]) {
        Err(FrameError::TransportError)
    } else {
        let l = s[0] as int;
        let computed = checksum_spec(s.subrange(0, l));
        let stored = s[l] * 256 + s[l + 1];
        if computed != stored {
            Err(FrameError::ChecksumMismatch { expected: computed as u16, actual: stored as u16 })
        } else {
            Ok(FrameView { length: s[0], payload: s.subrange(1, l), checksum: stored as u16 })
        }
    }
}

/// Composes the wire frame that carries `command_payload`: the length byte,
/// the payload, and the big-endian checksum. A payload that a single length
/// byte cannot count is rejected before any frame is built.
pub fn compose(command_payload: &[u8]) -> (r: Result<Vec<u8>, FrameError>)
    ensures
        r is Ok <==> command_payload@.len() + 1 <= 255,
        r matches Ok(v) ==> v@ == compose_spec(command_payload@),
        r matches Err(e) ==> e == FrameError::FrameTooLarge,
{
    if command_payload.len() > 254 {
        return Err(FrameError::FrameTooLarge);
    }
    let mut out: Vec<u8> = Vec::new();
    out.push(command_payload.len() as u8 + 1);
    let mut i: usize = 0;
    while i < command_payload.len()
        invariant
            i <= command_payload@.len(),
            command_payload@.len() + 1 <= 255,
            out@ =~= seq![(command_payload@.len() + 1) as u8] + command_payload@.take(i as int),
        decreases command_payload@.len() - i,
    {
        out.push(command_payload[i]);
        i = i + 1;
    }
    proof {
        assert(command_payload@.take(command_payload@.len() as int) =~= command_payload@);
    }
    let ghost prefix = seq![(command_payload@.len() + 1) as u8] + command_payload@;
    let cs = checksum(out.as_slice());
    proof {
        lemma_checksum_spec_bound(prefix);
    }
    out.push((cs / 256) as u8);
    out.push((cs % 256) as u8);
    proof {
        assert(out@ =~= compose_spec(command_payload@));
    }
    Ok(out)
}

/// How many bytes remain to be read once the length byte `length_byte` has
/// arrived: the rest of the counted payload plus the two checksum bytes.
/// A length byte of zero cannot describe any frame.
pub fn remaining_after_length(length_byte: u8) -> (r: Result<usize, FrameError>)
    ensures
        length_byte == 0 ==> r == Err::<usize, FrameError>(FrameError::MalformedFrame),
        length_byte != 0 ==> r == Ok::<usize, FrameError>((length_byte + 1) as usize),
{
    if length_byte == 0 {
        Err(FrameError::MalformedFrame)
    } else {
        Ok(length_byte as usize + 1)
    }
}

/// Parses and validates one frame from the bytes `input` that the transport
/// delivered. Succeeds exactly when a whole, checksum-correct frame with a
/// nonzero length byte is present; an empty or truncated delivery is a
/// transport failure, never a silent pad or a panic.
pub fn parse(input: &[u8]) -> (r: Result<Frame, FrameError>)
    ensures
        r is Ok <==> parse_spec(input@) is Ok,
        r matches Ok(f) ==> parse_spec(input@) == Ok::<FrameView, FrameError>(f@),
        r matches Err(e) ==> parse_spec(input@) == Err::<FrameView, FrameError>(e),
        input@.len() == 0 ==> r == Err::<Frame, FrameError>(FrameError::TransportError),
        input@.len() >= 1 && input@[0] == 0 ==> r == Err::<Frame, FrameError>(
            FrameError::MalformedFrame,
        ),
        input@.len() >= 1 && input@[0] != 0 && input@.len() < spec_frame_len(input@[0]) ==> r
            == Err::<Frame, FrameError>(FrameError::TransportError),
{
    if input.len() == 0 {
        return Err(FrameError::TransportError);
    }
    let l = input[0];
    if l == 0 {
        return Err(FrameError::MalformedFrame);
    }
    let l = l as usize;
    if input.len() < l + 2 {
        return Err(FrameError::TransportError);
    }
    let covered = &input[0..l];
    let computed = checksum(covered);
    let stored = (input[l] as u16) * 256 + (input[l + 1] as u16);
    proof {
        assert(covered@ =~= input@.subrange(0, l as int));
    }
    if computed != stored {
        return Err(FrameError::ChecksumMismatch { expected: computed, actual: stored });
    }
    let mut payload: Vec<u8> = Vec::new();
    let mut i: usize = 1;
    while i < l
        invariant
            1 <= i <= l,
            l + 2 <= input@.len(),
            payload@ =~= input@.subrange(1, i as int),
        decreases l - i,
    {
        payload.push(input[i]);
        i = i + 1;
    }
    Ok(Frame { length: input[0], payload, checksum: stored })
}

/// Round-trip: parsing a composed frame gives back exactly the payload it
/// was composed from, under the length byte and checksum the wire carries.
pub proof fn lemma_round_trip(p: Seq<u8>)
    requires
        p.len() + 1 <= 255,
    ensures
        parse_spec(compose_spec(p)) == Ok::<FrameView, FrameError>(
            FrameView {
                length: (p.len() + 1) as u8,
                payload: p,
                checksum: checksum_spec(seq![(p.len() + 1) as u8] + p) as u16,
            },
        ),
{
    let s = compose_spec(p);
    let l = (p.len() + 1) as u8;
    let prefix = seq![l] + p;
    let cs = checksum_spec(prefix);
    lemma_checksum_spec_bound(prefix);
    assert(s.len() == l + 2);
    assert(s[0] == l);
    assert(s.subrange(0, l as int) =~= prefix);
    assert(s[l as int] == (cs / 256) as u8);
    assert(s[l as int + 1] == (cs % 256) as u8);
    lemma_fundamental_div_mod(cs, 256);
    lemma_mod_bound(cs, 256);
    assert(s[l as int] * 256 + s[l as int + 1] == cs);
    assert(s.subrange(1, l as int) =~= p);
}

/// Tampering with any single byte of a composed frame other than the length
/// byte — without re-deriving a matching checksum — is caught: parsing the
/// tampered frame fails with a checksum mismatch.
pub proof fn lemma_tamper_detected(p: Seq<u8>, i: int, v: u8)
    requires
        p.len() + 1 <= 255,
        1 <= i < compose_spec(p).len(),
        v != compose_spec(p)[i],
    ensures
        parse_spec(compose_spec(p).update(i, v)) is Err,
        parse_spec(compose_spec(p).update(i, v))->Err_0 is ChecksumMismatch,
{
    let s = compose_spec(p);
    let t = s.update(i, v);
    let l = (p.len() + 1) as u8;
    let prefix = seq![l] + p;
    let cs = checksum_spec(prefix);
    lemma_checksum_spec_bound(prefix);
    lemma_fundamental_div_mod(cs, 256);
    lemma_mod_bound(cs, 256);
    assert(s.len() == l + 2);
    assert(t.len() == l + 2);
    assert(t[0] == l);
    assert(s.subrange(0, l as int) =~= prefix);
    assert(s[l as int] * 256 + s[l as int + 1] == cs);
    if i < l as int {
        // A covered byte changed: the stored checksum no longer matches the
        // recomputed one.
        let tampered_prefix = t.subrange(0, l as int);
        assert(tampered_prefix =~= prefix.update(i, v));
        lemma_byte_total_update(prefix, i, v);
        let d = v - prefix[i];
        assert(d != 0);
        assert(byte_total(tampered_prefix) == byte_total(prefix) + d);
        lemma_checksum_unequal_on_shift(byte_total(prefix), d);
        assert(t[l as int] == s[l as int]);
        assert(t[l as int + 1] == s[l as int + 1]);
        assert(checksum_spec(tampered_prefix) != cs);
    } else {
        // A checksum byte changed: the stored checksum no longer matches the
        // untouched covered bytes.
        assert(t.subrange(0, l as int) =~= prefix);
        if i == l as int {
            assert(t[l as int + 1] == s[l as int + 1]);
            assert(t[l as int] * 256 + t[l as int + 1] != cs);
        } else {
            assert(i == l as int + 1);
            assert(t[l as int] == s[l as int]);
            assert(t[l as int] * 256 + t[l as int + 1] != cs);
        }
    }
}

/// Shifting the byte sum by a small nonzero amount changes the checksum:
/// two sums whose difference is not a multiple of 2^16 have different
/// additive inverses mod 2^16.
proof fn lemma_checksum_unequal_on_shift(a: int, d: int)
    requires
        d != 0,
        -255 <= d <= 255,
    ensures
        (0 - (a + d)) % 0x10000 != (0 - a) % 0x10000,
{
    let m = 0x10000;
    lemma_fundamental_div_mod(0 - a, m);
    lemma_fundamental_div_mod(0 - (a + d), m);
    lemma_mod_bound(0 - a, m);
    lemma_mod_bound(0 - (a + d), m);
    if (0 - (a + d)) % m == (0 - a) % m {
        let q1 = (0 - a) / m;
        let q2 = (0 - (a + d)) / m;
        assert(m * q1 - m * q2 == d);
        assert(m * (q1 - q2) == d) by (nonlinear_arith)
            requires
                m * q1 - m * q2 == d,
        ;
        assert(q1 != q2);
        assert(m * (q1 - q2) >= m || m * (q1 - q2) <= -m) by (nonlinear_arith)
            requires
                q1 - q2 != 0,
                m == 0x10000,
        ;
        assert(false);
    }
}

} // verus!
