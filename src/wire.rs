//! The datagram format shared by both processes: the source tag, the
//! length-prefixed sample bytes and the claimed bit count, each integer in
//! bincode's standard variable-length little-endian encoding.
use vstd::prelude::*;
use vstd::slice::{slice_subrange, slice_to_vec};

use crate::message::{
    source_of_tag, source_tag, valid_sample, EntropyMessage, EntropySourceType, MessageView,
    SOURCE_COUNT,
};

verus! {

/// 256 to the power `n`.
pub open spec fn pow256(n: nat) -> nat
    decreases n,
{
    if n == 0 {
        1
    } else {
        256 * pow256((n - 1) as nat)
    }
}

/// The value of a little-endian byte sequence.
pub open spec fn le_value(s: Seq<u8>) -> nat
    decreases s.len(),
{
    if s.len() == 0 {
        0
    } else {
        s[0] as nat + 256 * le_value(s.drop_first())
    }
}

/// The `n` low bytes of `v`, least significant first.
pub open spec fn le_bytes(v: nat, n: nat) -> Seq<u8>
    decreases n,
{
    if n == 0 {
        Seq::empty()
    } else {
        seq![(v % 256) as u8] + le_bytes(v / 256, (n - 1) as nat)
    }
}

/// The variable-length encoding of an integer: values up to 250 in one
/// byte, larger ones as a marker byte followed by 2, 4 or 8 bytes.
pub open spec fn varint_bytes(v: nat) -> Seq<u8> {
    if v <= 250 {
        seq![v as u8]
    } else if v <= 0xffff {
        seq![251u8] + le_bytes(v, 2)
    } else if v <= 0xffff_ffff {
        seq![252u8] + le_bytes(v, 4)
    } else {
        seq![253u8] + le_bytes(v, 8)
    }
}

/// How many bytes follow a marker byte.
pub open spec fn marker_payload(marker: u8) -> nat {
    if marker == 251 {
        2
    } else if marker == 252 {
        4
    } else {
        8
    }
}

/// Reads a variable-length integer of at most `width` bytes from the front
/// of `s`: its value and the number of bytes it takes, or `None` when the
/// marker is unknown, too wide, or the input ends early.
pub open spec fn varint_read(s: Seq<u8>, width: nat) -> Option<(nat, nat)> {
    if s.len() == 0 {
        None
    } else if s[0] <= 250 {
        Some((s[0] as nat, 1))
    } else if s[0] > 253 || marker_payload(s[0]) > width || s.len() < 1 + marker_payload(s[0]) {
        None
    } else {
        Some((le_value(s.subrange(1, 1 + marker_payload(s[0]) as int)), 1 + marker_payload(s[0])))
    }
}

/// Relies on bincode::encode_to_vec with the standard configuration, whose
/// u64 encoding is the variable-length one; writing into a `Vec` never fails.
#[verifier::external_body]
fn varint_encode(v: u64) -> (r: Vec<u8>)
    ensures
        r@ == varint_bytes(v as nat),
{
    match bincode::encode_to_vec(v, bincode::config::standard()) {
        Ok(b) => b,
        Err(_) => Vec::new(),
    }
}

/// Relies on bincode::decode_from_slice::<u32> with the standard
/// configuration: the value read from the front and the bytes it took.
#[verifier::external_body]
fn varint_decode_u32(s: &[u8]) -> (r: Option<(u32, usize)>)
    ensures
        match varint_read(s@, 4) {
            Some((v, n)) => r matches Some((x, k)) && x == v && k == n,
            None => r is None,
        },
{
    match bincode::decode_from_slice::<u32, _>(s, bincode::config::standard()) {
        Ok(p) => Some(p),
        Err(_) => None,
    }
}

/// Relies on bincode::decode_from_slice::<u64> with the standard
/// configuration: the value read from the front and the bytes it took.
#[verifier::external_body]
fn varint_decode_u64(s: &[u8]) -> (r: Option<(u64, usize)>)
    ensures
        match varint_read(s@, 8) {
            Some((v, n)) => r matches Some((x, k)) && x == v && k == n,
            None => r is None,
        },
{
    match bincode::decode_from_slice::<u64, _>(s, bincode::config::standard()) {
        Ok(p) => Some(p),
        Err(_) => None,
    }
}

/// Why a datagram did not decode to a sample.
#[derive(Clone, Copy, Debug, PartialEq, Eq, Structural)]
pub enum WireError {
    /// A field could not be read: a bad marker or a datagram that ends early.
    Malformed,
    /// The source tag is not one of the known sources.
    UnknownSource,
    /// The fields were read but do not form a valid sample.
    InvalidSample,
}

/// The encoding of a sample.
pub open spec fn wire_encode(m: MessageView) -> Seq<u8> {
    varint_bytes(source_tag(m.source)) + varint_bytes(m.bytes.len()) + m.bytes + varint_bytes(
        m.bits,
    )
}

/// The sample at the front of `s` and the number of bytes it takes.
pub open spec fn wire_decode(s: Seq<u8>) -> Result<(MessageView, nat), WireError> {
    match varint_read(s, 4) {
        None => Err(WireError::Malformed),
        Some((tag, n1)) => if tag >= SOURCE_COUNT {
            Err(WireError::UnknownSource)
        } else {
            let r1 = s.subrange(n1 as int, s.len() as int);
            match varint_read(r1, 8) {
                None => Err(WireError::Malformed),
                Some((len, n2)) => if len > r1.len() - n2 {
                    Err(WireError::Malformed)
                } else {
                    let bytes = r1.subrange(n2 as int, (n2 + len) as int);
                    let r2 = r1.subrange((n2 + len) as int, r1.len() as int);
                    match varint_read(r2, 4) {
                        None => Err(WireError::Malformed),
                        Some((bits, n3)) => if !valid_sample(bytes, bits) {
                            Err(WireError::InvalidSample)
                        } else {
                            Ok(
                                (
                                    MessageView { source: source_of_tag(tag), bytes, bits },
                                    n1 + n2 + len + n3,
                                ),
                            )
                        },
                    }
                },
            }
        },
    }
}

proof fn lemma_varint_read_len(s: Seq<u8>, width: nat)
    ensures
        varint_read(s, width) matches Some((v, n)) ==> 1 <= n <= s.len(),
{
}

proof fn lemma_le_bytes_len(v: nat, n: nat)
    ensures
        le_bytes(v, n).len() == n,
    decreases n,
{
    if n > 0 {
        lemma_le_bytes_len(v / 256, (n - 1) as nat);
    }
}

proof fn lemma_le_round_trip(v: nat, n: nat)
    requires
        v < pow256(n),
    ensures
        le_value(le_bytes(v, n)) == v,
    decreases n,
{
    if n > 0 {
        let p = pow256((n - 1) as nat);
        assert(v / 256 < p) by (nonlinear_arith)
            requires
                v < 256 * p,
        ;
        lemma_le_round_trip(v / 256, (n - 1) as nat);
        let b = le_bytes(v, n);
        assert(b.drop_first() =~= le_bytes(v / 256, (n - 1) as nat));
        assert(v == v % 256 + 256 * (v / 256)) by (nonlinear_arith);
    }
}

proof fn lemma_varint_prefix(v: nat, width: nat, rest: Seq<u8>)
    requires
        width == 4 || width == 8,
        v < pow256(width),
    ensures
        varint_read(varint_bytes(v) + rest, width) == Some((v, varint_bytes(v).len())),
{
    reveal_with_fuel(pow256, 9);
    let e = varint_bytes(v);
    let s = e + rest;
    if v > 250 {
        let n: nat = if v <= 0xffff {
            2
        } else if v <= 0xffff_ffff {
            4
        } else {
            8
        };
        lemma_le_bytes_len(v, n);
        lemma_le_round_trip(v, n);
        assert(s[0] == e[0]);
        assert(marker_payload(s[0]) == n);
        assert(s.subrange(1, 1 + n as int) =~= le_bytes(v, n));
    }
}

/// Decoding the encoding of a valid sample gives the same sample back, and
/// takes the whole encoding.
pub proof fn lemma_encode_decode_round_trip(m: MessageView)
    requires
        valid_sample(m.bytes, m.bits),
        m.bytes.len() <= u64::MAX,
        m.bits <= u32::MAX,
    ensures
        wire_decode(wire_encode(m)) == Ok::<(MessageView, nat), WireError>((m, wire_encode(m).len())),
{
    reveal_with_fuel(pow256, 9);
    let t = varint_bytes(source_tag(m.source));
    let l = varint_bytes(m.bytes.len());
    let c = varint_bytes(m.bits);
    let s = wire_encode(m);
    assert(s =~= t + (l + m.bytes + c));
    lemma_varint_prefix(source_tag(m.source), 4, l + m.bytes + c);
    let r1 = s.subrange(t.len() as int, s.len() as int);
    assert(r1 =~= l + (m.bytes + c));
    lemma_varint_prefix(m.bytes.len(), 8, m.bytes + c);
    let r2 = r1.subrange((l.len() + m.bytes.len()) as int, r1.len() as int);
    assert(r1.subrange(l.len() as int, (l.len() + m.bytes.len()) as int) =~= m.bytes);
    assert(r2 =~= c + Seq::<u8>::empty());
    lemma_varint_prefix(m.bits, 4, Seq::empty());
    assert(source_of_tag(source_tag(m.source)) == m.source);
}

/// Whatever bytes arrive, a sample that decodes from them is valid: it holds
/// bytes and claims no more bits than they carry.
pub proof fn lemma_decoded_samples_valid(s: Seq<u8>)
    ensures
        wire_decode(s) matches Ok((v, n)) ==> valid_sample(v.bytes, v.bits) && n <= s.len(),
{
    lemma_varint_read_len(s, 4);
    if let Some((tag, n1)) = varint_read(s, 4) {
        let r1 = s.subrange(n1 as int, s.len() as int);
        lemma_varint_read_len(r1, 8);
        if let Some((len, n2)) = varint_read(r1, 8) {
            if len <= r1.len() - n2 {
                let r2 = r1.subrange((n2 + len) as int, r1.len() as int);
                lemma_varint_read_len(r2, 4);
            }
        }
    }
}

/// Encodes a sample as a datagram.
pub fn encode(m: &EntropyMessage) -> (r: Vec<u8>)
    ensures
        r@ == wire_encode(m@),
{
    let bytes = m.random_bytes();
    let mut out = varint_encode(m.source().tag() as u64);
    let mut len = varint_encode(bytes.len() as u64);
    out.append(&mut len);
    let mut data = slice_to_vec(bytes.as_slice());
    out.append(&mut data);
    let mut bits = varint_encode(m.entropy_bits() as u64);
    out.append(&mut bits);
    out
}

/// Decodes the sample at the front of a datagram; returns it with the number
/// of bytes it took. Never panics, whatever the input.
pub fn decode(s: &[u8]) -> (r: Result<(EntropyMessage, usize), WireError>)
    ensures
        match wire_decode(s@) {
            Ok((v, n)) => r matches Ok((m, k)) && m@ == v && k == n,
            Err(e) => r matches Err(x) && x == e,
        },
{
    let (tag, n1) = match varint_decode_u32(s) {
        Some(p) => p,
        None => {
            return Err(WireError::Malformed);
        },
    };
    proof {
        lemma_varint_read_len(s@, 4);
    }
    let source = match EntropySourceType::from_tag(tag) {
        Some(x) => x,
        None => {
            return Err(WireError::UnknownSource);
        },
    };
    let r1 = slice_subrange(s, n1, s.len());
    let (len, n2) = match varint_decode_u64(r1) {
        Some(p) => p,
        None => {
            return Err(WireError::Malformed);
        },
    };
    proof {
        lemma_varint_read_len(r1@, 8);
    }
    if len > (r1.len() - n2) as u64 {
        return Err(WireError::Malformed);
    }
    let len = len as usize;
    let data = slice_to_vec(slice_subrange(r1, n2, n2 + len));
    let r2 = slice_subrange(r1, n2 + len, r1.len());
    let (bits, n3) = match varint_decode_u32(r2) {
        Some(p) => p,
        None => {
            return Err(WireError::Malformed);
        },
    };
    proof {
        lemma_varint_read_len(r2@, 4);
    }
    match EntropyMessage::new(source, data, bits) {
        Ok(m) => Ok((m, n1 + n2 + len + n3)),
        Err(_) => Err(WireError::InvalidSample),
    }
}

} // verus!
