//! The fixed-layout codec for envelope payloads: the relayer fee and the
//! embedded instruction-program byte string.

use vstd::prelude::*;

use crate::codec::{
    lemma_u128_round_trip, lemma_u64_round_trip, spec_encode_u128, spec_encode_u64, spec_u128_from,
    spec_u64_from, DecodeError,
};
use crate::envelope::read_vec;

verus! {

broadcast use
    vstd::array::group_array_axioms,
    vstd::std_specs::vec::group_vec_axioms,
    vstd::seq::group_seq_axioms;

/// A decoded inbound message: the fee offered to the relayer and the
/// embedded instruction program, still encoded.
#[derive(Clone, Debug)]
pub struct InboundMessage {
    pub fee: u128,
    pub xcm: Vec<u8>,
}

/// Mathematical model of an [`InboundMessage`].
#[verifier::ext_equal]
pub struct InboundMessageV {
    pub fee: u128,
    pub xcm: Seq<u8>,
}

impl View for InboundMessage {
    type V = InboundMessageV;

    open spec fn view(&self) -> InboundMessageV {
        InboundMessageV { fee: self.fee, xcm: self.xcm@ }
    }
}

/// The fixed payload layout: the fee, the program length, then exactly
/// that many program bytes.
pub open spec fn spec_encode_payload(m: InboundMessageV) -> Seq<u8> {
    spec_encode_u128(m.fee) + spec_encode_u64(m.xcm.len() as u64) + m.xcm
}

/// Decodes a payload; any structural mismatch is a failure.
pub open spec fn spec_decode_payload(b: Seq<u8>) -> Option<InboundMessageV> {
    if b.len() >= 24 {
        let fee = spec_u128_from(b.subrange(0, 16));
        let xlen = spec_u64_from(b.subrange(16, 24));
        if b.len() == 24 + xlen {
            Some(InboundMessageV { fee, xcm: b.subrange(24, b.len() as int) })
        } else {
            None
        }
    } else {
        None
    }
}

/// Round trip of the payload codec: re-encoding any successfully decoded
/// byte string reproduces it exactly, and encoding then decoding returns
/// the same message.
pub proof fn lemma_payload_round_trip(b: Seq<u8>, m: InboundMessageV)
    ensures
        spec_decode_payload(b) matches Some(d) ==> spec_encode_payload(d) == b,
        m.xcm.len() < 0x1_0000_0000 ==> spec_decode_payload(spec_encode_payload(m)) == Some(m),
{
    if let Some(d) = spec_decode_payload(b) {
        lemma_u128_round_trip(0, b.subrange(0, 16));
        lemma_u64_round_trip(0, b.subrange(16, 24));
        assert(spec_encode_payload(d) =~= b);
    }
    if m.xcm.len() < 0x1_0000_0000 {
        let enc = spec_encode_payload(m);
        assert(enc.len() == 24 + m.xcm.len());
        assert(enc.subrange(0, 16) =~= spec_encode_u128(m.fee));
        assert(enc.subrange(16, 24) =~= spec_encode_u64(m.xcm.len() as u64));
        assert(enc.subrange(24, enc.len() as int) =~= m.xcm);
        lemma_u128_round_trip(m.fee, enc.subrange(0, 16));
        lemma_u64_round_trip(m.xcm.len() as u64, enc.subrange(16, 24));
        assert(spec_decode_payload(enc) matches Some(d2) && d2 =~~= m);
    }
}

/// Decodes an envelope payload into an inbound message.  Truncated or
/// ill-sized input is rejected with a typed error, never a panic.
pub fn decode_payload(bytes: &[u8]) -> (r: Result<InboundMessage, DecodeError>)
    ensures
        (r matches Ok(m) ==> spec_decode_payload(bytes@) == Some(m@)),
        (r is Err ==> spec_decode_payload(bytes@) is None),
{
    if bytes.len() < 24 {
        return Err(DecodeError);
    }
    let fee = crate::codec::decode_u128(bytes, 0);
    let xlen = crate::codec::decode_u64(bytes, 16);
    if xlen > usize::MAX as u64 {
        proof {
            assert(bytes@.len() <= usize::MAX);
        }
        return Err(DecodeError);
    }
    if bytes.len() - 24 != xlen as usize {
        return Err(DecodeError);
    }
    let xcm = read_vec(bytes, 24, xlen as usize);
    proof {
        assert(spec_decode_payload(bytes@) matches Some(d) && d =~~= (InboundMessage {
            fee,
            xcm: xcm,
        })@);
    }
    Ok(InboundMessage { fee, xcm })
}

/// Encodes an inbound message in the fixed layout.
pub fn encode_payload(m: &InboundMessage) -> (r: Vec<u8>)
    ensures
        r@ == spec_encode_payload(m@),
{
    let mut out: Vec<u8> = Vec::new();
    crate::codec::encode_u128(m.fee, &mut out);
    crate::codec::encode_u64(m.xcm.len() as u64, &mut out);
    let mut i: usize = 0;
    let ghost head = out@;
    while i < m.xcm.len()
        invariant
            0 <= i <= m.xcm.len(),
            out@ == head + m.xcm@.subrange(0, i as int),
        decreases m.xcm.len() - i,
    {
        out.push(m.xcm[i]);
        proof {
            assert(head + m.xcm@.subrange(0, i + 1) =~= (head + m.xcm@.subrange(0, i as int)).push(
                m.xcm@[i as int],
            ));
        }
        i += 1;
    }
    proof {
        assert(m.xcm@.subrange(0, m.xcm@.len() as int) =~= m.xcm@);
        assert(out@ =~= spec_encode_payload(m@));
    }
    out
}

} // verus!
