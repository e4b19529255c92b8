//! The fixed-layout codec for raw event-log envelopes: the emitting
//! gateway address, the replay nonce and an opaque payload.

use vstd::prelude::*;

use crate::codec::{
    bytes20_of, lemma_bytes20_of, lemma_u64_round_trip, spec_encode_u64, spec_u64_from, DecodeError,
};

verus! {

broadcast use
    vstd::array::group_array_axioms,
    vstd::std_specs::vec::group_vec_axioms,
    vstd::seq::group_seq_axioms;

/// A decoded event-log envelope.
#[derive(Clone, Debug)]
pub struct Envelope {
    pub gateway: [u8; 20],
    pub nonce: u64,
    pub payload: Vec<u8>,
}

/// Mathematical model of an [`Envelope`].
#[verifier::ext_equal]
pub struct EnvelopeV {
    pub gateway: [u8; 20],
    pub nonce: u64,
    pub payload: Seq<u8>,
}

impl View for Envelope {
    type V = EnvelopeV;

    open spec fn view(&self) -> EnvelopeV {
        EnvelopeV { gateway: self.gateway, nonce: self.nonce, payload: self.payload@ }
    }
}

/// The fixed envelope layout: 20 gateway bytes, the nonce, the payload
/// length, then exactly that many payload bytes.
pub open spec fn spec_encode_envelope(e: EnvelopeV) -> Seq<u8> {
    e.gateway@ + spec_encode_u64(e.nonce) + spec_encode_u64(e.payload.len() as u64) + e.payload
}

/// Decodes an envelope; any structural mismatch is a failure.
pub open spec fn spec_decode_envelope(b: Seq<u8>) -> Option<EnvelopeV> {
    if b.len() >= 36 {
        let gateway = bytes20_of(b.subrange(0, 20));
        let nonce = spec_u64_from(b.subrange(20, 28));
        let plen = spec_u64_from(b.subrange(28, 36));
        if b.len() == 36 + plen {
            Some(EnvelopeV { gateway, nonce, payload: b.subrange(36, b.len() as int) })
        } else {
            None
        }
    } else {
        None
    }
}

/// Round trip of the envelope codec: re-encoding any successfully decoded
/// byte string reproduces it exactly, and encoding then decoding returns
/// the same envelope.
pub proof fn lemma_envelope_round_trip(b: Seq<u8>, e: EnvelopeV)
    ensures
        spec_decode_envelope(b) matches Some(d) ==> spec_encode_envelope(d) == b,
        e.payload.len() < 0x1_0000_0000 ==> spec_decode_envelope(spec_encode_envelope(e)) == Some(
            EnvelopeV { gateway: bytes20_of(e.gateway@), ..e },
        ),
{
    if let Some(d) = spec_decode_envelope(b) {
        lemma_bytes20_of(b.subrange(0, 20));
        lemma_u64_round_trip(0, b.subrange(20, 28));
        lemma_u64_round_trip(0, b.subrange(28, 36));
        assert(spec_encode_envelope(d) =~= b);
    }
    if e.payload.len() < 0x1_0000_0000 {
        let enc = spec_encode_envelope(e);
        assert(enc.len() == 36 + e.payload.len());
        assert(enc.subrange(0, 20) =~= e.gateway@);
        assert(enc.subrange(20, 28) =~= spec_encode_u64(e.nonce));
        assert(enc.subrange(28, 36) =~= spec_encode_u64(e.payload.len() as u64));
        assert(enc.subrange(36, enc.len() as int) =~= e.payload);
        lemma_u64_round_trip(e.nonce, enc.subrange(20, 28));
        lemma_u64_round_trip(e.payload.len() as u64, enc.subrange(28, 36));
        assert(spec_decode_envelope(enc) == Some(EnvelopeV { gateway: bytes20_of(e.gateway@), ..e }));
    }
}

/// Copies `len` bytes starting at `pos` into a fresh vector.
pub fn read_vec(b: &[u8], pos: usize, len: usize) -> (r: Vec<u8>)
    requires
        pos + len <= b@.len(),
    ensures
        r@ == b@.subrange(pos as int, pos + len),
{
    let blen = b.len();
    let mut out: Vec<u8> = Vec::new();
    let mut i: usize = 0;
    while i < len
        invariant
            0 <= i <= len,
            blen == b@.len(),
            pos + len <= blen,
            out@ == b@.subrange(pos as int, pos + i),
        decreases len - i,
    {
        out.push(b[pos + i]);
        proof {
            assert(b@.subrange(pos as int, pos + i + 1) =~= b@.subrange(pos as int, pos + i).push(
                b@[pos + i],
            ));
        }
        i += 1;
    }
    out
}

/// Decodes a raw event-log byte string into an envelope.  Truncated or
/// ill-sized input is rejected with a typed error, never a panic.
pub fn decode_envelope(bytes: &[u8]) -> (r: Result<Envelope, DecodeError>)
    ensures
        (r matches Ok(e) ==> spec_decode_envelope(bytes@) == Some(e@)),
        (r is Err ==> spec_decode_envelope(bytes@) is None),
{
    if bytes.len() < 36 {
        return Err(DecodeError);
    }
    let gateway = crate::codec::read_bytes::<20>(bytes, 0);
    let nonce = crate::codec::decode_u64(bytes, 20);
    let plen = crate::codec::decode_u64(bytes, 28);
    if plen > usize::MAX as u64 {
        proof {
            assert(bytes@.len() <= usize::MAX);
        }
        return Err(DecodeError);
    }
    if bytes.len() - 36 != plen as usize {
        return Err(DecodeError);
    }
    let payload = read_vec(bytes, 36, plen as usize);
    proof {
        lemma_bytes20_of(bytes@.subrange(0, 20));
        assert(gateway =~= bytes20_of(bytes@.subrange(0, 20)));
        assert(spec_decode_envelope(bytes@) matches Some(d) && d =~~= (Envelope {
            gateway,
            nonce,
            payload: payload,
        })@);
    }
    Ok(Envelope { gateway, nonce, payload })
}

/// Encodes an envelope in the fixed layout.
pub fn encode_envelope(e: &Envelope) -> (r: Vec<u8>)
    ensures
        r@ == spec_encode_envelope(e@),
{
    let mut out: Vec<u8> = Vec::new();
    crate::codec::push_bytes(&e.gateway, &mut out);
    crate::codec::encode_u64(e.nonce, &mut out);
    crate::codec::encode_u64(e.payload.len() as u64, &mut out);
    let mut i: usize = 0;
    let ghost head = out@;
    while i < e.payload.len()
        invariant
            0 <= i <= e.payload.len(),
            out@ == head + e.payload@.subrange(0, i as int),
        decreases e.payload.len() - i,
    {
        out.push(e.payload[i]);
        proof {
            assert(head + e.payload@.subrange(0, i + 1) =~= (head + e.payload@.subrange(
                0,
                i as int,
            )).push(e.payload@[i as int]));
        }
        i += 1;
    }
    proof {
        assert(e.payload@.subrange(0, e.payload@.len() as int) =~= e.payload@);
        assert(out@ =~= spec_encode_envelope(e@));
    }
    out
}

} // verus!
