//! The inbound pipeline: decodes a raw event-log envelope, enforces
//! gateway-origin and replay protection, decodes the embedded payload and
//! instruction program, and forwards the program through a transport.
//! The consumed-nonce mark is committed only after the transport has
//! accepted the message, so a failed delivery never burns a nonce.

use vstd::prelude::*;

use crate::envelope::{decode_envelope, spec_decode_envelope};
use crate::nonce::NonceRegistry;
use crate::payload::{decode_payload, spec_decode_payload};
use crate::program::{decode_program, spec_decode_program};
use crate::types::{bytes_eq, InstructionV, Junction, Location, Xcm};

verus! {

broadcast use
    vstd::array::group_array_axioms,
    vstd::std_specs::vec::group_vec_axioms,
    vstd::seq::group_seq_axioms,
    vstd::set::group_set_axioms;

/// Whether the pallet accepts inbound submissions.
#[derive(Clone, Copy, PartialEq, Eq, Structural, Debug)]
pub enum BasicOperatingMode {
    Normal,
    Halted,
}

impl BasicOperatingMode {
    /// Whether all operations are halted.
    pub fn is_halted(&self) -> (r: bool)
        ensures
            r <==> *self is Halted,
    {
        matches!(self, BasicOperatingMode::Halted)
    }
}

/// Why the verifier rejected an event log.
#[derive(Clone, Copy, PartialEq, Eq, Structural, Debug)]
pub enum VerificationError {
    HeaderNotFound,
    LogNotFound,
    InvalidLog,
    InvalidProof,
}

/// The pallet-local transport failure kinds.
#[derive(Clone, Copy, PartialEq, Eq, Structural, Debug)]
pub enum SendError {
    NotApplicable,
    NotRoutable,
    Transport,
    DestinationUnsupported,
    ExceedsMaxMessageSize,
    MissingArgument,
    Fees,
}

/// Everything a submission can fail with.
#[derive(Clone, Copy, PartialEq, Eq, Structural, Debug)]
pub enum Error {
    InvalidGateway,
    InvalidEnvelope,
    InvalidNonce,
    InvalidPayload,
    InvalidChannel,
    MaxNonceReached,
    InvalidAccountConversion,
    Halted,
    Verification(VerificationError),
    Send(SendError),
}

/// The total mapping from transport failure kinds to submission errors.
pub open spec fn spec_from_transport(e: crate::outbound::SendError) -> Error {
    match e {
        crate::outbound::SendError::NotApplicable => Error::Send(SendError::NotApplicable),
        crate::outbound::SendError::Unroutable => Error::Send(SendError::NotRoutable),
        crate::outbound::SendError::Transport => Error::Send(SendError::Transport),
        crate::outbound::SendError::DestinationUnsupported => Error::Send(
            SendError::DestinationUnsupported,
        ),
        crate::outbound::SendError::ExceedsMaxMessageSize => Error::Send(
            SendError::ExceedsMaxMessageSize,
        ),
        crate::outbound::SendError::MissingArgument => Error::Send(SendError::MissingArgument),
        crate::outbound::SendError::Fees => Error::Send(SendError::Fees),
    }
}

impl From<crate::outbound::SendError> for Error {
    /// Maps each transport failure kind to its pallet-local error.
    fn from(e: crate::outbound::SendError) -> (r: Self) {
        match e {
            crate::outbound::SendError::NotApplicable => Error::Send(SendError::NotApplicable),
            crate::outbound::SendError::Unroutable => Error::Send(SendError::NotRoutable),
            crate::outbound::SendError::Transport => Error::Send(SendError::Transport),
            crate::outbound::SendError::DestinationUnsupported => Error::Send(
                SendError::DestinationUnsupported,
            ),
            crate::outbound::SendError::ExceedsMaxMessageSize => Error::Send(
                SendError::ExceedsMaxMessageSize,
            ),
            crate::outbound::SendError::MissingArgument => Error::Send(SendError::MissingArgument),
            crate::outbound::SendError::Fees => Error::Send(SendError::Fees),
        }
    }
}

impl vstd::std_specs::convert::FromSpecImpl<crate::outbound::SendError> for Error {
    open spec fn obeys_from_spec() -> bool {
        true
    }

    open spec fn from_spec(e: crate::outbound::SendError) -> Self {
        spec_from_transport(e)
    }
}

/// A raw inbound submission: the event-log bytes and their inclusion
/// proof.
#[derive(Clone, Debug)]
pub struct Message {
    pub event_log: Vec<u8>,
    pub proof: Vec<u8>,
}

/// What the pipeline reports to observers.
#[derive(Clone, Copy, PartialEq, Eq, Debug)]
pub enum Event {
    MessageReceived { nonce: u64, message_id: [u8; 32] },
    OperatingModeChanged { mode: BasicOperatingMode },
}

/// Verifies an event log against its inclusion proof.  Supplied by the
/// embedding runtime; nothing is assumed of its outcome.
pub trait Verifier {
    fn verify(&self, event_log: &[u8], proof: &[u8]) -> Result<(), VerificationError>;
}

/// Forwards an instruction program toward a destination.  Supplied by the
/// embedding runtime; nothing is assumed of its outcome.
pub trait Transport {
    fn send(&mut self, destination: &Location, xcm: &Xcm) -> Result<
        [u8; 32],
        crate::outbound::SendError,
    >;
}

/// The inbound queue: operating mode, configured gateway and the set of
/// consumed nonces.
pub struct InboundQueue {
    pub operating_mode: BasicOperatingMode,
    pub gateway_address: [u8; 20],
    pub nonces: NonceRegistry,
}

/// Mathematical model of an [`InboundQueue`].
#[verifier::ext_equal]
pub struct InboundQueueV {
    pub operating_mode: BasicOperatingMode,
    pub gateway_address: [u8; 20],
    pub nonces: Set<u64>,
}

impl View for InboundQueue {
    type V = InboundQueueV;

    open spec fn view(&self) -> InboundQueueV {
        InboundQueueV {
            operating_mode: self.operating_mode,
            gateway_address: self.gateway_address,
            nonces: self.nonces@,
        }
    }
}

/// What a submission yields once all its deterministic checks have
/// passed: the fresh nonce, the relayer fee and the decoded program.
#[verifier::ext_equal]
pub struct PreparedV {
    pub nonce: u64,
    pub fee: u128,
    pub program: Seq<InstructionV>,
}

/// The deterministic steps of a submission after verification: envelope
/// decode, gateway check, replay check, payload decode, program decode.
/// Exactly one error is possible for each failure point.
pub open spec fn spec_prepare(q: InboundQueueV, event_log: Seq<u8>) -> Result<PreparedV, Error> {
    match spec_decode_envelope(event_log) {
        None => Err(Error::InvalidEnvelope),
        Some(env) => if env.gateway != q.gateway_address {
            Err(Error::InvalidGateway)
        } else if q.nonces.contains(env.nonce) {
            Err(Error::InvalidNonce)
        } else {
            match spec_decode_payload(env.payload) {
                None => Err(Error::InvalidPayload),
                Some(m) => match spec_decode_program(m.xcm) {
                    None => Err(Error::InvalidPayload),
                    Some(prog) => Ok(PreparedV { nonce: env.nonce, fee: m.fee, program: prog }),
                },
            }
        },
    }
}

impl InboundQueue {
    /// A fresh queue for the given gateway: running, with no nonce
    /// consumed.
    pub fn new(gateway_address: [u8; 20]) -> (r: Self)
        ensures
            r@.operating_mode is Normal,
            r@.gateway_address == gateway_address,
            r@.nonces == Set::<u64>::empty(),
    {
        InboundQueue {
            operating_mode: BasicOperatingMode::Normal,
            gateway_address,
            nonces: NonceRegistry::new(),
        }
    }

    /// Halts or resumes all pipeline operations.
    pub fn set_operating_mode(&mut self, mode: BasicOperatingMode) -> (r: Event)
        ensures
            final(self)@ == (InboundQueueV { operating_mode: mode, ..old(self)@ }),
            r == (Event::OperatingModeChanged { mode }),
    {
        self.operating_mode = mode;
        Event::OperatingModeChanged { mode }
    }

    /// Submits an inbound message: gate check, proof verification,
    /// envelope decode, gateway-origin check, replay check, payload and
    /// program decode, then forwarding.  The nonce is marked consumed
    /// exactly when the transport accepted the message; every failure
    /// leaves the queue unchanged.
    pub fn submit<V: Verifier, X: Transport>(
        &mut self,
        verifier: &V,
        transport: &mut X,
        message: &Message,
    ) -> (r: Result<Event, Error>)
        ensures
            (r matches Err(e) ==> final(self)@ == old(self)@),
            (old(self)@.operating_mode is Halted <==> r == Err::<Event, Error>(Error::Halted)),
            ({
                let p = spec_prepare(old(self)@, message.event_log@);
                match r {
                    Ok(ev) => {
                        &&& p matches Ok(pre)
                        &&& (ev matches Event::MessageReceived { nonce, message_id } && nonce
                            == pre.nonce)
                        &&& final(self)@.nonces == old(self)@.nonces.insert(pre.nonce)
                        &&& final(self)@.operating_mode == old(self)@.operating_mode
                        &&& final(self)@.gateway_address == old(self)@.gateway_address
                    },
                    Err(e) => match e {
                        Error::Halted => true,
                        Error::Verification(_) => !(old(self)@.operating_mode is Halted),
                        Error::Send(_) => p is Ok,
                        _ => p == Err::<PreparedV, Error>(e),
                    },
                }
            }),
    {
        if self.operating_mode.is_halted() {
            return Err(Error::Halted);
        }
        match verifier.verify(message.event_log.as_slice(), message.proof.as_slice()) {
            Err(e) => {
                return Err(Error::Verification(e));
            },
            Ok(()) => {},
        }
        let envelope = match decode_envelope(message.event_log.as_slice()) {
            Err(_) => {
                return Err(Error::InvalidEnvelope);
            },
            Ok(env) => env,
        };
        if !bytes_eq(&self.gateway_address, &envelope.gateway) {
            return Err(Error::InvalidGateway);
        }
        if self.nonces.contains(envelope.nonce) {
            return Err(Error::InvalidNonce);
        }
        let msg = match decode_payload(envelope.payload.as_slice()) {
            Err(_) => {
                return Err(Error::InvalidPayload);
            },
            Ok(m) => m,
        };
        let xcm = match decode_program(msg.xcm.as_slice()) {
            Err(_) => {
                return Err(Error::InvalidPayload);
            },
            Ok(x) => x,
        };
        let mut interior: Vec<Junction> = Vec::new();
        interior.push(Junction::Parachain(1000));
        let dest = Location { parents: 1, interior };
        let message_id = match transport.send(&dest, &xcm) {
            Err(e) => {
                return Err(Error::from(e));
            },
            Ok(id) => id,
        };
        self.nonces.insert(envelope.nonce);
        Ok(Event::MessageReceived { nonce: envelope.nonce, message_id })
    }
}

/// Replay safety: a submission is only prepared for a nonce that is not
/// yet consumed, and once a successful submission has consumed its nonce,
/// resubmitting the same envelope is rejected as `InvalidNonce`.  A
/// failed submission leaves the queue unchanged (an `ensures` of
/// [`InboundQueue::submit`]), so a later submission with the same nonce
/// can still succeed.
pub proof fn lemma_replay_safety(q: InboundQueueV, event_log: Seq<u8>)
    ensures
        spec_prepare(q, event_log) matches Ok(p) ==> !q.nonces.contains(p.nonce),
        spec_prepare(q, event_log) matches Ok(p) ==> spec_prepare(
            InboundQueueV { nonces: q.nonces.insert(p.nonce), ..q },
            event_log,
        ) == Err::<PreparedV, Error>(Error::InvalidNonce),
{
}

} // verus!
