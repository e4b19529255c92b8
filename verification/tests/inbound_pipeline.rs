use snowbridge_router::envelope::{decode_envelope, encode_envelope, Envelope};
use snowbridge_router::inbound::{
    BasicOperatingMode, Error, Event, InboundQueue, Message, SendError, Transport,
    VerificationError, Verifier,
};
use snowbridge_router::outbound::SendError as XcmSendError;
use snowbridge_router::payload::{encode_payload, InboundMessage};
use snowbridge_router::program::encode_program;
use snowbridge_router::types::{
    Asset, AssetFilter, Fungibility, Instruction, Junction, Location, WeightLimit, WildAsset, Xcm,
};

struct OkVerifier;

impl Verifier for OkVerifier {
    fn verify(&self, _event_log: &[u8], _proof: &[u8]) -> Result<(), VerificationError> {
        Ok(())
    }
}

struct RejectingVerifier;

impl Verifier for RejectingVerifier {
    fn verify(&self, _event_log: &[u8], _proof: &[u8]) -> Result<(), VerificationError> {
        Err(VerificationError::InvalidProof)
    }
}

struct RecordingTransport {
    sent: Vec<(Location, Vec<u8>)>,
    message_id: [u8; 32],
    fail_with: Option<XcmSendError>,
}

impl RecordingTransport {
    fn new(message_id: [u8; 32]) -> Self {
        RecordingTransport { sent: Vec::new(), message_id, fail_with: None }
    }
}

impl Transport for RecordingTransport {
    fn send(&mut self, destination: &Location, xcm: &Xcm) -> Result<[u8; 32], XcmSendError> {
        if let Some(e) = self.fail_with {
            return Err(e);
        }
        let dest = Location { parents: destination.parents, interior: destination.interior.clone() };
        self.sent.push((dest, encode_program(xcm)));
        Ok(self.message_id)
    }
}

const GATEWAY: [u8; 20] = [0x11; 20];

fn account_key(key: [u8; 20]) -> Location {
    Location {
        parents: 0,
        interior: vec![Junction::AccountKey20 { network: None, key }],
    }
}

fn token_asset(key: [u8; 20], amount: u128) -> Asset {
    Asset { id: account_key(key), fun: Fungibility::Fungible(amount) }
}

fn withdraw_program(token: [u8; 20], amount: u128, fee: u128, beneficiary: [u8; 20], topic: [u8; 32]) -> Xcm {
    Xcm(vec![
        Instruction::WithdrawAsset(vec![token_asset(token, amount)]),
        Instruction::ClearOrigin,
        Instruction::BuyExecution {
            fees: Asset {
                id: Location { parents: 1, interior: vec![] },
                fun: Fungibility::Fungible(fee),
            },
            weight_limit: WeightLimit::Unlimited,
        },
        Instruction::DepositAsset {
            assets: AssetFilter::Wild(WildAsset::All),
            beneficiary: account_key(beneficiary),
        },
        Instruction::SetTopic(topic),
    ])
}

fn event_log_for(nonce: u64, program: &Xcm, fee: u128) -> Vec<u8> {
    let xcm = encode_program(program);
    let payload = encode_payload(&InboundMessage { fee, xcm });
    encode_envelope(&Envelope { gateway: GATEWAY, nonce, payload })
}

#[test]
fn scenario_inbound_success_consumes_nonce() {
    let mut queue = InboundQueue::new(GATEWAY);
    let topic = [0xABu8; 32];
    let program = withdraw_program([0x22; 20], 100, 10, [0xAB; 20], topic);
    let message = Message { event_log: event_log_for(5, &program, 10), proof: vec![] };
    let mut transport = RecordingTransport::new(topic);
    let r = queue.submit(&OkVerifier, &mut transport, &message);
    assert_eq!(r, Ok(Event::MessageReceived { nonce: 5, message_id: topic }));
    assert!(queue.nonces.contains(5));
    assert_eq!(transport.sent.len(), 1);
    assert_eq!(transport.sent[0].0.parents, 1);
    assert!(matches!(transport.sent[0].0.interior[0], Junction::Parachain(1000)));
    assert_eq!(transport.sent[0].1, encode_program(&program));
}

#[test]
fn scenario_inbound_replay_rejected() {
    let mut queue = InboundQueue::new(GATEWAY);
    let topic = [0xABu8; 32];
    let program = withdraw_program([0x22; 20], 100, 10, [0xAB; 20], topic);
    let message = Message { event_log: event_log_for(5, &program, 10), proof: vec![] };
    let mut transport = RecordingTransport::new(topic);
    assert!(queue.submit(&OkVerifier, &mut transport, &message).is_ok());
    let r = queue.submit(&OkVerifier, &mut transport, &message);
    assert_eq!(r, Err(Error::InvalidNonce));
    assert!(queue.nonces.contains(5));
    assert_eq!(transport.sent.len(), 1);
}

#[test]
fn failed_delivery_does_not_burn_the_nonce() {
    let mut queue = InboundQueue::new(GATEWAY);
    let topic = [0xABu8; 32];
    let program = withdraw_program([0x22; 20], 100, 10, [0xAB; 20], topic);
    let message = Message { event_log: event_log_for(7, &program, 10), proof: vec![] };
    let mut transport = RecordingTransport::new(topic);
    transport.fail_with = Some(XcmSendError::Unroutable);
    let r = queue.submit(&OkVerifier, &mut transport, &message);
    assert_eq!(r, Err(Error::Send(SendError::NotRoutable)));
    assert!(!queue.nonces.contains(7));
    transport.fail_with = None;
    let r2 = queue.submit(&OkVerifier, &mut transport, &message);
    assert_eq!(r2, Ok(Event::MessageReceived { nonce: 7, message_id: topic }));
    assert!(queue.nonces.contains(7));
}

#[test]
fn halted_queue_rejects_everything() {
    let mut queue = InboundQueue::new(GATEWAY);
    let ev = queue.set_operating_mode(BasicOperatingMode::Halted);
    assert_eq!(ev, Event::OperatingModeChanged { mode: BasicOperatingMode::Halted });
    let topic = [0xABu8; 32];
    let program = withdraw_program([0x22; 20], 100, 10, [0xAB; 20], topic);
    let message = Message { event_log: event_log_for(5, &program, 10), proof: vec![] };
    let mut transport = RecordingTransport::new(topic);
    let r = queue.submit(&OkVerifier, &mut transport, &message);
    assert_eq!(r, Err(Error::Halted));
    assert!(!queue.nonces.contains(5));
}

#[test]
fn verification_failure_is_surfaced() {
    let mut queue = InboundQueue::new(GATEWAY);
    let topic = [0xABu8; 32];
    let program = withdraw_program([0x22; 20], 100, 10, [0xAB; 20], topic);
    let message = Message { event_log: event_log_for(5, &program, 10), proof: vec![] };
    let mut transport = RecordingTransport::new(topic);
    let r = queue.submit(&RejectingVerifier, &mut transport, &message);
    assert_eq!(r, Err(Error::Verification(VerificationError::InvalidProof)));
}

#[test]
fn truncated_event_log_is_an_invalid_envelope() {
    let mut queue = InboundQueue::new(GATEWAY);
    let message = Message { event_log: vec![1, 2, 3], proof: vec![] };
    let mut transport = RecordingTransport::new([0; 32]);
    let r = queue.submit(&OkVerifier, &mut transport, &message);
    assert_eq!(r, Err(Error::InvalidEnvelope));
}

#[test]
fn wrong_gateway_is_rejected() {
    let mut queue = InboundQueue::new([0x99; 20]);
    let topic = [0xABu8; 32];
    let program = withdraw_program([0x22; 20], 100, 10, [0xAB; 20], topic);
    let message = Message { event_log: event_log_for(5, &program, 10), proof: vec![] };
    let mut transport = RecordingTransport::new(topic);
    let r = queue.submit(&OkVerifier, &mut transport, &message);
    assert_eq!(r, Err(Error::InvalidGateway));
}

#[test]
fn garbage_payload_is_invalid() {
    let mut queue = InboundQueue::new(GATEWAY);
    let event_log = encode_envelope(&Envelope { gateway: GATEWAY, nonce: 5, payload: vec![0xFF; 3] });
    let message = Message { event_log, proof: vec![] };
    let mut transport = RecordingTransport::new([0; 32]);
    let r = queue.submit(&OkVerifier, &mut transport, &message);
    assert_eq!(r, Err(Error::InvalidPayload));
}

#[test]
fn wrong_program_version_is_invalid_payload() {
    let mut queue = InboundQueue::new(GATEWAY);
    let topic = [0xABu8; 32];
    let program = withdraw_program([0x22; 20], 100, 10, [0xAB; 20], topic);
    let mut xcm = encode_program(&program);
    xcm[0] = 9;
    let payload = encode_payload(&InboundMessage { fee: 10, xcm });
    let event_log = encode_envelope(&Envelope { gateway: GATEWAY, nonce: 5, payload });
    let message = Message { event_log, proof: vec![] };
    let mut transport = RecordingTransport::new(topic);
    let r = queue.submit(&OkVerifier, &mut transport, &message);
    assert_eq!(r, Err(Error::InvalidPayload));
}

#[test]
fn transport_error_kinds_map_totally() {
    let cases = [
        (XcmSendError::NotApplicable, SendError::NotApplicable),
        (XcmSendError::Unroutable, SendError::NotRoutable),
        (XcmSendError::Transport, SendError::Transport),
        (XcmSendError::DestinationUnsupported, SendError::DestinationUnsupported),
        (XcmSendError::ExceedsMaxMessageSize, SendError::ExceedsMaxMessageSize),
        (XcmSendError::MissingArgument, SendError::MissingArgument),
        (XcmSendError::Fees, SendError::Fees),
    ];
    for (from, to) in cases {
        assert_eq!(Error::from(from), Error::Send(to));
    }
}

#[test]
fn envelope_round_trip_is_identity() {
    let e = Envelope { gateway: GATEWAY, nonce: 42, payload: vec![9, 8, 7, 6] };
    let bytes = encode_envelope(&e);
    let d = decode_envelope(&bytes).unwrap();
    assert_eq!(d.gateway, GATEWAY);
    assert_eq!(d.nonce, 42);
    assert_eq!(d.payload, vec![9, 8, 7, 6]);
    assert_eq!(encode_envelope(&d), bytes);
}

#[test]
fn envelope_with_trailing_bytes_is_rejected() {
    let e = Envelope { gateway: GATEWAY, nonce: 42, payload: vec![1] };
    let mut bytes = encode_envelope(&e);
    bytes.push(0);
    assert!(decode_envelope(&bytes).is_err());
}
