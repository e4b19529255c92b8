use snowbridge_router::codec::DecodeError;
use snowbridge_router::inbound::Transport;
use snowbridge_router::outbound::SendError as XcmSendError;
use snowbridge_router::payload::{decode_payload, encode_payload, InboundMessage};
use snowbridge_router::program::{decode_program, encode_program, MAX_DECODE_DEPTH};
use snowbridge_router::rewards::{
    AssetTransactor, Error as RewardsError, Event as RewardsEvent, Rewards, SendError,
};
use snowbridge_router::types::{
    Asset, AssetFilter, Fungibility, Instruction, Junction, Location, NetworkId, WeightLimit,
    WildAsset, Xcm,
};

fn sample_program() -> Xcm {
    Xcm(vec![
        Instruction::WithdrawAsset(vec![Asset {
            id: Location {
                parents: 0,
                interior: vec![Junction::AccountKey20 {
                    network: Some(NetworkId::Ethereum { chain_id: 1 }),
                    key: [0x22; 20],
                }],
            },
            fun: Fungibility::Fungible(100),
        }]),
        Instruction::ClearOrigin,
        Instruction::BuyExecution {
            fees: Asset {
                id: Location { parents: 1, interior: vec![] },
                fun: Fungibility::Fungible(10),
            },
            weight_limit: WeightLimit::Limited(9000),
        },
        Instruction::DepositAsset {
            assets: AssetFilter::Definite(vec![Asset {
                id: Location { parents: 1, interior: vec![Junction::Parachain(2000)] },
                fun: Fungibility::NonFungible,
            }]),
            beneficiary: Location {
                parents: 0,
                interior: vec![Junction::AccountKey20 { network: None, key: [0xAB; 20] }],
            },
        },
        Instruction::SetAppendix(Xcm(vec![
            Instruction::RefundSurplus,
            Instruction::DescendOrigin(vec![Junction::PalletInstance(80)]),
            Instruction::UniversalOrigin(Junction::GlobalConsensus(NetworkId::Kusama)),
            Instruction::ReceiveTeleportedAsset(vec![]),
            Instruction::ExpectAsset(vec![]),
            Instruction::ReserveAssetDeposited(vec![]),
        ])),
        Instruction::SetTopic([0x42; 32]),
    ])
}

#[test]
fn program_codec_round_trip_is_identity() {
    let program = sample_program();
    let bytes = encode_program(&program);
    let decoded = decode_program(&bytes).unwrap();
    let bytes2 = encode_program(&decoded);
    assert_eq!(bytes, bytes2);
}

#[test]
fn program_decode_rejects_garbage() {
    assert_eq!(decode_program(&[]).err(), Some(DecodeError));
    assert_eq!(decode_program(&[5]).err(), Some(DecodeError));
    assert_eq!(decode_program(&[5, 1, 2, 3]).err(), Some(DecodeError));
    let mut bytes = encode_program(&sample_program());
    bytes.push(0);
    assert_eq!(decode_program(&bytes).err(), Some(DecodeError));
    let flipped = {
        let mut b = encode_program(&sample_program());
        b[0] = 4;
        b
    };
    assert_eq!(decode_program(&flipped).err(), Some(DecodeError));
}

#[test]
fn deeply_nested_program_is_rejected() {
    let mut program = Xcm(vec![Instruction::ClearOrigin]);
    for _ in 0..MAX_DECODE_DEPTH + 1 {
        program = Xcm(vec![Instruction::SetAppendix(program)]);
    }
    let bytes = encode_program(&program);
    assert_eq!(decode_program(&bytes).err(), Some(DecodeError));
}

#[test]
fn nested_program_within_budget_decodes() {
    let mut program = Xcm(vec![Instruction::ClearOrigin]);
    for _ in 0..MAX_DECODE_DEPTH {
        program = Xcm(vec![Instruction::SetAppendix(program)]);
    }
    let bytes = encode_program(&program);
    let decoded = decode_program(&bytes).unwrap();
    assert_eq!(encode_program(&decoded), bytes);
}

#[test]
fn payload_codec_round_trip_is_identity() {
    let m = InboundMessage { fee: 123456789, xcm: vec![1, 2, 3] };
    let bytes = encode_payload(&m);
    let d = decode_payload(&bytes).unwrap();
    assert_eq!(d.fee, 123456789);
    assert_eq!(d.xcm, vec![1, 2, 3]);
    assert_eq!(encode_payload(&d), bytes);
    assert!(decode_payload(&[1, 2]).is_err());
}

struct OkTransactor {
    checked_out: usize,
    withdrawn: usize,
    fail_check: bool,
    fail_withdraw: bool,
}

impl OkTransactor {
    fn new() -> Self {
        OkTransactor { checked_out: 0, withdrawn: 0, fail_check: false, fail_withdraw: false }
    }
}

impl AssetTransactor for OkTransactor {
    fn can_check_out(&mut self, _dest: &Location, _fee: &Asset) -> Result<(), ()> {
        if self.fail_check {
            Err(())
        } else {
            Ok(())
        }
    }

    fn check_out(&mut self, _dest: &Location, _fee: &Asset) {
        self.checked_out += 1;
    }

    fn withdraw_asset(&mut self, _fee: &Asset, _dest: &Location) -> Result<(), ()> {
        if self.fail_withdraw {
            Err(())
        } else {
            self.withdrawn += 1;
            Ok(())
        }
    }
}

struct ClaimTransport {
    sent_programs: Vec<usize>,
    fail: bool,
}

impl Transport for ClaimTransport {
    fn send(&mut self, _destination: &Location, xcm: &Xcm) -> Result<[u8; 32], XcmSendError> {
        if self.fail {
            return Err(XcmSendError::Transport);
        }
        self.sent_programs.push(xcm.0.len());
        Ok([0x66; 32])
    }
}

fn ledger() -> Rewards {
    Rewards::new(1000, NetworkId::Ethereum { chain_id: 1 }, [0x33; 20])
}

#[test]
fn rewards_accumulate_and_pay_out() {
    let mut rewards = ledger();
    let relayer = [0x01u8; 32];
    assert_eq!(rewards.balance_of(&relayer), 0);
    let ev = rewards.deposit(relayer, 70);
    assert_eq!(ev, RewardsEvent::RewardDeposited { account_id: relayer, value: 70 });
    rewards.deposit(relayer, 30);
    assert_eq!(rewards.balance_of(&relayer), 100);
    let mut transactor = OkTransactor::new();
    let mut transport = ClaimTransport { sent_programs: Vec::new(), fail: false };
    let message_id = [0x09u8; 32];
    let r = rewards.claim(&mut transactor, &mut transport, relayer, [0x02; 32], 60, message_id);
    assert_eq!(
        r,
        Ok(RewardsEvent::RewardClaimed {
            account_id: relayer,
            deposit_address: [0x02; 32],
            value: 60,
            message_id,
        })
    );
    assert_eq!(rewards.balance_of(&relayer), 40);
    assert_eq!(transport.sent_programs, vec![8]);
    assert_eq!(transactor.checked_out, 1);
    assert_eq!(transactor.withdrawn, 1);
}

#[test]
fn overdrawn_claim_is_rejected() {
    let mut rewards = ledger();
    let relayer = [0x01u8; 32];
    rewards.deposit(relayer, 10);
    let mut transactor = OkTransactor::new();
    let mut transport = ClaimTransport { sent_programs: Vec::new(), fail: false };
    let r = rewards.claim(&mut transactor, &mut transport, relayer, [0x02; 32], 11, [0x09; 32]);
    assert_eq!(r, Err(RewardsError::InsufficientFunds));
    assert_eq!(rewards.balance_of(&relayer), 10);
    assert!(transport.sent_programs.is_empty());
}

#[test]
fn failed_fee_burn_keeps_the_balance() {
    let mut rewards = ledger();
    let relayer = [0x01u8; 32];
    rewards.deposit(relayer, 10);
    let mut transactor = OkTransactor::new();
    transactor.fail_check = true;
    let mut transport = ClaimTransport { sent_programs: Vec::new(), fail: false };
    let r = rewards.claim(&mut transactor, &mut transport, relayer, [0x02; 32], 5, [0x09; 32]);
    assert_eq!(r, Err(RewardsError::FundsUnavailable));
    assert_eq!(rewards.balance_of(&relayer), 10);
}

#[test]
fn failed_send_keeps_the_balance() {
    let mut rewards = ledger();
    let relayer = [0x01u8; 32];
    rewards.deposit(relayer, 10);
    let mut transactor = OkTransactor::new();
    let mut transport = ClaimTransport { sent_programs: Vec::new(), fail: true };
    let r = rewards.claim(&mut transactor, &mut transport, relayer, [0x02; 32], 5, [0x09; 32]);
    assert_eq!(r, Err(RewardsError::Send(SendError::Transport)));
    assert_eq!(rewards.balance_of(&relayer), 10);
}

#[test]
fn deposit_saturates_at_the_balance_limit() {
    let mut rewards = ledger();
    let relayer = [0x01u8; 32];
    rewards.deposit(relayer, u128::MAX - 1);
    rewards.deposit(relayer, 5);
    assert_eq!(rewards.balance_of(&relayer), u128::MAX);
}

#[test]
fn claim_program_has_the_documented_shape() {
    let rewards = ledger();
    let program = rewards.build_claim_program(60, [0x09; 32]);
    assert_eq!(program.0.len(), 8);
    assert!(matches!(program.0[0], Instruction::ReceiveTeleportedAsset(_)));
    assert!(matches!(program.0[4], Instruction::ReserveAssetDeposited(_)));
    match &program.0[6] {
        Instruction::SetAppendix(inner) => assert_eq!(inner.0.len(), 2),
        _ => panic!("expected an appendix"),
    }
    assert!(matches!(program.0[7], Instruction::SetTopic(_)));
}

#[test]
fn corrupted_count_fails_to_decode() {
    let program = Xcm(vec![Instruction::DepositAsset {
        assets: AssetFilter::Wild(WildAsset::AllCounted(3)),
        beneficiary: Location { parents: 0, interior: vec![] },
    }]);
    let mut bytes = encode_program(&program);
    let decoded = decode_program(&bytes).unwrap();
    assert_eq!(encode_program(&decoded), bytes);
    let last = bytes.len() - 1;
    bytes[last] = 0xFF;
    assert_eq!(decode_program(&bytes).err(), Some(DecodeError));
}
