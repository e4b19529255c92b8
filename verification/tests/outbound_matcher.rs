use snowbridge_router::outbound::{
    AgentIdConversion, Command, DeliverError, EthereumBlobExporter, OutboundMessage, OutboundQueue,
    SendError, TokenIdConversion, XcmConverter, XcmConverterError,
};
use snowbridge_router::types::{
    Asset, AssetFilter, Fungibility, Instruction, Junction, Location, NetworkId, WeightLimit,
    WildAsset, Xcm,
};

const NETWORK: NetworkId = NetworkId::Ethereum { chain_id: 1 };
const AGENT: [u8; 32] = [0x77; 32];

fn clone_location(l: &Location) -> Location {
    Location { parents: l.parents, interior: l.interior.clone() }
}

struct NoConversion;

impl TokenIdConversion for NoConversion {
    fn location_to_token_id(&self, _id: &Location) -> Option<[u8; 32]> {
        None
    }

    fn token_id_to_location(&self, _token_id: &[u8; 32]) -> Option<Location> {
        None
    }
}

struct RegisteredToken {
    token_id: [u8; 32],
    location: Location,
}

impl TokenIdConversion for RegisteredToken {
    fn location_to_token_id(&self, id: &Location) -> Option<[u8; 32]> {
        if id.parents == self.location.parents && id.interior.len() == self.location.interior.len()
        {
            Some(self.token_id)
        } else {
            None
        }
    }

    fn token_id_to_location(&self, token_id: &[u8; 32]) -> Option<Location> {
        if *token_id == self.token_id {
            Some(clone_location(&self.location))
        } else {
            None
        }
    }
}

struct FixedAgent;

impl AgentIdConversion for FixedAgent {
    fn convert_location(&self, _location: &Location) -> Option<[u8; 32]> {
        Some(AGENT)
    }
}

struct RecordingQueue {
    validated: Vec<OutboundMessage>,
    delivered: Vec<Vec<u8>>,
    ticket: Vec<u8>,
    fee: u128,
    deliver_result: Result<[u8; 32], DeliverError>,
}

impl RecordingQueue {
    fn new() -> Self {
        RecordingQueue {
            validated: Vec::new(),
            delivered: Vec::new(),
            ticket: vec![0xEE, 0xFF],
            fee: 33,
            deliver_result: Ok([0x55; 32]),
        }
    }
}

impl OutboundQueue for RecordingQueue {
    fn validate(&mut self, message: &OutboundMessage) -> Option<(Vec<u8>, u128)> {
        self.validated.push(OutboundMessage {
            id: message.id,
            origin: message.origin,
            fee: message.fee,
            commands: message.commands.clone(),
        });
        Some((self.ticket.clone(), self.fee))
    }

    fn deliver(&mut self, ticket: &[u8]) -> Result<[u8; 32], DeliverError> {
        self.delivered.push(ticket.to_vec());
        self.deliver_result
    }
}

fn parent_fee(amount: u128) -> Asset {
    Asset { id: Location { parents: 1, interior: vec![] }, fun: Fungibility::Fungible(amount) }
}

fn ethereum_token(key: [u8; 20], amount: u128) -> Asset {
    Asset {
        id: Location {
            parents: 0,
            interior: vec![Junction::AccountKey20 { network: None, key }],
        },
        fun: Fungibility::Fungible(amount),
    }
}

fn polkadot_native_asset(amount: u128) -> Asset {
    Asset {
        id: Location { parents: 1, interior: vec![Junction::Parachain(2000)] },
        fun: Fungibility::Fungible(amount),
    }
}

fn beneficiary(key: [u8; 20]) -> Location {
    Location {
        parents: 0,
        interior: vec![Junction::AccountKey20 { network: None, key }],
    }
}

fn unlock_program(token: [u8; 20], amount: u128, topic: [u8; 32]) -> Xcm {
    Xcm(vec![
        Instruction::WithdrawAsset(vec![ethereum_token(token, amount)]),
        Instruction::ClearOrigin,
        Instruction::BuyExecution { fees: parent_fee(5), weight_limit: WeightLimit::Unlimited },
        Instruction::DepositAsset {
            assets: AssetFilter::Wild(WildAsset::All),
            beneficiary: beneficiary([0xCD; 20]),
        },
        Instruction::SetTopic(topic),
    ])
}

fn mint_program(asset: Asset, topic: [u8; 32]) -> Xcm {
    Xcm(vec![
        Instruction::ReserveAssetDeposited(vec![asset]),
        Instruction::ClearOrigin,
        Instruction::BuyExecution { fees: parent_fee(5), weight_limit: WeightLimit::Unlimited },
        Instruction::DepositAsset {
            assets: AssetFilter::Wild(WildAsset::All),
            beneficiary: beneficiary([0xCD; 20]),
        },
        Instruction::SetTopic(topic),
    ])
}

fn convert(program: &Xcm) -> Result<OutboundMessage, XcmConverterError> {
    let conv = NoConversion;
    let mut converter = XcmConverter::new(program, NETWORK, AGENT, &conv);
    converter.convert()
}

#[test]
fn unlock_transfer_produces_one_command() {
    let topic = [0x42u8; 32];
    let program = unlock_program([0x22; 20], 100, topic);
    let message = convert(&program).unwrap();
    assert_eq!(message.id, topic);
    assert_eq!(message.origin, [0u8; 32]);
    assert_eq!(message.fee, 5);
    assert_eq!(message.commands.len(), 1);
    match message.commands[0] {
        Command::UnlockNativeToken { agent_id, token, recipient, amount } => {
            assert_eq!(agent_id, AGENT);
            assert_eq!(token, [0x22; 20]);
            assert_eq!(recipient, [0xCD; 20]);
            assert_eq!(amount, 100);
        },
        _ => panic!("expected an unlock command"),
    }
}

#[test]
fn scenario_mint_transfer_through_exporter() {
    let topic = [0x43u8; 32];
    let asset = polkadot_native_asset(50);
    let program = mint_program(
        Asset { id: clone_location(&asset.id), fun: Fungibility::Fungible(50) },
        topic,
    );
    let registered = RegisteredToken { token_id: [0x99; 32], location: clone_location(&asset.id) };
    let exporter = EthereumBlobExporter {
        universal_location: vec![Junction::GlobalConsensus(NetworkId::Polkadot), Junction::Parachain(1013)],
        ethereum_network: NETWORK,
    };
    let mut queue = RecordingQueue::new();
    let source = Some(vec![Junction::GlobalConsensus(NetworkId::Polkadot), Junction::Parachain(1000)]);
    let destination = Some(vec![]);
    let r = exporter.validate(
        &FixedAgent,
        &registered,
        &mut queue,
        NETWORK,
        0,
        &source,
        &destination,
        &Some(program),
    );
    let ((ticket, message_id), fee_asset) = r.unwrap();
    assert_eq!(ticket, vec![0xEE, 0xFF]);
    assert_eq!(message_id, topic);
    assert!(matches!(fee_asset.fun, Fungibility::Fungible(33)));
    assert_eq!(queue.validated.len(), 1);
    assert_eq!(queue.validated[0].commands.len(), 1);
    match queue.validated[0].commands[0] {
        Command::MintForeignToken { token_id, recipient, amount } => {
            assert_eq!(token_id, [0x99; 32]);
            assert_eq!(recipient, [0xCD; 20]);
            assert_eq!(amount, 50);
        },
        _ => panic!("expected a mint command"),
    }
}

#[test]
fn scenario_two_reserved_assets_rejected() {
    let topic = [0x44u8; 32];
    let program = Xcm(vec![
        Instruction::ReserveAssetDeposited(vec![polkadot_native_asset(50), polkadot_native_asset(60)]),
        Instruction::ClearOrigin,
        Instruction::BuyExecution { fees: parent_fee(5), weight_limit: WeightLimit::Unlimited },
        Instruction::DepositAsset {
            assets: AssetFilter::Wild(WildAsset::All),
            beneficiary: beneficiary([0xCD; 20]),
        },
        Instruction::SetTopic(topic),
    ]);
    assert_eq!(convert(&program).err(), Some(XcmConverterError::TooManyAssets));
    let exporter = EthereumBlobExporter {
        universal_location: vec![Junction::GlobalConsensus(NetworkId::Polkadot), Junction::Parachain(1013)],
        ethereum_network: NETWORK,
    };
    let mut queue = RecordingQueue::new();
    let source = Some(vec![Junction::GlobalConsensus(NetworkId::Polkadot), Junction::Parachain(1000)]);
    let r = exporter.validate(
        &FixedAgent,
        &NoConversion,
        &mut queue,
        NETWORK,
        0,
        &source,
        &Some(vec![]),
        &Some(program),
    );
    assert_eq!(r.map(|_| ()), Err(SendError::Unroutable));
    assert_eq!(queue.validated.len(), 0);
}

#[test]
fn scenario_expect_asset_makes_exporter_inapplicable() {
    let topic = [0x45u8; 32];
    let program = Xcm(vec![
        Instruction::WithdrawAsset(vec![ethereum_token([0x22; 20], 100)]),
        Instruction::ExpectAsset(vec![ethereum_token([0x22; 20], 100)]),
        Instruction::BuyExecution { fees: parent_fee(5), weight_limit: WeightLimit::Unlimited },
        Instruction::DepositAsset {
            assets: AssetFilter::Wild(WildAsset::All),
            beneficiary: beneficiary([0xCD; 20]),
        },
        Instruction::SetTopic(topic),
    ]);
    let exporter = EthereumBlobExporter {
        universal_location: vec![Junction::GlobalConsensus(NetworkId::Polkadot), Junction::Parachain(1013)],
        ethereum_network: NETWORK,
    };
    let mut queue = RecordingQueue::new();
    let source = Some(vec![Junction::GlobalConsensus(NetworkId::Polkadot), Junction::Parachain(1000)]);
    let r = exporter.validate(
        &FixedAgent,
        &NoConversion,
        &mut queue,
        NETWORK,
        0,
        &source,
        &Some(vec![]),
        &Some(program),
    );
    assert_eq!(r.map(|_| ()), Err(SendError::NotApplicable));
    assert_eq!(queue.validated.len(), 0);
}

#[test]
fn wrong_network_is_not_applicable() {
    let exporter = EthereumBlobExporter {
        universal_location: vec![Junction::GlobalConsensus(NetworkId::Polkadot), Junction::Parachain(1013)],
        ethereum_network: NETWORK,
    };
    let mut queue = RecordingQueue::new();
    let source = Some(vec![Junction::GlobalConsensus(NetworkId::Polkadot), Junction::Parachain(1000)]);
    let r = exporter.validate(
        &FixedAgent,
        &NoConversion,
        &mut queue,
        NetworkId::Kusama,
        0,
        &source,
        &Some(vec![]),
        &Some(unlock_program([0x22; 20], 100, [0x42; 32])),
    );
    assert_eq!(r.map(|_| ()), Err(SendError::NotApplicable));
}

#[test]
fn missing_message_is_a_missing_argument() {
    let exporter = EthereumBlobExporter {
        universal_location: vec![Junction::GlobalConsensus(NetworkId::Polkadot), Junction::Parachain(1013)],
        ethereum_network: NETWORK,
    };
    let mut queue = RecordingQueue::new();
    let source = Some(vec![Junction::GlobalConsensus(NetworkId::Polkadot), Junction::Parachain(1000)]);
    let r = exporter.validate(
        &FixedAgent,
        &NoConversion,
        &mut queue,
        NETWORK,
        0,
        &source,
        &Some(vec![]),
        &None,
    );
    assert_eq!(r.map(|_| ()), Err(SendError::MissingArgument));
}

#[test]
fn empty_program_rejected() {
    assert_eq!(convert(&Xcm(vec![])).err(), Some(XcmConverterError::UnexpectedEndOfXcm));
}

#[test]
fn foreign_opening_instruction_rejected() {
    let program = Xcm(vec![Instruction::ClearOrigin]);
    assert_eq!(convert(&program).err(), Some(XcmConverterError::UnexpectedInstruction));
}

#[test]
fn trailing_instruction_rejected() {
    let topic = [0x42u8; 32];
    let mut program = unlock_program([0x22; 20], 100, topic);
    program.0.push(Instruction::ClearOrigin);
    assert_eq!(convert(&program).err(), Some(XcmConverterError::EndOfXcmMessageExpected));
}

#[test]
fn missing_fee_purchase_rejected() {
    let program = Xcm(vec![
        Instruction::WithdrawAsset(vec![ethereum_token([0x22; 20], 100)]),
        Instruction::DepositAsset {
            assets: AssetFilter::Wild(WildAsset::All),
            beneficiary: beneficiary([0xCD; 20]),
        },
        Instruction::SetTopic([0x42; 32]),
    ]);
    assert_eq!(convert(&program).err(), Some(XcmConverterError::InvalidFeeAsset));
}

#[test]
fn no_reserve_assets_rejected() {
    let program = Xcm(vec![
        Instruction::WithdrawAsset(vec![]),
        Instruction::BuyExecution { fees: parent_fee(5), weight_limit: WeightLimit::Unlimited },
        Instruction::DepositAsset {
            assets: AssetFilter::Wild(WildAsset::All),
            beneficiary: beneficiary([0xCD; 20]),
        },
        Instruction::SetTopic([0x42; 32]),
    ]);
    assert_eq!(convert(&program).err(), Some(XcmConverterError::NoReserveAssets));
}

#[test]
fn zero_amount_transfer_rejected() {
    let program = unlock_program([0x22; 20], 0, [0x42; 32]);
    assert_eq!(convert(&program).err(), Some(XcmConverterError::ZeroAssetTransfer));
}

#[test]
fn filter_must_consume_all_assets() {
    let program = Xcm(vec![
        Instruction::WithdrawAsset(vec![ethereum_token([0x22; 20], 100)]),
        Instruction::BuyExecution { fees: parent_fee(5), weight_limit: WeightLimit::Unlimited },
        Instruction::DepositAsset {
            assets: AssetFilter::Definite(vec![ethereum_token([0x33; 20], 100)]),
            beneficiary: beneficiary([0xCD; 20]),
        },
        Instruction::SetTopic([0x42; 32]),
    ]);
    assert_eq!(convert(&program).err(), Some(XcmConverterError::FilterDoesNotConsumeAllAssets));
}

#[test]
fn missing_topic_rejected() {
    let program = Xcm(vec![
        Instruction::WithdrawAsset(vec![ethereum_token([0x22; 20], 100)]),
        Instruction::BuyExecution { fees: parent_fee(5), weight_limit: WeightLimit::Unlimited },
        Instruction::DepositAsset {
            assets: AssetFilter::Wild(WildAsset::All),
            beneficiary: beneficiary([0xCD; 20]),
        },
        Instruction::ClearOrigin,
    ]);
    assert_eq!(convert(&program).err(), Some(XcmConverterError::SetTopicExpected));
}

#[test]
fn beneficiary_must_be_an_account_key() {
    let program = Xcm(vec![
        Instruction::WithdrawAsset(vec![ethereum_token([0x22; 20], 100)]),
        Instruction::BuyExecution { fees: parent_fee(5), weight_limit: WeightLimit::Unlimited },
        Instruction::DepositAsset {
            assets: AssetFilter::Wild(WildAsset::All),
            beneficiary: Location { parents: 0, interior: vec![Junction::Parachain(7)] },
        },
        Instruction::SetTopic([0x42; 32]),
    ]);
    assert_eq!(convert(&program).err(), Some(XcmConverterError::BeneficiaryResolutionFailed));
}

#[test]
fn unregistered_asset_is_invalid() {
    let topic = [0x43u8; 32];
    let program = mint_program(polkadot_native_asset(50), topic);
    assert_eq!(convert(&program).err(), Some(XcmConverterError::InvalidAsset));
}

#[test]
fn non_fungible_fee_rejected() {
    let program = Xcm(vec![
        Instruction::WithdrawAsset(vec![ethereum_token([0x22; 20], 100)]),
        Instruction::BuyExecution {
            fees: Asset {
                id: Location { parents: 1, interior: vec![] },
                fun: Fungibility::NonFungible,
            },
            weight_limit: WeightLimit::Unlimited,
        },
        Instruction::DepositAsset {
            assets: AssetFilter::Wild(WildAsset::All),
            beneficiary: beneficiary([0xCD; 20]),
        },
        Instruction::SetTopic([0x42; 32]),
    ]);
    assert_eq!(convert(&program).err(), Some(XcmConverterError::AssetResolutionFailed));
}

#[test]
fn deliver_redeems_the_ticket_once() {
    let exporter = EthereumBlobExporter {
        universal_location: vec![Junction::GlobalConsensus(NetworkId::Polkadot), Junction::Parachain(1013)],
        ethereum_network: NETWORK,
    };
    let mut queue = RecordingQueue::new();
    let r = exporter.deliver(&mut queue, (vec![0xEE, 0xFF], [0x43; 32]));
    assert_eq!(r, Ok([0x55; 32]));
    assert_eq!(queue.delivered, vec![vec![0xEE, 0xFF]]);
}

#[test]
fn undecodable_ticket_is_not_applicable() {
    let exporter = EthereumBlobExporter {
        universal_location: vec![Junction::GlobalConsensus(NetworkId::Polkadot), Junction::Parachain(1013)],
        ethereum_network: NETWORK,
    };
    let mut queue = RecordingQueue::new();
    queue.deliver_result = Err(DeliverError::Undecodable);
    let r = exporter.deliver(&mut queue, (vec![1], [0x43; 32]));
    assert_eq!(r, Err(SendError::NotApplicable));
    queue.deliver_result = Err(DeliverError::Failed);
    let r2 = exporter.deliver(&mut queue, (vec![1], [0x43; 32]));
    assert_eq!(r2, Err(SendError::Transport));
}
