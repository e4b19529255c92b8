//! Outbound direction: inspects a cross-chain instruction program,
//! recognises one of two fixed transfer grammars and emits exactly one
//! gateway command together with a delivery ticket.

use vstd::prelude::*;

use crate::types::{
    spec_filter_matches, Asset, AssetFilter, AssetFilterV, AssetV, Fungibility, Instruction,
    InstructionV, Junction, Location, LocationV, NetworkId, Xcm,
};
use crate::types::{filter_consumes_all, instrs_view, location_eq};

verus! {

broadcast use
    vstd::array::group_array_axioms,
    vstd::std_specs::vec::group_vec_axioms,
    vstd::seq::group_seq_axioms,
    crate::types::lemma_instrs_view_index;

/// The most commands one outbound message may carry.
pub const MAX_COMMANDS: usize = 8;

/// Everything that can go wrong while pattern-matching an instruction
/// program against the two transfer grammars.
#[derive(Clone, Copy, PartialEq, Eq, Structural, Debug)]
pub enum XcmConverterError {
    UnexpectedEndOfXcm,
    EndOfXcmMessageExpected,
    WithdrawAssetExpected,
    DepositAssetExpected,
    NoReserveAssets,
    FilterDoesNotConsumeAllAssets,
    TooManyAssets,
    ZeroAssetTransfer,
    BeneficiaryResolutionFailed,
    AssetResolutionFailed,
    InvalidFeeAsset,
    SetTopicExpected,
    ReserveAssetDepositedExpected,
    InvalidAsset,
    UnexpectedInstruction,
    TooManyCommands,
}

/// A compact command consumable by the gateway contract.
#[derive(Clone, Copy, Debug)]
pub enum Command {
    UnlockNativeToken { agent_id: [u8; 32], token: [u8; 20], recipient: [u8; 20], amount: u128 },
    MintForeignToken { token_id: [u8; 32], recipient: [u8; 20], amount: u128 },
}

/// The message handed to the outbound queue: one topic, an origin hash, a
/// fee and a bounded sequence of commands.
#[derive(Clone, Debug)]
pub struct OutboundMessage {
    pub id: [u8; 32],
    pub origin: [u8; 32],
    pub fee: u128,
    pub commands: Vec<Command>,
}

/// Mathematical model of an [`OutboundMessage`].
#[verifier::ext_equal]
pub struct OutboundMessageV {
    pub id: [u8; 32],
    pub origin: [u8; 32],
    pub fee: u128,
    pub commands: Seq<Command>,
}

impl View for OutboundMessage {
    type V = OutboundMessageV;

    open spec fn view(&self) -> OutboundMessageV {
        OutboundMessageV {
            id: self.id,
            origin: self.origin,
            fee: self.fee,
            commands: self.commands@,
        }
    }
}

/// Failure modes of a transfer attempted through an exporter.
#[derive(Clone, Copy, PartialEq, Eq, Structural, Debug)]
pub enum SendError {
    NotApplicable,
    Unroutable,
    Transport,
    DestinationUnsupported,
    ExceedsMaxMessageSize,
    MissingArgument,
    Fees,
}

/// Why the queue refused to deliver a ticket.
#[derive(Clone, Copy, PartialEq, Eq, Structural, Debug)]
pub enum DeliverError {
    Undecodable,
    Failed,
}

/// The asset-identifier equivalence consulted on the foreign-to-native
/// token path: a token identifier for a location, and the inverse lookup.
/// Implementations are supplied by the embedding runtime.
pub trait TokenIdConversion {
    /// Derives the token identifier under which the given asset location
    /// is registered, if any.
    fn location_to_token_id(&self, id: &Location) -> Option<[u8; 32]>;

    /// Looks up the asset location registered for a token identifier.
    fn token_id_to_location(&self, token_id: &[u8; 32]) -> Option<Location>;
}

/// Derives the agent identifier representing a source location on the
/// external ledger.  Supplied by the embedding runtime.
pub trait AgentIdConversion {
    fn convert_location(&self, location: &Location) -> Option<[u8; 32]>;
}

/// The outbound delivery queue: validates a message into a ticket plus a
/// fee quote, and later redeems the ticket exactly once.
pub trait OutboundQueue {
    /// Checks capacity and fees for a message; on success returns an
    /// encoded single-use ticket and the quoted total fee.
    fn validate(&mut self, message: &OutboundMessage) -> Option<(Vec<u8>, u128)>;

    /// Redeems a previously issued ticket and returns the transport-visible
    /// message identifier.
    fn deliver(&mut self, ticket: &[u8]) -> Result<[u8; 32], DeliverError>;
}

/// The all-zero 32-byte hash used as the origin of produced messages.
pub open spec fn spec_zero_h256() -> [u8; 32] {
    vstd::array::spec_array_fill_for_copy_type::<u8, 32>(0u8)
}

/// Returns the all-zero 32-byte hash.
pub fn zero_h256() -> (r: [u8; 32])
    ensures
        r == spec_zero_h256(),
{
    [0u8; 32]
}

/// Holds when an instruction's optional network tag is compatible with the
/// configured network.
pub open spec fn spec_network_matches(n: Option<NetworkId>, expected: NetworkId) -> bool {
    match n {
        Some(x) => x == expected,
        None => true,
    }
}

/// Resolves a location of the shape `(0, [AccountKey20 { .. }])` on a
/// compatible network to its 20-byte account key.
pub open spec fn spec_account_key20(l: LocationV, net: NetworkId) -> Option<[u8; 20]> {
    if l.parents == 0 && l.interior.len() == 1 {
        match l.interior[0] {
            Junction::AccountKey20 { network, key } => if spec_network_matches(network, net) {
                Some(key)
            } else {
                None
            },
            _ => None,
        }
    } else {
        None
    }
}

/// The fields recovered by matching the native-token (unlock) grammar.
#[verifier::ext_equal]
pub struct UnlockMatchV {
    pub token: [u8; 20],
    pub recipient: [u8; 20],
    pub amount: u128,
    pub fee: u128,
    pub topic: [u8; 32],
}

/// The fields recovered by matching the foreign-token (mint) grammar; the
/// reserved asset's location still awaits the identifier equivalence.
#[verifier::ext_equal]
pub struct MintMatchV {
    pub asset_id: LocationV,
    pub recipient: [u8; 20],
    pub amount: u128,
    pub fee: u128,
    pub topic: [u8; 32],
}

/// Outcome of the deterministic part of the matcher.
#[verifier::ext_equal]
pub enum TransferMatchV {
    Unlock(UnlockMatchV),
    Mint(MintMatchV),
}

/// Matches the grammar for unlocking a token held on the external ledger:
/// withdraw, optional clear-origin, fee purchase, deposit, topic.  Returns
/// the recovered fields and the index just past the consumed instructions.
pub open spec fn spec_unlock_path(prog: Seq<InstructionV>, net: NetworkId) -> Result<
    (UnlockMatchV, int),
    XcmConverterError,
> {
    match prog[0] {
        InstructionV::WithdrawAsset(reserve) => {
            let i_fee: int = if 1 < prog.len() && prog[1] is ClearOrigin {
                2
            } else {
                1
            };
            if i_fee >= prog.len() {
                Err(XcmConverterError::UnexpectedEndOfXcm)
            } else {
                match prog[i_fee] {
                    InstructionV::BuyExecution { fees, weight_limit } => match fees.fun {
                        Fungibility::Fungible(fee_amount) => spec_unlock_tail(
                            prog,
                            net,
                            reserve,
                            fee_amount,
                            i_fee + 1,
                        ),
                        _ => Err(XcmConverterError::AssetResolutionFailed),
                    },
                    _ => Err(XcmConverterError::InvalidFeeAsset),
                }
            }
        },
        _ => Err(XcmConverterError::WithdrawAssetExpected),
    }
}

/// The shared tail of the unlock grammar: deposit, asset resolution, topic.
pub open spec fn spec_unlock_tail(
    prog: Seq<InstructionV>,
    net: NetworkId,
    reserve: Seq<AssetV>,
    fee_amount: u128,
    i_dep: int,
) -> Result<(UnlockMatchV, int), XcmConverterError> {
    if i_dep >= prog.len() {
        Err(XcmConverterError::UnexpectedEndOfXcm)
    } else {
        match prog[i_dep] {
            InstructionV::DepositAsset { assets: filter, beneficiary } => match spec_account_key20(
                beneficiary,
                net,
            ) {
                Some(recipient) => if reserve.len() == 0 {
                    Err(XcmConverterError::NoReserveAssets)
                } else if exists|k: int|
                    0 <= k < reserve.len() && !spec_filter_matches(filter, reserve[k]) {
                    Err(XcmConverterError::FilterDoesNotConsumeAllAssets)
                } else if reserve.len() != 1 {
                    Err(XcmConverterError::TooManyAssets)
                } else {
                    match reserve[0].fun {
                        Fungibility::Fungible(amount) => match spec_account_key20(
                            reserve[0].id,
                            net,
                        ) {
                            Some(token) => if amount == 0 {
                                Err(XcmConverterError::ZeroAssetTransfer)
                            } else {
                                spec_topic_step(
                                    prog,
                                    i_dep + 1,
                                    UnlockMatchV {
                                        token,
                                        recipient,
                                        amount,
                                        fee: fee_amount,
                                        topic: spec_zero_h256(),
                                    },
                                )
                            },
                            None => Err(XcmConverterError::AssetResolutionFailed),
                        },
                        _ => Err(XcmConverterError::AssetResolutionFailed),
                    }
                },
                None => Err(XcmConverterError::BeneficiaryResolutionFailed),
            },
            _ => Err(XcmConverterError::DepositAssetExpected),
        }
    }
}

/// The final mandatory topic-tag instruction of the unlock grammar.
pub open spec fn spec_topic_step(prog: Seq<InstructionV>, i_top: int, m: UnlockMatchV) -> Result<
    (UnlockMatchV, int),
    XcmConverterError,
> {
    if i_top >= prog.len() {
        Err(XcmConverterError::UnexpectedEndOfXcm)
    } else {
        match prog[i_top] {
            InstructionV::SetTopic(topic) => Ok((UnlockMatchV { topic, ..m }, i_top + 1)),
            _ => Err(XcmConverterError::SetTopicExpected),
        }
    }
}

/// Matches the grammar for minting a foreign token: reserve-deposit,
/// optional clear-origin, fee purchase, optional expect-asset, deposit,
/// topic.  Returns the recovered fields and the index just past the
/// consumed instructions.
pub open spec fn spec_mint_path(prog: Seq<InstructionV>, net: NetworkId) -> Result<
    (MintMatchV, int),
    XcmConverterError,
> {
    match prog[0] {
        InstructionV::ReserveAssetDeposited(reserve) => {
            let i_fee: int = if 1 < prog.len() && prog[1] is ClearOrigin {
                2
            } else {
                1
            };
            if i_fee >= prog.len() {
                Err(XcmConverterError::UnexpectedEndOfXcm)
            } else {
                match prog[i_fee] {
                    InstructionV::BuyExecution { fees, weight_limit } => match fees.fun {
                        Fungibility::Fungible(fee_amount) => {
                            let i_dep: int = if i_fee + 1 < prog.len() && prog[i_fee + 1]
                                is ExpectAsset {
                                i_fee + 2
                            } else {
                                i_fee + 1
                            };
                            spec_mint_tail(prog, net, reserve, fee_amount, i_dep)
                        },
                        _ => Err(XcmConverterError::AssetResolutionFailed),
                    },
                    _ => Err(XcmConverterError::InvalidFeeAsset),
                }
            }
        },
        _ => Err(XcmConverterError::ReserveAssetDepositedExpected),
    }
}

/// The shared tail of the mint grammar: deposit, asset resolution, topic.
pub open spec fn spec_mint_tail(
    prog: Seq<InstructionV>,
    net: NetworkId,
    reserve: Seq<AssetV>,
    fee_amount: u128,
    i_dep: int,
) -> Result<(MintMatchV, int), XcmConverterError> {
    if i_dep >= prog.len() {
        Err(XcmConverterError::UnexpectedEndOfXcm)
    } else {
        match prog[i_dep] {
            InstructionV::DepositAsset { assets: filter, beneficiary } => match spec_account_key20(
                beneficiary,
                net,
            ) {
                Some(recipient) => if reserve.len() == 0 {
                    Err(XcmConverterError::NoReserveAssets)
                } else if exists|k: int|
                    0 <= k < reserve.len() && !spec_filter_matches(filter, reserve[k]) {
                    Err(XcmConverterError::FilterDoesNotConsumeAllAssets)
                } else if reserve.len() != 1 {
                    Err(XcmConverterError::TooManyAssets)
                } else {
                    match reserve[0].fun {
                        Fungibility::Fungible(amount) => if amount == 0 {
                            Err(XcmConverterError::ZeroAssetTransfer)
                        } else if i_dep + 1 >= prog.len() {
                            Err(XcmConverterError::UnexpectedEndOfXcm)
                        } else {
                            match prog[i_dep + 1] {
                                InstructionV::SetTopic(topic) => Ok(
                                    (
                                        MintMatchV {
                                            asset_id: reserve[0].id,
                                            recipient,
                                            amount,
                                            fee: fee_amount,
                                            topic,
                                        },
                                        i_dep + 2,
                                    ),
                                ),
                                _ => Err(XcmConverterError::SetTopicExpected),
                            }
                        },
                        _ => Err(XcmConverterError::AssetResolutionFailed),
                    }
                },
                None => Err(XcmConverterError::BeneficiaryResolutionFailed),
            },
            _ => Err(XcmConverterError::DepositAssetExpected),
        }
    }
}

/// The deterministic core of the matcher: dispatches on the first
/// instruction, runs the matching grammar and insists that the whole
/// program was consumed.
pub open spec fn spec_convert_core(prog: Seq<InstructionV>, net: NetworkId) -> Result<
    TransferMatchV,
    XcmConverterError,
> {
    if prog.len() == 0 {
        Err(XcmConverterError::UnexpectedEndOfXcm)
    } else {
        match prog[0] {
            InstructionV::WithdrawAsset(_) => match spec_unlock_path(prog, net) {
                Ok((m, end)) => if end == prog.len() {
                    Ok(TransferMatchV::Unlock(m))
                } else {
                    Err(XcmConverterError::EndOfXcmMessageExpected)
                },
                Err(e) => Err(e),
            },
            InstructionV::ReserveAssetDeposited(_) => match spec_mint_path(prog, net) {
                Ok((m, end)) => if end == prog.len() {
                    Ok(TransferMatchV::Mint(m))
                } else {
                    Err(XcmConverterError::EndOfXcmMessageExpected)
                },
                Err(e) => Err(e),
            },
            _ => Err(XcmConverterError::UnexpectedInstruction),
        }
    }
}

/// The outbound message produced for a matched unlock transfer.
pub open spec fn spec_unlock_message(agent_id: [u8; 32], m: UnlockMatchV) -> OutboundMessageV {
    OutboundMessageV {
        id: m.topic,
        origin: spec_zero_h256(),
        fee: m.fee,
        commands: seq![
            Command::UnlockNativeToken {
                agent_id,
                token: m.token,
                recipient: m.recipient,
                amount: m.amount,
            }
        ],
    }
}

/// The outbound message produced for a matched mint transfer once the
/// identifier equivalence has supplied `token_id`.
pub open spec fn spec_mint_message(token_id: [u8; 32], m: MintMatchV) -> OutboundMessageV {
    OutboundMessageV {
        id: m.topic,
        origin: spec_zero_h256(),
        fee: m.fee,
        commands: seq![
            Command::MintForeignToken { token_id, recipient: m.recipient, amount: m.amount }
        ],
    }
}

/// Holds when the program contains the unsupported expect-asset assertion
/// anywhere in its top-level sequence.
pub open spec fn spec_contains_expect_asset(prog: Seq<InstructionV>) -> bool {
    exists|i: int| 0 <= i < prog.len() && prog[i] is ExpectAsset
}

/// Resolves a location to an account key on a compatible network.
pub fn account_key20_of(l: &Location, net: NetworkId) -> (r: Option<[u8; 20]>)
    ensures
        r == spec_account_key20(l@, net),
{
    if l.parents == 0 && l.interior.len() == 1 {
        let j = l.interior[0];
        match j {
            Junction::AccountKey20 { network, key } => {
                let compatible = match network {
                    Some(x) => x == net,
                    None => true,
                };
                if compatible {
                    Some(key)
                } else {
                    None
                }
            },
            _ => None,
        }
    } else {
        None
    }
}

/// Decides whether the program contains the expect-asset assertion at its
/// top level.
pub fn contains_expect_asset(message: &Xcm) -> (r: bool)
    ensures
        r <==> spec_contains_expect_asset(message@),
{
    let mut i: usize = 0;
    while i < message.0.len()
        invariant
            0 <= i <= message.0.len(),
            forall|j: int| 0 <= j < i ==> !(instrs_view(message.0@)[j] is ExpectAsset),
        decreases message.0.len() - i,
    {
        let ins = &message.0[i];
        match ins {
            Instruction::ExpectAsset(_) => {
                proof {
                    assert(message@[i as int] is ExpectAsset);
                }
                return true;
            },
            _ => {
                proof {
                    assert(!(crate::types::instr_view(message.0@[i as int]) is ExpectAsset));
                }
            },
        }
        i += 1;
    }
    proof {
        assert(message@ == instrs_view(message.0@));
        assert(forall|j: int| 0 <= j < message@.len() ==> !(message@[j] is ExpectAsset));
    }
    false
}

/// A cursor-based recogniser over an instruction program: one token of
/// lookahead, forward only.
pub struct XcmConverter<'a, C: TokenIdConversion> {
    pub message: &'a Xcm,
    pub pos: usize,
    pub ethereum_network: NetworkId,
    pub agent_id: [u8; 32],
    pub convert_asset_id: &'a C,
}

impl<'a, C: TokenIdConversion> XcmConverter<'a, C> {
    pub fn new(
        message: &'a Xcm,
        ethereum_network: NetworkId,
        agent_id: [u8; 32],
        convert_asset_id: &'a C,
    ) -> (s: Self)
        ensures
            s.message == message,
            s.pos == 0,
            s.ethereum_network == ethereum_network,
            s.agent_id == agent_id,
    {
        XcmConverter { message, pos: 0, ethereum_network, agent_id, convert_asset_id }
    }

    /// Consumes and returns the instruction under the cursor.
    fn next(&mut self) -> (r: Result<&'a Instruction, XcmConverterError>)
        ensures
            final(self).message == old(self).message,
            final(self).ethereum_network == old(self).ethereum_network,
            final(self).agent_id == old(self).agent_id,
            final(self).convert_asset_id == old(self).convert_asset_id,
            old(self).pos < old(self).message.0.len() ==> (r matches Ok(ins) && *ins == old(
                self,
            ).message.0@[old(self).pos as int] && final(self).pos == old(self).pos + 1),
            old(self).pos >= old(self).message.0.len() ==> r == Err::<
                &'a Instruction,
                _,
            >(XcmConverterError::UnexpectedEndOfXcm) && final(self).pos == old(self).pos,
    {
        if self.pos < self.message.0.len() {
            let ins = &self.message.0[self.pos];
            self.pos = self.pos + 1;
            Ok(ins)
        } else {
            Err(XcmConverterError::UnexpectedEndOfXcm)
        }
    }

    /// Returns the instruction under the cursor without consuming it.
    fn peek(&self) -> (r: Result<&'a Instruction, XcmConverterError>)
        ensures
            self.pos < self.message.0.len() ==> (r matches Ok(ins) && *ins
                == self.message.0@[self.pos as int]),
            self.pos >= self.message.0.len() ==> r == Err::<
                &'a Instruction,
                _,
            >(XcmConverterError::UnexpectedEndOfXcm),
    {
        if self.pos < self.message.0.len() {
            Ok(&self.message.0[self.pos])
        } else {
            Err(XcmConverterError::UnexpectedEndOfXcm)
        }
    }

    /// Holds when an optional network tag is compatible with the
    /// configured network.
    fn network_matches(&self, network: &Option<NetworkId>) -> (r: bool)
        ensures
            r == spec_network_matches(*network, self.ethereum_network),
    {
        match network {
            Some(n) => *n == self.ethereum_network,
            None => true,
        }
    }

    /// Recognises the whole program as one of the two transfer grammars
    /// and produces the message carrying the single resulting command.
    /// Every instruction must be consumed; a trailing instruction is
    /// rejected.
    #[verifier::rlimit(50)]
    pub fn convert(&mut self) -> (r: Result<OutboundMessage, XcmConverterError>)
        requires
            old(self).pos == 0,
        ensures
            final(self).message == old(self).message,
            ({
                let core = spec_convert_core(old(self).message@, old(self).ethereum_network);
                match r {
                    Ok(msg) => (core matches Ok(t) && (match t {
                        TransferMatchV::Unlock(m) => msg@ == spec_unlock_message(
                            old(self).agent_id,
                            m,
                        ),
                        TransferMatchV::Mint(m) => exists|tid: [u8; 32]|
                            msg@ == spec_mint_message(tid, m),
                    })),
                    Err(e) => match core {
                        Err(ce) => e == ce || (e == XcmConverterError::InvalidAsset && ce
                            == XcmConverterError::EndOfXcmMessageExpected),
                        Ok(t) => t is Mint && e == XcmConverterError::InvalidAsset,
                    },
                }
            }),
    {
        let first = match self.peek() {
            Ok(i) => i,
            Err(e) => {
                return Err(e);
            },
        };
        let result = match first {
            Instruction::ReserveAssetDeposited(_) => self.send_native_tokens_message(),
            Instruction::WithdrawAsset(_) => self.send_tokens_message(),
            _ => {
                return Err(XcmConverterError::UnexpectedInstruction);
            },
        };
        let message = match result {
            Ok(m) => m,
            Err(e) => {
                return Err(e);
            },
        };
        proof {
            let prog = old(self).message@;
            let net = old(self).ethereum_network;
            let core = spec_convert_core(prog, net);
            assert(prog.len() == old(self).message.0@.len());
            assert(prog[0] == crate::types::instr_view(old(self).message.0@[0]));
            if prog[0] is WithdrawAsset {
                let (m, end) = spec_unlock_path(prog, net)->Ok_0;
                assert(self.pos == end);
                if self.pos >= prog.len() {
                    assert(core == Ok::<TransferMatchV, XcmConverterError>(
                        TransferMatchV::Unlock(m),
                    ));
                    assert(message@ == spec_unlock_message(old(self).agent_id, core->Ok_0->Unlock_0));
                } else {
                    assert(core == Err::<TransferMatchV, XcmConverterError>(
                        XcmConverterError::EndOfXcmMessageExpected,
                    ));
                }
            } else {
                let (m, end) = spec_mint_path(prog, net)->Ok_0;
                assert(self.pos == end);
                if self.pos >= prog.len() {
                    assert(core == Ok::<TransferMatchV, XcmConverterError>(
                        TransferMatchV::Mint(m),
                    ));
                    let tid0 = choose|tid: [u8; 32]| message@ == spec_mint_message(tid, m);
                    assert(message@ == spec_mint_message(tid0, core->Ok_0->Mint_0));
                } else {
                    assert(core == Err::<TransferMatchV, XcmConverterError>(
                        XcmConverterError::EndOfXcmMessageExpected,
                    ));
                }
            }
        }
        match self.next() {
            Ok(_) => Err(XcmConverterError::EndOfXcmMessageExpected),
            Err(_) => Ok(message),
        }
    }

    /// Matches the grammar that unlocks a token held on the external
    /// ledger and builds the message carrying the unlock command.
    fn send_tokens_message(&mut self) -> (r: Result<OutboundMessage, XcmConverterError>)
        requires
            old(self).pos == 0,
            old(self).message.0.len() > 0,
        ensures
            final(self).message == old(self).message,
            final(self).ethereum_network == old(self).ethereum_network,
            final(self).agent_id == old(self).agent_id,
            ({
                let path = spec_unlock_path(old(self).message@, old(self).ethereum_network);
                match r {
                    Ok(msg) => (path matches Ok((m, end)) && final(self).pos == end
                        && final(self).pos <= old(self).message.0@.len() && msg@
                        == spec_unlock_message(old(self).agent_id, m)),
                    Err(e) => (path matches Err(pe) && e == pe),
                }
            }),
    {
        let ins0 = match self.next() {
            Ok(i) => i,
            Err(e) => {
                return Err(e);
            },
        };
        let reserve_assets = match ins0 {
            Instruction::WithdrawAsset(a) => a,
            _ => {
                return Err(XcmConverterError::WithdrawAssetExpected);
            },
        };
        match self.peek() {
            Ok(Instruction::ClearOrigin) => {
                let _ = self.next();
            },
            _ => {},
        }
        let fee_ins = match self.next() {
            Ok(i) => i,
            Err(e) => {
                return Err(e);
            },
        };
        let fees = match fee_ins {
            Instruction::BuyExecution { fees, .. } => fees,
            _ => {
                return Err(XcmConverterError::InvalidFeeAsset);
            },
        };
        let fee_amount = match fees.fun {
            Fungibility::Fungible(a) => a,
            _ => {
                return Err(XcmConverterError::AssetResolutionFailed);
            },
        };
        let dep_ins = match self.next() {
            Ok(i) => i,
            Err(e) => {
                return Err(e);
            },
        };
        let (deposit_filter, beneficiary) = match dep_ins {
            Instruction::DepositAsset { assets, beneficiary } => (assets, beneficiary),
            _ => {
                return Err(XcmConverterError::DepositAssetExpected);
            },
        };
        let recipient = match account_key20_of(beneficiary, self.ethereum_network) {
            Some(k) => k,
            None => {
                return Err(XcmConverterError::BeneficiaryResolutionFailed);
            },
        };
        if reserve_assets.len() == 0 {
            return Err(XcmConverterError::NoReserveAssets);
        }
        if !filter_consumes_all(deposit_filter, reserve_assets) {
            return Err(XcmConverterError::FilterDoesNotConsumeAllAssets);
        }
        if reserve_assets.len() != 1 {
            return Err(XcmConverterError::TooManyAssets);
        }
        let reserve_asset = &reserve_assets[0];
        let amount = match reserve_asset.fun {
            Fungibility::Fungible(a) => a,
            _ => {
                return Err(XcmConverterError::AssetResolutionFailed);
            },
        };
        let token = match account_key20_of(&reserve_asset.id, self.ethereum_network) {
            Some(k) => k,
            None => {
                return Err(XcmConverterError::AssetResolutionFailed);
            },
        };
        if amount == 0 {
            return Err(XcmConverterError::ZeroAssetTransfer);
        }
        let topic_ins = match self.next() {
            Ok(i) => i,
            Err(e) => {
                return Err(e);
            },
        };
        let topic = match topic_ins {
            Instruction::SetTopic(t) => *t,
            _ => {
                return Err(XcmConverterError::SetTopicExpected);
            },
        };
        let mut commands: Vec<Command> = Vec::new();
        commands.push(
            Command::UnlockNativeToken { agent_id: self.agent_id, token, recipient, amount },
        );
        if commands.len() > MAX_COMMANDS {
            return Err(XcmConverterError::TooManyCommands);
        }
        let message = OutboundMessage { id: topic, origin: zero_h256(), fee: fee_amount, commands };
        proof {
            let path = spec_unlock_path(old(self).message@, old(self).ethereum_network);
            assert(path is Ok);
            assert(message@ =~~= spec_unlock_message(old(self).agent_id, path->Ok_0.0));
        }
        Ok(message)
    }

    /// Matches the grammar that mints a foreign token, checks the
    /// identifier equivalence round trip and builds the message carrying
    /// the mint command.
    fn send_native_tokens_message(&mut self) -> (r: Result<OutboundMessage, XcmConverterError>)
        requires
            old(self).pos == 0,
            old(self).message.0.len() > 0,
        ensures
            final(self).message == old(self).message,
            final(self).ethereum_network == old(self).ethereum_network,
            final(self).agent_id == old(self).agent_id,
            ({
                let path = spec_mint_path(old(self).message@, old(self).ethereum_network);
                match r {
                    Ok(msg) => (path matches Ok((m, end)) && final(self).pos == end
                        && final(self).pos <= old(self).message.0@.len() && (exists|tid: [u8; 32]|
                        msg@ == spec_mint_message(tid, m))),
                    Err(e) => (path matches Err(pe) && e == pe) || (path is Ok && e
                        == XcmConverterError::InvalidAsset),
                }
            }),
    {
        let ins0 = match self.next() {
            Ok(i) => i,
            Err(e) => {
                return Err(e);
            },
        };
        let reserve_assets = match ins0 {
            Instruction::ReserveAssetDeposited(a) => a,
            _ => {
                return Err(XcmConverterError::ReserveAssetDepositedExpected);
            },
        };
        match self.peek() {
            Ok(Instruction::ClearOrigin) => {
                let _ = self.next();
            },
            _ => {},
        }
        let fee_ins = match self.next() {
            Ok(i) => i,
            Err(e) => {
                return Err(e);
            },
        };
        let fees = match fee_ins {
            Instruction::BuyExecution { fees, .. } => fees,
            _ => {
                return Err(XcmConverterError::InvalidFeeAsset);
            },
        };
        let fee_amount = match fees.fun {
            Fungibility::Fungible(a) => a,
            _ => {
                return Err(XcmConverterError::AssetResolutionFailed);
            },
        };
        match self.peek() {
            Ok(Instruction::ExpectAsset(_)) => {
                let _ = self.next();
            },
            _ => {},
        }
        let dep_ins = match self.next() {
            Ok(i) => i,
            Err(e) => {
                return Err(e);
            },
        };
        let (deposit_filter, beneficiary) = match dep_ins {
            Instruction::DepositAsset { assets, beneficiary } => (assets, beneficiary),
            _ => {
                return Err(XcmConverterError::DepositAssetExpected);
            },
        };
        let recipient = match account_key20_of(beneficiary, self.ethereum_network) {
            Some(k) => k,
            None => {
                return Err(XcmConverterError::BeneficiaryResolutionFailed);
            },
        };
        if reserve_assets.len() == 0 {
            return Err(XcmConverterError::NoReserveAssets);
        }
        if !filter_consumes_all(deposit_filter, reserve_assets) {
            return Err(XcmConverterError::FilterDoesNotConsumeAllAssets);
        }
        if reserve_assets.len() != 1 {
            return Err(XcmConverterError::TooManyAssets);
        }
        let reserve_asset = &reserve_assets[0];
        let amount = match reserve_asset.fun {
            Fungibility::Fungible(a) => a,
            _ => {
                return Err(XcmConverterError::AssetResolutionFailed);
            },
        };
        if amount == 0 {
            return Err(XcmConverterError::ZeroAssetTransfer);
        }
        let topic_ins = match self.next() {
            Ok(i) => i,
            Err(e) => {
                return Err(e);
            },
        };
        let topic = match topic_ins {
            Instruction::SetTopic(t) => *t,
            _ => {
                return Err(XcmConverterError::SetTopicExpected);
            },
        };
        let asset_id = &reserve_asset.id;
        let token_id = match self.convert_asset_id.location_to_token_id(asset_id) {
            Some(t) => t,
            None => {
                return Err(XcmConverterError::InvalidAsset);
            },
        };
        let expected_asset_id = match self.convert_asset_id.token_id_to_location(&token_id) {
            Some(l) => l,
            None => {
                return Err(XcmConverterError::InvalidAsset);
            },
        };
        if !location_eq(asset_id, &expected_asset_id) {
            return Err(XcmConverterError::InvalidAsset);
        }
        let mut commands: Vec<Command> = Vec::new();
        commands.push(Command::MintForeignToken { token_id, recipient, amount });
        if commands.len() > MAX_COMMANDS {
            return Err(XcmConverterError::TooManyCommands);
        }
        let message = OutboundMessage { id: topic, origin: zero_h256(), fee: fee_amount, commands };
        proof {
            let path = spec_mint_path(old(self).message@, old(self).ethereum_network);
            assert(path is Ok);
            assert(message@ =~~= spec_mint_message(token_id, path->Ok_0.0));
        }
        Ok(message)
    }
}


/// The model of an optional junction path argument.
pub open spec fn opt_junctions_view(o: Option<Vec<Junction>>) -> Option<Seq<Junction>> {
    match o {
        Some(v) => Some(v@),
        None => None,
    }
}

/// Splits a universal path into its leading global-consensus network and
/// the rest, if it has one.
pub open spec fn spec_split_global(src: Seq<Junction>) -> Option<(NetworkId, Seq<Junction>)> {
    if src.len() > 0 {
        match src[0] {
            Junction::GlobalConsensus(n) => Some((n, src.drop_first())),
            _ => None,
        }
    } else {
        None
    }
}

/// The global consensus a universal path starts with, if any.
pub open spec fn spec_global_consensus(ul: Seq<Junction>) -> Option<NetworkId> {
    if ul.len() > 0 {
        match ul[0] {
            Junction::GlobalConsensus(n) => Some(n),
            _ => None,
        }
    } else {
        None
    }
}

/// The deterministic eligibility checks of the exporter: the network must
/// be the configured one, the destination must be the contract itself, and
/// the source must be a single parachain under the expected relay.  On
/// success yields the parachain-relative interior of the source.
pub open spec fn spec_validate_pre(
    universal_location: Seq<Junction>,
    expected_network: NetworkId,
    network: NetworkId,
    universal_source: Option<Seq<Junction>>,
    destination: Option<Seq<Junction>>,
) -> Result<Seq<Junction>, SendError> {
    if network != expected_network {
        Err(SendError::NotApplicable)
    } else {
        match destination {
            None => Err(SendError::MissingArgument),
            Some(dest) => if dest.len() != 0 {
                Err(SendError::NotApplicable)
            } else {
                match universal_source {
                    None => Err(SendError::MissingArgument),
                    Some(src) => match spec_split_global(src) {
                        None => Err(SendError::NotApplicable),
                        Some((local_net, local_sub)) => if Some(local_net)
                            != spec_global_consensus(universal_location) {
                            Err(SendError::NotApplicable)
                        } else if !(local_sub.len() == 1 && local_sub[0] is Parachain) {
                            Err(SendError::NotApplicable)
                        } else {
                            Ok(local_sub)
                        },
                    },
                }
            },
        }
    }
}

/// The topic identifier of a successfully matched transfer.
pub open spec fn spec_core_topic(t: TransferMatchV) -> [u8; 32] {
    match t {
        TransferMatchV::Unlock(m) => m.topic,
        TransferMatchV::Mint(m) => m.topic,
    }
}

/// Exports instruction programs to the external ledger through the
/// outbound queue.  Configured with the chain's own universal location and
/// the network it bridges to.
pub struct EthereumBlobExporter {
    pub universal_location: Vec<Junction>,
    pub ethereum_network: NetworkId,
}

impl EthereumBlobExporter {
    /// Checks that a transfer is for this exporter, matches its program,
    /// and validates the produced message with the queue.  Returns the
    /// encoded ticket, the message identifier and the quoted fee.
    pub fn validate<A: AgentIdConversion, C: TokenIdConversion, Q: OutboundQueue>(
        &self,
        agent_converter: &A,
        asset_converter: &C,
        queue: &mut Q,
        network: NetworkId,
        channel: u32,
        universal_source: &Option<Vec<Junction>>,
        destination: &Option<Vec<Junction>>,
        message: &Option<Xcm>,
    ) -> (r: Result<((Vec<u8>, [u8; 32]), Asset), SendError>)
        ensures
            ({
                let pre = spec_validate_pre(
                    self.universal_location@,
                    self.ethereum_network,
                    network,
                    opt_junctions_view(*universal_source),
                    opt_junctions_view(*destination),
                );
                &&& (pre matches Err(e) ==> r == Err::<((Vec<u8>, [u8; 32]), Asset), SendError>(e))
                &&& (pre is Ok && *message is None ==> (r == Err::<
                    ((Vec<u8>, [u8; 32]), Asset),
                    SendError,
                >(SendError::MissingArgument) || r == Err::<
                    ((Vec<u8>, [u8; 32]), Asset),
                    SendError,
                >(SendError::NotApplicable)))
                &&& ((pre is Ok && (*message matches Some(m) && spec_contains_expect_asset(m@)))
                    ==> r == Err::<((Vec<u8>, [u8; 32]), Asset), SendError>(SendError::NotApplicable))
                &&& (r matches Ok(((ticket, mid), fee_asset)) ==> {
                    &&& pre is Ok
                    &&& *message is Some
                    &&& !spec_contains_expect_asset(message->Some_0@)
                    &&& spec_convert_core(message->Some_0@, self.ethereum_network) is Ok
                    &&& mid == spec_core_topic(
                        spec_convert_core(message->Some_0@, self.ethereum_network)->Ok_0,
                    )
                    &&& fee_asset@.id.parents == 1
                    &&& fee_asset@.id.interior.len() == 0
                    &&& fee_asset@.fun is Fungible
                })
                &&& (r matches Err(e) ==> (e is NotApplicable || e is Unroutable
                    || e is MissingArgument))
            }),
    {
        if !(network == self.ethereum_network) {
            return Err(SendError::NotApplicable);
        }
        let dest = match destination {
            None => {
                return Err(SendError::MissingArgument);
            },
            Some(d) => d,
        };
        if dest.len() != 0 {
            return Err(SendError::NotApplicable);
        }
        let src = match universal_source {
            None => {
                return Err(SendError::MissingArgument);
            },
            Some(s) => s,
        };
        if src.len() == 0 {
            return Err(SendError::NotApplicable);
        }
        let local_net = match src[0] {
            Junction::GlobalConsensus(n) => n,
            _ => {
                return Err(SendError::NotApplicable);
            },
        };
        let expected_relay = if self.universal_location.len() > 0 {
            match self.universal_location[0] {
                Junction::GlobalConsensus(n) => Some(n),
                _ => None,
            }
        } else {
            None
        };
        let relay_matches = match expected_relay {
            Some(n) => n == local_net,
            None => false,
        };
        if !relay_matches {
            return Err(SendError::NotApplicable);
        }
        if src.len() != 2 {
            return Err(SendError::NotApplicable);
        }
        let para = match src[1] {
            Junction::Parachain(p) => p,
            _ => {
                return Err(SendError::NotApplicable);
            },
        };
        let mut local_sub: Vec<Junction> = Vec::new();
        local_sub.push(Junction::Parachain(para));
        proof {
            let sg = spec_split_global(src@);
            assert(sg matches Some((n, sub)) && n == local_net && sub =~= local_sub@);
        }
        let source_location = Location { parents: 1, interior: local_sub };
        let agent_id = match agent_converter.convert_location(&source_location) {
            Some(id) => id,
            None => {
                return Err(SendError::NotApplicable);
            },
        };
        let xcm = match message {
            None => {
                return Err(SendError::MissingArgument);
            },
            Some(m) => m,
        };
        if contains_expect_asset(xcm) {
            return Err(SendError::NotApplicable);
        }
        let mut converter = XcmConverter::new(xcm, self.ethereum_network, agent_id, asset_converter);
        let outbound_message = match converter.convert() {
            Ok(m) => m,
            Err(_) => {
                return Err(SendError::Unroutable);
            },
        };
        let (ticket, fee_total) = match queue.validate(&outbound_message) {
            Some(t) => t,
            None => {
                return Err(SendError::Unroutable);
            },
        };
        let fee_asset = Asset {
            id: Location { parents: 1, interior: Vec::new() },
            fun: Fungibility::Fungible(fee_total),
        };
        Ok(((ticket, outbound_message.id), fee_asset))
    }

    /// Redeems a ticket with the queue, mapping an undecodable ticket to
    /// `NotApplicable` and a delivery failure to `Transport`.
    pub fn deliver<Q: OutboundQueue>(&self, queue: &mut Q, blob: (Vec<u8>, [u8; 32])) -> (r:
        Result<[u8; 32], SendError>)
        ensures
            r matches Err(e) ==> (e is NotApplicable || e is Transport),
    {
        match queue.deliver(blob.0.as_slice()) {
            Ok(id) => Ok(id),
            Err(DeliverError::Undecodable) => Err(SendError::NotApplicable),
            Err(DeliverError::Failed) => Err(SendError::Transport),
        }
    }
}


/// A transfer is only matched when the opening instruction reserves
/// exactly one asset.  A program reserving no asset is rejected as
/// `NoReserveAssets`; one reserving two or more (whose deposit filter
/// covers them) is rejected as `TooManyAssets`.
pub proof fn lemma_single_asset_invariant(prog: Seq<InstructionV>, net: NetworkId)
    ensures
        spec_convert_core(prog, net) is Ok ==> prog.len() > 0 && (match prog[0] {
            InstructionV::WithdrawAsset(a) => a.len() == 1,
            InstructionV::ReserveAssetDeposited(a) => a.len() == 1,
            _ => false,
        }),
        spec_convert_core(prog, net) == Err::<TransferMatchV, XcmConverterError>(
            XcmConverterError::NoReserveAssets,
        ) ==> prog.len() > 0 && (match prog[0] {
            InstructionV::WithdrawAsset(a) => a.len() == 0,
            InstructionV::ReserveAssetDeposited(a) => a.len() == 0,
            _ => false,
        }),
        spec_convert_core(prog, net) == Err::<TransferMatchV, XcmConverterError>(
            XcmConverterError::TooManyAssets,
        ) ==> prog.len() > 0 && (match prog[0] {
            InstructionV::WithdrawAsset(a) => a.len() >= 2,
            InstructionV::ReserveAssetDeposited(a) => a.len() >= 2,
            _ => false,
        }),
{
}

/// A matched transfer always moves a strictly positive amount: an asset
/// transfer of amount zero is rejected.
pub proof fn lemma_zero_amount_rejected(prog: Seq<InstructionV>, net: NetworkId)
    ensures
        spec_convert_core(prog, net) matches Ok(t) ==> (match t {
            TransferMatchV::Unlock(m) => m.amount > 0,
            TransferMatchV::Mint(m) => m.amount > 0,
        }),
{
}

/// The matcher accepts exactly the two transfer grammars: an empty
/// program, a foreign opening instruction, or a trailing instruction after
/// a completed grammar are each rejected with their own error, and a
/// matched program always ends in its topic tag.
pub proof fn lemma_grammar_exactness(prog: Seq<InstructionV>, net: NetworkId)
    ensures
        prog.len() == 0 ==> spec_convert_core(prog, net) == Err::<
            TransferMatchV,
            XcmConverterError,
        >(XcmConverterError::UnexpectedEndOfXcm),
        prog.len() > 0 && !(prog[0] is WithdrawAsset) && !(prog[0] is ReserveAssetDeposited)
            ==> spec_convert_core(prog, net) == Err::<TransferMatchV, XcmConverterError>(
            XcmConverterError::UnexpectedInstruction,
        ),
        (prog.len() > 0 && prog[0] is WithdrawAsset && (spec_unlock_path(prog, net) matches Ok(
            (m, end),
        ) && end < prog.len())) ==> spec_convert_core(prog, net) == Err::<
            TransferMatchV,
            XcmConverterError,
        >(XcmConverterError::EndOfXcmMessageExpected),
        (prog.len() > 0 && prog[0] is ReserveAssetDeposited && (spec_mint_path(prog, net)
            matches Ok((m, end)) && end < prog.len())) ==> spec_convert_core(prog, net) == Err::<
            TransferMatchV,
            XcmConverterError,
        >(XcmConverterError::EndOfXcmMessageExpected),
        spec_convert_core(prog, net) is Ok ==> prog[prog.len() - 1] is SetTopic,
{
}

} // verus!
