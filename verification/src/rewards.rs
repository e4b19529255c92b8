//! Relayer reward accounting: an accumulating per-account ledger, and a
//! claim that burns the teleport fee, sends a payout program and deducts
//! the claimed value.  Token custody and transport are collaborators
//! supplied by the embedding runtime.

use vstd::prelude::*;

use crate::inbound::Transport;
use crate::types::{
    Asset, AssetFilter, AssetFilterV, AssetV, Fungibility, Instruction, InstructionV, Junction,
    Location, LocationV, NetworkId, WeightLimit, WildAsset, Xcm,
};

verus! {

broadcast use
    vstd::array::group_array_axioms,
    vstd::std_specs::vec::group_vec_axioms,
    vstd::seq::group_seq_axioms,
    crate::types::lemma_instrs_view_index;

/// The fee teleported to the payout chain to cover execution there.
pub const CLAIM_XCM_FEE: u128 = 10_000_000_000;

/// The pallet instance descended into on the payout chain.
pub const CLAIM_PALLET_INSTANCE: u8 = 80;

/// The transport failure kinds, as the rewards pallet reports them.
#[derive(Clone, Copy, PartialEq, Eq, Structural, Debug)]
pub enum SendError {
    NotApplicable,
    NotRoutable,
    Transport,
    DestinationUnsupported,
    ExceedsMaxMessageSize,
    MissingArgument,
    Fees,
}

/// Everything a claim can fail with.
#[derive(Clone, Copy, PartialEq, Eq, Structural, Debug)]
pub enum Error {
    Send(SendError),
    InsufficientFunds,
    InvalidAmount,
    InvalidFee,
    FundsUnavailable,
}

/// The total mapping from transport failure kinds to claim errors.
pub open spec fn spec_from_transport(e: crate::outbound::SendError) -> Error {
    match e {
        crate::outbound::SendError::NotApplicable => Error::Send(SendError::NotApplicable),
        crate::outbound::SendError::Unroutable => Error::Send(SendError::NotRoutable),
        crate::outbound::SendError::Transport => Error::Send(SendError::Transport),
        crate::outbound::SendError::DestinationUnsupported => Error::Send(
            SendError::DestinationUnsupported,
        ),
        crate::outbound::SendError::ExceedsMaxMessageSize => Error::Send(
            SendError::ExceedsMaxMessageSize,
        ),
        crate::outbound::SendError::MissingArgument => Error::Send(SendError::MissingArgument),
        crate::outbound::SendError::Fees => Error::Send(SendError::Fees),
    }
}

impl From<crate::outbound::SendError> for Error {
    /// Maps each transport failure kind to its pallet-local error.
    fn from(e: crate::outbound::SendError) -> (r: Self) {
        match e {
            crate::outbound::SendError::NotApplicable => Error::Send(SendError::NotApplicable),
            crate::outbound::SendError::Unroutable => Error::Send(SendError::NotRoutable),
            crate::outbound::SendError::Transport => Error::Send(SendError::Transport),
            crate::outbound::SendError::DestinationUnsupported => Error::Send(
                SendError::DestinationUnsupported,
            ),
            crate::outbound::SendError::ExceedsMaxMessageSize => Error::Send(
                SendError::ExceedsMaxMessageSize,
            ),
            crate::outbound::SendError::MissingArgument => Error::Send(SendError::MissingArgument),
            crate::outbound::SendError::Fees => Error::Send(SendError::Fees),
        }
    }
}

impl vstd::std_specs::convert::FromSpecImpl<crate::outbound::SendError> for Error {
    open spec fn obeys_from_spec() -> bool {
        true
    }

    open spec fn from_spec(e: crate::outbound::SendError) -> Self {
        spec_from_transport(e)
    }
}

/// What the rewards pallet reports to observers.
#[derive(Clone, Copy, PartialEq, Eq, Debug)]
pub enum Event {
    RewardDeposited { account_id: [u8; 32], value: u128 },
    RewardClaimed {
        account_id: [u8; 32],
        deposit_address: [u8; 32],
        value: u128,
        message_id: [u8; 32],
    },
}

/// Withdraws and checks out assets on behalf of the claim.  Supplied by
/// the embedding runtime; nothing is assumed of its outcomes.
pub trait AssetTransactor {
    fn can_check_out(&mut self, dest: &Location, fee: &Asset) -> Result<(), ()>;

    fn check_out(&mut self, dest: &Location, fee: &Asset);

    fn withdraw_asset(&mut self, fee: &Asset, dest: &Location) -> Result<(), ()>;
}

/// The balance the ledger holds for an account: the first entry with its
/// key, or zero.
pub open spec fn spec_balance(s: Seq<([u8; 32], u128)>, a: [u8; 32]) -> u128
    decreases s.len(),
{
    if s.len() == 0 {
        0
    } else if s[0].0 == a {
        s[0].1
    } else {
        spec_balance(s.drop_first(), a)
    }
}

/// If the first entry carrying a key sits at index `i`, the balance of
/// that key is that entry's value.
proof fn lemma_balance_first_match(s: Seq<([u8; 32], u128)>, a: [u8; 32], i: int)
    requires
        0 <= i < s.len(),
        forall|j: int| 0 <= j < i ==> s[j].0 != a,
        s[i].0 == a,
    ensures
        spec_balance(s, a) == s[i].1,
    decreases i,
{
    if i > 0 {
        lemma_balance_first_match(s.drop_first(), a, i - 1);
    }
}

/// A key carried by no entry has balance zero.
proof fn lemma_balance_no_match(s: Seq<([u8; 32], u128)>, a: [u8; 32])
    requires
        forall|j: int| 0 <= j < s.len() ==> s[j].0 != a,
    ensures
        spec_balance(s, a) == 0,
    decreases s.len(),
{
    if s.len() > 0 {
        lemma_balance_no_match(s.drop_first(), a);
    }
}

/// Overwriting one entry's value leaves every other key's balance
/// unchanged.
proof fn lemma_balance_update_other(
    s: Seq<([u8; 32], u128)>,
    i: int,
    e: ([u8; 32], u128),
    b: [u8; 32],
)
    requires
        0 <= i < s.len(),
        e.0 == s[i].0,
        b != e.0,
    ensures
        spec_balance(s.update(i, e), b) == spec_balance(s, b),
    decreases s.len(),
{
    let s2 = s.update(i, e);
    if i == 0 {
        assert(s2.drop_first() =~= s.drop_first());
    } else {
        assert(s2[0] == s[0]);
        assert(s2.drop_first() =~= s.drop_first().update(i - 1, e));
        lemma_balance_update_other(s.drop_first(), i - 1, e, b);
    }
}

/// Appending a new entry leaves every other key's balance unchanged.
proof fn lemma_balance_push_other(s: Seq<([u8; 32], u128)>, e: ([u8; 32], u128), b: [u8; 32])
    requires
        b != e.0,
    ensures
        spec_balance(s.push(e), b) == spec_balance(s, b),
    decreases s.len(),
{
    if s.len() == 0 {
        assert(s.push(e)[0] == e);
        assert(s.push(e).drop_first() =~= Seq::<([u8; 32], u128)>::empty());
        assert(spec_balance(Seq::<([u8; 32], u128)>::empty(), b) == 0);
        assert(spec_balance(s, b) == 0);
    } else {
        assert(s.push(e)[0] == s[0]);
        assert(s.push(e).drop_first() =~= s.drop_first().push(e));
        lemma_balance_push_other(s.drop_first(), e, b);
    }
}

/// The per-account reward ledger together with its payout configuration.
pub struct Rewards {
    pub balances: Vec<([u8; 32], u128)>,
    pub asset_hub_para_id: u32,
    pub ethereum_network: NetworkId,
    pub weth_address: [u8; 20],
}

impl View for Rewards {
    type V = Seq<([u8; 32], u128)>;

    open spec fn view(&self) -> Seq<([u8; 32], u128)> {
        self.balances@
    }
}

/// The location of the wrapped-ether token on the external network.
pub open spec fn spec_token_location(network: NetworkId, address: [u8; 20]) -> LocationV {
    LocationV {
        parents: 2,
        interior: seq![
            Junction::GlobalConsensus(network),
            Junction::AccountKey20 { network: None, key: address },
        ],
    }
}

/// The payout program a claim sends: teleported fee, fee purchase, origin
/// manipulation, the reward deposit, a refund appendix and the topic tag.
pub open spec fn spec_claim_program(
    asset_hub_para_id: u32,
    network: NetworkId,
    weth_address: [u8; 20],
    value: u128,
    message_id: [u8; 32],
) -> Seq<InstructionV> {
    let fee_asset = AssetV {
        id: LocationV { parents: 1, interior: Seq::empty() },
        fun: Fungibility::Fungible(CLAIM_XCM_FEE),
    };
    let reward_asset = AssetV {
        id: spec_token_location(network, weth_address),
        fun: Fungibility::Fungible(value),
    };
    let beneficiary = LocationV {
        parents: 0,
        interior: seq![Junction::Parachain(asset_hub_para_id)],
    };
    let bridge_location = LocationV {
        parents: 2,
        interior: seq![Junction::GlobalConsensus(network)],
    };
    seq![
        InstructionV::ReceiveTeleportedAsset(seq![fee_asset]),
        InstructionV::BuyExecution { fees: fee_asset, weight_limit: WeightLimit::Unlimited },
        InstructionV::DescendOrigin(seq![Junction::PalletInstance(CLAIM_PALLET_INSTANCE)]),
        InstructionV::UniversalOrigin(Junction::GlobalConsensus(network)),
        InstructionV::ReserveAssetDeposited(seq![reward_asset]),
        InstructionV::DepositAsset {
            assets: AssetFilterV::Definite(seq![reward_asset]),
            beneficiary,
        },
        InstructionV::SetAppendix(
            seq![
                InstructionV::RefundSurplus,
                InstructionV::DepositAsset {
                    assets: AssetFilterV::Wild(WildAsset::AllCounted(1)),
                    beneficiary: bridge_location,
                },
            ],
        ),
        InstructionV::SetTopic(message_id),
    ]
}

/// Builds the location of a token held by the gateway contract.
pub fn convert_token_address(network: NetworkId, address: [u8; 20]) -> (r: Location)
    ensures
        r@ == spec_token_location(network, address),
{
    let mut interior: Vec<Junction> = Vec::new();
    interior.push(Junction::GlobalConsensus(network));
    interior.push(Junction::AccountKey20 { network: None, key: address });
    let r = Location { parents: 2, interior };
    proof {
        assert(r@.interior =~= spec_token_location(network, address).interior);
        assert(r@ =~~= spec_token_location(network, address));
    }
    r
}

impl Rewards {
    /// A fresh ledger with the given payout configuration.
    pub fn new(asset_hub_para_id: u32, ethereum_network: NetworkId, weth_address: [u8; 20]) -> (r:
        Self)
        ensures
            r@ =~= Seq::<([u8; 32], u128)>::empty(),
            r.asset_hub_para_id == asset_hub_para_id,
            r.ethereum_network == ethereum_network,
            r.weth_address == weth_address,
    {
        Rewards { balances: Vec::new(), asset_hub_para_id, ethereum_network, weth_address }
    }

    /// The accumulated reward of an account.
    pub fn balance_of(&self, account_id: &[u8; 32]) -> (r: u128)
        ensures
            r == spec_balance(self@, *account_id),
    {
        let mut i: usize = 0;
        while i < self.balances.len()
            invariant
                0 <= i <= self.balances.len(),
                forall|j: int| 0 <= j < i ==> self.balances@[j].0 != *account_id,
            decreases self.balances.len() - i,
        {
            if crate::types::bytes_eq(&self.balances[i].0, account_id) {
                proof {
                    lemma_balance_first_match(self.balances@, *account_id, i as int);
                }
                return self.balances[i].1;
            }
            i += 1;
        }
        proof {
            lemma_balance_no_match(self.balances@, *account_id);
        }
        0
    }

    /// Credits a relayer reward, saturating at the balance type's limit.
    pub fn deposit(&mut self, account_id: [u8; 32], value: u128) -> (r: Event)
        ensures
            spec_balance(final(self)@, account_id) == if spec_balance(old(self)@, account_id)
                + value <= u128::MAX {
                spec_balance(old(self)@, account_id) + value
            } else {
                u128::MAX as int
            },
            forall|b: [u8; 32]| b != account_id ==> spec_balance(final(self)@, b) == spec_balance(
                old(self)@,
                b,
            ),
            final(self).asset_hub_para_id == old(self).asset_hub_para_id,
            final(self).ethereum_network == old(self).ethereum_network,
            final(self).weth_address == old(self).weth_address,
            r == (Event::RewardDeposited { account_id, value }),
    {
        let mut i: usize = 0;
        while i < self.balances.len()
            invariant
                0 <= i <= self.balances.len(),
                self.balances@ == old(self).balances@,
                self.asset_hub_para_id == old(self).asset_hub_para_id,
                self.ethereum_network == old(self).ethereum_network,
                self.weth_address == old(self).weth_address,
                forall|j: int| 0 <= j < i ==> self.balances@[j].0 != account_id,
            decreases self.balances.len() - i,
        {
            if crate::types::bytes_eq(&self.balances[i].0, &account_id) {
                let current = self.balances[i].1;
                let updated = if current <= u128::MAX - value {
                    current + value
                } else {
                    u128::MAX
                };
                proof {
                    lemma_balance_first_match(self.balances@, account_id, i as int);
                }
                self.balances[i] = (account_id, updated);
                proof {
                    lemma_balance_first_match(self.balances@, account_id, i as int);
                    assert forall|b: [u8; 32]| b != account_id implies spec_balance(
                        self.balances@,
                        b,
                    ) == spec_balance(old(self).balances@, b) by {
                        lemma_balance_update_other(
                            old(self).balances@,
                            i as int,
                            (account_id, updated),
                            b,
                        );
                    }
                }
                return Event::RewardDeposited { account_id, value };
            }
            i += 1;
        }
        proof {
            lemma_balance_no_match(self.balances@, account_id);
        }
        self.balances.push((account_id, value));
        proof {
            lemma_balance_first_match(self.balances@, account_id, old(self).balances@.len() as int);
            assert forall|b: [u8; 32]| b != account_id implies spec_balance(self.balances@, b)
                == spec_balance(old(self).balances@, b) by {
                lemma_balance_push_other(old(self).balances@, (account_id, value), b);
            }
        }
        Event::RewardDeposited { account_id, value }
    }

    /// Burns the teleport fee for the payout: the asset transactor must
    /// admit checking the fee out to the destination and then withdraw
    /// it.
    pub fn burn_fees<A: AssetTransactor>(
        &self,
        asset_transactor: &mut A,
        para_id: u32,
        fee: u128,
    ) -> (r: Result<(), Error>)
        ensures
            r matches Err(e) ==> e == Error::FundsUnavailable,
    {
        let mut interior: Vec<Junction> = Vec::new();
        interior.push(Junction::Parachain(para_id));
        let dest = Location { parents: 1, interior };
        let fees = Asset {
            id: Location { parents: 1, interior: Vec::new() },
            fun: Fungibility::Fungible(fee),
        };
        match asset_transactor.can_check_out(&dest, &fees) {
            Err(_) => {
                return Err(Error::FundsUnavailable);
            },
            Ok(()) => {},
        }
        asset_transactor.check_out(&dest, &fees);
        match asset_transactor.withdraw_asset(&fees, &dest) {
            Err(_) => {
                return Err(Error::FundsUnavailable);
            },
            Ok(()) => {},
        }
        Ok(())
    }

    /// Pays out a claimed reward: checks the balance, burns the teleport
    /// fee, sends the payout program and only then deducts the claimed
    /// value.  Every failure leaves the ledger unchanged.
    pub fn process_claim<A: AssetTransactor, X: Transport>(
        &mut self,
        asset_transactor: &mut A,
        transport: &mut X,
        account_id: [u8; 32],
        deposit_address: [u8; 32],
        value: u128,
        message_id: [u8; 32],
    ) -> (r: Result<Event, Error>)
        ensures
            final(self).asset_hub_para_id == old(self).asset_hub_para_id,
            final(self).ethereum_network == old(self).ethereum_network,
            final(self).weth_address == old(self).weth_address,
            r matches Err(e) ==> final(self)@ == old(self)@,
            value > spec_balance(old(self)@, account_id) <==> r == Err::<Event, Error>(
                Error::InsufficientFunds,
            ),
            r matches Err(e) ==> (e is InsufficientFunds || e is FundsUnavailable || e is Send),
            r matches Ok(ev) ==> {
                &&& spec_balance(final(self)@, account_id) == spec_balance(old(self)@, account_id)
                    - value
                &&& (forall|b: [u8; 32]| b != account_id ==> spec_balance(final(self)@, b)
                    == spec_balance(old(self)@, b))
                &&& ev == (Event::RewardClaimed { account_id, deposit_address, value, message_id })
            },
    {
        let reward_balance = self.balance_of(&account_id);
        if value > reward_balance {
            return Err(Error::InsufficientFunds);
        }
        match self.burn_fees(asset_transactor, self.asset_hub_para_id, CLAIM_XCM_FEE) {
            Err(e) => {
                return Err(e);
            },
            Ok(()) => {},
        }
        let xcm = self.build_claim_program(value, message_id);
        let mut dest_interior: Vec<Junction> = Vec::new();
        dest_interior.push(Junction::Parachain(self.asset_hub_para_id));
        let dest = Location { parents: 1, interior: dest_interior };
        match transport.send(&dest, &xcm) {
            Err(e) => {
                return Err(Error::from(e));
            },
            Ok(_) => {},
        }
        self.deduct(account_id, value);
        Ok(Event::RewardClaimed { account_id, deposit_address, value, message_id })
    }

    /// Deducts a claimed value from an account's accumulated reward.
    fn deduct(&mut self, account_id: [u8; 32], value: u128)
        requires
            value <= spec_balance(old(self)@, account_id),
        ensures
            spec_balance(final(self)@, account_id) == spec_balance(old(self)@, account_id) - value,
            forall|b: [u8; 32]| b != account_id ==> spec_balance(final(self)@, b) == spec_balance(
                old(self)@,
                b,
            ),
            final(self).asset_hub_para_id == old(self).asset_hub_para_id,
            final(self).ethereum_network == old(self).ethereum_network,
            final(self).weth_address == old(self).weth_address,
    {
        let mut i: usize = 0;
        while i < self.balances.len()
            invariant
                0 <= i <= self.balances.len(),
                self.balances@ == old(self).balances@,
                self.asset_hub_para_id == old(self).asset_hub_para_id,
                self.ethereum_network == old(self).ethereum_network,
                self.weth_address == old(self).weth_address,
                value <= spec_balance(old(self).balances@, account_id),
                forall|j: int| 0 <= j < i ==> self.balances@[j].0 != account_id,
            decreases self.balances.len() - i,
        {
            if crate::types::bytes_eq(&self.balances[i].0, &account_id) {
                let current = self.balances[i].1;
                proof {
                    lemma_balance_first_match(self.balances@, account_id, i as int);
                }
                self.balances[i] = (account_id, current - value);
                proof {
                    lemma_balance_first_match(self.balances@, account_id, i as int);
                    assert forall|b: [u8; 32]| b != account_id implies spec_balance(
                        self.balances@,
                        b,
                    ) == spec_balance(old(self).balances@, b) by {
                        lemma_balance_update_other(
                            old(self).balances@,
                            i as int,
                            (account_id, (current - value) as u128),
                            b,
                        );
                    }
                }
                return ;
            }
            i += 1;
        }
        proof {
            lemma_balance_no_match(self.balances@, account_id);
        }
    }

    /// Builds the payout program exactly as modelled.
    pub fn build_claim_program(&self, value: u128, message_id: [u8; 32]) -> (r: Xcm)
        ensures
            r@ == spec_claim_program(
                self.asset_hub_para_id,
                self.ethereum_network,
                self.weth_address,
                value,
                message_id,
            ),
    {
        let fee_asset = Asset {
            id: Location { parents: 1, interior: Vec::new() },
            fun: Fungibility::Fungible(CLAIM_XCM_FEE),
        };
        let fee_asset2 = Asset {
            id: Location { parents: 1, interior: Vec::new() },
            fun: Fungibility::Fungible(CLAIM_XCM_FEE),
        };
        let reward_asset = Asset {
            id: convert_token_address(self.ethereum_network, self.weth_address),
            fun: Fungibility::Fungible(value),
        };
        let reward_asset2 = Asset {
            id: convert_token_address(self.ethereum_network, self.weth_address),
            fun: Fungibility::Fungible(value),
        };
        let mut beneficiary_interior: Vec<Junction> = Vec::new();
        beneficiary_interior.push(Junction::Parachain(self.asset_hub_para_id));
        let beneficiary = Location { parents: 0, interior: beneficiary_interior };
        let mut bridge_interior: Vec<Junction> = Vec::new();
        bridge_interior.push(Junction::GlobalConsensus(self.ethereum_network));
        let bridge_location = Location { parents: 2, interior: bridge_interior };
        let mut fee_assets: Vec<Asset> = Vec::new();
        fee_assets.push(fee_asset);
        let mut reward_assets: Vec<Asset> = Vec::new();
        reward_assets.push(reward_asset);
        let mut deposit_assets: Vec<Asset> = Vec::new();
        deposit_assets.push(reward_asset2);
        let mut descend_path: Vec<Junction> = Vec::new();
        descend_path.push(Junction::PalletInstance(CLAIM_PALLET_INSTANCE));
        let mut appendix: Vec<Instruction> = Vec::new();
        appendix.push(Instruction::RefundSurplus);
        appendix.push(
            Instruction::DepositAsset {
                assets: AssetFilter::Wild(WildAsset::AllCounted(1)),
                beneficiary: bridge_location,
            },
        );
        let ghost app_snap = appendix@;
        let mut program: Vec<Instruction> = Vec::new();
        program.push(Instruction::ReceiveTeleportedAsset(fee_assets));
        program.push(
            Instruction::BuyExecution { fees: fee_asset2, weight_limit: WeightLimit::Unlimited },
        );
        program.push(Instruction::DescendOrigin(descend_path));
        program.push(Instruction::UniversalOrigin(Junction::GlobalConsensus(self.ethereum_network)));
        program.push(Instruction::ReserveAssetDeposited(reward_assets));
        program.push(
            Instruction::DepositAsset { assets: AssetFilter::Definite(deposit_assets), beneficiary },
        );
        program.push(Instruction::SetAppendix(Xcm(appendix)));
        program.push(Instruction::SetTopic(message_id));
        let r = Xcm(program);
        proof {
            let spec = spec_claim_program(
                self.asset_hub_para_id,
                self.ethereum_network,
                self.weth_address,
                value,
                message_id,
            );
            let got = r@;
            assert(got.len() == 8);
            assert(got[0] =~~= spec[0]);
            assert(got[1] =~~= spec[1]);
            assert(got[2] =~~= spec[2]);
            assert(got[3] =~~= spec[3]);
            assert(got[4] =~~= spec[4]);
            assert(got[5] =~~= spec[5]);
            assert(got[6] =~~= spec[6]) by {
                let inner = crate::types::instrs_view(app_snap);
                assert(inner.len() == 2);
                assert(inner[0] =~~= spec[6]->SetAppendix_0[0]);
                assert(inner[1] =~~= spec[6]->SetAppendix_0[1]);
                assert(inner =~~= spec[6]->SetAppendix_0);
            }
            assert(got[7] =~~= spec[7]);
            assert(got =~~= spec);
        }
        r
    }

    /// Pays out a claimed reward on behalf of a signed caller.
    pub fn claim<A: AssetTransactor, X: Transport>(
        &mut self,
        asset_transactor: &mut A,
        transport: &mut X,
        account_id: [u8; 32],
        deposit_address: [u8; 32],
        value: u128,
        message_id: [u8; 32],
    ) -> (r: Result<Event, Error>)
        ensures
            r matches Err(e) ==> final(self)@ == old(self)@,
            value > spec_balance(old(self)@, account_id) <==> r == Err::<Event, Error>(
                Error::InsufficientFunds,
            ),
            r matches Ok(ev) ==> {
                &&& spec_balance(final(self)@, account_id) == spec_balance(old(self)@, account_id)
                    - value
                &&& ev == (Event::RewardClaimed { account_id, deposit_address, value, message_id })
            },
    {
        self.process_claim(
            asset_transactor,
            transport,
            account_id,
            deposit_address,
            value,
            message_id,
        )
    }
}

} // verus!
