//! The data model of the cross-chain instruction language: locations,
//! assets and the typed instruction sequence that both translation
//! directions work on.

use vstd::prelude::*;

verus! {

broadcast use
    vstd::array::group_array_axioms,
    vstd::std_specs::vec::group_vec_axioms,
    vstd::seq::group_seq_axioms;

/// Identifier of a consensus network that a location may reference.
#[derive(Clone, Copy, PartialEq, Eq, Structural, Debug)]
pub enum NetworkId {
    Ethereum { chain_id: u64 },
    Polkadot,
    Kusama,
}

/// A limit on the weight purchased by a fee-payment instruction.
#[derive(Clone, Copy, PartialEq, Eq, Structural, Debug)]
pub enum WeightLimit {
    Unlimited,
    Limited(u64),
}

/// Whether an asset is a fungible amount or a singleton instance.
#[derive(Clone, Copy, PartialEq, Eq, Structural, Debug)]
pub enum Fungibility {
    Fungible(u128),
    NonFungible,
}

/// A wildcard selector inside an asset filter.
#[derive(Clone, Copy, PartialEq, Eq, Structural, Debug)]
pub enum WildAsset {
    All,
    AllCounted(u32),
}

/// One step in the interior path of a location.
#[derive(Clone, Copy, Debug)]
pub enum Junction {
    Parachain(u32),
    AccountKey20 { network: Option<NetworkId>, key: [u8; 20] },
    GlobalConsensus(NetworkId),
    PalletInstance(u8),
}

/// A relative location: how many parent hops, then an interior path.
#[derive(Clone, Debug)]
pub struct Location {
    pub parents: u8,
    pub interior: Vec<Junction>,
}

/// Mathematical model of a [`Location`].
#[verifier::ext_equal]
pub struct LocationV {
    pub parents: u8,
    pub interior: Seq<Junction>,
}

impl View for Location {
    type V = LocationV;

    open spec fn view(&self) -> LocationV {
        LocationV { parents: self.parents, interior: self.interior@ }
    }
}

/// A concrete asset: the location identifying it and its fungibility.
#[derive(Clone, Debug)]
pub struct Asset {
    pub id: Location,
    pub fun: Fungibility,
}

/// Mathematical model of an [`Asset`].
#[verifier::ext_equal]
pub struct AssetV {
    pub id: LocationV,
    pub fun: Fungibility,
}

impl View for Asset {
    type V = AssetV;

    open spec fn view(&self) -> AssetV {
        AssetV { id: self.id@, fun: self.fun }
    }
}

impl DeepView for Asset {
    type V = AssetV;

    open spec fn deep_view(&self) -> AssetV {
        self@
    }
}

/// Selects which assets a deposit instruction consumes.
#[derive(Clone, Debug)]
pub enum AssetFilter {
    Definite(Vec<Asset>),
    Wild(WildAsset),
}

/// Mathematical model of an [`AssetFilter`].
#[verifier::ext_equal]
pub enum AssetFilterV {
    Definite(Seq<AssetV>),
    Wild(WildAsset),
}

impl View for AssetFilter {
    type V = AssetFilterV;

    open spec fn view(&self) -> AssetFilterV {
        match *self {
            AssetFilter::Definite(v) => AssetFilterV::Definite(v.deep_view()),
            AssetFilter::Wild(w) => AssetFilterV::Wild(w),
        }
    }
}

/// One typed cross-chain instruction.
#[derive(Debug)]
pub enum Instruction {
    WithdrawAsset(Vec<Asset>),
    ReserveAssetDeposited(Vec<Asset>),
    ReceiveTeleportedAsset(Vec<Asset>),
    ClearOrigin,
    BuyExecution { fees: Asset, weight_limit: WeightLimit },
    ExpectAsset(Vec<Asset>),
    DepositAsset { assets: AssetFilter, beneficiary: Location },
    SetTopic([u8; 32]),
    DescendOrigin(Vec<Junction>),
    UniversalOrigin(Junction),
    RefundSurplus,
    SetAppendix(Xcm),
}

/// An ordered instruction program.
#[derive(Debug)]
pub struct Xcm(pub Vec<Instruction>);

/// Mathematical model of an [`Instruction`].
#[verifier::ext_equal]
pub enum InstructionV {
    WithdrawAsset(Seq<AssetV>),
    ReserveAssetDeposited(Seq<AssetV>),
    ReceiveTeleportedAsset(Seq<AssetV>),
    ClearOrigin,
    BuyExecution { fees: AssetV, weight_limit: WeightLimit },
    ExpectAsset(Seq<AssetV>),
    DepositAsset { assets: AssetFilterV, beneficiary: LocationV },
    SetTopic([u8; 32]),
    DescendOrigin(Seq<Junction>),
    UniversalOrigin(Junction),
    RefundSurplus,
    SetAppendix(Seq<InstructionV>),
}

/// Mathematical model of an [`Instruction`].
pub open spec fn instr_view(ins: Instruction) -> InstructionV
    decreases ins,
{
    match ins {
        Instruction::WithdrawAsset(a) => InstructionV::WithdrawAsset(a.deep_view()),
        Instruction::ReserveAssetDeposited(a) => InstructionV::ReserveAssetDeposited(
            a.deep_view(),
        ),
        Instruction::ReceiveTeleportedAsset(a) => InstructionV::ReceiveTeleportedAsset(
            a.deep_view(),
        ),
        Instruction::ClearOrigin => InstructionV::ClearOrigin,
        Instruction::BuyExecution { fees, weight_limit } => InstructionV::BuyExecution {
            fees: fees@,
            weight_limit,
        },
        Instruction::ExpectAsset(a) => InstructionV::ExpectAsset(a.deep_view()),
        Instruction::DepositAsset { assets, beneficiary } => InstructionV::DepositAsset {
            assets: assets@,
            beneficiary: beneficiary@,
        },
        Instruction::SetTopic(t) => InstructionV::SetTopic(t),
        Instruction::DescendOrigin(j) => InstructionV::DescendOrigin(j@),
        Instruction::UniversalOrigin(j) => InstructionV::UniversalOrigin(j),
        Instruction::RefundSurplus => InstructionV::RefundSurplus,
        Instruction::SetAppendix(x) => {
            proof {
                assert(decreases_to!(ins => x.0));
                assert(decreases_to!(x.0 => x.0@));
            }
            InstructionV::SetAppendix(instrs_view(x.0@))
        },
    }
}

/// Mathematical model of a sequence of instructions.
pub open spec fn instrs_view(s: Seq<Instruction>) -> Seq<InstructionV>
    decreases s,
{
    if s.len() == 0 {
        Seq::empty()
    } else {
        proof {
            assert(decreases_to!(s => s[0]));
            assert(decreases_to!(s => s.subrange(1, s.len() as int)));
        }
        seq![instr_view(s[0])] + instrs_view(s.subrange(1, s.len() as int))
    }
}

impl View for Xcm {
    type V = Seq<InstructionV>;

    open spec fn view(&self) -> Seq<InstructionV> {
        instrs_view(self.0@)
    }
}

/// The model of an instruction sequence has the same length as the
/// sequence and models it element by element.
pub broadcast proof fn lemma_instrs_view_index(s: Seq<Instruction>)
    ensures
        (#[trigger] instrs_view(s)).len() == s.len(),
        forall|i: int| 0 <= i < s.len() ==> instrs_view(s)[i] == instr_view(s[i]),
    decreases s.len(),
{
    if s.len() > 0 {
        let rest = s.subrange(1, s.len() as int);
        lemma_instrs_view_index(rest);
        assert forall|i: int| 0 <= i < s.len() implies instrs_view(s)[i] == instr_view(s[i]) by {
            if i > 0 {
                assert(rest[i - 1] == s[i]);
            }
        }
    }
}

/// Holds when the filter selects the given asset.
pub open spec fn spec_filter_matches(f: AssetFilterV, a: AssetV) -> bool {
    match f {
        AssetFilterV::Definite(s) => s.contains(a),
        AssetFilterV::Wild(_) => true,
    }
}

/// Compares two byte arrays for equality.
pub fn bytes_eq<const N: usize>(a: &[u8; N], b: &[u8; N]) -> (r: bool)
    ensures
        r <==> *a == *b,
{
    let mut i: usize = 0;
    while i < N
        invariant
            0 <= i <= N,
            forall|j: int| 0 <= j < i ==> a@[j] == b@[j],
        decreases N - i,
    {
        if a[i] != b[i] {
            proof {
                assert(a@[i as int] != b@[i as int]);
            }
            return false;
        }
        i += 1;
    }
    proof {
        assert(*a =~= *b);
    }
    true
}

/// Compares two junctions for equality.
pub fn junction_eq(a: &Junction, b: &Junction) -> (r: bool)
    ensures
        r <==> *a == *b,
{
    match (a, b) {
        (Junction::Parachain(x), Junction::Parachain(y)) => x == y,
        (
            Junction::AccountKey20 { network: na, key: ka },
            Junction::AccountKey20 { network: nb, key: kb },
        ) => {
            let nets_equal = match (na, nb) {
                (None, None) => true,
                (Some(x), Some(y)) => x == y,
                _ => false,
            };
            nets_equal && bytes_eq(ka, kb)
        },
        (Junction::GlobalConsensus(x), Junction::GlobalConsensus(y)) => x == y,
        (Junction::PalletInstance(x), Junction::PalletInstance(y)) => x == y,
        _ => false,
    }
}

/// Compares two junction paths for equality.
pub fn junctions_eq(a: &Vec<Junction>, b: &Vec<Junction>) -> (r: bool)
    ensures
        r <==> a@ == b@,
{
    if a.len() != b.len() {
        return false;
    }
    let mut i: usize = 0;
    while i < a.len()
        invariant
            0 <= i <= a.len(),
            a.len() == b.len(),
            forall|j: int| 0 <= j < i ==> a@[j] == b@[j],
        decreases a.len() - i,
    {
        if !junction_eq(&a[i], &b[i]) {
            return false;
        }
        i += 1;
    }
    proof {
        assert(a@ =~= b@);
    }
    true
}

/// Compares two locations for equality.
pub fn location_eq(a: &Location, b: &Location) -> (r: bool)
    ensures
        r <==> a@ == b@,
{
    a.parents == b.parents && junctions_eq(&a.interior, &b.interior)
}

/// Compares two assets for equality.
pub fn asset_eq(a: &Asset, b: &Asset) -> (r: bool)
    ensures
        r <==> a@ == b@,
{
    location_eq(&a.id, &b.id) && a.fun == b.fun
}

/// Decides whether a sequence of assets contains the given asset.
pub fn assets_contain(v: &Vec<Asset>, a: &Asset) -> (r: bool)
    ensures
        r <==> v.deep_view().contains(a@),
{
    let mut i: usize = 0;
    while i < v.len()
        invariant
            0 <= i <= v.len(),
            forall|j: int| 0 <= j < i ==> v.deep_view()[j] != a@,
        decreases v.len() - i,
    {
        if asset_eq(&v[i], a) {
            proof {
                assert(v.deep_view()[i as int] == a@);
                assert(v.deep_view().contains(a@));
            }
            return true;
        }
        i += 1;
    }
    proof {
        assert(forall|j: int| 0 <= j < v.deep_view().len() ==> v.deep_view()[j] != a@);
    }
    false
}

/// Decides whether the filter selects the given asset.
pub fn filter_matches(f: &AssetFilter, a: &Asset) -> (r: bool)
    ensures
        r <==> spec_filter_matches(f@, a@),
{
    match f {
        AssetFilter::Wild(_) => true,
        AssetFilter::Definite(v) => assets_contain(v, a),
    }
}

/// Decides whether the filter selects every one of the given assets.
pub fn filter_consumes_all(f: &AssetFilter, v: &Vec<Asset>) -> (r: bool)
    ensures
        r <==> forall|k: int|
            0 <= k < v.deep_view().len() ==> spec_filter_matches(f@, v.deep_view()[k]),
{
    let mut i: usize = 0;
    while i < v.len()
        invariant
            0 <= i <= v.len(),
            forall|k: int| 0 <= k < i ==> spec_filter_matches(f@, v.deep_view()[k]),
        decreases v.len() - i,
    {
        if !filter_matches(f, &v[i]) {
            proof {
                assert(!spec_filter_matches(f@, v.deep_view()[i as int]));
            }
            return false;
        }
        i += 1;
    }
    true
}

} // verus!
