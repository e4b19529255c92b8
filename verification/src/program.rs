//! The versioned, depth-limited codec for instruction programs.  Nested
//! programs spend a decode budget so that adversarial nesting is rejected
//! rather than followed.

use vstd::prelude::*;

use crate::codec::{
    bytes20_of, bytes32_of, spec_encode_u128, spec_encode_u32, spec_encode_u64, spec_u128_from,
    spec_u32_from, spec_u64_from,
};
use crate::types::{
    Asset, AssetFilter, AssetFilterV, AssetV, Fungibility, Instruction, InstructionV, Junction,
    Location, LocationV, NetworkId, WeightLimit, WildAsset, Xcm,
};

verus! {

broadcast use
    vstd::array::group_array_axioms,
    vstd::std_specs::vec::group_vec_axioms,
    vstd::seq::group_seq_axioms,
    crate::types::lemma_instrs_view_index;

/// The one program version this codec accepts.
pub const PROGRAM_VERSION: u8 = 5;

/// The decode budget for nested programs.
pub const MAX_DECODE_DEPTH: u32 = 8;

/// Encoding of a network identifier.
pub open spec fn spec_encode_network(n: NetworkId) -> Seq<u8> {
    match n {
        NetworkId::Ethereum { chain_id } => seq![0u8] + spec_encode_u64(chain_id),
        NetworkId::Polkadot => seq![1u8],
        NetworkId::Kusama => seq![2u8],
    }
}

/// Encoding of an optional network tag.
pub open spec fn spec_encode_opt_network(n: Option<NetworkId>) -> Seq<u8> {
    match n {
        None => seq![0u8],
        Some(x) => seq![1u8] + spec_encode_network(x),
    }
}

/// Encoding of a single junction.
pub open spec fn spec_encode_junction(j: Junction) -> Seq<u8> {
    match j {
        Junction::Parachain(p) => seq![0u8] + spec_encode_u32(p),
        Junction::AccountKey20 { network, key } => seq![1u8] + spec_encode_opt_network(network)
            + key@,
        Junction::GlobalConsensus(n) => seq![2u8] + spec_encode_network(n),
        Junction::PalletInstance(i) => seq![3u8, i],
    }
}

/// Encoding of the junctions themselves, without a count.
pub open spec fn spec_encode_junction_list(s: Seq<Junction>) -> Seq<u8>
    decreases s.len(),
{
    if s.len() == 0 {
        Seq::empty()
    } else {
        spec_encode_junction(s[0]) + spec_encode_junction_list(s.drop_first())
    }
}

/// Encoding of a counted junction path.
pub open spec fn spec_encode_junctions(s: Seq<Junction>) -> Seq<u8> {
    spec_encode_u64(s.len() as u64) + spec_encode_junction_list(s)
}

/// Encoding of a location.
pub open spec fn spec_encode_location(l: LocationV) -> Seq<u8> {
    seq![l.parents] + spec_encode_junctions(l.interior)
}

/// Encoding of a fungibility.
pub open spec fn spec_encode_fungibility(f: Fungibility) -> Seq<u8> {
    match f {
        Fungibility::Fungible(a) => seq![0u8] + spec_encode_u128(a),
        Fungibility::NonFungible => seq![1u8],
    }
}

/// Encoding of one asset.
pub open spec fn spec_encode_asset(a: AssetV) -> Seq<u8> {
    spec_encode_location(a.id) + spec_encode_fungibility(a.fun)
}

/// Encoding of the assets themselves, without a count.
pub open spec fn spec_encode_asset_list(s: Seq<AssetV>) -> Seq<u8>
    decreases s.len(),
{
    if s.len() == 0 {
        Seq::empty()
    } else {
        spec_encode_asset(s[0]) + spec_encode_asset_list(s.drop_first())
    }
}

/// Encoding of a counted asset collection.
pub open spec fn spec_encode_assets(s: Seq<AssetV>) -> Seq<u8> {
    spec_encode_u64(s.len() as u64) + spec_encode_asset_list(s)
}

/// Encoding of a wildcard selector.
pub open spec fn spec_encode_wild(w: WildAsset) -> Seq<u8> {
    match w {
        WildAsset::All => seq![0u8],
        WildAsset::AllCounted(n) => seq![1u8] + spec_encode_u32(n),
    }
}

/// Encoding of an asset filter.
pub open spec fn spec_encode_filter(f: AssetFilterV) -> Seq<u8> {
    match f {
        AssetFilterV::Definite(s) => seq![0u8] + spec_encode_assets(s),
        AssetFilterV::Wild(w) => seq![1u8] + spec_encode_wild(w),
    }
}

/// Encoding of a weight limit.
pub open spec fn spec_encode_weight_limit(w: WeightLimit) -> Seq<u8> {
    match w {
        WeightLimit::Unlimited => seq![0u8],
        WeightLimit::Limited(n) => seq![1u8] + spec_encode_u64(n),
    }
}

/// Encoding of one instruction.
pub open spec fn spec_encode_instruction(i: InstructionV) -> Seq<u8>
    decreases i, 0int,
{
    match i {
        InstructionV::WithdrawAsset(a) => seq![0u8] + spec_encode_assets(a),
        InstructionV::ReserveAssetDeposited(a) => seq![1u8] + spec_encode_assets(a),
        InstructionV::ReceiveTeleportedAsset(a) => seq![2u8] + spec_encode_assets(a),
        InstructionV::ClearOrigin => seq![3u8],
        InstructionV::BuyExecution { fees, weight_limit } => seq![4u8] + spec_encode_asset(fees)
            + spec_encode_weight_limit(weight_limit),
        InstructionV::ExpectAsset(a) => seq![5u8] + spec_encode_assets(a),
        InstructionV::DepositAsset { assets, beneficiary } => seq![6u8] + spec_encode_filter(assets)
            + spec_encode_location(beneficiary),
        InstructionV::SetTopic(t) => seq![7u8] + t@,
        InstructionV::DescendOrigin(j) => seq![8u8] + spec_encode_junctions(j),
        InstructionV::UniversalOrigin(j) => seq![9u8] + spec_encode_junction(j),
        InstructionV::RefundSurplus => seq![10u8],
        InstructionV::SetAppendix(inner) => {
            proof {
                assert(decreases_to!(i => inner));
            }
            seq![11u8] + spec_encode_body(inner)
        },
    }
}

/// Encoding of the instructions themselves, without a count.
pub open spec fn spec_encode_instr_list(s: Seq<InstructionV>) -> Seq<u8>
    decreases s, 1int,
{
    if s.len() == 0 {
        Seq::empty()
    } else {
        proof {
            assert(decreases_to!(s => s[0]));
            assert(decreases_to!(s => s.subrange(1, s.len() as int)));
        }
        spec_encode_instruction(s[0]) + spec_encode_instr_list(s.subrange(1, s.len() as int))
    }
}

/// Encoding of a counted program body.
pub open spec fn spec_encode_body(s: Seq<InstructionV>) -> Seq<u8>
    decreases s, 2int,
{
    spec_encode_u64(s.len() as u64) + spec_encode_instr_list(s)
}

/// The full versioned encoding of a program.
pub open spec fn spec_encode_program(s: Seq<InstructionV>) -> Seq<u8> {
    seq![PROGRAM_VERSION] + spec_encode_body(s)
}

/// Reads one byte.
pub open spec fn spec_read_u8(b: Seq<u8>, pos: int) -> Option<(u8, int)> {
    if 0 <= pos && pos + 1 <= b.len() {
        Some((b[pos], pos + 1))
    } else {
        None
    }
}

/// Reads a big-endian 32-bit integer.
pub open spec fn spec_read_u32(b: Seq<u8>, pos: int) -> Option<(u32, int)> {
    if 0 <= pos && pos + 4 <= b.len() {
        Some((spec_u32_from(b[pos], b[pos + 1], b[pos + 2], b[pos + 3]), pos + 4))
    } else {
        None
    }
}

/// Reads a big-endian 64-bit integer.
pub open spec fn spec_read_u64(b: Seq<u8>, pos: int) -> Option<(u64, int)> {
    if 0 <= pos && pos + 8 <= b.len() {
        Some((spec_u64_from(b.subrange(pos, pos + 8)), pos + 8))
    } else {
        None
    }
}

/// Reads a big-endian 128-bit integer.
pub open spec fn spec_read_u128(b: Seq<u8>, pos: int) -> Option<(u128, int)> {
    if 0 <= pos && pos + 16 <= b.len() {
        Some((spec_u128_from(b.subrange(pos, pos + 16)), pos + 16))
    } else {
        None
    }
}

/// Decodes a network identifier.
pub open spec fn spec_decode_network(b: Seq<u8>, pos: int) -> Option<(NetworkId, int)> {
    match spec_read_u8(b, pos) {
        None => None,
        Some((tag, p)) => if tag == 0 {
            match spec_read_u64(b, p) {
                None => None,
                Some((chain_id, p2)) => Some((NetworkId::Ethereum { chain_id }, p2)),
            }
        } else if tag == 1 {
            Some((NetworkId::Polkadot, p))
        } else if tag == 2 {
            Some((NetworkId::Kusama, p))
        } else {
            None
        },
    }
}

/// Decodes an optional network tag.
pub open spec fn spec_decode_opt_network(b: Seq<u8>, pos: int) -> Option<(Option<NetworkId>, int)> {
    match spec_read_u8(b, pos) {
        None => None,
        Some((tag, p)) => if tag == 0 {
            Some((None, p))
        } else if tag == 1 {
            match spec_decode_network(b, p) {
                None => None,
                Some((n, p2)) => Some((Some(n), p2)),
            }
        } else {
            None
        },
    }
}

/// Decodes a single junction.
pub open spec fn spec_decode_junction(b: Seq<u8>, pos: int) -> Option<(Junction, int)> {
    match spec_read_u8(b, pos) {
        None => None,
        Some((tag, p)) => if tag == 0 {
            match spec_read_u32(b, p) {
                None => None,
                Some((para, p2)) => Some((Junction::Parachain(para), p2)),
            }
        } else if tag == 1 {
            match spec_decode_opt_network(b, p) {
                None => None,
                Some((network, p2)) => if p2 + 20 <= b.len() {
                    Some(
                        (
                            Junction::AccountKey20 {
                                network,
                                key: bytes20_of(b.subrange(p2, p2 + 20)),
                            },
                            p2 + 20,
                        ),
                    )
                } else {
                    None
                },
            }
        } else if tag == 2 {
            match spec_decode_network(b, p) {
                None => None,
                Some((n, p2)) => Some((Junction::GlobalConsensus(n), p2)),
            }
        } else if tag == 3 {
            match spec_read_u8(b, p) {
                None => None,
                Some((i, p2)) => Some((Junction::PalletInstance(i), p2)),
            }
        } else {
            None
        },
    }
}

/// Decodes exactly `n` junctions.
pub open spec fn spec_decode_junction_list(b: Seq<u8>, pos: int, n: u64) -> Option<
    (Seq<Junction>, int),
>
    decreases n,
{
    if n == 0 {
        Some((Seq::empty(), pos))
    } else {
        match spec_decode_junction(b, pos) {
            None => None,
            Some((j, p)) => match spec_decode_junction_list(b, p, (n - 1) as u64) {
                None => None,
                Some((rest, p2)) => Some((seq![j] + rest, p2)),
            },
        }
    }
}

/// Decodes a counted junction path.
pub open spec fn spec_decode_junctions(b: Seq<u8>, pos: int) -> Option<(Seq<Junction>, int)> {
    match spec_read_u64(b, pos) {
        None => None,
        Some((n, p)) => spec_decode_junction_list(b, p, n),
    }
}

/// Decodes a location.
pub open spec fn spec_decode_location(b: Seq<u8>, pos: int) -> Option<(LocationV, int)> {
    match spec_read_u8(b, pos) {
        None => None,
        Some((parents, p)) => match spec_decode_junctions(b, p) {
            None => None,
            Some((interior, p2)) => Some((LocationV { parents, interior }, p2)),
        },
    }
}

/// Decodes a fungibility.
pub open spec fn spec_decode_fungibility(b: Seq<u8>, pos: int) -> Option<(Fungibility, int)> {
    match spec_read_u8(b, pos) {
        None => None,
        Some((tag, p)) => if tag == 0 {
            match spec_read_u128(b, p) {
                None => None,
                Some((a, p2)) => Some((Fungibility::Fungible(a), p2)),
            }
        } else if tag == 1 {
            Some((Fungibility::NonFungible, p))
        } else {
            None
        },
    }
}

/// Decodes one asset.
pub open spec fn spec_decode_asset(b: Seq<u8>, pos: int) -> Option<(AssetV, int)> {
    match spec_decode_location(b, pos) {
        None => None,
        Some((id, p)) => match spec_decode_fungibility(b, p) {
            None => None,
            Some((fun, p2)) => Some((AssetV { id, fun }, p2)),
        },
    }
}

/// Decodes exactly `n` assets.
pub open spec fn spec_decode_asset_list(b: Seq<u8>, pos: int, n: u64) -> Option<(Seq<AssetV>, int)>
    decreases n,
{
    if n == 0 {
        Some((Seq::empty(), pos))
    } else {
        match spec_decode_asset(b, pos) {
            None => None,
            Some((a, p)) => match spec_decode_asset_list(b, p, (n - 1) as u64) {
                None => None,
                Some((rest, p2)) => Some((seq![a] + rest, p2)),
            },
        }
    }
}

/// Decodes a counted asset collection.
pub open spec fn spec_decode_assets(b: Seq<u8>, pos: int) -> Option<(Seq<AssetV>, int)> {
    match spec_read_u64(b, pos) {
        None => None,
        Some((n, p)) => spec_decode_asset_list(b, p, n),
    }
}

/// Decodes a wildcard selector.
pub open spec fn spec_decode_wild(b: Seq<u8>, pos: int) -> Option<(WildAsset, int)> {
    match spec_read_u8(b, pos) {
        None => None,
        Some((tag, p)) => if tag == 0 {
            Some((WildAsset::All, p))
        } else if tag == 1 {
            match spec_read_u32(b, p) {
                None => None,
                Some((n, p2)) => Some((WildAsset::AllCounted(n), p2)),
            }
        } else {
            None
        },
    }
}

/// Decodes an asset filter.
pub open spec fn spec_decode_filter(b: Seq<u8>, pos: int) -> Option<(AssetFilterV, int)> {
    match spec_read_u8(b, pos) {
        None => None,
        Some((tag, p)) => if tag == 0 {
            match spec_decode_assets(b, p) {
                None => None,
                Some((s, p2)) => Some((AssetFilterV::Definite(s), p2)),
            }
        } else if tag == 1 {
            match spec_decode_wild(b, p) {
                None => None,
                Some((w, p2)) => Some((AssetFilterV::Wild(w), p2)),
            }
        } else {
            None
        },
    }
}

/// Decodes a weight limit.
pub open spec fn spec_decode_weight_limit(b: Seq<u8>, pos: int) -> Option<(WeightLimit, int)> {
    match spec_read_u8(b, pos) {
        None => None,
        Some((tag, p)) => if tag == 0 {
            Some((WeightLimit::Unlimited, p))
        } else if tag == 1 {
            match spec_read_u64(b, p) {
                None => None,
                Some((n, p2)) => Some((WeightLimit::Limited(n), p2)),
            }
        } else {
            None
        },
    }
}

/// Decodes one instruction, spending depth budget on a nested program.
pub open spec fn spec_decode_instruction(b: Seq<u8>, pos: int, depth: int) -> Option<
    (InstructionV, int),
>
    decreases depth, 0int, 0int,
{
    match spec_read_u8(b, pos) {
        None => None,
        Some((tag, p)) => if tag == 0 {
            match spec_decode_assets(b, p) {
                None => None,
                Some((a, p2)) => Some((InstructionV::WithdrawAsset(a), p2)),
            }
        } else if tag == 1 {
            match spec_decode_assets(b, p) {
                None => None,
                Some((a, p2)) => Some((InstructionV::ReserveAssetDeposited(a), p2)),
            }
        } else if tag == 2 {
            match spec_decode_assets(b, p) {
                None => None,
                Some((a, p2)) => Some((InstructionV::ReceiveTeleportedAsset(a), p2)),
            }
        } else if tag == 3 {
            Some((InstructionV::ClearOrigin, p))
        } else if tag == 4 {
            match spec_decode_asset(b, p) {
                None => None,
                Some((fees, p2)) => match spec_decode_weight_limit(b, p2) {
                    None => None,
                    Some((weight_limit, p3)) => Some(
                        (InstructionV::BuyExecution { fees, weight_limit }, p3),
                    ),
                },
            }
        } else if tag == 5 {
            match spec_decode_assets(b, p) {
                None => None,
                Some((a, p2)) => Some((InstructionV::ExpectAsset(a), p2)),
            }
        } else if tag == 6 {
            match spec_decode_filter(b, p) {
                None => None,
                Some((assets, p2)) => match spec_decode_location(b, p2) {
                    None => None,
                    Some((beneficiary, p3)) => Some(
                        (InstructionV::DepositAsset { assets, beneficiary }, p3),
                    ),
                },
            }
        } else if tag == 7 {
            if p + 32 <= b.len() {
                Some((InstructionV::SetTopic(bytes32_of(b.subrange(p, p + 32))), p + 32))
            } else {
                None
            }
        } else if tag == 8 {
            match spec_decode_junctions(b, p) {
                None => None,
                Some((j, p2)) => Some((InstructionV::DescendOrigin(j), p2)),
            }
        } else if tag == 9 {
            match spec_decode_junction(b, p) {
                None => None,
                Some((j, p2)) => Some((InstructionV::UniversalOrigin(j), p2)),
            }
        } else if tag == 10 {
            Some((InstructionV::RefundSurplus, p))
        } else if tag == 11 {
            if depth <= 0 {
                None
            } else {
                match spec_decode_body(b, p, depth - 1) {
                    None => None,
                    Some((inner, p2)) => Some((InstructionV::SetAppendix(inner), p2)),
                }
            }
        } else {
            None
        },
    }
}

/// Decodes exactly `n` instructions.
pub open spec fn spec_decode_instr_list(b: Seq<u8>, pos: int, n: u64, depth: int) -> Option<
    (Seq<InstructionV>, int),
>
    decreases depth, 1int, n,
{
    if n == 0 {
        Some((Seq::empty(), pos))
    } else {
        match spec_decode_instruction(b, pos, depth) {
            None => None,
            Some((i, p)) => match spec_decode_instr_list(b, p, (n - 1) as u64, depth) {
                None => None,
                Some((rest, p2)) => Some((seq![i] + rest, p2)),
            },
        }
    }
}

/// Decodes a counted program body, refusing an exhausted depth budget.
pub open spec fn spec_decode_body(b: Seq<u8>, pos: int, depth: int) -> Option<
    (Seq<InstructionV>, int),
>
    decreases depth, 2int, 0int,
{
    if depth < 0 {
        None
    } else {
        match spec_read_u64(b, pos) {
            None => None,
            Some((n, p)) => spec_decode_instr_list(b, p, n, depth),
        }
    }
}

/// Decodes a whole versioned program: the version byte must match, the
/// body must decode within the depth budget, and every byte must be
/// consumed.
pub open spec fn spec_decode_program(b: Seq<u8>) -> Option<Seq<InstructionV>> {
    if b.len() >= 1 && b[0] == PROGRAM_VERSION {
        match spec_decode_body(b, 1, MAX_DECODE_DEPTH as int) {
            None => None,
            Some((s, end)) => if end == b.len() {
                Some(s)
            } else {
                None
            },
        }
    } else {
        None
    }
}


/// Encoding what was decoded as a network reproduces the consumed bytes.
pub proof fn lemma_rt_network(b: Seq<u8>, pos: int)
    ensures
        spec_decode_network(b, pos) matches Some((v, end)) ==> (pos <= end <= b.len()
            && spec_encode_network(v) == b.subrange(pos, end)),
{
    if let Some((v, end)) = spec_decode_network(b, pos) {
        let tag = b[pos];
        if tag == 0 {
            crate::codec::lemma_u64_round_trip(0, b.subrange(pos + 1, pos + 9));
            assert(spec_encode_network(v) =~= b.subrange(pos, end));
        } else {
            assert(spec_encode_network(v) =~= b.subrange(pos, end));
        }
    }
}

/// Encoding what was decoded as an optional network reproduces the bytes.
pub proof fn lemma_rt_opt_network(b: Seq<u8>, pos: int)
    ensures
        spec_decode_opt_network(b, pos) matches Some((v, end)) ==> (pos <= end <= b.len()
            && spec_encode_opt_network(v) == b.subrange(pos, end)),
{
    if let Some((v, end)) = spec_decode_opt_network(b, pos) {
        let tag = b[pos];
        if tag == 1 {
            lemma_rt_network(b, pos + 1);
            assert(spec_encode_opt_network(v) =~= b.subrange(pos, end));
        } else {
            assert(spec_encode_opt_network(v) =~= b.subrange(pos, end));
        }
    }
}

/// Encoding what was decoded as a junction reproduces the bytes.
pub proof fn lemma_rt_junction(b: Seq<u8>, pos: int)
    ensures
        spec_decode_junction(b, pos) matches Some((v, end)) ==> (pos <= end <= b.len()
            && spec_encode_junction(v) == b.subrange(pos, end)),
{
    if let Some((v, end)) = spec_decode_junction(b, pos) {
        let tag = b[pos];
        if tag == 0 {
            crate::codec::lemma_u32_round_trip(0, b[pos + 1], b[pos + 2], b[pos + 3], b[pos + 4]);
            assert(spec_encode_junction(v) =~= b.subrange(pos, end));
        } else if tag == 1 {
            lemma_rt_opt_network(b, pos + 1);
            let p2 = spec_decode_opt_network(b, pos + 1)->Some_0.1;
            crate::codec::lemma_bytes20_of(b.subrange(p2, p2 + 20));
            assert(spec_encode_junction(v) =~= b.subrange(pos, end));
        } else if tag == 2 {
            lemma_rt_network(b, pos + 1);
            assert(spec_encode_junction(v) =~= b.subrange(pos, end));
        } else {
            assert(spec_encode_junction(v) =~= b.subrange(pos, end));
        }
    }
}

/// Encoding what was decoded as a junction list reproduces the bytes, and
/// the list has exactly the requested length.
pub proof fn lemma_rt_junction_list(b: Seq<u8>, pos: int, n: u64)
    requires
        0 <= pos <= b.len(),
    ensures
        spec_decode_junction_list(b, pos, n) matches Some((v, end)) ==> (pos <= end <= b.len()
            && v.len() == n && spec_encode_junction_list(v) == b.subrange(pos, end)),
    decreases n,
{
    if n > 0 {
        if let Some((v, end)) = spec_decode_junction_list(b, pos, n) {
            lemma_rt_junction(b, pos);
            let (j, p) = spec_decode_junction(b, pos)->Some_0;
            lemma_rt_junction_list(b, p, (n - 1) as u64);
            let (rest, p2) = spec_decode_junction_list(b, p, (n - 1) as u64)->Some_0;
            assert(v[0] == j);
            assert(v.drop_first() =~= rest);
            assert(spec_encode_junction_list(v) == spec_encode_junction(v[0])
                + spec_encode_junction_list(v.drop_first()));
            assert(spec_encode_junction(j) == b.subrange(pos, p));
            assert(spec_encode_junction_list(rest) == b.subrange(p, end));
            crate::codec::lemma_subrange_concat(b, pos, p, end);
            assert(spec_encode_junction_list(v) =~= b.subrange(pos, end));
        }
    } else {
        if let Some((v, end)) = spec_decode_junction_list(b, pos, n) {
            assert(spec_encode_junction_list(v) =~= b.subrange(pos, end));
        }
    }
}

/// Encoding what was decoded as a counted junction path reproduces the
/// bytes.
pub proof fn lemma_rt_junctions(b: Seq<u8>, pos: int)
    ensures
        spec_decode_junctions(b, pos) matches Some((v, end)) ==> (pos <= end <= b.len()
            && spec_encode_junctions(v) == b.subrange(pos, end)),
{
    if let Some((v, end)) = spec_decode_junctions(b, pos) {
        let (n, p) = spec_read_u64(b, pos)->Some_0;
        crate::codec::lemma_u64_round_trip(0, b.subrange(pos, pos + 8));
        lemma_rt_junction_list(b, p, n);
        assert(v.len() as u64 == n);
        assert(spec_encode_junctions(v) =~= b.subrange(pos, end));
    }
}

/// Encoding what was decoded as a location reproduces the bytes.
pub proof fn lemma_rt_location(b: Seq<u8>, pos: int)
    ensures
        spec_decode_location(b, pos) matches Some((v, end)) ==> (pos <= end <= b.len()
            && spec_encode_location(v) == b.subrange(pos, end)),
{
    if let Some((v, end)) = spec_decode_location(b, pos) {
        lemma_rt_junctions(b, pos + 1);
        assert(spec_encode_location(v) =~= b.subrange(pos, end));
    }
}

/// Encoding what was decoded as a fungibility reproduces the bytes.
pub proof fn lemma_rt_fungibility(b: Seq<u8>, pos: int)
    ensures
        spec_decode_fungibility(b, pos) matches Some((v, end)) ==> (pos <= end <= b.len()
            && spec_encode_fungibility(v) == b.subrange(pos, end)),
{
    if let Some((v, end)) = spec_decode_fungibility(b, pos) {
        let tag = b[pos];
        if tag == 0 {
            crate::codec::lemma_u128_round_trip(0, b.subrange(pos + 1, pos + 17));
            assert(spec_encode_fungibility(v) =~= b.subrange(pos, end));
        } else {
            assert(spec_encode_fungibility(v) =~= b.subrange(pos, end));
        }
    }
}

/// Encoding what was decoded as an asset reproduces the bytes.
pub proof fn lemma_rt_asset(b: Seq<u8>, pos: int)
    ensures
        spec_decode_asset(b, pos) matches Some((v, end)) ==> (pos <= end <= b.len()
            && spec_encode_asset(v) == b.subrange(pos, end)),
{
    if let Some((v, end)) = spec_decode_asset(b, pos) {
        lemma_rt_location(b, pos);
        let (id, p) = spec_decode_location(b, pos)->Some_0;
        lemma_rt_fungibility(b, p);
        assert(spec_encode_asset(v) =~= b.subrange(pos, end));
    }
}

/// Encoding what was decoded as an asset list reproduces the bytes, and
/// the list has exactly the requested length.
pub proof fn lemma_rt_asset_list(b: Seq<u8>, pos: int, n: u64)
    requires
        0 <= pos <= b.len(),
    ensures
        spec_decode_asset_list(b, pos, n) matches Some((v, end)) ==> (pos <= end <= b.len()
            && v.len() == n && spec_encode_asset_list(v) == b.subrange(pos, end)),
    decreases n,
{
    if n > 0 {
        if let Some((v, end)) = spec_decode_asset_list(b, pos, n) {
            lemma_rt_asset(b, pos);
            let (a, p) = spec_decode_asset(b, pos)->Some_0;
            lemma_rt_asset_list(b, p, (n - 1) as u64);
            let (rest, p2) = spec_decode_asset_list(b, p, (n - 1) as u64)->Some_0;
            assert(v[0] == a);
            assert(v.drop_first() =~= rest);
            assert(spec_encode_asset_list(v) == spec_encode_asset(v[0]) + spec_encode_asset_list(
                v.drop_first(),
            ));
            assert(spec_encode_asset(a) == b.subrange(pos, p));
            assert(spec_encode_asset_list(rest) == b.subrange(p, end));
            crate::codec::lemma_subrange_concat(b, pos, p, end);
            assert(spec_encode_asset_list(v) =~= b.subrange(pos, end));
        }
    } else {
        if let Some((v, end)) = spec_decode_asset_list(b, pos, n) {
            assert(spec_encode_asset_list(v) =~= b.subrange(pos, end));
        }
    }
}

/// Encoding what was decoded as a counted asset collection reproduces the
/// bytes.
pub proof fn lemma_rt_assets(b: Seq<u8>, pos: int)
    ensures
        spec_decode_assets(b, pos) matches Some((v, end)) ==> (pos <= end <= b.len()
            && spec_encode_assets(v) == b.subrange(pos, end)),
{
    if let Some((v, end)) = spec_decode_assets(b, pos) {
        let (n, p) = spec_read_u64(b, pos)->Some_0;
        crate::codec::lemma_u64_round_trip(0, b.subrange(pos, pos + 8));
        lemma_rt_asset_list(b, p, n);
        assert(v.len() as u64 == n);
        assert(spec_encode_assets(v) =~= b.subrange(pos, end));
    }
}

/// Encoding what was decoded as a wildcard reproduces the bytes.
pub proof fn lemma_rt_wild(b: Seq<u8>, pos: int)
    ensures
        spec_decode_wild(b, pos) matches Some((v, end)) ==> (pos <= end <= b.len()
            && spec_encode_wild(v) == b.subrange(pos, end)),
{
    if let Some((v, end)) = spec_decode_wild(b, pos) {
        let tag = b[pos];
        if tag == 1 {
            crate::codec::lemma_u32_round_trip(0, b[pos + 1], b[pos + 2], b[pos + 3], b[pos + 4]);
            assert(spec_encode_wild(v) =~= b.subrange(pos, end));
        } else {
            assert(spec_encode_wild(v) =~= b.subrange(pos, end));
        }
    }
}

/// Encoding what was decoded as a filter reproduces the bytes.
pub proof fn lemma_rt_filter(b: Seq<u8>, pos: int)
    ensures
        spec_decode_filter(b, pos) matches Some((v, end)) ==> (pos <= end <= b.len()
            && spec_encode_filter(v) == b.subrange(pos, end)),
{
    if let Some((v, end)) = spec_decode_filter(b, pos) {
        let tag = b[pos];
        if tag == 0 {
            lemma_rt_assets(b, pos + 1);
            assert(spec_encode_filter(v) =~= b.subrange(pos, end));
        } else {
            lemma_rt_wild(b, pos + 1);
            assert(spec_encode_filter(v) =~= b.subrange(pos, end));
        }
    }
}

/// Encoding what was decoded as a weight limit reproduces the bytes.
pub proof fn lemma_rt_weight_limit(b: Seq<u8>, pos: int)
    ensures
        spec_decode_weight_limit(b, pos) matches Some((v, end)) ==> (pos <= end <= b.len()
            && spec_encode_weight_limit(v) == b.subrange(pos, end)),
{
    if let Some((v, end)) = spec_decode_weight_limit(b, pos) {
        let tag = b[pos];
        if tag == 1 {
            crate::codec::lemma_u64_round_trip(0, b.subrange(pos + 1, pos + 9));
            assert(spec_encode_weight_limit(v) =~= b.subrange(pos, end));
        } else {
            assert(spec_encode_weight_limit(v) =~= b.subrange(pos, end));
        }
    }
}

/// Encoding what was decoded as an instruction reproduces the bytes.
pub proof fn lemma_rt_instruction(b: Seq<u8>, pos: int, depth: int)
    ensures
        spec_decode_instruction(b, pos, depth) matches Some((v, end)) ==> (pos <= end <= b.len()
            && spec_encode_instruction(v) == b.subrange(pos, end)),
    decreases depth, 0int, 0int,
{
    if let Some((v, end)) = spec_decode_instruction(b, pos, depth) {
        let tag = b[pos];
        let p = pos + 1;
        assert(seq![tag] =~= b.subrange(pos, p));
        if tag == 0 || tag == 1 || tag == 2 || tag == 5 {
            lemma_rt_assets(b, p);
            crate::codec::lemma_subrange_concat(b, pos, p, end);
            assert(spec_encode_instruction(v) == b.subrange(pos, end));
        } else if tag == 3 || tag == 10 {
            assert(spec_encode_instruction(v) =~= b.subrange(pos, end));
        } else if tag == 4 {
            lemma_rt_asset(b, p);
            let p2 = spec_decode_asset(b, p)->Some_0.1;
            lemma_rt_weight_limit(b, p2);
            crate::codec::lemma_subrange_concat(b, pos, p, p2);
            crate::codec::lemma_subrange_concat(b, pos, p2, end);
            assert(spec_encode_instruction(v) == b.subrange(pos, end));
        } else if tag == 6 {
            lemma_rt_filter(b, p);
            let p2 = spec_decode_filter(b, p)->Some_0.1;
            lemma_rt_location(b, p2);
            crate::codec::lemma_subrange_concat(b, pos, p, p2);
            crate::codec::lemma_subrange_concat(b, pos, p2, end);
            assert(spec_encode_instruction(v) == b.subrange(pos, end));
        } else if tag == 7 {
            crate::codec::lemma_bytes32_of(b.subrange(p, p + 32));
            crate::codec::lemma_subrange_concat(b, pos, p, end);
            assert(spec_encode_instruction(v) == b.subrange(pos, end));
        } else if tag == 8 {
            lemma_rt_junctions(b, p);
            crate::codec::lemma_subrange_concat(b, pos, p, end);
            assert(spec_encode_instruction(v) == b.subrange(pos, end));
        } else if tag == 9 {
            lemma_rt_junction(b, p);
            crate::codec::lemma_subrange_concat(b, pos, p, end);
            assert(spec_encode_instruction(v) == b.subrange(pos, end));
        } else {
            lemma_rt_body(b, p, depth - 1);
            crate::codec::lemma_subrange_concat(b, pos, p, end);
            assert(spec_encode_instruction(v) == b.subrange(pos, end));
        }
    }
}

/// Encoding what was decoded as an instruction list reproduces the bytes,
/// and the list has exactly the requested length.
pub proof fn lemma_rt_instr_list(b: Seq<u8>, pos: int, n: u64, depth: int)
    requires
        0 <= pos <= b.len(),
    ensures
        spec_decode_instr_list(b, pos, n, depth) matches Some((v, end)) ==> (pos <= end <= b.len()
            && v.len() == n && spec_encode_instr_list(v) == b.subrange(pos, end)),
    decreases depth, 1int, n,
{
    if n > 0 {
        if let Some((v, end)) = spec_decode_instr_list(b, pos, n, depth) {
            lemma_rt_instruction(b, pos, depth);
            let (i, p) = spec_decode_instruction(b, pos, depth)->Some_0;
            lemma_rt_instr_list(b, p, (n - 1) as u64, depth);
            let (rest, p2) = spec_decode_instr_list(b, p, (n - 1) as u64, depth)->Some_0;
            assert(v[0] == i);
            assert(v.subrange(1, v.len() as int) =~= rest);
            assert(spec_encode_instr_list(v) == spec_encode_instruction(v[0])
                + spec_encode_instr_list(v.subrange(1, v.len() as int)));
            assert(spec_encode_instruction(i) == b.subrange(pos, p));
            assert(spec_encode_instr_list(rest) == b.subrange(p, end));
            crate::codec::lemma_subrange_concat(b, pos, p, end);
            assert(spec_encode_instr_list(v) =~= b.subrange(pos, end));
        }
    } else {
        if let Some((v, end)) = spec_decode_instr_list(b, pos, n, depth) {
            assert(spec_encode_instr_list(v) =~= b.subrange(pos, end));
        }
    }
}

/// Encoding what was decoded as a program body reproduces the bytes.
pub proof fn lemma_rt_body(b: Seq<u8>, pos: int, depth: int)
    ensures
        spec_decode_body(b, pos, depth) matches Some((v, end)) ==> (pos <= end <= b.len()
            && spec_encode_body(v) == b.subrange(pos, end)),
    decreases depth, 2int, 0int,
{
    if let Some((v, end)) = spec_decode_body(b, pos, depth) {
        let (n, p) = spec_read_u64(b, pos)->Some_0;
        crate::codec::lemma_u64_round_trip(0, b.subrange(pos, pos + 8));
        lemma_rt_instr_list(b, p, n, depth);
        assert(v.len() as u64 == n);
        assert(spec_encode_body(v) =~= b.subrange(pos, end));
    }
}

/// Round trip of the instruction-program codec: re-encoding any
/// successfully decoded byte string reproduces it exactly.
pub proof fn lemma_program_round_trip(b: Seq<u8>)
    ensures
        spec_decode_program(b) matches Some(s) ==> spec_encode_program(s) == b,
{
    if let Some(s) = spec_decode_program(b) {
        lemma_rt_body(b, 1, MAX_DECODE_DEPTH as int);
        assert(spec_encode_program(s) =~= b);
    }
}


/// Decodes a network identifier.
fn decode_network(b: &[u8], pos: usize) -> (r: Option<(NetworkId, usize)>)
    requires
        pos <= b@.len(),
    ensures
        ({
            let sp = spec_decode_network(b@, pos as int);
            match r {
                Some((v, end)) => sp == Some((v, end as int)) && pos <= end <= b@.len(),
                None => sp is None,
            }
        }),
{
    if b.len() - pos < 1 {
        return None;
    }
    let tag = b[pos];
    if tag == 0 {
        if b.len() - (pos + 1) < 8 {
            return None;
        }
        let chain_id = crate::codec::decode_u64(b, pos + 1);
        Some((NetworkId::Ethereum { chain_id }, pos + 9))
    } else if tag == 1 {
        Some((NetworkId::Polkadot, pos + 1))
    } else if tag == 2 {
        Some((NetworkId::Kusama, pos + 1))
    } else {
        None
    }
}

/// Decodes an optional network tag.
fn decode_opt_network(b: &[u8], pos: usize) -> (r: Option<(Option<NetworkId>, usize)>)
    requires
        pos <= b@.len(),
    ensures
        ({
            let sp = spec_decode_opt_network(b@, pos as int);
            match r {
                Some((v, end)) => sp == Some((v, end as int)) && pos <= end <= b@.len(),
                None => sp is None,
            }
        }),
{
    if b.len() - pos < 1 {
        return None;
    }
    let tag = b[pos];
    if tag == 0 {
        Some((None, pos + 1))
    } else if tag == 1 {
        match decode_network(b, pos + 1) {
            None => None,
            Some((n, end)) => Some((Some(n), end)),
        }
    } else {
        None
    }
}

/// Decodes a single junction.
fn decode_junction(b: &[u8], pos: usize) -> (r: Option<(Junction, usize)>)
    requires
        pos <= b@.len(),
    ensures
        ({
            let sp = spec_decode_junction(b@, pos as int);
            match r {
                Some((v, end)) => sp == Some((v, end as int)) && pos <= end <= b@.len(),
                None => sp is None,
            }
        }),
{
    if b.len() - pos < 1 {
        return None;
    }
    let tag = b[pos];
    if tag == 0 {
        if b.len() - (pos + 1) < 4 {
            return None;
        }
        let para = crate::codec::decode_u32(b, pos + 1);
        Some((Junction::Parachain(para), pos + 5))
    } else if tag == 1 {
        match decode_opt_network(b, pos + 1) {
            None => None,
            Some((network, p2)) => {
                if b.len() - p2 < 20 {
                    return None;
                }
                let key = crate::codec::read_bytes::<20>(b, p2);
                proof {
                    crate::codec::lemma_bytes20_of(b@.subrange(p2 as int, p2 + 20));
                    assert(key =~= crate::codec::bytes20_of(b@.subrange(p2 as int, p2 + 20)));
                }
                Some((Junction::AccountKey20 { network, key }, p2 + 20))
            },
        }
    } else if tag == 2 {
        match decode_network(b, pos + 1) {
            None => None,
            Some((n, end)) => Some((Junction::GlobalConsensus(n), end)),
        }
    } else if tag == 3 {
        if b.len() - (pos + 1) < 1 {
            return None;
        }
        Some((Junction::PalletInstance(b[pos + 1]), pos + 2))
    } else {
        None
    }
}

/// Decodes a counted junction path.
fn decode_junctions(b: &[u8], pos: usize) -> (r: Option<(Vec<Junction>, usize)>)
    requires
        pos <= b@.len(),
    ensures
        ({
            let sp = spec_decode_junctions(b@, pos as int);
            match r {
                Some((v, end)) => sp == Some((v@, end as int)) && pos <= end <= b@.len(),
                None => sp is None,
            }
        }),
{
    if b.len() - pos < 8 {
        return None;
    }
    let n = crate::codec::decode_u64(b, pos);
    let mut acc: Vec<Junction> = Vec::new();
    let mut cur: usize = pos + 8;
    let mut i: u64 = 0;
    loop
        invariant
            i <= n,
            pos + 8 <= cur <= b@.len(),
            spec_read_u64(b@, pos as int) == Some((n, pos + 8int)),
            spec_decode_junction_list(b@, pos + 8, n) == (match spec_decode_junction_list(
                b@,
                cur as int,
                (n - i) as u64,
            ) {
                Some((rest, e)) => Some((acc@ + rest, e)),
                None => None::<(Seq<Junction>, int)>,
            }),
        decreases n - i,
    {
        if i == n {
            proof {
                assert(acc@ + Seq::<Junction>::empty() =~= acc@);
            }
            return Some((acc, cur));
        }
        match decode_junction(b, cur) {
            None => {
                return None;
            },
            Some((j, p2)) => {
                proof {
                    let rest_all = spec_decode_junction_list(b@, p2 as int, (n - i - 1) as u64);
                    if let Some((rest, e)) = rest_all {
                        assert(acc@ + (seq![j] + rest) =~= (acc@ + seq![j]) + rest);
                        assert(acc@.push(j) =~= acc@ + seq![j]);
                    }
                }
                acc.push(j);
                cur = p2;
                i = i + 1;
            },
        }
    }
}

/// Decodes a location.
fn decode_location(b: &[u8], pos: usize) -> (r: Option<(Location, usize)>)
    requires
        pos <= b@.len(),
    ensures
        ({
            let sp = spec_decode_location(b@, pos as int);
            match r {
                Some((v, end)) => sp == Some((v@, end as int)) && pos <= end <= b@.len(),
                None => sp is None,
            }
        }),
{
    if b.len() - pos < 1 {
        return None;
    }
    let parents = b[pos];
    match decode_junctions(b, pos + 1) {
        None => None,
        Some((interior, end)) => Some((Location { parents, interior }, end)),
    }
}

/// Decodes a fungibility.
fn decode_fungibility(b: &[u8], pos: usize) -> (r: Option<(Fungibility, usize)>)
    requires
        pos <= b@.len(),
    ensures
        ({
            let sp = spec_decode_fungibility(b@, pos as int);
            match r {
                Some((v, end)) => sp == Some((v, end as int)) && pos <= end <= b@.len(),
                None => sp is None,
            }
        }),
{
    if b.len() - pos < 1 {
        return None;
    }
    let tag = b[pos];
    if tag == 0 {
        if b.len() - (pos + 1) < 16 {
            return None;
        }
        let a = crate::codec::decode_u128(b, pos + 1);
        Some((Fungibility::Fungible(a), pos + 17))
    } else if tag == 1 {
        Some((Fungibility::NonFungible, pos + 1))
    } else {
        None
    }
}

/// Decodes one asset.
fn decode_asset(b: &[u8], pos: usize) -> (r: Option<(Asset, usize)>)
    requires
        pos <= b@.len(),
    ensures
        ({
            let sp = spec_decode_asset(b@, pos as int);
            match r {
                Some((v, end)) => sp == Some((v@, end as int)) && pos <= end <= b@.len(),
                None => sp is None,
            }
        }),
{
    match decode_location(b, pos) {
        None => None,
        Some((id, p)) => match decode_fungibility(b, p) {
            None => None,
            Some((fun, end)) => Some((Asset { id, fun }, end)),
        },
    }
}

/// Decodes a counted asset collection.
fn decode_assets(b: &[u8], pos: usize) -> (r: Option<(Vec<Asset>, usize)>)
    requires
        pos <= b@.len(),
    ensures
        ({
            let sp = spec_decode_assets(b@, pos as int);
            match r {
                Some((v, end)) => sp == Some((v.deep_view(), end as int)) && pos <= end <= b@.len(),
                None => sp is None,
            }
        }),
{
    if b.len() - pos < 8 {
        return None;
    }
    let n = crate::codec::decode_u64(b, pos);
    let mut acc: Vec<Asset> = Vec::new();
    let mut cur: usize = pos + 8;
    let mut i: u64 = 0;
    loop
        invariant
            i <= n,
            pos + 8 <= cur <= b@.len(),
            spec_read_u64(b@, pos as int) == Some((n, pos + 8int)),
            spec_decode_asset_list(b@, pos + 8, n) == (match spec_decode_asset_list(
                b@,
                cur as int,
                (n - i) as u64,
            ) {
                Some((rest, e)) => Some((acc.deep_view() + rest, e)),
                None => None::<(Seq<AssetV>, int)>,
            }),
        decreases n - i,
    {
        if i == n {
            proof {
                assert(acc.deep_view() + Seq::<AssetV>::empty() =~= acc.deep_view());
            }
            return Some((acc, cur));
        }
        match decode_asset(b, cur) {
            None => {
                return None;
            },
            Some((a, p2)) => {
                proof {
                    let rest_all = spec_decode_asset_list(b@, p2 as int, (n - i - 1) as u64);
                    if let Some((rest, e)) = rest_all {
                        assert(acc.deep_view() + (seq![a@] + rest) =~= (acc.deep_view() + seq![a@])
                            + rest);
                    }
                }
                let ghost pre = acc.deep_view();
                acc.push(a);
                proof {
                    assert(acc.deep_view() =~= pre + seq![a@]);
                }
                cur = p2;
                i = i + 1;
            },
        }
    }
}

/// Decodes a wildcard selector.
fn decode_wild(b: &[u8], pos: usize) -> (r: Option<(WildAsset, usize)>)
    requires
        pos <= b@.len(),
    ensures
        ({
            let sp = spec_decode_wild(b@, pos as int);
            match r {
                Some((v, end)) => sp == Some((v, end as int)) && pos <= end <= b@.len(),
                None => sp is None,
            }
        }),
{
    if b.len() - pos < 1 {
        return None;
    }
    let tag = b[pos];
    if tag == 0 {
        Some((WildAsset::All, pos + 1))
    } else if tag == 1 {
        if b.len() - (pos + 1) < 4 {
            return None;
        }
        let n = crate::codec::decode_u32(b, pos + 1);
        Some((WildAsset::AllCounted(n), pos + 5))
    } else {
        None
    }
}

/// Decodes an asset filter.
fn decode_filter(b: &[u8], pos: usize) -> (r: Option<(AssetFilter, usize)>)
    requires
        pos <= b@.len(),
    ensures
        ({
            let sp = spec_decode_filter(b@, pos as int);
            match r {
                Some((v, end)) => sp == Some((v@, end as int)) && pos <= end <= b@.len(),
                None => sp is None,
            }
        }),
{
    if b.len() - pos < 1 {
        return None;
    }
    let tag = b[pos];
    if tag == 0 {
        match decode_assets(b, pos + 1) {
            None => None,
            Some((s, end)) => Some((AssetFilter::Definite(s), end)),
        }
    } else if tag == 1 {
        match decode_wild(b, pos + 1) {
            None => None,
            Some((w, end)) => Some((AssetFilter::Wild(w), end)),
        }
    } else {
        None
    }
}

/// Decodes a weight limit.
fn decode_weight_limit(b: &[u8], pos: usize) -> (r: Option<(WeightLimit, usize)>)
    requires
        pos <= b@.len(),
    ensures
        ({
            let sp = spec_decode_weight_limit(b@, pos as int);
            match r {
                Some((v, end)) => sp == Some((v, end as int)) && pos <= end <= b@.len(),
                None => sp is None,
            }
        }),
{
    if b.len() - pos < 1 {
        return None;
    }
    let tag = b[pos];
    if tag == 0 {
        Some((WeightLimit::Unlimited, pos + 1))
    } else if tag == 1 {
        if b.len() - (pos + 1) < 8 {
            return None;
        }
        let n = crate::codec::decode_u64(b, pos + 1);
        Some((WeightLimit::Limited(n), pos + 9))
    } else {
        None
    }
}

/// Decodes one instruction, spending depth budget on a nested program.
fn decode_instruction(b: &[u8], pos: usize, depth: u32) -> (r: Option<(Instruction, usize)>)
    requires
        pos <= b@.len(),
    ensures
        ({
            let sp = spec_decode_instruction(b@, pos as int, depth as int);
            match r {
                Some((v, end)) => sp == Some((crate::types::instr_view(v), end as int)) && pos
                    <= end <= b@.len(),
                None => sp is None,
            }
        }),
    decreases depth, 0int,
{
    if b.len() - pos < 1 {
        return None;
    }
    let tag = b[pos];
    let p = pos + 1;
    if tag == 0 {
        match decode_assets(b, p) {
            None => None,
            Some((a, end)) => Some((Instruction::WithdrawAsset(a), end)),
        }
    } else if tag == 1 {
        match decode_assets(b, p) {
            None => None,
            Some((a, end)) => Some((Instruction::ReserveAssetDeposited(a), end)),
        }
    } else if tag == 2 {
        match decode_assets(b, p) {
            None => None,
            Some((a, end)) => Some((Instruction::ReceiveTeleportedAsset(a), end)),
        }
    } else if tag == 3 {
        Some((Instruction::ClearOrigin, p))
    } else if tag == 4 {
        match decode_asset(b, p) {
            None => None,
            Some((fees, p2)) => match decode_weight_limit(b, p2) {
                None => None,
                Some((weight_limit, end)) => Some(
                    (Instruction::BuyExecution { fees, weight_limit }, end),
                ),
            },
        }
    } else if tag == 5 {
        match decode_assets(b, p) {
            None => None,
            Some((a, end)) => Some((Instruction::ExpectAsset(a), end)),
        }
    } else if tag == 6 {
        match decode_filter(b, p) {
            None => None,
            Some((assets, p2)) => match decode_location(b, p2) {
                None => None,
                Some((beneficiary, end)) => Some(
                    (Instruction::DepositAsset { assets, beneficiary }, end),
                ),
            },
        }
    } else if tag == 7 {
        if b.len() - p < 32 {
            return None;
        }
        let t = crate::codec::read_bytes::<32>(b, p);
        proof {
            crate::codec::lemma_bytes32_of(b@.subrange(p as int, p + 32));
            assert(t =~= crate::codec::bytes32_of(b@.subrange(p as int, p + 32)));
        }
        Some((Instruction::SetTopic(t), p + 32))
    } else if tag == 8 {
        match decode_junctions(b, p) {
            None => None,
            Some((j, end)) => Some((Instruction::DescendOrigin(j), end)),
        }
    } else if tag == 9 {
        match decode_junction(b, p) {
            None => None,
            Some((j, end)) => Some((Instruction::UniversalOrigin(j), end)),
        }
    } else if tag == 10 {
        Some((Instruction::RefundSurplus, p))
    } else if tag == 11 {
        if depth == 0 {
            return None;
        }
        match decode_body(b, p, depth - 1) {
            None => None,
            Some((inner, end)) => Some((Instruction::SetAppendix(Xcm(inner)), end)),
        }
    } else {
        None
    }
}

/// Decodes a counted program body, refusing an exhausted depth budget.
fn decode_body(b: &[u8], pos: usize, depth: u32) -> (r: Option<(Vec<Instruction>, usize)>)
    requires
        pos <= b@.len(),
    ensures
        ({
            let sp = spec_decode_body(b@, pos as int, depth as int);
            match r {
                Some((v, end)) => sp == Some((crate::types::instrs_view(v@), end as int)) && pos
                    <= end <= b@.len(),
                None => sp is None,
            }
        }),
    decreases depth, 1int,
{
    if b.len() - pos < 8 {
        return None;
    }
    let n = crate::codec::decode_u64(b, pos);
    let mut acc: Vec<Instruction> = Vec::new();
    let mut cur: usize = pos + 8;
    let mut i: u64 = 0;
    loop
        invariant
            i <= n,
            pos + 8 <= cur <= b@.len(),
            pos <= b@.len(),
            spec_read_u64(b@, pos as int) == Some((n, pos + 8int)),
            spec_decode_instr_list(b@, pos + 8, n, depth as int) == (match spec_decode_instr_list(
                b@,
                cur as int,
                (n - i) as u64,
                depth as int,
            ) {
                Some((rest, e)) => Some((crate::types::instrs_view(acc@) + rest, e)),
                None => None::<(Seq<InstructionV>, int)>,
            }),
        decreases n - i,
    {
        if i == n {
            proof {
                assert(crate::types::instrs_view(acc@) + Seq::<InstructionV>::empty()
                    =~= crate::types::instrs_view(acc@));
            }
            return Some((acc, cur));
        }
        match decode_instruction(b, cur, depth) {
            None => {
                return None;
            },
            Some((ins, p2)) => {
                proof {
                    let iv = crate::types::instr_view(ins);
                    let rest_all = spec_decode_instr_list(
                        b@,
                        p2 as int,
                        (n - i - 1) as u64,
                        depth as int,
                    );
                    if let Some((rest, e)) = rest_all {
                        assert(crate::types::instrs_view(acc@) + (seq![iv] + rest) =~= (
                        crate::types::instrs_view(acc@) + seq![iv]) + rest);
                    }
                }
                let ghost pre = acc@;
                acc.push(ins);
                proof {
                    assert(crate::types::instrs_view(acc@) =~= crate::types::instrs_view(pre)
                        + seq![crate::types::instr_view(acc@[pre.len() as int])]);
                }
                cur = p2;
                i = i + 1;
            },
        }
    }
}

/// Decodes a whole versioned, depth-limited program.  Every byte must be
/// consumed and the version byte must match; anything else is a typed
/// decode error, never a panic.
pub fn decode_program(bytes: &[u8]) -> (r: Result<Xcm, crate::codec::DecodeError>)
    ensures
        (r matches Ok(x) ==> spec_decode_program(bytes@) == Some(x@)),
        (r is Err ==> spec_decode_program(bytes@) is None),
{
    if bytes.len() < 1 {
        return Err(crate::codec::DecodeError);
    }
    if bytes[0] != PROGRAM_VERSION {
        return Err(crate::codec::DecodeError);
    }
    match decode_body(bytes, 1, MAX_DECODE_DEPTH) {
        None => Err(crate::codec::DecodeError),
        Some((v, end)) => {
            if end == bytes.len() {
                Ok(Xcm(v))
            } else {
                Err(crate::codec::DecodeError)
            }
        },
    }
}


/// Writes the encoding of a network identifier.
fn encode_network(n: &NetworkId, out: &mut Vec<u8>)
    ensures
        final(out)@ == old(out)@ + spec_encode_network(*n),
{
    match n {
        NetworkId::Ethereum { chain_id } => {
            out.push(0u8);
            crate::codec::encode_u64(*chain_id, out);
            proof {
                assert(out@ =~= old(out)@ + spec_encode_network(*n));
            }
        },
        NetworkId::Polkadot => {
            out.push(1u8);
            proof {
                assert(out@ =~= old(out)@ + spec_encode_network(*n));
            }
        },
        NetworkId::Kusama => {
            out.push(2u8);
            proof {
                assert(out@ =~= old(out)@ + spec_encode_network(*n));
            }
        },
    }
}

/// Writes the encoding of an optional network tag.
fn encode_opt_network(n: &Option<NetworkId>, out: &mut Vec<u8>)
    ensures
        final(out)@ == old(out)@ + spec_encode_opt_network(*n),
{
    match n {
        None => {
            out.push(0u8);
            proof {
                assert(out@ =~= old(out)@ + spec_encode_opt_network(*n));
            }
        },
        Some(x) => {
            out.push(1u8);
            encode_network(x, out);
            proof {
                assert(out@ =~= old(out)@ + spec_encode_opt_network(*n));
            }
        },
    }
}

/// Writes the encoding of a single junction.
fn encode_junction(j: &Junction, out: &mut Vec<u8>)
    ensures
        final(out)@ == old(out)@ + spec_encode_junction(*j),
{
    match j {
        Junction::Parachain(p) => {
            out.push(0u8);
            crate::codec::encode_u32(*p, out);
            proof {
                assert(out@ =~= old(out)@ + spec_encode_junction(*j));
            }
        },
        Junction::AccountKey20 { network, key } => {
            out.push(1u8);
            encode_opt_network(network, out);
            crate::codec::push_bytes(key, out);
            proof {
                assert(out@ =~= old(out)@ + spec_encode_junction(*j));
            }
        },
        Junction::GlobalConsensus(n) => {
            out.push(2u8);
            encode_network(n, out);
            proof {
                assert(out@ =~= old(out)@ + spec_encode_junction(*j));
            }
        },
        Junction::PalletInstance(i) => {
            out.push(3u8);
            out.push(*i);
            proof {
                assert(out@ =~= old(out)@ + spec_encode_junction(*j));
            }
        },
    }
}

/// Writes the encodings of the junctions from index `i` on.
fn encode_junction_list_from(v: &Vec<Junction>, i: usize, out: &mut Vec<u8>)
    requires
        i <= v@.len(),
    ensures
        final(out)@ == old(out)@ + spec_encode_junction_list(v@.subrange(i as int, v@.len() as int)),
    decreases v@.len() - i,
{
    if i < v.len() {
        encode_junction(&v[i], out);
        encode_junction_list_from(v, i + 1, out);
        proof {
            let tail = v@.subrange(i as int, v@.len() as int);
            assert(tail[0] == v@[i as int]);
            assert(tail.drop_first() =~= v@.subrange(i + 1, v@.len() as int));
            assert(out@ =~= old(out)@ + spec_encode_junction_list(tail));
        }
    } else {
        proof {
            assert(v@.subrange(i as int, v@.len() as int) =~= Seq::<Junction>::empty());
            assert(out@ =~= old(out)@ + spec_encode_junction_list(
                v@.subrange(i as int, v@.len() as int),
            ));
        }
    }
}

/// Writes the encoding of a counted junction path.
fn encode_junctions(v: &Vec<Junction>, out: &mut Vec<u8>)
    ensures
        final(out)@ == old(out)@ + spec_encode_junctions(v@),
{
    crate::codec::encode_u64(v.len() as u64, out);
    encode_junction_list_from(v, 0, out);
    proof {
        assert(v@.subrange(0, v@.len() as int) =~= v@);
        assert(out@ =~= old(out)@ + spec_encode_junctions(v@));
    }
}

/// Writes the encoding of a location.
fn encode_location(l: &Location, out: &mut Vec<u8>)
    ensures
        final(out)@ == old(out)@ + spec_encode_location(l@),
{
    out.push(l.parents);
    encode_junctions(&l.interior, out);
    proof {
        assert(out@ =~= old(out)@ + spec_encode_location(l@));
    }
}

/// Writes the encoding of a fungibility.
fn encode_fungibility(f: &Fungibility, out: &mut Vec<u8>)
    ensures
        final(out)@ == old(out)@ + spec_encode_fungibility(*f),
{
    match f {
        Fungibility::Fungible(a) => {
            out.push(0u8);
            crate::codec::encode_u128(*a, out);
            proof {
                assert(out@ =~= old(out)@ + spec_encode_fungibility(*f));
            }
        },
        Fungibility::NonFungible => {
            out.push(1u8);
            proof {
                assert(out@ =~= old(out)@ + spec_encode_fungibility(*f));
            }
        },
    }
}

/// Writes the encoding of one asset.
fn encode_asset(a: &Asset, out: &mut Vec<u8>)
    ensures
        final(out)@ == old(out)@ + spec_encode_asset(a@),
{
    encode_location(&a.id, out);
    encode_fungibility(&a.fun, out);
    proof {
        assert(out@ =~= old(out)@ + spec_encode_asset(a@));
    }
}

/// Writes the encodings of the assets from index `i` on.
fn encode_asset_list_from(v: &Vec<Asset>, i: usize, out: &mut Vec<u8>)
    requires
        i <= v@.len(),
    ensures
        final(out)@ == old(out)@ + spec_encode_asset_list(
            v.deep_view().subrange(i as int, v@.len() as int),
        ),
    decreases v@.len() - i,
{
    if i < v.len() {
        encode_asset(&v[i], out);
        encode_asset_list_from(v, i + 1, out);
        proof {
            let tail = v.deep_view().subrange(i as int, v@.len() as int);
            assert(tail[0] == v.deep_view()[i as int]);
            assert(tail.drop_first() =~= v.deep_view().subrange(i + 1, v@.len() as int));
            assert(out@ =~= old(out)@ + spec_encode_asset_list(tail));
        }
    } else {
        proof {
            assert(v.deep_view().subrange(i as int, v@.len() as int) =~= Seq::<AssetV>::empty());
            assert(out@ =~= old(out)@ + spec_encode_asset_list(
                v.deep_view().subrange(i as int, v@.len() as int),
            ));
        }
    }
}

/// Writes the encoding of a counted asset collection.
fn encode_assets(v: &Vec<Asset>, out: &mut Vec<u8>)
    ensures
        final(out)@ == old(out)@ + spec_encode_assets(v.deep_view()),
{
    crate::codec::encode_u64(v.len() as u64, out);
    encode_asset_list_from(v, 0, out);
    proof {
        assert(v.deep_view().subrange(0, v@.len() as int) =~= v.deep_view());
        assert(out@ =~= old(out)@ + spec_encode_assets(v.deep_view()));
    }
}

/// Writes the encoding of a wildcard selector.
fn encode_wild(w: &WildAsset, out: &mut Vec<u8>)
    ensures
        final(out)@ == old(out)@ + spec_encode_wild(*w),
{
    match w {
        WildAsset::All => {
            out.push(0u8);
            proof {
                assert(out@ =~= old(out)@ + spec_encode_wild(*w));
            }
        },
        WildAsset::AllCounted(n) => {
            out.push(1u8);
            crate::codec::encode_u32(*n, out);
            proof {
                assert(out@ =~= old(out)@ + spec_encode_wild(*w));
            }
        },
    }
}

/// Writes the encoding of an asset filter.
fn encode_filter(f: &AssetFilter, out: &mut Vec<u8>)
    ensures
        final(out)@ == old(out)@ + spec_encode_filter(f@),
{
    match f {
        AssetFilter::Definite(v) => {
            out.push(0u8);
            encode_assets(v, out);
            proof {
                assert(out@ =~= old(out)@ + spec_encode_filter(f@));
            }
        },
        AssetFilter::Wild(w) => {
            out.push(1u8);
            encode_wild(w, out);
            proof {
                assert(out@ =~= old(out)@ + spec_encode_filter(f@));
            }
        },
    }
}

/// Writes the encoding of a weight limit.
fn encode_weight_limit(w: &WeightLimit, out: &mut Vec<u8>)
    ensures
        final(out)@ == old(out)@ + spec_encode_weight_limit(*w),
{
    match w {
        WeightLimit::Unlimited => {
            out.push(0u8);
            proof {
                assert(out@ =~= old(out)@ + spec_encode_weight_limit(*w));
            }
        },
        WeightLimit::Limited(n) => {
            out.push(1u8);
            crate::codec::encode_u64(*n, out);
            proof {
                assert(out@ =~= old(out)@ + spec_encode_weight_limit(*w));
            }
        },
    }
}

/// Writes the encoding of one instruction.
fn encode_instruction(ins: &Instruction, out: &mut Vec<u8>)
    ensures
        final(out)@ == old(out)@ + spec_encode_instruction(crate::types::instr_view(*ins)),
    decreases *ins, 0int, 0int,
{
    match ins {
        Instruction::WithdrawAsset(a) => {
            out.push(0u8);
            encode_assets(a, out);
            proof {
                assert(out@ =~= old(out)@ + spec_encode_instruction(crate::types::instr_view(*ins)));
            }
        },
        Instruction::ReserveAssetDeposited(a) => {
            out.push(1u8);
            encode_assets(a, out);
            proof {
                assert(out@ =~= old(out)@ + spec_encode_instruction(crate::types::instr_view(*ins)));
            }
        },
        Instruction::ReceiveTeleportedAsset(a) => {
            out.push(2u8);
            encode_assets(a, out);
            proof {
                assert(out@ =~= old(out)@ + spec_encode_instruction(crate::types::instr_view(*ins)));
            }
        },
        Instruction::ClearOrigin => {
            out.push(3u8);
            proof {
                assert(out@ =~= old(out)@ + spec_encode_instruction(crate::types::instr_view(*ins)));
            }
        },
        Instruction::BuyExecution { fees, weight_limit } => {
            out.push(4u8);
            encode_asset(fees, out);
            encode_weight_limit(weight_limit, out);
            proof {
                assert(out@ =~= old(out)@ + spec_encode_instruction(crate::types::instr_view(*ins)));
            }
        },
        Instruction::ExpectAsset(a) => {
            out.push(5u8);
            encode_assets(a, out);
            proof {
                assert(out@ =~= old(out)@ + spec_encode_instruction(crate::types::instr_view(*ins)));
            }
        },
        Instruction::DepositAsset { assets, beneficiary } => {
            out.push(6u8);
            encode_filter(assets, out);
            encode_location(beneficiary, out);
            proof {
                assert(out@ =~= old(out)@ + spec_encode_instruction(crate::types::instr_view(*ins)));
            }
        },
        Instruction::SetTopic(t) => {
            out.push(7u8);
            crate::codec::push_bytes(t, out);
            proof {
                assert(out@ =~= old(out)@ + spec_encode_instruction(crate::types::instr_view(*ins)));
            }
        },
        Instruction::DescendOrigin(j) => {
            out.push(8u8);
            encode_junctions(j, out);
            proof {
                assert(out@ =~= old(out)@ + spec_encode_instruction(crate::types::instr_view(*ins)));
            }
        },
        Instruction::UniversalOrigin(j) => {
            out.push(9u8);
            encode_junction(j, out);
            proof {
                assert(out@ =~= old(out)@ + spec_encode_instruction(crate::types::instr_view(*ins)));
            }
        },
        Instruction::RefundSurplus => {
            out.push(10u8);
            proof {
                assert(out@ =~= old(out)@ + spec_encode_instruction(crate::types::instr_view(*ins)));
            }
        },
        Instruction::SetAppendix(x) => {
            out.push(11u8);
            proof {
                assert(decreases_to!(*ins => x.0));
                assert(decreases_to!(x.0 => x.0@));
            }
            encode_body(&x.0, out);
            proof {
                assert(out@ =~= old(out)@ + spec_encode_instruction(crate::types::instr_view(*ins)));
            }
        },
    }
}

/// Writes the encodings of the instructions from index `i` on.
fn encode_instr_list_from(v: &Vec<Instruction>, i: usize, out: &mut Vec<u8>)
    requires
        i <= v@.len(),
    ensures
        final(out)@ == old(out)@ + spec_encode_instr_list(
            crate::types::instrs_view(v@).subrange(i as int, v@.len() as int),
        ),
    decreases v@, v@.len() - i, 2int,
{
    if i < v.len() {
        proof {
            assert(decreases_to!(v@ => v@[i as int]));
        }
        encode_instruction(&v[i], out);
        encode_instr_list_from(v, i + 1, out);
        proof {
            let tail = crate::types::instrs_view(v@).subrange(i as int, v@.len() as int);
            assert(tail[0] == crate::types::instr_view(v@[i as int]));
            assert(tail.drop_first() =~= crate::types::instrs_view(v@).subrange(
                i + 1,
                v@.len() as int,
            ));
            assert(out@ =~= old(out)@ + spec_encode_instr_list(tail));
        }
    } else {
        proof {
            assert(crate::types::instrs_view(v@).subrange(i as int, v@.len() as int)
                =~= Seq::<InstructionV>::empty());
            assert(out@ =~= old(out)@ + spec_encode_instr_list(
                crate::types::instrs_view(v@).subrange(i as int, v@.len() as int),
            ));
        }
    }
}

/// Writes the encoding of a counted program body.
fn encode_body(v: &Vec<Instruction>, out: &mut Vec<u8>)
    ensures
        final(out)@ == old(out)@ + spec_encode_body(crate::types::instrs_view(v@)),
    decreases v@, v@.len() + 1, 1int,
{
    crate::codec::encode_u64(v.len() as u64, out);
    encode_instr_list_from(v, 0, out);
    proof {
        assert(crate::types::instrs_view(v@).subrange(0, v@.len() as int) =~= crate::types::instrs_view(
            v@,
        ));
        assert(out@ =~= old(out)@ + spec_encode_body(crate::types::instrs_view(v@)));
    }
}

/// Encodes a whole program under the current version.
pub fn encode_program(program: &Xcm) -> (r: Vec<u8>)
    ensures
        r@ == spec_encode_program(program@),
{
    let mut out: Vec<u8> = Vec::new();
    out.push(PROGRAM_VERSION);
    encode_body(&program.0, &mut out);
    proof {
        assert(out@ =~= spec_encode_program(program@));
    }
    out
}

} // verus!
