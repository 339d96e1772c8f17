//! Program-derived addresses, computed by `solana-address` (whose `Address`
//! `pinocchio` re-exports).
use vstd::prelude::*;
use crate::account::Address;

verus! {

/// The result of searching for a program-derived address for `seeds` under
/// `program_id` (bump seeds tried from 255 down), as computed by
/// `Address::try_find_program_address`: the address and its bump, or none.
pub uninterp spec fn found_program_address(seeds: Seq<Seq<u8>>, program_id: Seq<u8>) -> Option<
    (Seq<u8>, u8),
>;

/// The result of `Address::derive_program_address` for `seeds` under
/// `program_id`: the address and its bump, or none.
pub uninterp spec fn derived_program_address(seeds: Seq<Seq<u8>>, program_id: Seq<u8>) -> Option<
    (Seq<u8>, u8),
>;

/// The views of a list of seeds.
pub open spec fn seeds_view(seeds: Seq<Vec<u8>>) -> Seq<Seq<u8>> {
    seeds.map_values(|s: Vec<u8>| s@)
}

/// Calls `Address::try_find_program_address`. Claimed: the result is the
/// named search result for these seeds and this program id.
#[verifier::external_body]
pub(crate) fn try_find_program_address(seeds: &Vec<Vec<u8>>, program_id: &Address) -> (r: Option<
    (Address, u8),
>)
    ensures
        r is None <==> found_program_address(seeds_view(seeds@), program_id@) is None,
        r matches Some(p) ==> found_program_address(seeds_view(seeds@), program_id@) == Some(
            (p.0@, p.1),
        ),
{
    let refs: Vec<&[u8]> = seeds.iter().map(|s| s.as_slice()).collect();
    pinocchio::Address::try_find_program_address(
        &refs,
        &pinocchio::Address::new_from_array(*program_id),
    ).map(|(a, b)| (a.to_bytes(), b))
}

/// Calls `Address::derive_program_address` with three seeds. Claimed: the
/// result is the named derivation result for these seeds and program id.
#[verifier::external_body]
pub(crate) fn derive_program_address(
    seed0: &Address,
    seed1: &Address,
    seed2: &Address,
    program_id: &Address,
) -> (r: Option<(Address, u8)>)
    ensures
        r is None <==> derived_program_address(seq![seed0@, seed1@, seed2@], program_id@) is None,
        r matches Some(p) ==> derived_program_address(seq![seed0@, seed1@, seed2@], program_id@)
            == Some((p.0@, p.1)),
{
    pinocchio::Address::derive_program_address(
        &[seed0.as_slice(), seed1.as_slice(), seed2.as_slice()],
        &pinocchio::Address::new_from_array(*program_id),
    ).map(|(a, b)| (a.to_bytes(), b))
}

} // verus!
