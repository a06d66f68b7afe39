use crate::key::Key;
use anchor_lang::prelude::Pubkey;
use vstd::prelude::*;

verus! {

/// What `Pubkey::try_find_program_address` returns for a list of seeds and a
/// program identity: the first address off the ed25519 curve, searching the
/// bump seed downwards from 255, with that bump; `None` when there is none.
pub uninterp spec fn found_address(seeds: Seq<Seq<u8>>, program: Seq<u8>) -> Option<(Seq<u8>, u8)>;

/// What `Pubkey::create_program_address` returns for a list of seeds (the
/// bump seed included) and a program identity; `None` for its errors.
pub uninterp spec fn created_address(seeds: Seq<Seq<u8>>, program: Seq<u8>) -> Option<Seq<u8>>;

/// The domain tag that every counter address is derived from: "counter".
pub open spec fn counter_tag() -> Seq<u8> {
    seq![99u8, 111u8, 117u8, 110u8, 116u8, 101u8, 114u8]
}

/// The seeds of the address of `owner`'s counter, without the bump seed.
pub open spec fn counter_seeds(owner: Seq<u8>) -> Seq<Seq<u8>> {
    seq![counter_tag(), owner]
}

/// The address of `owner`'s counter under `program`, with its bump seed.
pub open spec fn derived(program: Seq<u8>, owner: Seq<u8>) -> Option<(Seq<u8>, u8)> {
    found_address(counter_seeds(owner), program)
}

/// The address that `owner` and a stored bump seed lead to under `program`.
pub open spec fn rederived(program: Seq<u8>, owner: Seq<u8>, bump: u8) -> Option<Seq<u8>> {
    created_address(counter_seeds(owner).push(seq![bump]), program)
}

/// The view of a derived address and its bump.
pub open spec fn derived_view(r: Option<(Key, u8)>) -> Option<(Seq<u8>, u8)> {
    match r {
        Some((a, b)) => Some((a@, b)),
        None => None,
    }
}

/// Relies on anchor_lang's `Pubkey::try_find_program_address` (solana_program
/// 1.18): off-chain it tries bump seeds 255, 254, ... and returns the first
/// `create_program_address(seeds ++ [[bump]], program)` that is `Ok`, with
/// that bump; `None` when no bump works or a seed is too long. It never panics.
#[verifier::external_body]
fn find_program_address(tag: &[u8], owner: &[u8; 32], program: &[u8; 32]) -> (r: Option<([u8; 32], u8)>)
    ensures
        match r {
            Some((a, b)) => found_address(seq![tag@, owner@], program@) == Some((a@, b)),
            None => found_address(seq![tag@, owner@], program@) is None,
        },
        r matches Some((a, b)) ==> created_address(seq![tag@, owner@, seq![b]], program@) == Some(a@),
{
    Pubkey::try_find_program_address(&[tag, owner], &Pubkey::new_from_array(*program)).map(
        |(k, b)| (k.to_bytes(), b),
    )
}

/// Relies on anchor_lang's `Pubkey::create_program_address` (solana_program
/// 1.18): the address that the seeds, the bump seed last, lead to under the
/// program, or an error (mapped to `None`). It never panics.
#[verifier::external_body]
fn create_program_address(tag: &[u8], owner: &[u8; 32], bump: u8, program: &[u8; 32]) -> (r: Option<[u8; 32]>)
    ensures
        match r {
            Some(a) => created_address(seq![tag@, owner@, seq![bump]], program@) == Some(a@),
            None => created_address(seq![tag@, owner@, seq![bump]], program@) is None,
        },
{
    Pubkey::create_program_address(&[tag, owner, &[bump]], &Pubkey::new_from_array(*program)).ok().map(
        |k| k.to_bytes(),
    )
}

/// The bytes of the domain tag.
pub fn counter_tag_bytes() -> (r: [u8; 7])
    ensures
        r@ == counter_tag(),
{
    let r: [u8; 7] = [99u8, 111u8, 117u8, 110u8, 116u8, 101u8, 114u8];
    assert(r@ =~= counter_tag());
    r
}

/// The address of `owner`'s counter under `program_id`, and its bump seed.
/// A pure function of its arguments.
pub fn derive_address(program_id: &Key, owner: &Key) -> (r: Option<(Key, u8)>)
    ensures
        derived_view(r) == derived(program_id@, owner@),
        r matches Some((a, b)) ==> rederived(program_id@, owner@, b) == Some(a@),
{
    let tag = counter_tag_bytes();
    let found = find_program_address(tag.as_slice(), &owner.bytes, &program_id.bytes);
    assert(seq![tag@, owner@] =~= counter_seeds(owner@));
    match found {
        Some((a, b)) => {
            assert(seq![tag@, owner@, seq![b]] =~= counter_seeds(owner@).push(seq![b]));
            Some((Key::new(a), b))
        },
        None => None,
    }
}

/// The address that `owner` and `bump` lead to under `program_id`.
pub fn rederive_address(program_id: &Key, owner: &Key, bump: u8) -> (r: Option<Key>)
    ensures
        match r {
            Some(a) => rederived(program_id@, owner@, bump) == Some(a@),
            None => rederived(program_id@, owner@, bump) is None,
        },
{
    let tag = counter_tag_bytes();
    let created = create_program_address(tag.as_slice(), &owner.bytes, bump, &program_id.bytes);
    assert(seq![tag@, owner@, seq![bump]] =~= counter_seeds(owner@).push(seq![bump]));
    match created {
        Some(a) => Some(Key::new(a)),
        None => None,
    }
}

} // verus!
