use vstd::prelude::*;

use crate::address::Address;

verus! {

/// What `Pubkey::create_program_address` returns for the seed triple
/// `[tag, owner, [bump]]` and the given program identity: the derived
/// address, or `None` where the candidate is rejected (it would have an
/// associated signing key) or the arguments are malformed. The value is a
/// SHA-256 digest of the arguments alone, so it is the same in every
/// process; its bytes are not stated here.
pub uninterp spec fn pda_address(tag: Seq<u8>, owner: Seq<u8>, bump: u8, program: Seq<u8>) -> Option<
    Seq<u8>,
>;

/// Domain-separation tag of the state address (the metadata record's home).
pub open spec fn state_tag() -> Seq<u8> {
    seq![115u8, 116u8, 97u8, 116u8, 101u8]
}

/// Domain-separation tag of the vault address (the escrowed balance).
pub open spec fn vault_tag() -> Seq<u8> {
    seq![118u8, 97u8, 117u8, 108u8, 116u8]
}

/// The bytes of `state_tag()`: `b"state"`.
pub fn state_tag_bytes() -> (r: Vec<u8>)
    ensures
        r@ == state_tag(),
{
    let mut v: Vec<u8> = Vec::new();
    v.push(115);
    v.push(116);
    v.push(97);
    v.push(116);
    v.push(101);
    proof {
        assert(v@ =~= state_tag());
    }
    v
}

/// The bytes of `vault_tag()`: `b"vault"`.
pub fn vault_tag_bytes() -> (r: Vec<u8>)
    ensures
        r@ == vault_tag(),
{
    let mut v: Vec<u8> = Vec::new();
    v.push(118);
    v.push(97);
    v.push(117);
    v.push(108);
    v.push(116);
    proof {
        assert(v@ =~= vault_tag());
    }
    v
}

/// Relies on `Pubkey::create_program_address` (solana-pubkey, re-exported by
/// anchor-lang) to derive the address for `[tag, owner, [bump]]` under
/// `program`. The call is deterministic in its arguments; `Err` (a candidate
/// with a signing key, or an over-long seed) and a malformed program
/// identity both come back as `None`.
#[verifier::external_body]
fn create_pda(tag: &Vec<u8>, owner: &Address, bump: u8, program: &Address) -> (r: Option<Address>)
    ensures
        (match r {
            Some(a) => pda_address(tag@, owner@, bump, program@) == Some(a@) && a@.len() == 32,
            None => pda_address(tag@, owner@, bump, program@) is None,
        }),
{
    let program_id: anchor_lang::prelude::Pubkey = match program.bytes.as_slice().try_into() {
        Ok(arr) => anchor_lang::prelude::Pubkey::new_from_array(arr),
        Err(_) => return None,
    };
    let seeds: [&[u8]; 3] = [tag.as_slice(), owner.bytes.as_slice(), &[bump]];
    match anchor_lang::prelude::Pubkey::create_program_address(&seeds, &program_id) {
        Ok(pk) => Some(Address { bytes: pk.to_bytes().to_vec() }),
        Err(_) => None,
    }
}

/// Relies on `Pubkey::try_find_program_address` (solana-pubkey, re-exported
/// by anchor-lang): it tries bumps from 255 down to 1 and returns the first
/// whose derivation succeeds, or `None` when every bump in that range fails.
#[verifier::external_body]
fn find_pda(tag: &Vec<u8>, owner: &Address, program: &Address) -> (r: Option<(Address, u8)>)
    ensures
        (match r {
            Some(p) => {
                &&& 1 <= p.1
                &&& pda_address(tag@, owner@, p.1, program@) == Some(p.0@)
                &&& p.0@.len() == 32
                &&& forall|b: u8| b > p.1 ==> pda_address(tag@, owner@, b, program@) is None
            },
            None => forall|b: u8| b >= 1 ==> pda_address(tag@, owner@, b, program@) is None,
        }),
{
    let program_id: anchor_lang::prelude::Pubkey = match program.bytes.as_slice().try_into() {
        Ok(arr) => anchor_lang::prelude::Pubkey::new_from_array(arr),
        Err(_) => return None,
    };
    let seeds: [&[u8]; 2] = [tag.as_slice(), owner.bytes.as_slice()];
    match anchor_lang::prelude::Pubkey::try_find_program_address(&seeds, &program_id) {
        Some((pk, bump)) => Some((Address { bytes: pk.to_bytes().to_vec() }, bump)),
        None => None,
    }
}

/// `bump` is the canonical bump for `(tag, owner)` under `program`: its
/// derivation succeeds and every larger bump's derivation fails. This is the
/// bump the derivation search finds, and the one stored at initialization.
pub open spec fn is_canonical_bump(tag: Seq<u8>, owner: Seq<u8>, bump: u8, program: Seq<u8>) -> bool {
    &&& 1 <= bump
    &&& pda_address(tag, owner, bump, program) is Some
    &&& forall|b: u8| b > bump ==> pda_address(tag, owner, b, program) is None
}

/// The derivation scheme as one deterministic function: the derived address
/// and canonical bump for `(tag, owner)` under `program`, or `None` where no
/// bump in 1..=255 derives an address.
pub open spec fn canonical_pda(tag: Seq<u8>, owner: Seq<u8>, program: Seq<u8>) -> Option<
    (Seq<u8>, u8),
> {
    if exists|b: u8| is_canonical_bump(tag, owner, b, program) {
        let b = choose|b: u8| is_canonical_bump(tag, owner, b, program);
        Some((pda_address(tag, owner, b, program).unwrap(), b))
    } else {
        None
    }
}

/// At most one bump is canonical for a given `(tag, owner, program)`.
pub proof fn lemma_canonical_bump_unique(
    tag: Seq<u8>,
    owner: Seq<u8>,
    b1: u8,
    b2: u8,
    program: Seq<u8>,
)
    requires
        is_canonical_bump(tag, owner, b1, program),
        is_canonical_bump(tag, owner, b2, program),
    ensures
        b1 == b2,
{
    if b1 < b2 {
        assert(pda_address(tag, owner, b2, program) is None);
    } else if b2 < b1 {
        assert(pda_address(tag, owner, b1, program) is None);
    }
}

/// Derive the address and bump of the pair with the given tag. Returns
/// exactly the canonical derivation, or `None` where none exists.
fn derive_pda(tag: &Vec<u8>, owner: &Address, program: &Address) -> (r: Option<(Address, u8)>)
    ensures
        (match r {
            Some(p) => canonical_pda(tag@, owner@, program@) == Some((p.0@, p.1)) && p.0@.len()
                == 32,
            None => canonical_pda(tag@, owner@, program@) is None,
        }),
{
    let r = find_pda(tag, owner, program);
    match r {
        Some(p) => {
            proof {
                assert(is_canonical_bump(tag@, owner@, p.1, program@));
                let b = choose|b: u8| is_canonical_bump(tag@, owner@, b, program@);
                lemma_canonical_bump_unique(tag@, owner@, b, p.1, program@);
            }
            Some(p)
        },
        None => {
            proof {
                if exists|b: u8| is_canonical_bump(tag@, owner@, b, program@) {
                    let b = choose|b: u8| is_canonical_bump(tag@, owner@, b, program@);
                    assert(pda_address(tag@, owner@, b, program@) is None);
                }
            }
            None
        },
    }
}

/// Derive the state address (the metadata record's home) for `owner`.
pub fn derive_state_address(owner: &Address, program: &Address) -> (r: Option<(Address, u8)>)
    ensures
        (match r {
            Some(p) => canonical_pda(state_tag(), owner@, program@) == Some((p.0@, p.1))
                && p.0@.len() == 32,
            None => canonical_pda(state_tag(), owner@, program@) is None,
        }),
{
    let tag = state_tag_bytes();
    derive_pda(&tag, owner, program)
}

/// Derive the vault address (the escrowed balance's home) for `owner`.
pub fn derive_vault_address(owner: &Address, program: &Address) -> (r: Option<(Address, u8)>)
    ensures
        (match r {
            Some(p) => canonical_pda(vault_tag(), owner@, program@) == Some((p.0@, p.1))
                && p.0@.len() == 32,
            None => canonical_pda(vault_tag(), owner@, program@) is None,
        }),
{
    let tag = vault_tag_bytes();
    derive_pda(&tag, owner, program)
}

/// Check one supplied address against re-derivation with a stored bump:
/// true exactly where the derivation succeeds and reproduces `expected`.
pub(crate) fn check_derivation(
    tag: &Vec<u8>,
    owner: &Address,
    bump: u8,
    program: &Address,
    expected: &Address,
) -> (r: bool)
    ensures
        r == (pda_address(tag@, owner@, bump, program@) == Some(expected@)),
{
    match create_pda(tag, owner, bump, program) {
        Some(a) => a.addr_eq(expected),
        None => false,
    }
}

} // verus!
