use vstd::prelude::*;

use crate::address::Address;
use crate::errors::VaultError;
use crate::ledger::Ledger;
use crate::pda::canonical_pda;
use crate::pda::check_derivation;
use crate::pda::derive_state_address;
use crate::pda::derive_vault_address;
use crate::pda::pda_address;
use crate::pda::state_tag;
use crate::pda::state_tag_bytes;
use crate::pda::vault_tag;
use crate::pda::vault_tag_bytes;
use crate::state::VaultState;

verus! {

/// The fixed transfer quantity used by the one-call-per-operation entry
/// points; the methods underneath take the amount as a parameter.
pub const FIXED_AMOUNT: u64 = 1000;

/// Storage deposit the environment charges for keeping the metadata record.
/// It is held at the state address for the record's life and refunded to the
/// owner on closure.
pub const STORAGE_DEPOSIT: u64 = 960480;

/// An initialization request: the owner plus the two derived addresses the
/// caller claims for the new vault pair.
pub struct Initialize {
    pub user: Address,
    pub vault_state: Address,
    pub vault: Address,
}

/// A payment request (deposit or withdrawal): the owner plus the two
/// derived addresses the caller claims.
pub struct Payment {
    pub user: Address,
    pub vault_state: Address,
    pub vault: Address,
}

/// A closure request: the owner plus the two derived addresses the caller
/// claims.
pub struct CloseVault {
    pub user: Address,
    pub vault_state: Address,
    pub vault: Address,
}

/// Both supplied addresses re-derive from `user` and the bumps stored in
/// the record at `vault_state`. Meaningful only where that record exists.
pub open spec fn authorized_against_record(
    l: Ledger,
    user: Seq<u8>,
    vault_state: Seq<u8>,
    vault: Seq<u8>,
) -> bool {
    let rec = l.record(vault_state).unwrap();
    &&& pda_address(state_tag(), user, rec.state_bump, l.program()) == Some(vault_state)
    &&& pda_address(vault_tag(), user, rec.vault_bump, l.program()) == Some(vault)
}

/// What the transfer authorizer decides: the stored record where both
/// addresses re-derive, `NotFound` where no record exists at the state
/// address, `Unauthorized` on any derivation mismatch.
pub open spec fn auth_verdict(
    l: Ledger,
    user: Seq<u8>,
    vault_state: Seq<u8>,
    vault: Seq<u8>,
) -> Result<VaultState, VaultError> {
    if l.record(vault_state) is None {
        Err(VaultError::NotFound)
    } else if !authorized_against_record(l, user, vault_state, vault) {
        Err(VaultError::Unauthorized)
    } else {
        Ok(l.record(vault_state).unwrap())
    }
}

/// The transfer authorizer: validate the caller-supplied addresses against
/// re-derivation from the stored bumps before any value moves.
pub fn authorize(l: &Ledger, user: &Address, vault_state: &Address, vault: &Address) -> (r: Result<
    VaultState,
    VaultError,
>)
    ensures
        r == auth_verdict(*l, user@, vault_state@, vault@),
{
    let rec = match l.get_record(vault_state) {
        Some(rec) => rec,
        None => {
            return Err(VaultError::NotFound);
        },
    };
    let st_tag = state_tag_bytes();
    if !check_derivation(&st_tag, user, rec.state_bump, &l.program_id, vault_state) {
        return Err(VaultError::Unauthorized);
    }
    let vt_tag = vault_tag_bytes();
    if !check_derivation(&vt_tag, user, rec.vault_bump, &l.program_id, vault) {
        return Err(VaultError::Unauthorized);
    }
    Ok(rec)
}

/// Both supplied addresses are the canonical derivations for `user`.
pub open spec fn init_authorized(
    l: Ledger,
    user: Seq<u8>,
    vault_state: Seq<u8>,
    vault: Seq<u8>,
) -> bool {
    &&& (canonical_pda(state_tag(), user, l.program()) matches Some(p) && p.0 == vault_state)
    &&& (canonical_pda(vault_tag(), user, l.program()) matches Some(p) && p.0 == vault)
}

/// The outcome `initialize` decides, in check order: derivation first, then
/// one-time initialization, then funding of the storage deposit.
pub open spec fn init_verdict(
    l: Ledger,
    user: Seq<u8>,
    vault_state: Seq<u8>,
    vault: Seq<u8>,
) -> Result<(), VaultError> {
    if !init_authorized(l, user, vault_state, vault) {
        Err(VaultError::Unauthorized)
    } else if l.record(vault_state) is Some {
        Err(VaultError::AlreadyInitialized)
    } else if l.bal(user) < STORAGE_DEPOSIT {
        Err(VaultError::InsufficientFunds)
    } else {
        Ok(())
    }
}

/// How a successful `initialize` changes the ledger: the storage deposit
/// moves from the owner to the state address, the record appears there with
/// the two canonical bumps, and nothing else changes.
pub open spec fn init_ok_post(
    pre: Ledger,
    post: Ledger,
    user: Seq<u8>,
    vault_state: Seq<u8>,
    vault: Seq<u8>,
) -> bool {
    &&& post.wf()
    &&& post.program() == pre.program()
    &&& post.total() == pre.total()
    &&& (forall|b: Seq<u8>|
        #[trigger] post.bal(b) as int == pre.bal(b) - (if b == user {
            STORAGE_DEPOSIT as int
        } else {
            0
        }) + (if b == vault_state {
            STORAGE_DEPOSIT as int
        } else {
            0
        }))
    &&& (forall|b: Seq<u8>|
        #[trigger] post.record(b) == if b == vault_state {
            Some(
                VaultState {
                    vault_bump: canonical_pda(vault_tag(), user, pre.program()).unwrap().1,
                    state_bump: canonical_pda(state_tag(), user, pre.program()).unwrap().1,
                },
            )
        } else {
            pre.record(b)
        })
}

/// How a successful transfer-style operation changes the ledger: `amount`
/// moves from `from` to `to`, records and the sum of balances are unchanged.
pub open spec fn moved_post(
    pre: Ledger,
    post: Ledger,
    from: Seq<u8>,
    to: Seq<u8>,
    amount: u64,
) -> bool {
    &&& post.wf()
    &&& post.program() == pre.program()
    &&& post.total() == pre.total()
    &&& (forall|b: Seq<u8>|
        #[trigger] post.bal(b) as int == pre.bal(b) - (if b == from {
            amount as int
        } else {
            0
        }) + (if b == to {
            amount as int
        } else {
            0
        }))
    &&& (forall|b: Seq<u8>| #[trigger] post.record(b) == pre.record(b))
}

/// The outcome `deposite` decides: the authorizer's verdict first, then the
/// amount must be positive and funded by the owner.
pub open spec fn deposit_verdict(
    l: Ledger,
    user: Seq<u8>,
    vault_state: Seq<u8>,
    vault: Seq<u8>,
    amount: u64,
) -> Result<(), VaultError> {
    match auth_verdict(l, user, vault_state, vault) {
        Err(e) => Err(e),
        Ok(_) => if amount == 0 || l.bal(user) < amount {
            Err(VaultError::InsufficientFunds)
        } else {
            Ok(())
        },
    }
}

/// The outcome `withdraw` decides: the authorizer's verdict first, then the
/// amount must be positive and covered by the vault balance.
pub open spec fn withdraw_verdict(
    l: Ledger,
    user: Seq<u8>,
    vault_state: Seq<u8>,
    vault: Seq<u8>,
    amount: u64,
) -> Result<(), VaultError> {
    match auth_verdict(l, user, vault_state, vault) {
        Err(e) => Err(e),
        Ok(_) => if amount == 0 || l.bal(vault) < amount {
            Err(VaultError::InsufficientFunds)
        } else {
            Ok(())
        },
    }
}

impl Initialize {
    /// Create the vault pair for `self.user`: derive both canonical
    /// addresses, check them against the supplied ones, refuse a second
    /// initialization, charge the storage deposit and store the record.
    pub fn initialize(&self, l: &mut Ledger) -> (r: Result<(), VaultError>)
        requires
            old(l).wf(),
        ensures
            final(l).wf(),
            r == init_verdict(*old(l), self.user@, self.vault_state@, self.vault@),
            r is Ok ==> init_ok_post(*old(l), *final(l), self.user@, self.vault_state@, self.vault@),
            r is Err ==> *final(l) == *old(l),
    {
        let ds = derive_state_address(&self.user, &l.program_id);
        let (state_addr, state_bump) = match ds {
            Some(p) => p,
            None => {
                return Err(VaultError::Unauthorized);
            },
        };
        let dv = derive_vault_address(&self.user, &l.program_id);
        let (vault_addr, vault_bump) = match dv {
            Some(p) => p,
            None => {
                return Err(VaultError::Unauthorized);
            },
        };
        if !state_addr.addr_eq(&self.vault_state) || !vault_addr.addr_eq(&self.vault) {
            return Err(VaultError::Unauthorized);
        }
        match l.get_record(&self.vault_state) {
            Some(_) => {
                return Err(VaultError::AlreadyInitialized);
            },
            None => {},
        }
        if l.balance_of(&self.user) < STORAGE_DEPOSIT {
            return Err(VaultError::InsufficientFunds);
        }
        l.transfer(&self.user, &self.vault_state, STORAGE_DEPOSIT);
        let ghost mid = *l;
        l.insert_record(&self.vault_state, VaultState { vault_bump, state_bump });
        proof {
            assert forall|b: Seq<u8>| #[trigger] l.bal(b) == mid.bal(b) by {
                assert(l.balances@ == mid.balances@);
            }
        }
        Ok(())
    }
}

impl Payment {
    /// Move `amount` from the owner's account into the vault. The owner is
    /// the source of funds, so the owner's own authority suffices; the
    /// addresses are still validated against the stored record.
    pub fn deposite(&self, l: &mut Ledger, amount: u64) -> (r: Result<(), VaultError>)
        requires
            old(l).wf(),
        ensures
            final(l).wf(),
            r == deposit_verdict(*old(l), self.user@, self.vault_state@, self.vault@, amount),
            r is Ok ==> moved_post(*old(l), *final(l), self.user@, self.vault@, amount),
            r is Err ==> *final(l) == *old(l),
    {
        match authorize(l, &self.user, &self.vault_state, &self.vault) {
            Ok(_) => {},
            Err(e) => {
                return Err(e);
            },
        }
        if amount == 0 || l.balance_of(&self.user) < amount {
            return Err(VaultError::InsufficientFunds);
        }
        l.transfer(&self.user, &self.vault, amount);
        Ok(())
    }

    /// Move `amount` out of the vault to the owner. The vault cannot sign;
    /// authority comes from re-deriving the vault address with the stored
    /// bump, which `authorize` checks before any value moves.
    pub fn withdraw(&self, l: &mut Ledger, amount: u64) -> (r: Result<(), VaultError>)
        requires
            old(l).wf(),
        ensures
            final(l).wf(),
            r == withdraw_verdict(*old(l), self.user@, self.vault_state@, self.vault@, amount),
            r is Ok ==> moved_post(*old(l), *final(l), self.vault@, self.user@, amount),
            r is Err ==> *final(l) == *old(l),
    {
        match authorize(l, &self.user, &self.vault_state, &self.vault) {
            Ok(_) => {},
            Err(e) => {
                return Err(e);
            },
        }
        if amount == 0 || l.balance_of(&self.vault) < amount {
            return Err(VaultError::InsufficientFunds);
        }
        l.transfer(&self.vault, &self.user, amount);
        Ok(())
    }
}

/// The outcome `close_vault` decides: exactly the authorizer's verdict; a
/// zero vault balance is no obstacle.
pub open spec fn close_verdict(
    l: Ledger,
    user: Seq<u8>,
    vault_state: Seq<u8>,
    vault: Seq<u8>,
) -> Result<(), VaultError> {
    match auth_verdict(l, user, vault_state, vault) {
        Err(e) => Err(e),
        Ok(_) => Ok(()),
    }
}

/// Balance at `b` after the first closure step, draining the vault's full
/// balance to the owner.
pub open spec fn close_mid_bal(pre: Ledger, user: Seq<u8>, vault: Seq<u8>, b: Seq<u8>) -> int {
    pre.bal(b) - (if b == vault {
        pre.bal(vault) as int
    } else {
        0
    }) + (if b == user {
        pre.bal(vault) as int
    } else {
        0
    })
}

/// How a successful `close_vault` changes the ledger: the vault's full
/// balance, then the state address's full balance (the storage deposit),
/// drain to the owner, and the record is deleted.
pub open spec fn close_ok_post(
    pre: Ledger,
    post: Ledger,
    user: Seq<u8>,
    vault_state: Seq<u8>,
    vault: Seq<u8>,
) -> bool {
    let sb = close_mid_bal(pre, user, vault, vault_state);
    &&& post.wf()
    &&& post.program() == pre.program()
    &&& post.total() == pre.total()
    &&& (forall|b: Seq<u8>|
        #[trigger] post.bal(b) as int == close_mid_bal(pre, user, vault, b) - (if b == vault_state {
            sb
        } else {
            0
        }) + (if b == user {
            sb
        } else {
            0
        }))
    &&& (forall|b: Seq<u8>|
        #[trigger] post.record(b) == if b == vault_state {
            None::<VaultState>
        } else {
            pre.record(b)
        })
}

impl CloseVault {
    /// Drain the vault to the owner (skipping the transfer entirely when
    /// the vault balance is zero), refund the storage deposit held at the
    /// state address, and delete the record, as one atomic unit.
    pub fn close_vault(&self, l: &mut Ledger) -> (r: Result<(), VaultError>)
        requires
            old(l).wf(),
        ensures
            final(l).wf(),
            r == close_verdict(*old(l), self.user@, self.vault_state@, self.vault@),
            r is Ok ==> close_ok_post(
                *old(l),
                *final(l),
                self.user@,
                self.vault_state@,
                self.vault@,
            ),
            r is Err ==> *final(l) == *old(l),
    {
        match authorize(l, &self.user, &self.vault_state, &self.vault) {
            Ok(_) => {},
            Err(e) => {
                return Err(e);
            },
        }
        let vault_balance = l.balance_of(&self.vault);
        if vault_balance > 0 {
            l.transfer(&self.vault, &self.user, vault_balance);
        }
        let ghost mid = *l;
        proof {
            assert forall|b: Seq<u8>| #[trigger] mid.bal(b) as int == close_mid_bal(
                *old(l),
                self.user@,
                self.vault@,
                b,
            ) by {}
        }
        let rent = l.balance_of(&self.vault_state);
        l.transfer(&self.vault_state, &self.user, rent);
        let ghost mid2 = *l;
        l.remove_record(&self.vault_state);
        proof {
            assert forall|b: Seq<u8>| #[trigger] l.bal(b) == mid2.bal(b) by {
                assert(l.balances@ == mid2.balances@);
            }
        }
        Ok(())
    }
}

/// One-time setup of the vault pair for the requesting owner.
pub fn initialize(l: &mut Ledger, ctx: &Initialize) -> (r: Result<(), VaultError>)
    requires
        old(l).wf(),
    ensures
        final(l).wf(),
        r == init_verdict(*old(l), ctx.user@, ctx.vault_state@, ctx.vault@),
        r is Ok ==> init_ok_post(*old(l), *final(l), ctx.user@, ctx.vault_state@, ctx.vault@),
        r is Err ==> *final(l) == *old(l),
{
    ctx.initialize(l)
}

/// Deposit the fixed quantity into the vault.
pub fn deposite(l: &mut Ledger, ctx: &Payment) -> (r: Result<(), VaultError>)
    requires
        old(l).wf(),
    ensures
        final(l).wf(),
        r == deposit_verdict(*old(l), ctx.user@, ctx.vault_state@, ctx.vault@, FIXED_AMOUNT),
        r is Ok ==> moved_post(*old(l), *final(l), ctx.user@, ctx.vault@, FIXED_AMOUNT),
        r is Err ==> *final(l) == *old(l),
{
    ctx.deposite(l, FIXED_AMOUNT)
}

/// Withdraw the fixed quantity from the vault.
pub fn withdraw(l: &mut Ledger, ctx: &Payment) -> (r: Result<(), VaultError>)
    requires
        old(l).wf(),
    ensures
        final(l).wf(),
        r == withdraw_verdict(*old(l), ctx.user@, ctx.vault_state@, ctx.vault@, FIXED_AMOUNT),
        r is Ok ==> moved_post(*old(l), *final(l), ctx.vault@, ctx.user@, FIXED_AMOUNT),
        r is Err ==> *final(l) == *old(l),
{
    ctx.withdraw(l, FIXED_AMOUNT)
}

/// Drain and delete the vault pair.
pub fn close_vault(l: &mut Ledger, ctx: &CloseVault) -> (r: Result<(), VaultError>)
    requires
        old(l).wf(),
    ensures
        final(l).wf(),
        r == close_verdict(*old(l), ctx.user@, ctx.vault_state@, ctx.vault@),
        r is Ok ==> close_ok_post(*old(l), *final(l), ctx.user@, ctx.vault_state@, ctx.vault@),
        r is Err ==> *final(l) == *old(l),
{
    ctx.close_vault(l)
}

} // verus!
