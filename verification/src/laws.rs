use vstd::prelude::*;

use crate::errors::VaultError;
use crate::ledger::Ledger;
use crate::ops::auth_verdict;
use crate::ops::authorized_against_record;
use crate::ops::close_mid_bal;
use crate::ops::close_ok_post;
use crate::ops::close_verdict;
use crate::ops::deposit_verdict;
use crate::ops::init_ok_post;
use crate::ops::init_verdict;
use crate::ops::moved_post;
use crate::ops::withdraw_verdict;
use crate::pda::canonical_pda;
use crate::pda::state_tag;
use crate::pda::vault_tag;
use crate::state::VaultState;

verus! {

/// Initialization is not idempotent: after one successful `initialize`, a
/// second request with the same owner and addresses is decided as
/// `AlreadyInitialized`, and — because every rejected request leaves the
/// ledger unchanged — the stored bumps stay what the first call wrote.
pub proof fn lemma_initialize_not_idempotent(
    pre: Ledger,
    post: Ledger,
    user: Seq<u8>,
    vault_state: Seq<u8>,
    vault: Seq<u8>,
)
    requires
        init_verdict(pre, user, vault_state, vault) is Ok,
        init_ok_post(pre, post, user, vault_state, vault),
    ensures
        init_verdict(post, user, vault_state, vault) == Err::<(), VaultError>(VaultError::AlreadyInitialized),
        post.record(vault_state) == Some(
            VaultState {
                vault_bump: canonical_pda(vault_tag(), user, pre.program()).unwrap().1,
                state_bump: canonical_pda(state_tag(), user, pre.program()).unwrap().1,
            },
        ),
{
    assert(post.record(vault_state) is Some);
}

/// A deposit of any positive amount the owner can fund is owed success; it
/// moves exactly `amount` from the owner to the vault and conserves the sum
/// of all balances. The owner's account and the vault are distinct
/// addresses, as they are whenever the vault address is a proper derived
/// address rather than the owner's own key.
pub proof fn lemma_deposit_exact(
    pre: Ledger,
    post: Ledger,
    user: Seq<u8>,
    vault_state: Seq<u8>,
    vault: Seq<u8>,
    amount: u64,
)
    requires
        auth_verdict(pre, user, vault_state, vault) is Ok,
        0 < amount <= pre.bal(user),
        user != vault,
        moved_post(pre, post, user, vault, amount),
    ensures
        deposit_verdict(pre, user, vault_state, vault, amount) is Ok,
        post.bal(vault) as int == pre.bal(vault) + amount,
        post.bal(user) as int == pre.bal(user) - amount,
        post.total() == pre.total(),
{
    assert(post.bal(vault) as int == pre.bal(vault) + amount);
    assert(post.bal(user) as int == pre.bal(user) - amount);
}

/// A withdrawal of more than the vault holds is decided as
/// `InsufficientFunds`; the operation's contract then guarantees the ledger
/// — both balances included — is left exactly as it was.
pub proof fn lemma_withdraw_insufficient(
    pre: Ledger,
    user: Seq<u8>,
    vault_state: Seq<u8>,
    vault: Seq<u8>,
    amount: u64,
)
    requires
        auth_verdict(pre, user, vault_state, vault) is Ok,
        amount > pre.bal(vault),
    ensures
        withdraw_verdict(pre, user, vault_state, vault, amount) == Err::<(), VaultError>(
            VaultError::InsufficientFunds,
        ),
{
}

/// A withdrawal whose supplied addresses do not re-derive from the stored
/// bumps is decided as `Unauthorized`; the operation's contract then
/// guarantees no funds move.
pub proof fn lemma_withdraw_unauthorized(
    pre: Ledger,
    user: Seq<u8>,
    vault_state: Seq<u8>,
    vault: Seq<u8>,
    amount: u64,
)
    requires
        pre.record(vault_state) is Some,
        !authorized_against_record(pre, user, vault_state, vault),
    ensures
        withdraw_verdict(pre, user, vault_state, vault, amount) == Err::<(), VaultError>(VaultError::Unauthorized),
{
}

/// Closing a vault whose balance is zero is owed success: only the storage
/// deposit held at the state address moves to the owner, and the record is
/// deleted.
pub proof fn lemma_close_zero_balance(
    pre: Ledger,
    post: Ledger,
    user: Seq<u8>,
    vault_state: Seq<u8>,
    vault: Seq<u8>,
)
    requires
        auth_verdict(pre, user, vault_state, vault) is Ok,
        pre.bal(vault) == 0,
        close_ok_post(pre, post, user, vault_state, vault),
    ensures
        close_verdict(pre, user, vault_state, vault) is Ok,
        post.record(vault_state) is None,
        forall|b: Seq<u8>|
            #[trigger] post.bal(b) as int == pre.bal(b) - (if b == vault_state {
                pre.bal(vault_state) as int
            } else {
                0
            }) + (if b == user {
                pre.bal(vault_state) as int
            } else {
                0
            }),
{
    assert(post.record(vault_state) is None);
    assert forall|b: Seq<u8>|
        #[trigger] post.bal(b) as int == pre.bal(b) - (if b == vault_state {
            pre.bal(vault_state) as int
        } else {
            0
        }) + (if b == user {
            pre.bal(vault_state) as int
        } else {
            0
        }) by {
        assert(post.bal(b) as int == close_mid_bal(pre, user, vault, b) - (if b == vault_state {
            close_mid_bal(pre, user, vault, vault_state)
        } else {
            0
        }) + (if b == user {
            close_mid_bal(pre, user, vault, vault_state)
        } else {
            0
        }));
    }
}

/// Cross-owner isolation for initialization: an address the request does
/// not name keeps its balance and its record.
pub proof fn lemma_initialize_isolated(
    pre: Ledger,
    post: Ledger,
    user: Seq<u8>,
    vault_state: Seq<u8>,
    vault: Seq<u8>,
    a: Seq<u8>,
)
    requires
        init_ok_post(pre, post, user, vault_state, vault),
        a != user,
        a != vault_state,
    ensures
        post.bal(a) == pre.bal(a),
        post.record(a) == pre.record(a),
{
    assert(post.bal(a) as int == pre.bal(a) as int);
}

/// Cross-owner isolation for deposits and withdrawals: an address that is
/// neither endpoint of the movement keeps its balance, and every record is
/// untouched.
pub proof fn lemma_payment_isolated(
    pre: Ledger,
    post: Ledger,
    from: Seq<u8>,
    to: Seq<u8>,
    amount: u64,
    a: Seq<u8>,
)
    requires
        moved_post(pre, post, from, to, amount),
        a != from,
        a != to,
    ensures
        post.bal(a) == pre.bal(a),
        post.record(a) == pre.record(a),
{
    assert(post.bal(a) as int == pre.bal(a) as int);
}

/// Cross-owner isolation for closure: an address the request does not name
/// keeps its balance and its record.
pub proof fn lemma_close_isolated(
    pre: Ledger,
    post: Ledger,
    user: Seq<u8>,
    vault_state: Seq<u8>,
    vault: Seq<u8>,
    a: Seq<u8>,
)
    requires
        close_ok_post(pre, post, user, vault_state, vault),
        a != user,
        a != vault_state,
        a != vault,
    ensures
        post.bal(a) == pre.bal(a),
        post.record(a) == pre.record(a),
{
    assert(post.bal(a) as int == close_mid_bal(pre, user, vault, a));
    assert(post.bal(a) as int == pre.bal(a) as int);
}

} // verus!

