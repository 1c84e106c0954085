use vault::address::Address;
use vault::errors::VaultError;
use vault::ledger::Ledger;
use vault::ops::close_vault;
use vault::ops::deposite;
use vault::ops::initialize;
use vault::ops::withdraw;
use vault::ops::CloseVault;
use vault::ops::Initialize;
use vault::ops::Payment;
use vault::ops::FIXED_AMOUNT;
use vault::ops::STORAGE_DEPOSIT;
use vault::pda::derive_state_address;
use vault::pda::derive_vault_address;

fn addr(b: u8) -> Address {
    Address::new(vec![b; 32])
}

fn program() -> Address {
    addr(7)
}

/// Derive the (state, vault) address pair for an owner.
fn derived_pair(owner: &Address, prog: &Address) -> (Address, Address) {
    let (state_addr, _) = derive_state_address(owner, prog).expect("state derivation");
    let (vault_addr, _) = derive_vault_address(owner, prog).expect("vault derivation");
    (state_addr, vault_addr)
}

fn init_ctx(owner: &Address, prog: &Address) -> Initialize {
    let (vault_state, vault) = derived_pair(owner, prog);
    Initialize { user: owner.dup(), vault_state, vault }
}

fn payment_ctx(owner: &Address, prog: &Address) -> Payment {
    let (vault_state, vault) = derived_pair(owner, prog);
    Payment { user: owner.dup(), vault_state, vault }
}

fn close_ctx(owner: &Address, prog: &Address) -> CloseVault {
    let (vault_state, vault) = derived_pair(owner, prog);
    CloseVault { user: owner.dup(), vault_state, vault }
}

/// A funded, initialized ledger for one owner.
fn initialized_ledger(owner: &Address, funding: u64) -> Ledger {
    let mut l = Ledger::new(program().dup());
    assert!(l.airdrop(owner, funding));
    let ctx = init_ctx(owner, &program());
    assert_eq!(initialize(&mut l, &ctx), Ok(()));
    l
}

#[test]
fn derivation_is_deterministic_and_tag_separated() {
    let owner = addr(1);
    let prog = program();
    let (state_a, state_bump) = derive_state_address(&owner, &prog).expect("state derivation");
    let (vault_a, vault_bump) = derive_vault_address(&owner, &prog).expect("vault derivation");
    // Derived addresses are new 32-byte addresses, not any of the inputs.
    assert_eq!(state_a.bytes.len(), 32);
    assert_eq!(vault_a.bytes.len(), 32);
    assert!(!state_a.addr_eq(&owner));
    assert!(!vault_a.addr_eq(&owner));
    assert!(!state_a.addr_eq(&prog));
    // The two tags separate the pair.
    assert!(!state_a.addr_eq(&vault_a));
    assert!(state_bump >= 1);
    assert!(vault_bump >= 1);
    // Re-derivation reproduces the same pair.
    let (state_b, bump_b) = derive_state_address(&owner, &prog).expect("state derivation");
    assert!(state_a.addr_eq(&state_b));
    assert_eq!(state_bump, bump_b);
    // A different owner gets different addresses.
    let other = addr(2);
    let (state_c, _) = derive_state_address(&other, &prog).expect("state derivation");
    assert!(!state_a.addr_eq(&state_c));
}

#[test]
fn initialize_stores_the_canonical_bumps() {
    let owner = addr(1);
    let prog = program();
    let l = initialized_ledger(&owner, STORAGE_DEPOSIT);
    let (state_addr, state_bump) = derive_state_address(&owner, &prog).expect("state derivation");
    let (_, vault_bump) = derive_vault_address(&owner, &prog).expect("vault derivation");
    let rec = l.get_record(&state_addr).expect("record stored");
    assert_eq!(rec.state_bump, state_bump);
    assert_eq!(rec.vault_bump, vault_bump);
    // The storage deposit moved from the owner to the state address.
    assert_eq!(l.balance_of(&owner), 0);
    assert_eq!(l.balance_of(&state_addr), STORAGE_DEPOSIT);
}

#[test]
fn initialize_twice_fails_and_keeps_the_record() {
    let owner = addr(1);
    let prog = program();
    let mut l = initialized_ledger(&owner, 2 * STORAGE_DEPOSIT);
    let (state_addr, _) = derive_state_address(&owner, &prog).expect("state derivation");
    let rec_before = l.get_record(&state_addr).expect("record stored");
    let owner_before = l.balance_of(&owner);
    let ctx = init_ctx(&owner, &prog);
    assert_eq!(initialize(&mut l, &ctx), Err(VaultError::AlreadyInitialized));
    assert_eq!(l.get_record(&state_addr), Some(rec_before));
    assert_eq!(l.balance_of(&owner), owner_before);
}

#[test]
fn initialize_with_wrong_addresses_is_unauthorized() {
    let owner = addr(1);
    let prog = program();
    let mut l = Ledger::new(prog.dup());
    assert!(l.airdrop(&owner, STORAGE_DEPOSIT));
    let (state_addr, _) = derive_state_address(&owner, &prog).expect("state derivation");
    // Swap in an unrelated vault address.
    let ctx = Initialize { user: owner.dup(), vault_state: state_addr, vault: addr(9) };
    assert_eq!(initialize(&mut l, &ctx), Err(VaultError::Unauthorized));
    assert_eq!(l.balance_of(&owner), STORAGE_DEPOSIT);
}

#[test]
fn initialize_without_funding_is_insufficient() {
    let owner = addr(1);
    let mut l = Ledger::new(program().dup());
    let ctx = init_ctx(&owner, &program());
    assert_eq!(initialize(&mut l, &ctx), Err(VaultError::InsufficientFunds));
}

#[test]
fn deposit_then_withdraw_returns_to_the_starting_balances() {
    let owner = addr(1);
    let prog = program();
    let mut l = initialized_ledger(&owner, STORAGE_DEPOSIT + 5000);
    let ctx = payment_ctx(&owner, &prog);
    let owner_before = l.balance_of(&owner);
    let total_before = l.total_issued();
    assert_eq!(owner_before, 5000);
    assert_eq!(deposite(&mut l, &ctx), Ok(()));
    assert_eq!(l.balance_of(&ctx.vault), FIXED_AMOUNT);
    assert_eq!(l.balance_of(&owner), owner_before - FIXED_AMOUNT);
    assert_eq!(l.total_issued(), total_before);
    assert_eq!(withdraw(&mut l, &ctx), Ok(()));
    assert_eq!(l.balance_of(&ctx.vault), 0);
    assert_eq!(l.balance_of(&owner), owner_before);
    assert_eq!(l.total_issued(), total_before);
}

#[test]
fn deposit_beyond_the_owner_balance_is_insufficient() {
    let owner = addr(1);
    let prog = program();
    let mut l = initialized_ledger(&owner, STORAGE_DEPOSIT + 500);
    let ctx = payment_ctx(&owner, &prog);
    // The fixed quantity exceeds the remaining 500.
    assert_eq!(deposite(&mut l, &ctx), Err(VaultError::InsufficientFunds));
    assert_eq!(l.balance_of(&owner), 500);
    assert_eq!(l.balance_of(&ctx.vault), 0);
    // A zero amount is likewise refused.
    assert_eq!(ctx.deposite(&mut l, 0), Err(VaultError::InsufficientFunds));
}

#[test]
fn deposit_for_an_unknown_owner_is_not_found() {
    let owner = addr(1);
    let mut l = Ledger::new(program().dup());
    assert!(l.airdrop(&owner, 5000));
    let ctx = payment_ctx(&owner, &program());
    assert_eq!(deposite(&mut l, &ctx), Err(VaultError::NotFound));
    assert_eq!(l.balance_of(&owner), 5000);
}

#[test]
fn withdraw_beyond_the_vault_balance_is_insufficient() {
    let owner = addr(1);
    let prog = program();
    let mut l = initialized_ledger(&owner, STORAGE_DEPOSIT + 5000);
    let ctx = payment_ctx(&owner, &prog);
    assert_eq!(deposite(&mut l, &ctx), Ok(()));
    let owner_before = l.balance_of(&owner);
    assert_eq!(ctx.withdraw(&mut l, FIXED_AMOUNT + 1), Err(VaultError::InsufficientFunds));
    assert_eq!(l.balance_of(&owner), owner_before);
    assert_eq!(l.balance_of(&ctx.vault), FIXED_AMOUNT);
}

#[test]
fn withdraw_with_a_mismatched_vault_address_is_unauthorized() {
    let owner = addr(1);
    let prog = program();
    let mut l = initialized_ledger(&owner, STORAGE_DEPOSIT + 5000);
    let good = payment_ctx(&owner, &prog);
    assert_eq!(deposite(&mut l, &good), Ok(()));
    // Supply the state address where the vault address belongs: the
    // re-derivation from the stored vault bump cannot reproduce it.
    let bad = Payment {
        user: owner.dup(),
        vault_state: good.vault_state.dup(),
        vault: good.vault_state.dup(),
    };
    let owner_before = l.balance_of(&owner);
    assert_eq!(withdraw(&mut l, &bad), Err(VaultError::Unauthorized));
    assert_eq!(l.balance_of(&owner), owner_before);
    assert_eq!(l.balance_of(&good.vault), FIXED_AMOUNT);
}

#[test]
fn close_returns_escrow_and_storage_deposit_and_deletes_the_record() {
    let owner = addr(1);
    let prog = program();
    let mut l = initialized_ledger(&owner, STORAGE_DEPOSIT + 5000);
    let pay = payment_ctx(&owner, &prog);
    assert_eq!(deposite(&mut l, &pay), Ok(()));
    let owner_before = l.balance_of(&owner);
    let total_before = l.total_issued();
    let ctx = close_ctx(&owner, &prog);
    assert_eq!(close_vault(&mut l, &ctx), Ok(()));
    assert_eq!(l.total_issued(), total_before);
    assert_eq!(l.get_record(&ctx.vault_state), None);
    assert_eq!(l.balance_of(&ctx.vault), 0);
    assert_eq!(l.balance_of(&ctx.vault_state), 0);
    assert_eq!(l.balance_of(&owner), owner_before + FIXED_AMOUNT + STORAGE_DEPOSIT);
}

#[test]
fn close_without_initialization_is_not_found() {
    let owner = addr(1);
    let mut l = Ledger::new(program().dup());
    let ctx = close_ctx(&owner, &program());
    assert_eq!(close_vault(&mut l, &ctx), Err(VaultError::NotFound));
}

#[test]
fn close_twice_is_not_found() {
    let owner = addr(1);
    let prog = program();
    let mut l = initialized_ledger(&owner, STORAGE_DEPOSIT);
    let ctx = close_ctx(&owner, &prog);
    assert_eq!(close_vault(&mut l, &ctx), Ok(()));
    assert_eq!(close_vault(&mut l, &ctx), Err(VaultError::NotFound));
}

#[test]
fn close_with_zero_vault_balance_still_succeeds() {
    let owner = addr(1);
    let prog = program();
    let mut l = initialized_ledger(&owner, STORAGE_DEPOSIT);
    assert_eq!(l.balance_of(&owner), 0);
    let ctx = close_ctx(&owner, &prog);
    assert_eq!(l.balance_of(&ctx.vault), 0);
    assert_eq!(close_vault(&mut l, &ctx), Ok(()));
    assert_eq!(l.get_record(&ctx.vault_state), None);
    // Only the storage deposit comes back.
    assert_eq!(l.balance_of(&owner), STORAGE_DEPOSIT);
}

#[test]
fn operations_of_one_owner_leave_another_owner_untouched() {
    let owner_a = addr(1);
    let owner_b = addr(2);
    let prog = program();
    let mut l = Ledger::new(prog.dup());
    assert!(l.airdrop(&owner_a, STORAGE_DEPOSIT + 5000));
    assert!(l.airdrop(&owner_b, STORAGE_DEPOSIT + 5000));
    let ctx_a = init_ctx(&owner_a, &prog);
    let ctx_b = init_ctx(&owner_b, &prog);
    assert_eq!(initialize(&mut l, &ctx_a), Ok(()));
    let pay_a = payment_ctx(&owner_a, &prog);
    assert_eq!(deposite(&mut l, &pay_a), Ok(()));
    let a_owner = l.balance_of(&owner_a);
    let a_vault = l.balance_of(&pay_a.vault);
    let a_rec = l.get_record(&pay_a.vault_state);
    // A full life cycle for the second owner.
    assert_eq!(initialize(&mut l, &ctx_b), Ok(()));
    let pay_b = payment_ctx(&owner_b, &prog);
    assert_eq!(deposite(&mut l, &pay_b), Ok(()));
    assert_eq!(withdraw(&mut l, &pay_b), Ok(()));
    assert_eq!(close_vault(&mut l, &close_ctx(&owner_b, &prog)), Ok(()));
    // Nothing of the first owner's pair moved.
    assert_eq!(l.balance_of(&owner_a), a_owner);
    assert_eq!(l.balance_of(&pay_a.vault), a_vault);
    assert_eq!(l.get_record(&pay_a.vault_state), a_rec);
}

#[test]
fn another_identity_cannot_drain_a_foreign_vault() {
    let owner_a = addr(1);
    let owner_b = addr(2);
    let prog = program();
    let mut l = initialized_ledger(&owner_a, STORAGE_DEPOSIT + 5000);
    let pay_a = payment_ctx(&owner_a, &prog);
    assert_eq!(deposite(&mut l, &pay_a), Ok(()));
    // The second identity names the first owner's pair as its own.
    let forged = Payment {
        user: owner_b.dup(),
        vault_state: pay_a.vault_state.dup(),
        vault: pay_a.vault.dup(),
    };
    assert_eq!(withdraw(&mut l, &forged), Err(VaultError::Unauthorized));
    assert_eq!(l.balance_of(&pay_a.vault), FIXED_AMOUNT);
    let forged_close = CloseVault {
        user: owner_b.dup(),
        vault_state: pay_a.vault_state.dup(),
        vault: pay_a.vault.dup(),
    };
    assert_eq!(close_vault(&mut l, &forged_close), Err(VaultError::Unauthorized));
    assert!(l.get_record(&pay_a.vault_state).is_some());
}

#[test]
fn airdrop_refuses_to_overflow_the_ledger_sum() {
    let owner = addr(1);
    let mut l = Ledger::new(program().dup());
    assert!(l.airdrop(&owner, u64::MAX));
    assert!(!l.airdrop(&owner, 1));
    assert_eq!(l.balance_of(&owner), u64::MAX);
}
