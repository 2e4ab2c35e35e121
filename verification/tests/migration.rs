use emerald::genesis::build_accounts_params;
use emerald::genesis::build_consensus_accounts_params;
use emerald::genesis::build_consensus_params;
use emerald::genesis::build_core_params;
use emerald::genesis::build_evm_params;
use emerald::genesis::build_rewards_params;
use emerald::migration::check_invariants;
use emerald::migration::rescale_ledger;
use emerald::params::ParameterStore;
use emerald::Address;
use emerald::BuildConfig;
use emerald::Denomination;
use emerald::Ledger;
use emerald::MigrationError;
use emerald::Runtime;
use emerald::RuntimeState;

fn mainnet() -> BuildConfig {
    BuildConfig { version_has_prerelease: false, use_localnet_chain_id: false }
}

/// A parameter store as persisted before the current code version: the same
/// records, but with the consensus scaling factor still at one.
fn pre_migration_params(cfg: &BuildConfig) -> ParameterStore {
    let mut store = ParameterStore {
        core: build_core_params(cfg),
        accounts: build_accounts_params(),
        consensus: build_consensus_params(),
        consensus_accounts: build_consensus_accounts_params(),
        rewards: build_rewards_params(),
        evm: build_evm_params(),
    };
    store.consensus.consensus_scaling_factor = 1;
    store
}

fn alice() -> Address {
    Address { value: 1 }
}

fn bob() -> Address {
    Address { value: 2 }
}

#[test]
fn test_migration() {
    let cfg = mainnet();

    // Prepare some dummy initial state.
    let mut ledger = Ledger::new();
    ledger.set_balance(alice(), Denomination::Native, 1_234_567);
    ledger.set_total_supply(Denomination::Native, 1_234_567);
    let mut state =
        RuntimeState { state_version: 0, parameters: pre_migration_params(&cfg), ledger };

    // Run the state migration.
    Runtime::migrate_state(&mut state, &cfg).expect("migration should succeed");

    // Check Alice account balances.
    let bals = state.ledger.get_balances(alice()).expect("get_balances should succeed");
    assert_eq!(
        state.ledger.get_balance(alice(), Denomination::Native),
        1_234_567_000_000_000,
        "balance in account should be correctly scaled"
    );
    assert_eq!(bals.len(), 1, "there should only be one denomination");

    // Check total supply.
    let total_supply = state.ledger.get_total_supply(Denomination::Native);
    assert_eq!(
        total_supply, 1_234_567_000_000_000,
        "total supply should be correct"
    );
}

#[test]
fn migration_of_empty_ledger_keeps_zero_supply() {
    let cfg = mainnet();
    let ledger = Ledger::new();
    let mut state =
        RuntimeState { state_version: 0, parameters: pre_migration_params(&cfg), ledger };

    let r = Runtime::migrate_state(&mut state, &cfg);

    assert_eq!(r, Ok(()));
    assert_eq!(state.ledger.get_total_supply(Denomination::Native), 0);
    assert_eq!(state.state_version, 4);
}

#[test]
fn migration_overflow_aborts_and_leaves_ledger_untouched() {
    let cfg = mainnet();
    let k: u128 = 1_000_000_000;
    let too_big = u128::MAX / k + 1;
    let mut ledger = Ledger::new();
    ledger.set_balance(alice(), Denomination::Native, too_big);
    ledger.set_total_supply(Denomination::Native, too_big);
    let mut state =
        RuntimeState { state_version: 0, parameters: pre_migration_params(&cfg), ledger };

    let r = Runtime::migrate_state(&mut state, &cfg);

    assert_eq!(r, Err(MigrationError::ArithmeticOverflow));
    assert_eq!(state.ledger.get_balance(alice(), Denomination::Native), too_big);
    assert_eq!(state.ledger.get_total_supply(Denomination::Native), too_big);
    assert_eq!(state.state_version, 0);
    assert_eq!(state.parameters.consensus.consensus_scaling_factor, 1);
}

#[test]
fn migration_detects_inconsistent_recorded_supply() {
    let cfg = mainnet();
    let mut ledger = Ledger::new();
    ledger.set_balance(alice(), Denomination::Native, 100);
    ledger.set_total_supply(Denomination::Native, 50);
    let mut state =
        RuntimeState { state_version: 0, parameters: pre_migration_params(&cfg), ledger };

    let r = Runtime::migrate_state(&mut state, &cfg);

    assert_eq!(r, Err(MigrationError::LedgerInconsistency));
    assert_eq!(state.ledger.get_balance(alice(), Denomination::Native), 100);
    assert_eq!(state.ledger.get_total_supply(Denomination::Native), 50);
    assert_eq!(state.state_version, 0);
}

#[test]
fn migration_at_current_version_mutates_nothing() {
    let cfg = mainnet();
    let mut ledger = Ledger::new();
    ledger.set_balance(alice(), Denomination::Native, 77);
    ledger.set_total_supply(Denomination::Native, 77);
    let mut state =
        RuntimeState { state_version: 4, parameters: pre_migration_params(&cfg), ledger };

    let r = Runtime::migrate_state(&mut state, &cfg);

    assert_eq!(r, Ok(()));
    assert_eq!(state.state_version, 4);
    assert_eq!(state.ledger.get_balance(alice(), Denomination::Native), 77);
    assert_eq!(state.ledger.get_total_supply(Denomination::Native), 77);
    // The stale scaling factor proves the parameters were not rewritten.
    assert_eq!(state.parameters.consensus.consensus_scaling_factor, 1);
}

#[test]
fn migration_without_factor_change_still_checks_invariants() {
    let cfg = mainnet();
    let mut ledger = Ledger::new();
    // No accounts, yet a nonzero recorded supply: corrupt.
    ledger.set_total_supply(Denomination::Native, 5);
    let params = ParameterStore {
        core: build_core_params(&cfg),
        accounts: build_accounts_params(),
        consensus: build_consensus_params(),
        consensus_accounts: build_consensus_accounts_params(),
        rewards: build_rewards_params(),
        evm: build_evm_params(),
    };
    let mut state = RuntimeState { state_version: 0, parameters: params, ledger };

    let r = Runtime::migrate_state(&mut state, &cfg);

    assert_eq!(r, Err(MigrationError::InvariantViolation));
    assert_eq!(state.state_version, 0);
    assert_eq!(state.ledger.get_total_supply(Denomination::Native), 5);
}

#[test]
fn migration_total_is_independent_of_account_order() {
    let cfg = mainnet();

    let mut first = Ledger::new();
    first.set_balance(alice(), Denomination::Native, 11);
    first.set_balance(bob(), Denomination::Native, 31);
    first.set_total_supply(Denomination::Native, 42);

    let mut second = Ledger::new();
    second.set_balance(bob(), Denomination::Native, 31);
    second.set_balance(alice(), Denomination::Native, 11);
    second.set_total_supply(Denomination::Native, 42);

    let mut s1 =
        RuntimeState { state_version: 0, parameters: pre_migration_params(&cfg), ledger: first };
    let mut s2 =
        RuntimeState { state_version: 0, parameters: pre_migration_params(&cfg), ledger: second };

    assert_eq!(Runtime::migrate_state(&mut s1, &cfg), Ok(()));
    assert_eq!(Runtime::migrate_state(&mut s2, &cfg), Ok(()));

    assert_eq!(
        s1.ledger.get_total_supply(Denomination::Native),
        s2.ledger.get_total_supply(Denomination::Native)
    );
    assert_eq!(s1.ledger.get_total_supply(Denomination::Native), 42_000_000_000);
}

#[test]
fn migration_scales_native_and_preserves_other_denominations() {
    let cfg = mainnet();
    let other = Denomination::Named(7);
    let mut ledger = Ledger::new();
    ledger.set_balance(alice(), Denomination::Native, 10);
    ledger.set_balance(alice(), other, 3);
    ledger.set_balance(bob(), other, 5);
    ledger.set_total_supply(Denomination::Native, 10);
    ledger.set_total_supply(other, 8);
    let mut state =
        RuntimeState { state_version: 0, parameters: pre_migration_params(&cfg), ledger };

    assert_eq!(Runtime::migrate_state(&mut state, &cfg), Ok(()));

    assert_eq!(
        state.ledger.get_balance(alice(), Denomination::Native),
        10_000_000_000
    );
    assert_eq!(state.ledger.get_balance(alice(), other), 3);
    assert_eq!(state.ledger.get_balance(bob(), other), 5);
    assert_eq!(state.ledger.get_balance(bob(), Denomination::Native), 0);
    assert_eq!(
        state.ledger.get_total_supply(Denomination::Native),
        10_000_000_000
    );
    assert_eq!(state.ledger.get_total_supply(other), 8);
}

#[test]
fn migration_runs_once_and_gates_afterwards() {
    let cfg = mainnet();
    let mut ledger = Ledger::new();
    ledger.set_balance(alice(), Denomination::Native, 9);
    ledger.set_total_supply(Denomination::Native, 9);
    let mut state =
        RuntimeState { state_version: 0, parameters: pre_migration_params(&cfg), ledger };

    assert_eq!(Runtime::migrate_state(&mut state, &cfg), Ok(()));
    assert_eq!(state.state_version, 4);
    assert_eq!(
        state.ledger.get_balance(alice(), Denomination::Native),
        9_000_000_000
    );

    // A second invocation is gated by the persisted version: no rescale runs.
    assert_eq!(Runtime::migrate_state(&mut state, &cfg), Ok(()));
    assert_eq!(
        state.ledger.get_balance(alice(), Denomination::Native),
        9_000_000_000
    );
    assert_eq!(
        state.ledger.get_total_supply(Denomination::Native),
        9_000_000_000
    );
}

#[test]
fn rescale_conserves_total_supply_exactly() {
    let mut ledger = Ledger::new();
    ledger.set_balance(alice(), Denomination::Native, 2);
    ledger.set_balance(bob(), Denomination::Native, 3);
    ledger.set_total_supply(Denomination::Native, 5);

    let scaled = rescale_ledger(&ledger, 1_000).expect("rescale should succeed");

    assert_eq!(scaled.get_total_supply(Denomination::Native), 5_000);
    assert_eq!(scaled.get_balance(alice(), Denomination::Native), 2_000);
    assert_eq!(scaled.get_balance(bob(), Denomination::Native), 3_000);
}

#[test]
fn invariant_check_accepts_consistent_and_rejects_corrupt_ledgers() {
    let mut good = Ledger::new();
    good.set_balance(alice(), Denomination::Native, 4);
    good.set_balance(bob(), Denomination::Native, 6);
    good.set_total_supply(Denomination::Native, 10);
    assert_eq!(check_invariants(&good), Ok(()));

    let mut bad = Ledger::new();
    bad.set_balance(alice(), Denomination::Native, 4);
    bad.set_total_supply(Denomination::Native, 10);
    assert_eq!(bad.get_balance(alice(), Denomination::Native), 4);
    assert_eq!(check_invariants(&bad), Err(MigrationError::InvariantViolation));

    // A balance in a denomination with no recorded supply is corrupt too.
    let mut unlisted = Ledger::new();
    unlisted.set_balance(alice(), Denomination::Named(3), 1);
    assert_eq!(
        check_invariants(&unlisted),
        Err(MigrationError::InvariantViolation)
    );
}
