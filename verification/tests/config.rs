use emerald::chain_id;
use emerald::is_testnet;
use emerald::network;
use emerald::registry::module_order;
use emerald::registry::ModuleId;
use emerald::state_version;
use emerald::Address;
use emerald::BaseUnits;
use emerald::BuildConfig;
use emerald::Config;
use emerald::Denomination;
use emerald::Ledger;
use emerald::Network;
use emerald::Runtime;

fn mainnet() -> BuildConfig {
    BuildConfig { version_has_prerelease: false, use_localnet_chain_id: false }
}

fn testnet() -> BuildConfig {
    BuildConfig { version_has_prerelease: true, use_localnet_chain_id: false }
}

fn localnet() -> BuildConfig {
    BuildConfig { version_has_prerelease: false, use_localnet_chain_id: true }
}

#[test]
fn network_classification() {
    assert!(!is_testnet(&mainnet()));
    assert!(is_testnet(&testnet()));
    assert_eq!(network(&mainnet()), Network::Mainnet);
    assert_eq!(network(&testnet()), Network::Testnet);
    assert_eq!(network(&localnet()), Network::Localnet);
}

#[test]
fn chain_ids_per_network() {
    assert_eq!(chain_id(&localnet()), 0xa514);
    assert_eq!(chain_id(&testnet()), 0xa515);
    assert_eq!(chain_id(&mainnet()), 0xa516);
    assert_eq!(Config::chain_id(&mainnet()), 0xa516);
}

#[test]
fn state_version_is_four_everywhere() {
    assert_eq!(state_version(&mainnet()), 4);
    assert_eq!(state_version(&testnet()), 4);
}

#[test]
fn config_defaults() {
    let min_gas = Config::default_local_min_gas_price();
    assert_eq!(min_gas, vec![(Denomination::Native, 100_000_000_000)]);
    let exempt = Config::min_gas_price_exempt_methods();
    assert_eq!(exempt, vec!["consensus.Deposit"]);
    assert_eq!(Config::default_local_estimate_gas_search_max_iters(&testnet()), 25);
    assert_eq!(Config::default_local_estimate_gas_search_max_iters(&mainnet()), 23);
    assert_eq!(Config::token_denomination(), Denomination::Native);
}

#[test]
fn schedule_control_values() {
    let sc = Runtime::schedule_control();
    assert_eq!(sc.initial_batch_size, 50);
    assert_eq!(sc.batch_size, 50);
    assert_eq!(sc.min_remaining_gas, 1_000);
    assert_eq!(sc.max_tx_count, 1_000);
}

#[test]
fn registry_order_is_fixed() {
    let order = module_order();
    assert_eq!(
        order,
        vec![
            ModuleId::Core,
            ModuleId::Accounts,
            ModuleId::Consensus,
            ModuleId::ConsensusAccounts,
            ModuleId::Rewards,
            ModuleId::Evm,
        ]
    );
}

#[test]
fn genesis_state_holds_target_parameters() {
    let g = Runtime::genesis_state(&mainnet());
    assert_eq!(g.core.parameters.max_batch_gas, 15_000_000);
    assert_eq!(g.core.parameters.max_tx_signers, 1);
    assert_eq!(g.core.parameters.max_multisig_signers, 8);
    assert_eq!(g.core.parameters.max_tx_size, 307_200);
    assert_eq!(g.core.parameters.gas_costs.tx_byte, 1);
    assert_eq!(g.core.parameters.gas_costs.auth_signature, 1_000);
    assert_eq!(g.core.parameters.gas_costs.auth_multisig_signer, 1_000);
    assert_eq!(g.core.parameters.gas_costs.callformat_x25519_deoxysii, 10_000);
    assert_eq!(
        g.core.parameters.min_gas_price,
        vec![(Denomination::Native, 100_000_000_000)]
    );

    assert_eq!(g.accounts.parameters.gas_costs.tx_transfer, 1_000);
    assert_eq!(g.accounts.parameters.denomination_infos.len(), 1);
    assert_eq!(g.accounts.parameters.denomination_infos[0].0, Denomination::Native);
    assert_eq!(g.accounts.parameters.denomination_infos[0].1.decimals, 18);
    assert!(g.accounts.balances.is_empty());
    assert!(g.accounts.total_supplies.is_empty());

    assert_eq!(g.consensus.parameters.consensus_denomination, Denomination::Native);
    assert_eq!(g.consensus.parameters.consensus_scaling_factor, 1_000_000_000);
    assert_eq!(g.consensus.parameters.min_delegate_amount, 100_000_000_000);

    assert_eq!(g.consensus_accounts.parameters.gas_costs.tx_deposit, 60_000);
    assert_eq!(g.consensus_accounts.parameters.gas_costs.tx_withdraw, 60_000);
    assert_eq!(g.consensus_accounts.parameters.gas_costs.tx_delegate, 60_000);
    assert_eq!(g.consensus_accounts.parameters.gas_costs.tx_undelegate, 120_000);
    assert_eq!(g.consensus_accounts.parameters.gas_costs.store_receipt, 20_000);
    assert_eq!(g.consensus_accounts.parameters.gas_costs.take_receipt, 15_000);
    assert!(!g.consensus_accounts.parameters.disable_delegate);
    assert!(!g.consensus_accounts.parameters.disable_undelegate);
    assert!(!g.consensus_accounts.parameters.disable_deposit);
    assert!(!g.consensus_accounts.parameters.disable_withdraw);

    assert_eq!(g.rewards.parameters.schedule.steps.len(), 1);
    assert_eq!(g.rewards.parameters.schedule.steps[0].until, 27_500);
    assert_eq!(
        g.rewards.parameters.schedule.steps[0].amount.amount,
        3_000_000_000_000_000_000
    );
    assert_eq!(
        g.rewards.parameters.schedule.steps[0].amount.denomination,
        Denomination::Native
    );
    assert_eq!(g.rewards.parameters.participation_threshold_numerator, 3);
    assert_eq!(g.rewards.parameters.participation_threshold_denominator, 4);
}

#[test]
fn testnet_genesis_raises_batch_gas() {
    let g = Runtime::genesis_state(&testnet());
    assert_eq!(g.core.parameters.max_batch_gas, 30_000_000);
}

#[test]
fn base_units_arithmetic_is_checked() {
    let a = BaseUnits::new(40, Denomination::Native);
    let b = BaseUnits::new(2, Denomination::Native);
    let c = BaseUnits::new(2, Denomination::Named(1));

    let sum = a.checked_add(&b).unwrap();
    assert_eq!(sum.amount, 42);
    assert_eq!(sum.denomination, Denomination::Native);
    assert!(a.checked_add(&c).is_none());
    assert!(BaseUnits::new(u128::MAX, Denomination::Native).checked_add(&b).is_none());

    let prod = a.checked_mul(1_000_000_000).unwrap();
    assert_eq!(prod.amount, 40_000_000_000);
    assert!(BaseUnits::new(u128::MAX / 2, Denomination::Native).checked_mul(3).is_none());
}

#[test]
fn ledger_accessors_read_and_write() {
    let alice = Address { value: 1 };
    let bob = Address { value: 2 };
    let mut ledger = Ledger::new();

    assert_eq!(ledger.get_balance(alice, Denomination::Native), 0);
    assert!(ledger.get_balances(alice).is_none());

    ledger.set_balance(alice, Denomination::Native, 12);
    ledger.set_balance(alice, Denomination::Named(9), 7);
    ledger.set_balance(bob, Denomination::Native, 0);
    ledger.set_balance(alice, Denomination::Native, 13);

    assert_eq!(ledger.get_balance(alice, Denomination::Native), 13);
    assert_eq!(ledger.get_balance(alice, Denomination::Named(9)), 7);
    assert_eq!(ledger.get_balance(bob, Denomination::Native), 0);
    assert_eq!(ledger.get_balances(alice).unwrap().len(), 2);

    ledger.set_total_supply(Denomination::Native, 13);
    ledger.set_total_supply(Denomination::Named(9), 7);
    ledger.set_total_supply(Denomination::Native, 14);
    assert_eq!(ledger.get_total_supply(Denomination::Native), 14);
    assert_eq!(ledger.get_total_supply(Denomination::Named(9)), 7);

    let holders = ledger.enumerate_addresses(Denomination::Native);
    assert_eq!(holders, vec![alice]);
    let named_holders = ledger.enumerate_addresses(Denomination::Named(9));
    assert_eq!(named_holders, vec![alice]);

    // The enumeration is exhaustive and free of duplicates, in any order.
    ledger.set_balance(bob, Denomination::Native, 1);
    let all = ledger.enumerate_addresses(Denomination::Native);
    assert_eq!(all.len(), 2);
    assert!(all.contains(&alice));
    assert!(all.contains(&bob));
}
