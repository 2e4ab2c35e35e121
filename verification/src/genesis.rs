//! The genesis builder: a pure constructor of the full set of module
//! parameter records for the current code version. It has no external state
//! dependency; every value is determined by the build classification alone,
//! so repeated calls produce identical records. The same records serve both
//! at chain genesis and as the target state during migration.

use vstd::prelude::*;

use crate::params::AccountsGasCosts;
use crate::params::AccountsGenesis;
use crate::params::AccountsParameters;
use crate::params::ConsensusAccountsGasCosts;
use crate::params::ConsensusAccountsGenesis;
use crate::params::ConsensusAccountsParameters;
use crate::params::ConsensusGenesis;
use crate::params::ConsensusParameters;
use crate::params::CoreGasCosts;
use crate::params::CoreGenesis;
use crate::params::CoreParameters;
use crate::params::DenominationInfo;
use crate::params::EvmGasCosts;
use crate::params::EvmGenesis;
use crate::params::EvmParameters;
use crate::params::ParameterStore;
use crate::params::RewardSchedule;
use crate::params::RewardsGenesis;
use crate::params::RewardsParameters;
use crate::params::RewardStep;
use crate::params::RuntimeGenesis;
use crate::types::BaseUnits;
use crate::types::Denomination;
use crate::BuildConfig;
use crate::Runtime;

verus! {

/// The target core-module parameters: the minimum gas price of the native
/// denomination, batch and transaction limits, and authentication gas costs.
pub open spec fn is_target_core_params(p: CoreParameters, testnet: bool) -> bool {
    &&& p.min_gas_price@ == seq![(Denomination::Native, 100_000_000_000u128)]
    &&& p.max_batch_gas == (if testnet {
        30_000_000u64
    } else {
        15_000_000u64
    })
    &&& p.max_tx_signers == 1u32
    &&& p.max_multisig_signers == 8u32
    &&& p.gas_costs == (CoreGasCosts {
        tx_byte: 1,
        auth_signature: 1_000,
        auth_multisig_signer: 1_000,
        callformat_x25519_deoxysii: 10_000,
    })
    &&& p.max_tx_size == 307_200u32
}

/// The target accounts-module parameters: the transfer gas cost and the
/// native denomination's metadata, with 18 decimal places as expected in the
/// EVM ecosystem.
pub open spec fn is_target_accounts_params(p: AccountsParameters) -> bool {
    &&& !p.transfers_disabled
    &&& p.gas_costs == (AccountsGasCosts { tx_transfer: 1_000 })
    &&& p.denomination_infos@ == seq![
        (Denomination::Native, DenominationInfo { decimals: 18u8 }),
    ]
}

/// The target consensus-module parameters. The consensus-layer denomination
/// is the native denomination of this runtime, and balances scale by nine
/// orders of magnitude to reach 18 decimal places.
pub open spec fn is_target_consensus_params(p: ConsensusParameters) -> bool {
    p == (ConsensusParameters {
        consensus_denomination: Denomination::Native,
        consensus_scaling_factor: 1_000_000_000,
        min_delegate_amount: 100_000_000_000,
    })
}

/// The target consensus-accounts-module parameters: deposit, withdrawal and
/// delegation gas costs, with every operation enabled.
pub open spec fn is_target_consensus_accounts_params(p: ConsensusAccountsParameters) -> bool {
    p == (ConsensusAccountsParameters {
        gas_costs: ConsensusAccountsGasCosts {
            tx_deposit: 60_000,
            tx_withdraw: 60_000,
            tx_delegate: 60_000,
            tx_undelegate: 120_000,
            store_receipt: 20_000,
            take_receipt: 15_000,
        },
        disable_delegate: false,
        disable_undelegate: false,
        disable_deposit: false,
        disable_withdraw: false,
    })
}

/// The target rewards-module parameters: a single schedule step and a
/// three-quarters participation threshold.
pub open spec fn is_target_rewards_params(p: RewardsParameters) -> bool {
    &&& p.schedule.steps@ == seq![
        RewardStep {
            until: 27_500u64,
            amount: BaseUnits {
                amount: 3_000_000_000_000_000_000u128,
                denomination: Denomination::Native,
            },
        },
    ]
    &&& p.participation_threshold_numerator == 3u64
    &&& p.participation_threshold_denominator == 4u64
}

/// The target EVM-module parameters.
pub open spec fn is_target_evm_params(p: EvmParameters) -> bool {
    p == (EvmParameters { gas_costs: EvmGasCosts {} })
}

/// The whole parameter store holds the target records of every module.
pub open spec fn is_target_parameter_store(store: ParameterStore, testnet: bool) -> bool {
    &&& is_target_core_params(store.core, testnet)
    &&& is_target_accounts_params(store.accounts)
    &&& is_target_consensus_params(store.consensus)
    &&& is_target_consensus_accounts_params(store.consensus_accounts)
    &&& is_target_rewards_params(store.rewards)
    &&& is_target_evm_params(store.evm)
}

/// Build the target core-module parameters.
pub fn build_core_params(cfg: &BuildConfig) -> (r: CoreParameters)
    ensures
        is_target_core_params(r, cfg.version_has_prerelease),
{
    let mut min_gas_price: Vec<(Denomination, u128)> = Vec::new();
    min_gas_price.push((Denomination::Native, 100_000_000_000));
    proof {
        assert(min_gas_price@ =~= seq![(Denomination::Native, 100_000_000_000u128)]);
    }
    CoreParameters {
        min_gas_price,
        max_batch_gas: if crate::is_testnet(cfg) {
            30_000_000
        } else {
            15_000_000
        },
        max_tx_signers: 1,
        max_multisig_signers: 8,
        gas_costs: CoreGasCosts {
            tx_byte: 1,
            auth_signature: 1_000,
            auth_multisig_signer: 1_000,
            callformat_x25519_deoxysii: 10_000,
        },
        // 300 KiB.
        max_tx_size: 1024 * 300,
    }
}

/// Build the target accounts-module parameters.
pub fn build_accounts_params() -> (r: AccountsParameters)
    ensures
        is_target_accounts_params(r),
{
    let mut denomination_infos: Vec<(Denomination, DenominationInfo)> = Vec::new();
    // Consistent with the EVM ecosystem.
    denomination_infos.push((Denomination::Native, DenominationInfo { decimals: 18 }));
    proof {
        assert(denomination_infos@ =~= seq![
            (Denomination::Native, DenominationInfo { decimals: 18u8 }),
        ]);
    }
    AccountsParameters {
        transfers_disabled: false,
        gas_costs: AccountsGasCosts { tx_transfer: 1_000 },
        denomination_infos,
    }
}

/// Build the target consensus-module parameters.
pub fn build_consensus_params() -> (r: ConsensusParameters)
    ensures
        is_target_consensus_params(r),
{
    ConsensusParameters {
        // The consensus-layer denomination is the native denomination of
        // this runtime.
        consensus_denomination: Denomination::Native,
        // Scale to 18 decimal places as expected in the EVM ecosystem.
        consensus_scaling_factor: 1_000_000_000,
        // Minimum delegation amount that matches the consensus layer.
        min_delegate_amount: 100_000_000_000,
    }
}

/// Build the target consensus-accounts-module parameters.
pub fn build_consensus_accounts_params() -> (r: ConsensusAccountsParameters)
    ensures
        is_target_consensus_accounts_params(r),
{
    ConsensusAccountsParameters {
        gas_costs: ConsensusAccountsGasCosts {
            tx_deposit: 60_000,
            tx_withdraw: 60_000,
            tx_delegate: 60_000,
            tx_undelegate: 120_000,
            store_receipt: 20_000,
            take_receipt: 15_000,
        },
        disable_delegate: false,
        disable_undelegate: false,
        disable_deposit: false,
        disable_withdraw: false,
    }
}

/// Build the target rewards-module parameters.
pub fn build_rewards_params() -> (r: RewardsParameters)
    ensures
        is_target_rewards_params(r),
{
    let mut steps: Vec<RewardStep> = Vec::new();
    steps.push(RewardStep {
        until: 27_500,
        amount: BaseUnits::new(3_000_000_000_000_000_000, Denomination::Native),
    });
    proof {
        assert(steps@ =~= seq![
            RewardStep {
                until: 27_500u64,
                amount: BaseUnits {
                    amount: 3_000_000_000_000_000_000u128,
                    denomination: Denomination::Native,
                },
            },
        ]);
    }
    RewardsParameters {
        schedule: RewardSchedule { steps },
        participation_threshold_numerator: 3,
        participation_threshold_denominator: 4,
    }
}

/// Build the target EVM-module parameters.
pub fn build_evm_params() -> (r: EvmParameters)
    ensures
        is_target_evm_params(r),
{
    EvmParameters { gas_costs: EvmGasCosts {} }
}

impl Runtime {
    /// Build the full runtime genesis for the current code version: the
    /// target parameter record of every module, in module registry order,
    /// with no initial balances. Construction cannot fail and depends on the
    /// build classification alone.
    pub fn genesis_state(cfg: &BuildConfig) -> (r: RuntimeGenesis)
        ensures
            is_target_core_params(r.core.parameters, cfg.version_has_prerelease),
            is_target_accounts_params(r.accounts.parameters),
            r.accounts.balances@.len() == 0,
            r.accounts.total_supplies@.len() == 0,
            is_target_consensus_params(r.consensus.parameters),
            is_target_consensus_accounts_params(r.consensus_accounts.parameters),
            is_target_rewards_params(r.rewards.parameters),
            is_target_evm_params(r.evm.parameters),
    {
        RuntimeGenesis {
            core: CoreGenesis { parameters: build_core_params(cfg) },
            accounts: AccountsGenesis {
                parameters: build_accounts_params(),
                balances: Vec::new(),
                total_supplies: Vec::new(),
            },
            consensus: ConsensusGenesis { parameters: build_consensus_params() },
            consensus_accounts: ConsensusAccountsGenesis {
                parameters: build_consensus_accounts_params(),
            },
            rewards: RewardsGenesis { parameters: build_rewards_params() },
            evm: EvmGenesis { parameters: build_evm_params() },
        }
    }
}

} // verus!
