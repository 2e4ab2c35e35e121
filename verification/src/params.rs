//! Per-module parameter records, the genesis records that wrap them, and the
//! parameter store the migration rewrites. Each record is a plain data
//! structure owned exclusively by its module and replaced wholesale during
//! migration, never partially patched.

use vstd::prelude::*;

use crate::ledger::Account;
use crate::types::BaseUnits;
use crate::types::Denomination;

verus! {

/// Gas costs charged by the core module.
#[derive(PartialEq, Eq, Structural, Clone, Copy, Debug)]
pub struct CoreGasCosts {
    pub tx_byte: u64,
    pub auth_signature: u64,
    pub auth_multisig_signer: u64,
    pub callformat_x25519_deoxysii: u64,
}

/// Parameters of the core module.
#[derive(Clone, Debug)]
pub struct CoreParameters {
    pub max_batch_gas: u64,
    pub max_tx_signers: u32,
    pub max_multisig_signers: u32,
    pub max_tx_size: u32,
    pub gas_costs: CoreGasCosts,
    pub min_gas_price: Vec<(Denomination, u128)>,
}

/// Gas costs charged by the accounts module.
#[derive(PartialEq, Eq, Structural, Clone, Copy, Debug)]
pub struct AccountsGasCosts {
    pub tx_transfer: u64,
}

/// Metadata recorded for one denomination.
#[derive(PartialEq, Eq, Structural, Clone, Copy, Debug)]
pub struct DenominationInfo {
    pub decimals: u8,
}

/// Parameters of the accounts module.
#[derive(Clone, Debug)]
pub struct AccountsParameters {
    pub transfers_disabled: bool,
    pub gas_costs: AccountsGasCosts,
    pub denomination_infos: Vec<(Denomination, DenominationInfo)>,
}

/// Parameters of the consensus-layer interface module. The scaling factor is
/// what the balance rescale transform is driven by.
#[derive(PartialEq, Eq, Structural, Clone, Copy, Debug)]
pub struct ConsensusParameters {
    pub consensus_denomination: Denomination,
    pub consensus_scaling_factor: u64,
    pub min_delegate_amount: u128,
}

/// Gas costs charged by the consensus-accounts module.
#[derive(PartialEq, Eq, Structural, Clone, Copy, Debug)]
pub struct ConsensusAccountsGasCosts {
    pub tx_deposit: u64,
    pub tx_withdraw: u64,
    pub tx_delegate: u64,
    pub tx_undelegate: u64,
    pub store_receipt: u64,
    pub take_receipt: u64,
}

/// Parameters of the consensus-accounts module.
#[derive(PartialEq, Eq, Structural, Clone, Copy, Debug)]
pub struct ConsensusAccountsParameters {
    pub gas_costs: ConsensusAccountsGasCosts,
    pub disable_delegate: bool,
    pub disable_undelegate: bool,
    pub disable_deposit: bool,
    pub disable_withdraw: bool,
}

/// One step of the reward schedule: the reward paid per epoch until the
/// given epoch.
#[derive(PartialEq, Eq, Structural, Clone, Copy, Debug)]
pub struct RewardStep {
    pub until: u64,
    pub amount: BaseUnits,
}

/// The reward schedule, as an ordered list of steps.
#[derive(Clone, Debug)]
pub struct RewardSchedule {
    pub steps: Vec<RewardStep>,
}

/// Parameters of the rewards module.
#[derive(Clone, Debug)]
pub struct RewardsParameters {
    pub schedule: RewardSchedule,
    pub participation_threshold_numerator: u64,
    pub participation_threshold_denominator: u64,
}

/// Gas costs charged by the EVM module.
#[derive(PartialEq, Eq, Structural, Clone, Copy, Debug)]
pub struct EvmGasCosts {}

/// Parameters of the EVM module.
#[derive(PartialEq, Eq, Structural, Clone, Copy, Debug)]
pub struct EvmParameters {
    pub gas_costs: EvmGasCosts,
}

/// Genesis record of the core module.
pub struct CoreGenesis {
    pub parameters: CoreParameters,
}

/// Genesis record of the accounts module: its parameters together with the
/// initial balances and total supplies.
pub struct AccountsGenesis {
    pub parameters: AccountsParameters,
    pub balances: Vec<Account>,
    pub total_supplies: Vec<(Denomination, u128)>,
}

/// Genesis record of the consensus-layer interface module.
pub struct ConsensusGenesis {
    pub parameters: ConsensusParameters,
}

/// Genesis record of the consensus-accounts module.
pub struct ConsensusAccountsGenesis {
    pub parameters: ConsensusAccountsParameters,
}

/// Genesis record of the rewards module.
pub struct RewardsGenesis {
    pub parameters: RewardsParameters,
}

/// Genesis record of the EVM module.
pub struct EvmGenesis {
    pub parameters: EvmParameters,
}

/// The full runtime genesis: one record per module, in module registry order.
pub struct RuntimeGenesis {
    pub core: CoreGenesis,
    pub accounts: AccountsGenesis,
    pub consensus: ConsensusGenesis,
    pub consensus_accounts: ConsensusAccountsGenesis,
    pub rewards: RewardsGenesis,
    pub evm: EvmGenesis,
}

/// The persisted parameter store: one entry per module, keyed by the module
/// that owns it.
pub struct ParameterStore {
    pub core: CoreParameters,
    pub accounts: AccountsParameters,
    pub consensus: ConsensusParameters,
    pub consensus_accounts: ConsensusAccountsParameters,
    pub rewards: RewardsParameters,
    pub evm: EvmParameters,
}

} // verus!
