//! The module composition registry: the fixed, ordered list of state-owning
//! modules. The same order governs genesis construction, parameter
//! application during migration, and invariant checking; reordering it
//! silently changes semantics, so the order is pinned by contract.

use vstd::prelude::*;

use crate::genesis::build_accounts_params;
use crate::genesis::build_consensus_accounts_params;
use crate::genesis::build_consensus_params;
use crate::genesis::build_core_params;
use crate::genesis::build_evm_params;
use crate::genesis::build_rewards_params;
use crate::genesis::is_target_accounts_params;
use crate::genesis::is_target_consensus_accounts_params;
use crate::genesis::is_target_consensus_params;
use crate::genesis::is_target_core_params;
use crate::genesis::is_target_evm_params;
use crate::genesis::is_target_rewards_params;
use crate::params::ParameterStore;
use crate::BuildConfig;

verus! {

/// The identity of one state-owning module of the runtime.
#[derive(PartialEq, Eq, Structural, Clone, Copy, Debug)]
pub enum ModuleId {
    Core,
    Accounts,
    Consensus,
    ConsensusAccounts,
    Rewards,
    Evm,
}

/// The registry order, fixed at compile time.
pub open spec fn module_order_spec() -> Seq<ModuleId> {
    seq![
        ModuleId::Core,
        ModuleId::Accounts,
        ModuleId::Consensus,
        ModuleId::ConsensusAccounts,
        ModuleId::Rewards,
        ModuleId::Evm,
    ]
}

/// The ordered module composition of the runtime: Core first, then the
/// accounts ledger, the consensus-layer interface, consensus-layer accounts,
/// rewards, and the EVM.
pub fn module_order() -> (r: Vec<ModuleId>)
    ensures
        r@ == module_order_spec(),
{
    let mut r: Vec<ModuleId> = Vec::new();
    r.push(ModuleId::Core);
    r.push(ModuleId::Accounts);
    r.push(ModuleId::Consensus);
    r.push(ModuleId::ConsensusAccounts);
    r.push(ModuleId::Rewards);
    r.push(ModuleId::Evm);
    proof {
        assert(r@ =~= module_order_spec());
    }
    r
}

/// The parameter store holds the target record of module `m`.
pub open spec fn module_params_target(store: ParameterStore, m: ModuleId, testnet: bool) -> bool {
    match m {
        ModuleId::Core => is_target_core_params(store.core, testnet),
        ModuleId::Accounts => is_target_accounts_params(store.accounts),
        ModuleId::Consensus => is_target_consensus_params(store.consensus),
        ModuleId::ConsensusAccounts => is_target_consensus_accounts_params(
            store.consensus_accounts,
        ),
        ModuleId::Rewards => is_target_rewards_params(store.rewards),
        ModuleId::Evm => is_target_evm_params(store.evm),
    }
}

/// Two parameter stores agree on the record of module `m`.
pub open spec fn module_params_eq(s1: ParameterStore, s2: ParameterStore, m: ModuleId) -> bool {
    match m {
        ModuleId::Core => s1.core == s2.core,
        ModuleId::Accounts => s1.accounts == s2.accounts,
        ModuleId::Consensus => s1.consensus == s2.consensus,
        ModuleId::ConsensusAccounts => s1.consensus_accounts == s2.consensus_accounts,
        ModuleId::Rewards => s1.rewards == s2.rewards,
        ModuleId::Evm => s1.evm == s2.evm,
    }
}

/// Overwrite module `m`'s parameter record with its target genesis record,
/// leaving every other module's record untouched. This is the migration's
/// `set_params` step for one module.
pub fn apply_module_params(store: &mut ParameterStore, cfg: &BuildConfig, m: ModuleId)
    ensures
        module_params_target(*final(store), m, cfg.version_has_prerelease),
        forall|m2: ModuleId|
            m2 != m ==> #[trigger] module_params_eq(*final(store), *old(store), m2),
{
    match m {
        ModuleId::Core => {
            store.core = build_core_params(cfg);
        },
        ModuleId::Accounts => {
            store.accounts = build_accounts_params();
        },
        ModuleId::Consensus => {
            store.consensus = build_consensus_params();
        },
        ModuleId::ConsensusAccounts => {
            store.consensus_accounts = build_consensus_accounts_params();
        },
        ModuleId::Rewards => {
            store.rewards = build_rewards_params();
        },
        ModuleId::Evm => {
            store.evm = build_evm_params();
        },
    }
}

} // verus!
