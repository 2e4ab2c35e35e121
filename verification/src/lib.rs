//! Versioned bootstrap and migration layer of a modular ledger runtime.
//!
//! The crate assembles a fixed, ordered set of state-owning modules into one
//! runtime, builds each module's genesis parameters, and — when the runtime's
//! compiled-in state version is newer than the version recorded in persisted
//! state — applies a deterministic migration: module parameters are replaced
//! wholesale, native-denomination balances are rescaled by the consensus
//! scaling factor with checked arithmetic, and a global supply invariant is
//! checked before anything is committed.

use vstd::prelude::*;

pub mod genesis;
pub mod ledger;
pub mod migration;
pub mod params;
pub mod registry;
pub mod types;

pub use ledger::Account;
pub use ledger::AccountView;
pub use ledger::Ledger;
pub use ledger::LedgerView;
pub use migration::RuntimeState;
pub use types::Address;
pub use types::BaseUnits;
pub use types::Denomination;
pub use types::MigrationError;

verus! {

/// Marker for the module configuration choices of this runtime (chain id,
/// token denomination, gas defaults). The concrete values are exposed by the
/// associated functions below and by the genesis builders.
pub struct Config;

/// The ledger runtime itself: the composition of the six modules together
/// with its genesis builder and migration entry point.
pub struct Runtime;

/// How a deployment is classified. Exactly one of the three networks applies
/// to a build; the classification selects parameter sets but never changes
/// the migration algorithm.
#[derive(PartialEq, Eq, Structural, Clone, Copy, Debug)]
pub enum Network {
    Mainnet,
    Testnet,
    Localnet,
}

/// Build-time facts a deployment is classified from, resolved once at process
/// start and passed in explicitly; nothing is inferred at runtime.
#[derive(PartialEq, Eq, Structural, Clone, Copy, Debug)]
pub struct BuildConfig {
    /// Whether the build's version string carries a pre-release tag
    /// (e.g. `3.0.0-alpha`): such builds are classified as Testnet.
    pub version_has_prerelease: bool,
    /// Whether the deployment explicitly opted into the Localnet chain id.
    pub use_localnet_chain_id: bool,
}

/// The batch scheduling limits of the runtime.
#[derive(PartialEq, Eq, Structural, Clone, Copy, Debug)]
pub struct ScheduleControl {
    pub initial_batch_size: u32,
    pub batch_size: u32,
    pub min_remaining_gas: u64,
    pub max_tx_count: u32,
}

impl Config {
    /// Default local minimum gas price used when no per-node override is
    /// set.
    pub fn default_local_min_gas_price() -> (r: Vec<(Denomination, u128)>)
        ensures
            r@ == seq![(Denomination::Native, 100_000_000_000u128)],
    {
        let mut r: Vec<(Denomination, u128)> = Vec::new();
        r.push((Denomination::Native, 100_000_000_000));
        proof {
            assert(r@ =~= seq![(Denomination::Native, 100_000_000_000u128)]);
        }
        r
    }

    /// Methods exempt from minimum gas price requirements.
    pub fn min_gas_price_exempt_methods() -> (r: Vec<&'static str>)
        ensures
            r@.len() == 1,
            r@[0]@ == "consensus.Deposit"@,
    {
        let mut r: Vec<&'static str> = Vec::new();
        r.push("consensus.Deposit");
        r
    }

    /// Default local estimate-gas search iteration bound: the base-two
    /// logarithm of the maximum batch gas, for exact estimates.
    pub fn default_local_estimate_gas_search_max_iters(cfg: &BuildConfig) -> (r: u64)
        ensures
            r == (if cfg.version_has_prerelease {
                25u64
            } else {
                23u64
            }),
    {
        if is_testnet(cfg) {
            25
        } else {
            23
        }
    }

    /// The EVM chain id of the build.
    pub fn chain_id(cfg: &BuildConfig) -> (r: u64)
        ensures
            cfg.use_localnet_chain_id ==> r == 0xa514,
            !cfg.use_localnet_chain_id && cfg.version_has_prerelease ==> r == 0xa515,
            !cfg.use_localnet_chain_id && !cfg.version_has_prerelease ==> r == 0xa516,
    {
        chain_id(cfg)
    }

    /// The token denomination the EVM operates in.
    pub fn token_denomination() -> (r: Denomination)
        ensures
            r == Denomination::Native,
    {
        Denomination::Native
    }
}

impl Runtime {
    /// The schedule control configuration of the runtime.
    pub fn schedule_control() -> (r: ScheduleControl)
        ensures
            r == (ScheduleControl {
                initial_batch_size: 50,
                batch_size: 50,
                // Enough for accounts.Transfer method calls.
                min_remaining_gas: 1_000,
                // Consistent with the runtime descriptor.
                max_tx_count: 1_000,
            }),
    {
        ScheduleControl {
            initial_batch_size: 50,
            batch_size: 50,
            min_remaining_gas: 1_000,
            max_tx_count: 1_000,
        }
    }
}

/// Determine whether the build is for Testnet.
///
/// A build whose version string carries a pre-release component is classified
/// as Testnet; one without is classified as Mainnet.
pub fn is_testnet(cfg: &BuildConfig) -> (r: bool)
    ensures
        r == cfg.version_has_prerelease,
{
    cfg.version_has_prerelease
}

/// The network a build belongs to: the Localnet override wins, then the
/// Testnet classification, and Mainnet is the default.
pub fn network(cfg: &BuildConfig) -> (r: Network)
    ensures
        cfg.use_localnet_chain_id ==> r == Network::Localnet,
        !cfg.use_localnet_chain_id && cfg.version_has_prerelease ==> r == Network::Testnet,
        !cfg.use_localnet_chain_id && !cfg.version_has_prerelease ==> r == Network::Mainnet,
{
    if cfg.use_localnet_chain_id {
        Network::Localnet
    } else if is_testnet(cfg) {
        Network::Testnet
    } else {
        Network::Mainnet
    }
}

/// Determine the EVM chain id to use depending on whether the build is for
/// Localnet, Testnet or Mainnet.
pub fn chain_id(cfg: &BuildConfig) -> (r: u64)
    ensures
        cfg.use_localnet_chain_id ==> r == 0xa514,
        !cfg.use_localnet_chain_id && cfg.version_has_prerelease ==> r == 0xa515,
        !cfg.use_localnet_chain_id && !cfg.version_has_prerelease ==> r == 0xa516,
{
    if cfg.use_localnet_chain_id {
        // Localnet.
        0xa514
    } else if is_testnet(cfg) {
        // Testnet.
        0xa515
    } else {
        // Mainnet.
        0xa516
    }
}

/// Current version of the global state (parameters and schema). Any parameter
/// update must bump this version for the migration to run. Testnet and
/// Mainnet currently share the same version.
pub fn state_version(cfg: &BuildConfig) -> (r: u32)
    ensures
        r == 4,
{
    if is_testnet(cfg) {
        // Testnet.
        4
    } else {
        // Mainnet.
        4
    }
}

} // verus!
