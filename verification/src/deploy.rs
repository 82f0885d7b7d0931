//! Named deployment plans and scenarios of the protocol's command-line
//! tooling. Each marker names one step of standing the wider system up;
//! the host-side harness around this crate decides what performing a step
//! means on its chain, so the markers themselves carry no behavior here.

use vstd::prelude::*;

verus! {

/// Deploys the pair factory of the exchange subsystem.
#[derive(Clone, Copy, Debug)]
pub struct FactoryDeployScript;

/// Deploys the swap router of the exchange subsystem; the factory must
/// already stand.
#[derive(Clone, Copy, Debug)]
pub struct RouterDeployScript;

/// Deploys the whole exchange subsystem: the factory, then the router.
#[derive(Clone, Copy, Debug)]
pub struct DexDeployScript;

/// Deploys the set of test tokens the protocol trades and lends.
#[derive(Clone, Copy, Debug)]
pub struct TokensDeployScript;

/// Deploys everything: the exchange subsystem and the test tokens.
#[derive(Clone, Copy, Debug)]
pub struct FullDeployScript;

/// The scenario that creates a trading pair for two given tokens.
#[derive(Clone, Copy, Debug)]
pub struct CreatePairScenario;

} // verus!
