//! Orchard circuit eras: the three verifying keys, their cross-address
//! capability, and the block-era routing that picks a key.
//!
//! * **pre-NU6.2** (`InsecurePreNu6_2`): the original, under-constrained
//!   circuit, retained so pre-soft-fork Orchard history still re-verifies.
//! * **NU6.2** (`FixedPostNu6_2`): the fixed circuit.
//! * **NU6.3-onward** (`PostNu6_3`): the fixed circuit plus the
//!   cross-address restriction; v5 Orchard at NU6.3, v6 Orchard and Ironwood
//!   bundles all share this key.
//!
//! Routing depends on the **block's** network upgrade, mirroring the
//! production routing the oracle must agree with.

use vstd::prelude::*;

use orchard::circuit::{OrchardCircuitVersion, VerifyingKey};
use zebra_chain::parameters::NetworkUpgrade;

use crate::orchard_pool::key_supports_restriction;

verus! {

/// The three Orchard circuit eras a bundle can belong to. A batch must never
/// mix eras.
#[derive(Debug, Clone, Copy, PartialEq, Eq, Hash, Structural)]
pub enum CircuitEra {
    /// NU5..NU6.2: the original, under-constrained circuit.
    PreNu6_2,
    /// NU6.2..NU6.3: the fixed circuit.
    Nu6_2,
    /// NU6.3 onward: the fixed circuit plus the cross-address restriction.
    Nu6_3Onward,
}

/// An `orchard` circuit version.
#[verifier::external_type_specification]
#[verifier::external_body]
pub struct ExOrchardCircuitVersion(OrchardCircuitVersion);

/// An Orchard verifying key.
#[verifier::external_type_specification]
#[verifier::external_body]
pub struct ExVerifyingKey(VerifyingKey);

/// A `zebra-chain` network upgrade.
#[verifier::external_type_specification]
#[verifier::external_body]
pub struct ExNetworkUpgrade(NetworkUpgrade);

/// The network upgrades, by name, as the routing reads them.
#[derive(Debug, Clone, Copy, PartialEq, Eq, Hash, Structural)]
pub enum UpgradeName {
    Genesis,
    BeforeOverwinter,
    Overwinter,
    Sapling,
    Blossom,
    Heartwood,
    Canopy,
    Nu5,
    Nu6,
    Nu6_1,
    Nu6_2,
    Nu6_3,
    Nu7,
}

/// The name of the `zebra-chain` network upgrade `nu`: the variant of
/// [`UpgradeName`] spelled as `nu`'s variant. A function of the variant alone.
pub uninterp spec fn network_upgrade_name(nu: NetworkUpgrade) -> UpgradeName;

/// Which variant of `zebra-chain`'s `NetworkUpgrade` this is, as an
/// [`UpgradeName`]: a variant for variant conversion.
#[verifier::external_body]
pub(crate) fn upgrade_name(nu: NetworkUpgrade) -> (name: UpgradeName)
    ensures
        name == network_upgrade_name(nu),
{
    match nu {
        NetworkUpgrade::Genesis => UpgradeName::Genesis,
        NetworkUpgrade::BeforeOverwinter => UpgradeName::BeforeOverwinter,
        NetworkUpgrade::Overwinter => UpgradeName::Overwinter,
        NetworkUpgrade::Sapling => UpgradeName::Sapling,
        NetworkUpgrade::Blossom => UpgradeName::Blossom,
        NetworkUpgrade::Heartwood => UpgradeName::Heartwood,
        NetworkUpgrade::Canopy => UpgradeName::Canopy,
        NetworkUpgrade::Nu5 => UpgradeName::Nu5,
        NetworkUpgrade::Nu6 => UpgradeName::Nu6,
        NetworkUpgrade::Nu6_1 => UpgradeName::Nu6_1,
        NetworkUpgrade::Nu6_2 => UpgradeName::Nu6_2,
        NetworkUpgrade::Nu6_3 => UpgradeName::Nu6_3,
        NetworkUpgrade::Nu7 => UpgradeName::Nu7,
    }
}

/// The era a network upgrade routes to.
pub open spec fn era_for(name: UpgradeName) -> CircuitEra {
    match name {
        UpgradeName::Nu6_2 => CircuitEra::Nu6_2,
        UpgradeName::Nu6_3 | UpgradeName::Nu7 => CircuitEra::Nu6_3Onward,
        _ => CircuitEra::PreNu6_2,
    }
}

/// The variants of `orchard`'s `OrchardCircuitVersion`, by name.
#[derive(Debug, Clone, Copy, PartialEq, Eq, Structural)]
pub enum CircuitVersionName {
    /// The original circuit, under-constrained.
    InsecurePreNu6_2,
    /// The fixed circuit.
    FixedPostNu6_2,
    /// The fixed circuit with the cross-address restriction.
    PostNu6_3,
}

/// Which variant an `OrchardCircuitVersion` is.
pub uninterp spec fn circuit_version_name(version: OrchardCircuitVersion) -> CircuitVersionName;

/// The `OrchardCircuitVersion` variant of a name: a variant for variant
/// conversion.
#[verifier::external_body]
fn to_circuit_version(name: CircuitVersionName) -> (version: OrchardCircuitVersion)
    ensures
        circuit_version_name(version) == name,
{
    match name {
        CircuitVersionName::InsecurePreNu6_2 => OrchardCircuitVersion::InsecurePreNu6_2,
        CircuitVersionName::FixedPostNu6_2 => OrchardCircuitVersion::FixedPostNu6_2,
        CircuitVersionName::PostNu6_3 => OrchardCircuitVersion::PostNu6_3,
    }
}

/// Whether a circuit version constrains the cross-address restriction, via
/// `OrchardCircuitVersion::supports_cross_address_restriction`, which the
/// source answers `true` for `PostNu6_3` alone.
#[verifier::external_body]
fn version_supports_restriction(version: OrchardCircuitVersion) -> (supports: bool)
    ensures
        supports == (circuit_version_name(version) == CircuitVersionName::PostNu6_3),
{
    version.supports_cross_address_restriction()
}

/// The circuit version an era commits to.
pub open spec fn era_version(era: CircuitEra) -> CircuitVersionName {
    match era {
        CircuitEra::PreNu6_2 => CircuitVersionName::InsecurePreNu6_2,
        CircuitEra::Nu6_2 => CircuitVersionName::FixedPostNu6_2,
        CircuitEra::Nu6_3Onward => CircuitVersionName::PostNu6_3,
    }
}

/// Build the Orchard verifying key for a circuit version, via
/// `VerifyingKey::build`. A multi-second computation; the key keeps the
/// version, so it constrains the cross-address restriction exactly when the
/// version does. Nothing else is stated of the key, which is opaque here.
#[verifier::external_body]
pub fn verifying_key(version: OrchardCircuitVersion) -> (vk: VerifyingKey)
    ensures
        key_supports_restriction(vk) == (circuit_version_name(version) == CircuitVersionName::PostNu6_3),
{
    VerifyingKey::build(version)
}

impl CircuitEra {
    /// All three eras, for exhaustive coverage, in era order.
    pub const ALL: [CircuitEra; 3] = [CircuitEra::PreNu6_2, CircuitEra::Nu6_2, CircuitEra::Nu6_3Onward];

    /// The `orchard` circuit version this era commits to: the insecure
    /// pre-NU6.2 circuit, the fixed NU6.2 circuit, or the NU6.3 circuit with
    /// the cross-address restriction.
    pub fn circuit_version(self) -> (version: OrchardCircuitVersion)
        ensures
            circuit_version_name(version) == era_version(self),
    {
        let name = match self {
            CircuitEra::PreNu6_2 => CircuitVersionName::InsecurePreNu6_2,
            CircuitEra::Nu6_2 => CircuitVersionName::FixedPostNu6_2,
            CircuitEra::Nu6_3Onward => CircuitVersionName::PostNu6_3,
        };
        to_circuit_version(name)
    }

    /// Whether this era's circuit constrains the cross-address restriction.
    /// Only NU6.3-onward does.
    pub fn supports_cross_address_restriction(self) -> (supports: bool)
        ensures
            supports == (self == CircuitEra::Nu6_3Onward),
    {
        version_supports_restriction(self.circuit_version())
    }

    /// Route a network upgrade, by name, to its Orchard circuit era: NU6.2 to
    /// the NU6.2 era, NU6.3 and NU7 to the NU6.3-onward era, and every earlier
    /// upgrade to the pre-NU6.2 era.
    pub fn from_upgrade_name(name: UpgradeName) -> (era: CircuitEra)
        ensures
            era == era_for(name),
    {
        match name {
            UpgradeName::Genesis | UpgradeName::BeforeOverwinter | UpgradeName::Overwinter
            | UpgradeName::Sapling | UpgradeName::Blossom | UpgradeName::Heartwood | UpgradeName::Canopy
            | UpgradeName::Nu5 | UpgradeName::Nu6 | UpgradeName::Nu6_1 => CircuitEra::PreNu6_2,
            UpgradeName::Nu6_2 => CircuitEra::Nu6_2,
            UpgradeName::Nu6_3 | UpgradeName::Nu7 => CircuitEra::Nu6_3Onward,
        }
    }

    /// Route a block's network upgrade to its Orchard circuit era; see
    /// [`Self::from_upgrade_name`].
    pub fn from_network_upgrade(nu: NetworkUpgrade) -> (era: CircuitEra)
        ensures
            era == era_for(network_upgrade_name(nu)),
    {
        let name = upgrade_name(nu);
        Self::from_upgrade_name(name)
    }
}

/// The three era verifying keys, built once and held together.
pub struct EraKeys {
    pre_nu6_2: VerifyingKey,
    nu6_2: VerifyingKey,
    nu6_3_onward: VerifyingKey,
}

impl EraKeys {
    /// Build all three era keys (three multi-second key builds). Only the
    /// NU6.3-onward key constrains the cross-address restriction.
    pub fn build() -> (keys: EraKeys)
        ensures
            forall|era: CircuitEra| #[trigger] key_supports_restriction(*keys.key_spec(era)) == (era
                == CircuitEra::Nu6_3Onward),
    {
        EraKeys {
            pre_nu6_2: verifying_key(CircuitEra::PreNu6_2.circuit_version()),
            nu6_2: verifying_key(CircuitEra::Nu6_2.circuit_version()),
            nu6_3_onward: verifying_key(CircuitEra::Nu6_3Onward.circuit_version()),
        }
    }

    /// The key of one era.
    pub closed spec fn key_spec(&self, era: CircuitEra) -> &VerifyingKey {
        match era {
            CircuitEra::PreNu6_2 => &self.pre_nu6_2,
            CircuitEra::Nu6_2 => &self.nu6_2,
            CircuitEra::Nu6_3Onward => &self.nu6_3_onward,
        }
    }

    /// The key of one era.
    pub fn key(&self, era: CircuitEra) -> (key: &VerifyingKey)
        ensures
            key == self.key_spec(era),
    {
        match era {
            CircuitEra::PreNu6_2 => &self.pre_nu6_2,
            CircuitEra::Nu6_2 => &self.nu6_2,
            CircuitEra::Nu6_3Onward => &self.nu6_3_onward,
        }
    }
}

/// Exactly the NU6.3-onward era constrains the cross-address restriction, and
/// it is exactly the era NU6.3 and NU7 blocks route to.
pub proof fn lemma_only_nu6_3_onward_constrains_cross_address(name: UpgradeName)
    ensures
        (era_for(name) == CircuitEra::Nu6_3Onward) <==> (name == UpgradeName::Nu6_3 || name == UpgradeName::Nu7),
        era_for(name) == CircuitEra::Nu6_2 <==> name == UpgradeName::Nu6_2,
{
}

} // verus!
