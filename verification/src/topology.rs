//! The topology model: tiers, plugins, services and environment templates,
//! with the well-formedness rules a topology must satisfy before the cluster
//! is brought up.

use vstd::prelude::*;

verus! {

/// A named group of instances sharing a replication configuration. The tier
/// places `replicasets * replication_factor` instances.
#[derive(Clone, Copy, Debug, PartialEq, Eq, Structural)]
pub struct Tier {
    pub replicasets: u8,
    pub replication_factor: u8,
}

/// A variable injected into a plugin's migration environment.
#[derive(Clone, Debug)]
pub struct MigrationContextVar {
    pub name: String,
    pub value: String,
}

/// A plugin service, placed on every tier it names.
#[derive(Clone, Debug)]
pub struct Service {
    pub tiers: Vec<String>,
}

/// A service of a plugin under its service name.
#[derive(Clone, Debug)]
pub struct NamedService {
    pub name: String,
    pub service: Service,
}

/// A loadable module installed into the cluster: its migration context,
/// its services, and the artifact version resolved at install time.
#[derive(Clone, Debug)]
pub struct Plugin {
    pub migration_context: Vec<MigrationContextVar>,
    pub services: Vec<NamedService>,
    pub version: Option<String>,
}

/// A tier of the topology under its name.
#[derive(Clone, Debug)]
pub struct NamedTier {
    pub name: String,
    pub tier: Tier,
}

/// A plugin of the topology under its name.
#[derive(Clone, Debug)]
pub struct NamedPlugin {
    pub name: String,
    pub plugin: Plugin,
}

/// An environment variable template, rendered per instance.
#[derive(Clone, Debug)]
pub struct EnvTemplate {
    pub name: String,
    pub template: String,
}

/// The parsed cluster description: tiers, plugins and environment templates,
/// each a list keyed by unique names.
#[derive(Clone, Debug)]
pub struct Topology {
    pub tiers: Vec<NamedTier>,
    pub plugins: Vec<NamedPlugin>,
    pub environment: Vec<EnvTemplate>,
}

/// Why a topology was rejected.
#[derive(Clone, Copy, Debug, PartialEq, Eq, Structural)]
pub enum TopologyError {
    /// Two tiers share a name.
    DuplicateTierName,
    /// Two plugins share a name.
    DuplicatePluginName,
    /// Two services of one plugin share a name.
    DuplicateServiceName,
    /// A tier declares no replicaset or no replica.
    EmptyTier,
    /// A service is placed on a tier the topology does not declare.
    UnknownTierReference,
}

/// The number of instances one tier places.
pub open spec fn tier_count(t: Tier) -> nat {
    (t.replicasets * t.replication_factor) as nat
}

/// The number of instances placed by a sequence of tiers.
pub open spec fn total_count(tiers: Seq<NamedTier>) -> nat
    decreases tiers.len(),
{
    if tiers.len() == 0 {
        0
    } else {
        tier_count(tiers[0].tier) + total_count(tiers.drop_first())
    }
}

/// Whether a sequence of character sequences holds pairwise distinct entries.
pub open spec fn names_unique(names: Seq<Seq<char>>) -> bool {
    forall|i: int, j: int| 0 <= i < j < names.len() ==> names[i] != names[j]
}

/// Whether `name` is the name of some tier.
pub open spec fn declares_tier(tiers: Seq<NamedTier>, name: Seq<char>) -> bool {
    exists|i: int| 0 <= i < tiers.len() && #[trigger] tiers[i].name@ == name
}

impl Topology {
    /// The names of the tiers, in declaration order.
    pub open spec fn spec_tier_names(self) -> Seq<Seq<char>> {
        self.tiers@.map(|i: int, t: NamedTier| t.name@)
    }

    /// The names of the plugins, in declaration order.
    pub open spec fn spec_plugin_names(self) -> Seq<Seq<char>> {
        self.plugins@.map(|i: int, p: NamedPlugin| p.name@)
    }

    /// The number of instances this topology places, summed over its tiers.
    pub open spec fn spec_instance_total(self) -> nat {
        total_count(self.tiers@)
    }

    /// A topology is well-formed when tier names, plugin names and, within
    /// each plugin, service names are unique, every tier places at least one
    /// instance, and every tier a service names is declared.
    pub open spec fn wf(self) -> bool {
        &&& names_unique(self.spec_tier_names())
        &&& names_unique(self.spec_plugin_names())
        &&& (forall|i: int|
            0 <= i < self.tiers@.len() ==> (#[trigger] self.tiers@[i].tier.replicasets) >= 1
                && self.tiers@[i].tier.replication_factor >= 1)
        &&& (forall|i: int|
            0 <= i < self.plugins@.len() ==> names_unique(
                (#[trigger] self.plugins@[i]).plugin.services@.map(|k: int, s: NamedService| s.name@),
            ))
        &&& (forall|i: int, j: int, k: int|
            0 <= i < self.plugins@.len() && 0 <= j < self.plugins@[i].plugin.services@.len() && 0
                <= k < self.plugins@[i].plugin.services@[j].service.tiers@.len() ==> declares_tier(
                self.tiers@,
                #[trigger] self.plugins@[i].plugin.services@[j].service.tiers@[k]@,
            ))
    }
}

fn names_unique_strings(names: &Vec<String>) -> (r: bool)
    ensures
        r == names_unique(names@.map(|i: int, s: String| s@)),
{
    let n = names.len();
    let ghost m = names@.map(|i: int, s: String| s@);
    let mut i: usize = 0;
    while i < n
        invariant
            0 <= i <= n,
            n == names@.len(),
            m == names@.map(|k: int, s: String| s@),
            forall|a: int, b: int| 0 <= a < b < names@.len() && a < i ==> m[a] != m[b],
        decreases n - i,
    {
        let mut j: usize = i + 1;
        while j < n
            invariant
                0 <= i < j <= n,
                n == names@.len(),
                m == names@.map(|k: int, s: String| s@),
                forall|b: int| i < b < j ==> m[i as int] != m[b],
            decreases n - j,
        {
            if names[i].eq(&names[j]) {
                proof {
                    assert(m[i as int] == names@[i as int]@);
                    assert(m[j as int] == names@[j as int]@);
                }
                return false;
            }
            j += 1;
        }
        i += 1;
    }
    true
}

fn tiers_declare(tiers: &Vec<NamedTier>, name: &String) -> (r: bool)
    ensures
        r == declares_tier(tiers@, name@),
{
    let n = tiers.len();
    let mut i: usize = 0;
    while i < n
        invariant
            0 <= i <= n,
            n == tiers@.len(),
            forall|k: int| 0 <= k < i ==> #[trigger] tiers@[k].name@ != name@,
        decreases n - i,
    {
        if tiers[i].name.eq(name) {
            return true;
        }
        i += 1;
    }
    false
}

impl Topology {
    /// Checks the well-formedness rules, reporting the first violation.
    /// Succeeds exactly on well-formed topologies.
    pub fn validate(&self) -> (r: Result<(), TopologyError>)
        ensures
            r is Ok <==> self.wf(),
            r == Result::<(), TopologyError>::Err(TopologyError::DuplicateTierName) ==> !names_unique(
                self.spec_tier_names(),
            ),
            r == Result::<(), TopologyError>::Err(TopologyError::DuplicatePluginName)
                ==> !names_unique(self.spec_plugin_names()),
            r == Result::<(), TopologyError>::Err(TopologyError::EmptyTier) ==> exists|i: int|
                0 <= i < self.tiers@.len() && ((#[trigger] self.tiers@[i].tier.replicasets) == 0
                    || self.tiers@[i].tier.replication_factor == 0),
    {
        let tier_count_n = self.tiers.len();
        let mut i: usize = 0;
        while i < tier_count_n
            invariant
                0 <= i <= tier_count_n,
                tier_count_n == self.tiers@.len(),
                forall|k: int|
                    0 <= k < i ==> (#[trigger] self.tiers@[k].tier.replicasets) >= 1
                        && self.tiers@[k].tier.replication_factor >= 1,
            decreases tier_count_n - i,
        {
            if self.tiers[i].tier.replicasets == 0 || self.tiers[i].tier.replication_factor == 0 {
                return Err(TopologyError::EmptyTier);
            }
            i += 1;
        }

        let mut tier_names: Vec<String> = Vec::new();
        let mut i: usize = 0;
        while i < tier_count_n
            invariant
                0 <= i <= tier_count_n,
                tier_count_n == self.tiers@.len(),
                tier_names@.len() == i,
                forall|k: int| 0 <= k < i ==> #[trigger] tier_names@[k]@ == self.tiers@[k].name@,
            decreases tier_count_n - i,
        {
            tier_names.push(self.tiers[i].name.clone());
            i += 1;
        }
        proof {
            assert(tier_names@.map(|k: int, s: String| s@) =~= self.spec_tier_names());
        }
        if !names_unique_strings(&tier_names) {
            return Err(TopologyError::DuplicateTierName);
        }

        let plugin_count = self.plugins.len();
        let mut plugin_names: Vec<String> = Vec::new();
        let mut i: usize = 0;
        while i < plugin_count
            invariant
                0 <= i <= plugin_count,
                plugin_count == self.plugins@.len(),
                plugin_names@.len() == i,
                forall|k: int| 0 <= k < i ==> #[trigger] plugin_names@[k]@ == self.plugins@[k].name@,
            decreases plugin_count - i,
        {
            plugin_names.push(self.plugins[i].name.clone());
            i += 1;
        }
        proof {
            assert(plugin_names@.map(|k: int, s: String| s@) =~= self.spec_plugin_names());
        }
        if !names_unique_strings(&plugin_names) {
            return Err(TopologyError::DuplicatePluginName);
        }

        let mut i: usize = 0;
        while i < plugin_count
            invariant
                0 <= i <= plugin_count,
                plugin_count == self.plugins@.len(),
                forall|a: int|
                    0 <= a < i ==> names_unique(
                        (#[trigger] self.plugins@[a]).plugin.services@.map(
                            |k: int, s: NamedService| s.name@,
                        ),
                    ),
                forall|a: int, b: int, c: int|
                    0 <= a < i && 0 <= b < self.plugins@[a].plugin.services@.len() && 0 <= c
                        < self.plugins@[a].plugin.services@[b].service.tiers@.len()
                        ==> declares_tier(
                        self.tiers@,
                        #[trigger] self.plugins@[a].plugin.services@[b].service.tiers@[c]@,
                    ),
            decreases plugin_count - i,
        {
            let services = &self.plugins[i].plugin.services;
            let service_count = services.len();
            let mut service_names: Vec<String> = Vec::new();
            let mut j: usize = 0;
            while j < service_count
                invariant
                    0 <= j <= service_count,
                    service_count == services@.len(),
                    service_names@.len() == j,
                    forall|k: int|
                        0 <= k < j ==> #[trigger] service_names@[k]@ == services@[k].name@,
                decreases service_count - j,
            {
                service_names.push(services[j].name.clone());
                j += 1;
            }
            proof {
                assert(service_names@.map(|k: int, s: String| s@) =~= services@.map(
                    |k: int, s: NamedService| s.name@,
                ));
            }
            if !names_unique_strings(&service_names) {
                return Err(TopologyError::DuplicateServiceName);
            }

            let mut j: usize = 0;
            while j < service_count
                invariant
                    0 <= j <= service_count,
                    i < self.plugins@.len(),
                    service_count == services@.len(),
                    services@ == self.plugins@[i as int].plugin.services@,
                    forall|b: int, c: int|
                        0 <= b < j && 0 <= c < services@[b].service.tiers@.len() ==> declares_tier(
                            self.tiers@,
                            #[trigger] services@[b].service.tiers@[c]@,
                        ),
                decreases service_count - j,
            {
                let placements = &services[j].service.tiers;
                let placement_count = placements.len();
                let mut k: usize = 0;
                while k < placement_count
                    invariant
                        0 <= k <= placement_count,
                        i < self.plugins@.len(),
                        j < services@.len(),
                        services@ == self.plugins@[i as int].plugin.services@,
                        placements@ == services@[j as int].service.tiers@,
                        placement_count == placements@.len(),
                        forall|c: int|
                            0 <= c < k ==> declares_tier(
                                self.tiers@,
                                #[trigger] placements@[c]@,
                            ),
                    decreases placement_count - k,
                {
                    if !tiers_declare(&self.tiers, &placements[k]) {
                        proof {
                            assert(!declares_tier(
                                self.tiers@,
                                self.plugins@[i as int].plugin.services@[j as int].service.tiers@[k as int]@,
                            ));
                        }
                        return Err(TopologyError::UnknownTierReference);
                    }
                    k += 1;
                }
                j += 1;
            }
            i += 1;
        }
        Ok(())
    }

    /// Sums `replicasets * replication_factor` over the tiers; `None` only
    /// when the sum exceeds `u64::MAX`.
    pub fn instance_total(&self) -> (r: Option<u64>)
        ensures
            r is Some <==> self.spec_instance_total() <= u64::MAX,
            r is Some ==> r->0 as nat == self.spec_instance_total(),
    {
        let n = self.tiers.len();
        let mut acc: u64 = 0;
        let mut i: usize = 0;
        proof {
            assert(self.tiers@.skip(0) =~= self.tiers@);
        }
        while i < n
            invariant
                0 <= i <= n,
                n == self.tiers@.len(),
                acc as nat + total_count(self.tiers@.skip(i as int)) == total_count(self.tiers@),
            decreases n - i,
        {
            let t = self.tiers[i].tier;
            proof {
                assert((t.replicasets as int) * (t.replication_factor as int) <= 65025)
                    by (nonlinear_arith)
                    requires
                        (t.replicasets as int) <= 255,
                        (t.replication_factor as int) <= 255,
                        (t.replicasets as int) >= 0,
                        (t.replication_factor as int) >= 0,
                ;
            }
            let c: u64 = (t.replicasets as u64) * (t.replication_factor as u64);
            proof {
                assert(c as nat == tier_count(t));
                assert(self.tiers@.skip(i as int)[0] == self.tiers@[i as int]);
                assert(self.tiers@.skip(i as int).drop_first() =~= self.tiers@.skip(i as int + 1));
            }
            if acc > u64::MAX - c {
                return None;
            }
            acc = acc + c;
            i += 1;
        }
        proof {
            assert(self.tiers@.skip(n as int) =~= Seq::<NamedTier>::empty());
        }
        Some(acc)
    }
}

} // verus!
