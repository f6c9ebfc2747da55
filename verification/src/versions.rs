//! Version resolution: a plugin installs at the lexicographically greatest
//! version name found under its artifact directory.

use vstd::prelude::*;
use crate::text::{lemma_lex_le_total, lemma_lex_le_trans, lex_le, str_le};
use crate::topology::{NamedPlugin, Plugin, Topology};

verus! {

/// Why versions could not be resolved.
#[derive(Debug)]
pub enum VersionError {
    /// The artifact directory of this plugin is missing or holds no version.
    NoVersions { plugin: String },
}

/// Picks the lexicographically greatest entry; `None` exactly when the list
/// is empty.
pub fn latest_version(versions: &Vec<String>) -> (r: Option<String>)
    ensures
        r is Some <==> versions@.len() > 0,
        r matches Some(best) ==> {
            &&& exists|i: int| 0 <= i < versions@.len() && #[trigger] versions@[i]@ == best@
            &&& forall|i: int|
                0 <= i < versions@.len() ==> lex_le(#[trigger] versions@[i]@, best@)
        },
{
    if versions.len() == 0 {
        return None;
    }
    let n = versions.len();
    let mut best: String = versions[0].clone();
    let mut i: usize = 1;
    proof {
        assert(versions@[0]@ == best@);
        lemma_lex_le_total(best@, best@);
    }
    while i < n
        invariant
            1 <= i <= n,
            n == versions@.len(),
            exists|k: int| 0 <= k < i && #[trigger] versions@[k]@ == best@,
            forall|k: int| 0 <= k < i ==> lex_le(#[trigger] versions@[k]@, best@),
        decreases n - i,
    {
        let cand = &versions[i];
        if !str_le(cand.as_str(), best.as_str()) {
            proof {
                lemma_lex_le_total(cand@, best@);
                assert forall|k: int| 0 <= k < i + 1 implies lex_le(
                    #[trigger] versions@[k]@,
                    cand@,
                ) by {
                    if k < i {
                        lemma_lex_le_trans(versions@[k]@, best@, cand@);
                    } else {
                        lemma_lex_le_total(cand@, cand@);
                    }
                }
            }
            best = cand.clone();
        } else {
            proof {
                lemma_lex_le_total(best@, best@);
            }
        }
        i += 1;
    }
    Some(best)
}

/// Resolves every plugin's version to the lexicographically greatest entry
/// of its artifact listing; `listings` pairs with the plugins by position.
/// Succeeds exactly when every plugin has at least one version built, and
/// then changes nothing but the versions.
pub fn resolve_plugin_versions(topology: Topology, listings: &Vec<Vec<String>>) -> (r: Result<
    Topology,
    VersionError,
>)
    requires
        listings@.len() == topology.plugins@.len(),
    ensures
        r is Ok <==> (forall|i: int|
            0 <= i < listings@.len() ==> (#[trigger] listings@[i])@.len() > 0),
        r matches Ok(t) ==> {
            &&& t.tiers@ == topology.tiers@
            &&& t.environment@ == topology.environment@
            &&& t.plugins@.len() == topology.plugins@.len()
            &&& (forall|i: int|
                0 <= i < t.plugins@.len() ==> {
                    &&& (#[trigger] t.plugins@[i]).name == topology.plugins@[i].name
                    &&& t.plugins@[i].plugin.migration_context
                        == topology.plugins@[i].plugin.migration_context
                    &&& t.plugins@[i].plugin.services == topology.plugins@[i].plugin.services
                    &&& t.plugins@[i].plugin.version is Some
                    &&& (exists|k: int|
                        0 <= k < listings@[i]@.len() && #[trigger] listings@[i]@[k]@
                            == t.plugins@[i].plugin.version->0@)
                    &&& (forall|k: int|
                        0 <= k < listings@[i]@.len() ==> lex_le(
                            #[trigger] listings@[i]@[k]@,
                            t.plugins@[i].plugin.version->0@,
                        ))
                })
        },
{
    let Topology { tiers, mut plugins, environment } = topology;
    let ghost orig = plugins@;
    let n = plugins.len();
    let mut resolved: Vec<NamedPlugin> = Vec::new();
    let mut i: usize = 0;
    proof {
        assert(orig.skip(0) =~= orig);
    }
    while i < n
        invariant
            0 <= i <= n,
            n == orig.len(),
            n == listings@.len(),
            plugins@ == orig.skip(i as int),
            resolved@.len() == i,
            forall|k: int| 0 <= k < i ==> (#[trigger] listings@[k])@.len() > 0,
            forall|k: int|
                0 <= k < i ==> {
                    &&& (#[trigger] resolved@[k]).name == orig[k].name
                    &&& resolved@[k].plugin.migration_context == orig[k].plugin.migration_context
                    &&& resolved@[k].plugin.services == orig[k].plugin.services
                    &&& resolved@[k].plugin.version is Some
                    &&& (exists|m: int|
                        0 <= m < listings@[k]@.len() && #[trigger] listings@[k]@[m]@
                            == resolved@[k].plugin.version->0@)
                    &&& (forall|m: int|
                        0 <= m < listings@[k]@.len() ==> lex_le(
                            #[trigger] listings@[k]@[m]@,
                            resolved@[k].plugin.version->0@,
                        ))
                },
        decreases n - i,
    {
        proof {
            assert(orig.skip(i as int)[0] == orig[i as int]);
            assert(orig.skip(i as int).remove(0) =~= orig.skip(i as int + 1));
        }
        let p = plugins.remove(0);
        match latest_version(&listings[i]) {
            None => {
                return Err(VersionError::NoVersions { plugin: p.name });
            },
            Some(v) => {
                resolved.push(
                    NamedPlugin {
                        name: p.name,
                        plugin: Plugin {
                            migration_context: p.plugin.migration_context,
                            services: p.plugin.services,
                            version: Some(v),
                        },
                    },
                );
            },
        }
        i += 1;
    }
    Ok(Topology { tiers, plugins: resolved, environment })
}

} // verus!
