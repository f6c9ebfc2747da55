//! The plugin installation statements: for each plugin, register it, set its
//! migration context, run its migrations, place its services, and enable it,
//! in that fixed order. The whole run is the concatenation of one such block
//! per plugin, in plugin declaration order.

use vstd::prelude::*;
use vstd::string::StringExecFns;
use crate::topology::{MigrationContextVar, NamedPlugin, NamedService, Topology};

verus! {

/// One administrative statement of the installation protocol.
#[derive(Clone, Debug, PartialEq, Eq)]
pub enum Statement {
    /// Registers a plugin at a version.
    CreatePlugin { plugin: String, version: String },
    /// Sets one migration-context variable of a plugin.
    SetMigrationContext { plugin: String, version: String, name: String, value: String },
    /// Runs a plugin's migrations up to a version.
    Migrate { plugin: String, version: String },
    /// Places one service of a plugin on one tier.
    AddServiceToTier { plugin: String, version: String, service: String, tier: String },
    /// Enables a plugin.
    EnablePlugin { plugin: String, version: String },
}

/// The plugin a statement speaks of.
pub open spec fn stmt_plugin(s: Statement) -> Seq<char> {
    match s {
        Statement::CreatePlugin { plugin, .. } => plugin@,
        Statement::SetMigrationContext { plugin, .. } => plugin@,
        Statement::Migrate { plugin, .. } => plugin@,
        Statement::AddServiceToTier { plugin, .. } => plugin@,
        Statement::EnablePlugin { plugin, .. } => plugin@,
    }
}

/// The position of a statement's kind in the fixed per-plugin order.
pub open spec fn stmt_rank(s: Statement) -> int {
    match s {
        Statement::CreatePlugin { .. } => 0,
        Statement::SetMigrationContext { .. } => 1,
        Statement::Migrate { .. } => 2,
        Statement::AddServiceToTier { .. } => 3,
        Statement::EnablePlugin { .. } => 4,
    }
}

/// The migration-context statements of one plugin, one per variable, in
/// declaration order.
pub open spec fn ctx_statements(
    plugin: String,
    version: String,
    vars: Seq<MigrationContextVar>,
) -> Seq<Statement> {
    vars.map(
        |i: int, v: MigrationContextVar|
            Statement::SetMigrationContext {
                plugin: plugin,
                version: version,
                name: v.name,
                value: v.value,
            },
    )
}

/// The placement statements of one service, one per target tier, in
/// declaration order.
pub open spec fn tier_adds(
    plugin: String,
    version: String,
    service: String,
    tiers: Seq<String>,
) -> Seq<Statement> {
    tiers.map(
        |i: int, t: String|
            Statement::AddServiceToTier {
                plugin: plugin,
                version: version,
                service: service,
                tier: t,
            },
    )
}

/// The placement statements of one plugin, service by service.
pub open spec fn service_statements(
    plugin: String,
    version: String,
    services: Seq<NamedService>,
) -> Seq<Statement>
    decreases services.len(),
{
    if services.len() == 0 {
        Seq::<Statement>::empty()
    } else {
        tier_adds(plugin, version, services[0].name, services[0].service.tiers@) + service_statements(
            plugin,
            version,
            services.drop_first(),
        )
    }
}

/// The statement block of one plugin: register, set context, migrate,
/// place services, enable.
pub open spec fn plugin_block(p: NamedPlugin) -> Seq<Statement> {
    let version = p.plugin.version->0;
    seq![Statement::CreatePlugin { plugin: p.name, version: version }] + ctx_statements(
        p.name,
        version,
        p.plugin.migration_context@,
    ) + seq![Statement::Migrate { plugin: p.name, version: version }] + service_statements(
        p.name,
        version,
        p.plugin.services@,
    ) + seq![Statement::EnablePlugin { plugin: p.name, version: version }]
}

/// The whole install sequence: one block per plugin, blocks in plugin
/// declaration order.
pub open spec fn install_statements_spec(plugins: Seq<NamedPlugin>) -> Seq<Statement>
    decreases plugins.len(),
{
    if plugins.len() == 0 {
        Seq::<Statement>::empty()
    } else {
        plugin_block(plugins[0]) + install_statements_spec(plugins.drop_first())
    }
}

proof fn lemma_install_take_succ(plugins: Seq<NamedPlugin>, i: int)
    requires
        0 <= i < plugins.len(),
    ensures
        install_statements_spec(plugins.take(i + 1)) == install_statements_spec(plugins.take(i))
            + plugin_block(plugins[i]),
    decreases i,
{
    if i == 0 {
        assert(plugins.take(0) =~= Seq::<NamedPlugin>::empty());
        assert(plugins.take(1)[0] == plugins[0]);
        assert(plugins.take(1).drop_first() =~= Seq::<NamedPlugin>::empty());
        assert(install_statements_spec(plugins.take(1)) =~= install_statements_spec(
            plugins.take(0),
        ) + plugin_block(plugins[0]));
    } else {
        lemma_install_take_succ(plugins.drop_first(), i - 1);
        assert(plugins.take(i + 1)[0] == plugins[0]);
        assert(plugins.take(i)[0] == plugins[0]);
        assert(plugins.take(i + 1).drop_first() =~= plugins.drop_first().take(i));
        assert(plugins.take(i).drop_first() =~= plugins.drop_first().take(i - 1));
        assert(plugins.drop_first()[i - 1] == plugins[i]);
        assert(install_statements_spec(plugins.take(i + 1)) =~= install_statements_spec(
            plugins.take(i),
        ) + plugin_block(plugins[i]));
    }
}

proof fn lemma_service_statements_take_succ(
    plugin: String,
    version: String,
    services: Seq<NamedService>,
    j: int,
)
    requires
        0 <= j < services.len(),
    ensures
        service_statements(plugin, version, services.take(j + 1)) == service_statements(
            plugin,
            version,
            services.take(j),
        ) + tier_adds(plugin, version, services[j].name, services[j].service.tiers@),
    decreases j,
{
    if j == 0 {
        assert(services.take(0) =~= Seq::<NamedService>::empty());
        assert(services.take(1)[0] == services[0]);
        assert(services.take(1).drop_first() =~= Seq::<NamedService>::empty());
        assert(service_statements(plugin, version, services.take(1)) =~= service_statements(
            plugin,
            version,
            services.take(0),
        ) + tier_adds(plugin, version, services[0].name, services[0].service.tiers@));
    } else {
        lemma_service_statements_take_succ(plugin, version, services.drop_first(), j - 1);
        assert(services.take(j + 1)[0] == services[0]);
        assert(services.take(j)[0] == services[0]);
        assert(services.take(j + 1).drop_first() =~= services.drop_first().take(j));
        assert(services.take(j).drop_first() =~= services.drop_first().take(j - 1));
        assert(services.drop_first()[j - 1] == services[j]);
        assert(service_statements(plugin, version, services.take(j + 1)) =~= service_statements(
            plugin,
            version,
            services.take(j),
        ) + tier_adds(plugin, version, services[j].name, services[j].service.tiers@));
    }
}

proof fn lemma_service_statements_all(plugin: String, version: String, services: Seq<NamedService>)
    ensures
        forall|k: int|
            0 <= k < service_statements(plugin, version, services).len() ==> stmt_rank(
                #[trigger] service_statements(plugin, version, services)[k],
            ) == 3 && stmt_plugin(service_statements(plugin, version, services)[k]) == plugin@,
    decreases services.len(),
{
    if services.len() == 0 {
    } else {
        lemma_service_statements_all(plugin, version, services.drop_first());
        let x = tier_adds(plugin, version, services[0].name, services[0].service.tiers@);
        let y = service_statements(plugin, version, services.drop_first());
        assert forall|k: int|
            0 <= k < service_statements(plugin, version, services).len() implies stmt_rank(
            service_statements(plugin, version, services)[k],
        ) == 3 && stmt_plugin(service_statements(plugin, version, services)[k]) == plugin@ by {
            if k < x.len() {
                assert(service_statements(plugin, version, services)[k] == x[k]);
            } else {
                assert(service_statements(plugin, version, services)[k] == y[k - x.len()]);
            }
        }
    }
}

/// The statement block of one plugin keeps the fixed order: it opens by
/// registering the plugin, closes by enabling it, never ranks a later kind
/// before an earlier one, and speaks of this plugin alone.
pub proof fn lemma_plugin_block_ordered(p: NamedPlugin)
    ensures
        plugin_block(p).len() >= 3,
        stmt_rank(plugin_block(p)[0]) == 0,
        stmt_rank(plugin_block(p)[plugin_block(p).len() - 1]) == 4,
        forall|a: int, b: int|
            0 <= a <= b < plugin_block(p).len() ==> stmt_rank(#[trigger] plugin_block(p)[a])
                <= stmt_rank(#[trigger] plugin_block(p)[b]),
        forall|k: int|
            0 <= k < plugin_block(p).len() ==> stmt_plugin(#[trigger] plugin_block(p)[k])
                == p.name@,
{
    let version = p.plugin.version->0;
    let block = plugin_block(p);
    let part_a = seq![Statement::CreatePlugin { plugin: p.name, version: version }];
    let part_b = ctx_statements(p.name, version, p.plugin.migration_context@);
    let part_c = seq![Statement::Migrate { plugin: p.name, version: version }];
    let part_d = service_statements(p.name, version, p.plugin.services@);
    let part_e = seq![Statement::EnablePlugin { plugin: p.name, version: version }];
    lemma_service_statements_all(p.name, version, p.plugin.services@);
    let nb = part_b.len() as int;
    let nd = part_d.len() as int;
    assert forall|k: int| 0 <= k < block.len() implies stmt_plugin(#[trigger] block[k]) == p.name@
        && stmt_rank(block[k]) == (if k == 0 {
        0int
    } else if k < 1 + nb {
        1int
    } else if k == 1 + nb {
        2int
    } else if k < 2 + nb + nd {
        3int
    } else {
        4int
    }) by {
        if k == 0 {
            assert(block[k] == part_a[0]);
        } else if k < 1 + nb {
            assert(block[k] == part_b[k - 1]);
        } else if k == 1 + nb {
            assert(block[k] == part_c[0]);
        } else if k < 2 + nb + nd {
            assert(block[k] == part_d[k - 2 - nb]);
        } else {
            assert(block[k] == part_e[0]);
        }
    }
    assert(block.len() == 3 + nb + nd);
}

proof fn lemma_install_concat(x: Seq<NamedPlugin>, y: Seq<NamedPlugin>)
    ensures
        install_statements_spec(x + y) == install_statements_spec(x) + install_statements_spec(y),
    decreases x.len(),
{
    if x.len() == 0 {
        assert(x + y =~= y);
        assert(install_statements_spec(x) + install_statements_spec(y)
            =~= install_statements_spec(y));
    } else {
        lemma_install_concat(x.drop_first(), y);
        assert((x + y).drop_first() =~= x.drop_first() + y);
        assert((x + y)[0] == x[0]);
        assert(install_statements_spec(x + y) =~= install_statements_spec(x)
            + install_statements_spec(y));
    }
}

/// Within the full install sequence, the statements of each plugin stand as
/// one contiguous block — the block of that plugin — at the offset left by
/// the blocks of the plugins declared before it. Statements of different
/// plugins never interleave.
pub proof fn lemma_install_per_plugin(plugins: Seq<NamedPlugin>, i: int)
    requires
        0 <= i < plugins.len(),
    ensures
        ({
            let all = install_statements_spec(plugins);
            let off = install_statements_spec(plugins.take(i)).len() as int;
            let block = plugin_block(plugins[i]);
            off + block.len() <= all.len() && all.subrange(off, off + block.len()) == block
        }),
{
    lemma_install_take_succ(plugins, i);
    assert(plugins =~= plugins.take(i + 1) + plugins.skip(i + 1));
    lemma_install_concat(plugins.take(i + 1), plugins.skip(i + 1));
    let pre = install_statements_spec(plugins.take(i));
    let block = plugin_block(plugins[i]);
    let post = install_statements_spec(plugins.skip(i + 1));
    assert(install_statements_spec(plugins) == pre + block + post);
    assert(install_statements_spec(plugins).subrange(
        pre.len() as int,
        pre.len() as int + block.len() as int,
    ) =~= block);
}

/// Builds the install statement sequence for every plugin of the topology,
/// in plugin declaration order, each plugin's block in the fixed order.
pub fn install_statements(topology: &Topology) -> (r: Vec<Statement>)
    requires
        forall|i: int|
            0 <= i < topology.plugins@.len() ==> (#[trigger] topology.plugins@[i]).plugin.version
                is Some,
    ensures
        r@ == install_statements_spec(topology.plugins@),
{
    let plugin_count = topology.plugins.len();
    let mut out: Vec<Statement> = Vec::new();
    let mut i: usize = 0;
    proof {
        assert(topology.plugins@.take(0) =~= Seq::<NamedPlugin>::empty());
    }
    while i < plugin_count
        invariant
            0 <= i <= plugin_count,
            plugin_count == topology.plugins@.len(),
            forall|k: int|
                0 <= k < topology.plugins@.len() ==> (#[trigger] topology.plugins@[k]).plugin.version
                    is Some,
            out@ == install_statements_spec(topology.plugins@.take(i as int)),
        decreases plugin_count - i,
    {
        let ghost p = topology.plugins@[i as int];
        let ghost base = out@;
        let name = &topology.plugins[i].name;
        let version = match &topology.plugins[i].plugin.version {
            Some(v) => v,
            None => {
                proof {
                    assert(false);
                }
                unreached()
            },
        };

        out.push(Statement::CreatePlugin { plugin: name.clone(), version: version.clone() });

        let vars = &topology.plugins[i].plugin.migration_context;
        let var_count = vars.len();
        let mut j: usize = 0;
        while j < var_count
            invariant
                0 <= j <= var_count,
                i < topology.plugins@.len(),
                p == topology.plugins@[i as int],
                vars@ == p.plugin.migration_context@,
                var_count == vars@.len(),
                name@ == p.name@,
                name == p.name,
                version == p.plugin.version->0,
                out@ == base + seq![
                    Statement::CreatePlugin { plugin: p.name, version: p.plugin.version->0 },
                ] + ctx_statements(p.name, p.plugin.version->0, vars@.take(j as int)),
            decreases var_count - j,
        {
            out.push(
                Statement::SetMigrationContext {
                    plugin: name.clone(),
                    version: version.clone(),
                    name: vars[j].name.clone(),
                    value: vars[j].value.clone(),
                },
            );
            proof {
                assert(ctx_statements(p.name, p.plugin.version->0, vars@.take(j as int + 1))
                    =~= ctx_statements(p.name, p.plugin.version->0, vars@.take(j as int)).push(
                    Statement::SetMigrationContext {
                        plugin: p.name,
                        version: p.plugin.version->0,
                        name: vars@[j as int].name,
                        value: vars@[j as int].value,
                    },
                ));
            }
            j += 1;
        }
        proof {
            assert(vars@.take(var_count as int) =~= p.plugin.migration_context@);
        }

        out.push(Statement::Migrate { plugin: name.clone(), version: version.clone() });

        let ghost base2 = base + seq![
            Statement::CreatePlugin { plugin: p.name, version: p.plugin.version->0 },
        ] + ctx_statements(p.name, p.plugin.version->0, p.plugin.migration_context@) + seq![
            Statement::Migrate { plugin: p.name, version: p.plugin.version->0 },
        ];
        let services = &topology.plugins[i].plugin.services;
        let service_count = services.len();
        let mut j: usize = 0;
        proof {
            assert(services@.take(0) =~= Seq::<NamedService>::empty());
            assert(out@ =~= base2 + service_statements(
                p.name,
                p.plugin.version->0,
                services@.take(0),
            ));
        }
        while j < service_count
            invariant
                0 <= j <= service_count,
                i < topology.plugins@.len(),
                p == topology.plugins@[i as int],
                services@ == p.plugin.services@,
                service_count == services@.len(),
                name == p.name,
                version == p.plugin.version->0,
                out@ == base2 + service_statements(
                    p.name,
                    p.plugin.version->0,
                    services@.take(j as int),
                ),
            decreases service_count - j,
        {
            let ghost base3 = out@;
            let service_name = &services[j].name;
            let tiers = &services[j].service.tiers;
            let tier_n = tiers.len();
            let mut k: usize = 0;
            while k < tier_n
                invariant
                    0 <= k <= tier_n,
                    i < topology.plugins@.len(),
                    j < services@.len(),
                    p == topology.plugins@[i as int],
                    services@ == p.plugin.services@,
                    tiers@ == services@[j as int].service.tiers@,
                    service_name@ == services@[j as int].name@,
                    service_name == services@[j as int].name,
                    tier_n == tiers@.len(),
                    name == p.name,
                    version == p.plugin.version->0,
                    out@ == base3 + tier_adds(
                        p.name,
                        p.plugin.version->0,
                        services@[j as int].name,
                        tiers@.take(k as int),
                    ),
                decreases tier_n - k,
            {
                out.push(
                    Statement::AddServiceToTier {
                        plugin: name.clone(),
                        version: version.clone(),
                        service: service_name.clone(),
                        tier: tiers[k].clone(),
                    },
                );
                proof {
                    assert(tier_adds(
                        p.name,
                        p.plugin.version->0,
                        services@[j as int].name,
                        tiers@.take(k as int + 1),
                    ) =~= tier_adds(
                        p.name,
                        p.plugin.version->0,
                        services@[j as int].name,
                        tiers@.take(k as int),
                    ).push(
                        Statement::AddServiceToTier {
                            plugin: p.name,
                            version: p.plugin.version->0,
                            service: services@[j as int].name,
                            tier: tiers@[k as int],
                        },
                    ));
                }
                k += 1;
            }
            proof {
                assert(tiers@.take(tier_n as int) =~= tiers@);
                lemma_service_statements_take_succ(
                    p.name,
                    p.plugin.version->0,
                    services@,
                    j as int,
                );
            }
            j += 1;
        }
        proof {
            assert(services@.take(service_count as int) =~= services@);
        }

        out.push(Statement::EnablePlugin { plugin: name.clone(), version: version.clone() });

        proof {
            assert(out@ =~= base + plugin_block(p));
            lemma_install_take_succ(topology.plugins@, i as int);
        }
        i += 1;
    }
    proof {
        assert(topology.plugins@.take(plugin_count as int) =~= topology.plugins@);
    }
    out
}

/// The administrative text of a statement, as the admin console takes it.
pub open spec fn spec_render(s: Statement) -> Seq<char> {
    match s {
        Statement::CreatePlugin { plugin, version } => "CREATE PLUGIN \""@ + plugin@ + "\" "@
            + version@ + ";"@,
        Statement::SetMigrationContext { plugin, version, name, value } => "ALTER PLUGIN \""@
            + plugin@ + "\" "@ + version@ + " SET migration_context."@ + name@ + "='"@ + value@
            + "';"@,
        Statement::Migrate { plugin, version } => "ALTER PLUGIN \""@ + plugin@
            + "\" MIGRATE TO "@ + version@ + ";"@,
        Statement::AddServiceToTier { plugin, version, service, tier } => "ALTER PLUGIN \""@
            + plugin@ + "\" "@ + version@ + " ADD SERVICE \""@ + service@ + "\" TO TIER \""@
            + tier@ + "\";"@,
        Statement::EnablePlugin { plugin, version } => "ALTER PLUGIN \""@ + plugin@ + "\" "@
            + version@ + " ENABLE;"@,
    }
}

/// Renders one statement to its administrative text.
pub fn render_statement(s: &Statement) -> (r: String)
    ensures
        r@ == spec_render(*s),
{
    let mut out = String::new();
    match s {
        Statement::CreatePlugin { plugin, version } => {
            out.append("CREATE PLUGIN \"");
            out.append(plugin.as_str());
            out.append("\" ");
            out.append(version.as_str());
            out.append(";");
        },
        Statement::SetMigrationContext { plugin, version, name, value } => {
            out.append("ALTER PLUGIN \"");
            out.append(plugin.as_str());
            out.append("\" ");
            out.append(version.as_str());
            out.append(" SET migration_context.");
            out.append(name.as_str());
            out.append("='");
            out.append(value.as_str());
            out.append("';");
        },
        Statement::Migrate { plugin, version } => {
            out.append("ALTER PLUGIN \"");
            out.append(plugin.as_str());
            out.append("\" MIGRATE TO ");
            out.append(version.as_str());
            out.append(";");
        },
        Statement::AddServiceToTier { plugin, version, service, tier } => {
            out.append("ALTER PLUGIN \"");
            out.append(plugin.as_str());
            out.append("\" ");
            out.append(version.as_str());
            out.append(" ADD SERVICE \"");
            out.append(service.as_str());
            out.append("\" TO TIER \"");
            out.append(tier.as_str());
            out.append("\";");
        },
        Statement::EnablePlugin { plugin, version } => {
            out.append("ALTER PLUGIN \"");
            out.append(plugin.as_str());
            out.append("\" ");
            out.append(version.as_str());
            out.append(" ENABLE;");
        },
    }
    proof {
        assert(out@ =~= spec_render(*s));
    }
    out
}

} // verus!
