//! Applying service configuration to a running cluster: which plugins the
//! apply covers, and the statements that set each service's keys.

use vstd::prelude::*;
use vstd::string::StringExecFns;
use crate::text::str_eq;

verus! {

/// One configuration key of a service; the value carries its rendered text.
#[derive(Debug)]
pub struct ConfigEntry {
    pub key: String,
    pub value_json: String,
}

/// The configuration of one service.
#[derive(Debug)]
pub struct ServiceConfig {
    pub name: String,
    pub entries: Vec<ConfigEntry>,
}

/// Where the configuration comes from: given in memory, or read from a file.
#[derive(Debug)]
pub enum ConfigSource {
    Values(Vec<ServiceConfig>),
    Path(String),
}

impl Default for ConfigSource {
    /// The default source: the plugin configuration file by its usual name.
    fn default() -> (r: Self)
        ensures
            r matches ConfigSource::Path(p) && p@ == "plugin_config.yaml"@,
    {
        ConfigSource::Path("plugin_config.yaml".to_owned())
    }
}

/// The parameters of one apply run.
#[derive(Debug)]
pub struct Params {
    pub config_source: ConfigSource,
    pub data_dir: String,
    pub plugin_path: String,
    pub plugin_name: Option<String>,
}

/// Builds `Params`, field by field, with the usual defaults.
#[derive(Debug)]
pub struct ParamsBuilder {
    config_source: Option<ConfigSource>,
    data_dir: Option<String>,
    plugin_path: Option<String>,
    plugin_name: Option<Option<String>>,
}

impl Default for ParamsBuilder {
    /// A builder with no field set.
    fn default() -> (r: Self)
        ensures
            r.spec_config_source() is None,
            r.spec_data_dir() is None,
            r.spec_plugin_path() is None,
            r.spec_plugin_name() is None,
    {
        ParamsBuilder { config_source: None, data_dir: None, plugin_path: None, plugin_name: None }
    }
}

impl ParamsBuilder {
    /// The source set so far.
    pub closed spec fn spec_config_source(self) -> Option<ConfigSource> {
        self.config_source
    }

    /// The data directory set so far.
    pub closed spec fn spec_data_dir(self) -> Option<String> {
        self.data_dir
    }

    /// The plugin path set so far.
    pub closed spec fn spec_plugin_path(self) -> Option<String> {
        self.plugin_path
    }

    /// The plugin name set so far.
    pub closed spec fn spec_plugin_name(self) -> Option<Option<String>> {
        self.plugin_name
    }

    /// Reads the configuration from this file.
    pub fn config_path(&mut self, path: String) -> (ret: &mut ParamsBuilder)
        ensures
            (*ret).spec_config_source() == Some(ConfigSource::Path(path)),
            (*ret).spec_data_dir() == old(self).spec_data_dir(),
            (*ret).spec_plugin_path() == old(self).spec_plugin_path(),
            (*ret).spec_plugin_name() == old(self).spec_plugin_name(),
            *final(self) == *final(ret),
    {
        self.config_source = Some(ConfigSource::Path(path));
        self
    }

    /// Takes the configuration as given.
    pub fn config_map(&mut self, map: Vec<ServiceConfig>) -> (ret: &mut ParamsBuilder)
        ensures
            (*ret).spec_config_source() == Some(ConfigSource::Values(map)),
            (*ret).spec_data_dir() == old(self).spec_data_dir(),
            (*ret).spec_plugin_path() == old(self).spec_plugin_path(),
            (*ret).spec_plugin_name() == old(self).spec_plugin_name(),
            *final(self) == *final(ret),
    {
        self.config_source = Some(ConfigSource::Values(map));
        self
    }

    /// Sets the cluster data directory.
    pub fn data_dir(&mut self, dir: String) -> (ret: &mut ParamsBuilder)
        ensures
            (*ret).spec_config_source() == old(self).spec_config_source(),
            (*ret).spec_data_dir() == Some(dir),
            (*ret).spec_plugin_path() == old(self).spec_plugin_path(),
            (*ret).spec_plugin_name() == old(self).spec_plugin_name(),
            *final(self) == *final(ret),
    {
        self.data_dir = Some(dir);
        self
    }

    /// Sets the plugin directory.
    pub fn plugin_path(&mut self, path: String) -> (ret: &mut ParamsBuilder)
        ensures
            (*ret).spec_config_source() == old(self).spec_config_source(),
            (*ret).spec_data_dir() == old(self).spec_data_dir(),
            (*ret).spec_plugin_path() == Some(path),
            (*ret).spec_plugin_name() == old(self).spec_plugin_name(),
            *final(self) == *final(ret),
    {
        self.plugin_path = Some(path);
        self
    }

    /// Names the one plugin whose configuration is applied.
    pub fn plugin_name(&mut self, name: Option<String>) -> (ret: &mut ParamsBuilder)
        ensures
            (*ret).spec_config_source() == old(self).spec_config_source(),
            (*ret).spec_data_dir() == old(self).spec_data_dir(),
            (*ret).spec_plugin_path() == old(self).spec_plugin_path(),
            (*ret).spec_plugin_name() == Some(name),
            *final(self) == *final(ret),
    {
        self.plugin_name = Some(name);
        self
    }

    /// Finishes the builder: every unset field takes its default.
    pub fn build(self) -> (r: Params)
        ensures
            self.spec_config_source() matches Some(s) ==> r.config_source == s,
            self.spec_config_source() is None ==> (r.config_source matches ConfigSource::Path(p)
                && p@ == "plugin_config.yaml"@),
            self.spec_data_dir() matches Some(d) ==> r.data_dir == d,
            self.spec_data_dir() is None ==> r.data_dir@ == "./tmp"@,
            self.spec_plugin_path() matches Some(p) ==> r.plugin_path == p,
            self.spec_plugin_path() is None ==> r.plugin_path@ == "./"@,
            self.spec_plugin_name() matches Some(n) ==> r.plugin_name == n,
            self.spec_plugin_name() is None ==> r.plugin_name is None,
    {
        let config_source = match self.config_source {
            Some(s) => s,
            None => ConfigSource::default(),
        };
        let data_dir = match self.data_dir {
            Some(d) => d,
            None => "./tmp".to_owned(),
        };
        let plugin_path = match self.plugin_path {
            Some(p) => p,
            None => "./".to_owned(),
        };
        let plugin_name = match self.plugin_name {
            Some(n) => n,
            None => None,
        };
        Params { config_source, data_dir, plugin_path, plugin_name }
    }
}

/// Whether the source points at a file other than the default one.
pub fn is_custom_config_path(source: &ConfigSource) -> (r: bool)
    ensures
        r == (source matches ConfigSource::Path(p) && p@ != "plugin_config.yaml"@),
{
    match source {
        ConfigSource::Path(p) => !str_eq(p.as_str(), "plugin_config.yaml"),
        ConfigSource::Values(_) => false,
    }
}

/// What one apply run covers.
#[derive(Clone, Copy, Debug, PartialEq, Eq, Structural)]
pub enum ApplyMode {
    /// A plugin was named: apply to it alone.
    OnePlugin,
    /// A workspace without a named plugin: apply to every member that is a
    /// plugin.
    EachWorkspaceMember,
    /// A plain plugin directory: apply to it.
    CurrentDir,
    /// A custom configuration file in a workspace needs a plugin name:
    /// refused.
    RejectCustomConfigPath,
}

/// Decides what the apply run covers: a named plugin wins; a workspace
/// otherwise covers every member, but refuses a custom configuration file
/// without a plugin name; outside a workspace the current directory is the
/// plugin.
pub fn apply_mode(plugin_name_given: bool, is_workspace: bool, custom_config_path: bool) -> (r:
    ApplyMode)
    ensures
        plugin_name_given ==> r == ApplyMode::OnePlugin,
        !plugin_name_given && is_workspace && custom_config_path ==> r
            == ApplyMode::RejectCustomConfigPath,
        !plugin_name_given && is_workspace && !custom_config_path ==> r
            == ApplyMode::EachWorkspaceMember,
        !plugin_name_given && !is_workspace ==> r == ApplyMode::CurrentDir,
{
    if plugin_name_given {
        ApplyMode::OnePlugin
    } else if is_workspace {
        if custom_config_path {
            ApplyMode::RejectCustomConfigPath
        } else {
            ApplyMode::EachWorkspaceMember
        }
    } else {
        ApplyMode::CurrentDir
    }
}

/// The statement that sets one configuration key of one service.
pub open spec fn spec_set_config_stmt(
    plugin: Seq<char>,
    version: Seq<char>,
    service: Seq<char>,
    key: Seq<char>,
    value: Seq<char>,
) -> Seq<char> {
    "ALTER PLUGIN \""@ + plugin + "\" "@ + version + " SET \""@ + service + "\".\""@ + key + "\"='"@
        + value + "';"@
}

/// The statements that apply one service's configuration, one per key, in
/// the order given.
pub fn service_config_statements(
    plugin: &str,
    version: &str,
    service: &str,
    entries: &Vec<ConfigEntry>,
) -> (r: Vec<String>)
    ensures
        r@.len() == entries@.len(),
        forall|k: int|
            0 <= k < r@.len() ==> (#[trigger] r@[k])@ == spec_set_config_stmt(
                plugin@,
                version@,
                service@,
                entries@[k].key@,
                entries@[k].value_json@,
            ),
{
    let n = entries.len();
    let mut out: Vec<String> = Vec::new();
    let mut i: usize = 0;
    while i < n
        invariant
            0 <= i <= n,
            n == entries@.len(),
            out@.len() == i,
            forall|k: int|
                0 <= k < i ==> (#[trigger] out@[k])@ == spec_set_config_stmt(
                    plugin@,
                    version@,
                    service@,
                    entries@[k].key@,
                    entries@[k].value_json@,
                ),
        decreases n - i,
    {
        let mut s = "ALTER PLUGIN \"".to_owned();
        s.append(plugin);
        s.append("\" ");
        s.append(version);
        s.append(" SET \"");
        s.append(service);
        s.append("\".\"");
        s.append(entries[i].key.as_str());
        s.append("\"='");
        s.append(entries[i].value_json.as_str());
        s.append("';");
        proof {
            assert(s@ =~= spec_set_config_stmt(
                plugin@,
                version@,
                service@,
                entries@[i as int].key@,
                entries@[i as int].value_json@,
            ));
        }
        out.push(s);
        i += 1;
    }
    out
}

} // verus!
