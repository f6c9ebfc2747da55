//! Parameters of one cluster run, and the checks made before anything is
//! spawned.

use vstd::prelude::*;
use vstd::string::StringExecFns;
use crate::topology::Topology;

verus! {

/// Everything one cluster run is configured by.
#[derive(Clone, Debug)]
pub struct Params {
    pub topology: Topology,
    pub data_dir: String,
    pub disable_plugin_install: bool,
    pub base_http_port: u16,
    pub picodata_path: String,
    pub base_pg_port: u16,
    pub use_release: bool,
    pub target_dir: String,
    pub daemon: bool,
    pub disable_colors: bool,
    pub plugin_path: String,
    pub no_build: bool,
}

impl Params {
    /// Run parameters with every knob at its default.
    pub fn new(topology: Topology) -> (r: Params)
        ensures
            r.topology == topology,
            r.data_dir@ == "./tmp"@,
            !r.disable_plugin_install,
            r.base_http_port == 8000,
            r.picodata_path@ == "picodata"@,
            r.base_pg_port == 5432,
            !r.use_release,
            r.target_dir@ == "target"@,
            !r.daemon,
            !r.disable_colors,
            r.plugin_path@ == "./"@,
            !r.no_build,
    {
        Params {
            topology,
            data_dir: "./tmp".to_owned(),
            disable_plugin_install: false,
            base_http_port: 8000,
            picodata_path: "picodata".to_owned(),
            base_pg_port: 5432,
            use_release: false,
            target_dir: "target".to_owned(),
            daemon: false,
            disable_colors: false,
            plugin_path: "./".to_owned(),
            no_build: false,
        }
    }
}

/// Whether a directory is a plugin project: a directory with a manifest
/// template beside its build manifest, or with one in some member directory.
pub fn is_plugin_dir(
    is_dir: bool,
    has_cargo_manifest: bool,
    has_manifest_template: bool,
    member_has_manifest_template: bool,
) -> (r: bool)
    ensures
        r == (is_dir && has_cargo_manifest && (has_manifest_template
            || member_has_manifest_template)),
{
    is_dir && has_cargo_manifest && (has_manifest_template || member_has_manifest_template)
}

} // verus!
