//! The plugin build step, as far as the orchestrator decides it: the build
//! profile and the build tool's argument list.

use vstd::prelude::*;
use vstd::string::StringExecFns;

verus! {

/// Which profile the plugin is built and loaded from.
#[derive(Clone, Copy, Debug, PartialEq, Eq, Structural)]
pub enum BuildType {
    Release,
    Debug,
}

/// The directory name of a profile's build output.
pub fn build_profile_dir(build_type: &BuildType) -> (r: &'static str)
    ensures
        *build_type == BuildType::Release ==> r@ == "release"@,
        *build_type == BuildType::Debug ==> r@ == "debug"@,
{
    match build_type {
        BuildType::Release => "release",
        BuildType::Debug => "debug",
    }
}

/// The argument list of the build tool invocation that builds the plugin
/// into the given target directory.
pub open spec fn spec_build_args(release: bool, target_dir: Seq<char>) -> Seq<Seq<char>> {
    (if release {
        seq!["build"@, "--release"@]
    } else {
        seq!["build"@]
    }) + seq!["--target-dir"@, target_dir]
}

/// Builds the build tool's argument list.
pub fn cargo_build_args(build_type: &BuildType, target_dir: &str) -> (r: Vec<String>)
    ensures
        r@.map(|i: int, s: String| s@) == spec_build_args(
            *build_type == BuildType::Release,
            target_dir@,
        ),
{
    let mut out: Vec<String> = Vec::new();
    out.push("build".to_owned());
    match build_type {
        BuildType::Release => {
            out.push("--release".to_owned());
        },
        BuildType::Debug => {},
    }
    out.push("--target-dir".to_owned());
    out.push(target_dir.to_owned());
    proof {
        assert(out@.map(|i: int, s: String| s@) =~~= spec_build_args(
            *build_type == BuildType::Release,
            target_dir@,
        ));
    }
    out
}

} // verus!
