//! Per-instance lifecycle helpers: placeholder names, on-disk layout names,
//! the readiness poll, and the argument list the node binary is spawned with.

use vstd::prelude::*;
use vstd::string::StrSliceExecFns;
use vstd::string::StringExecFns;
use crate::text::{dec_rep, has_substring, str_contains, u64_to_dec};

verus! {

/// The placeholder name an instance carries until the cluster reports its
/// real one: `i` followed by the instance identifier.
pub open spec fn spec_placeholder_name(instance_id: int) -> Seq<char> {
    "i"@ + dec_rep(instance_id as nat)
}

/// Renders the placeholder name of an instance.
pub fn placeholder_instance_name(instance_id: u16) -> (r: String)
    ensures
        r@ == spec_placeholder_name(instance_id as int),
{
    let mut s = "i".to_owned();
    let digits = u64_to_dec(instance_id as u64);
    s.append(digits.as_str());
    s
}

/// The path of an instance's directory under the cluster data directory,
/// relative to that directory.
pub fn instance_dir_rel_path(instance_id: u16) -> (r: String)
    ensures
        r@ == "cluster/"@ + spec_placeholder_name(instance_id as int),
{
    let mut s = "cluster/".to_owned();
    let name = placeholder_instance_name(instance_id);
    s.append(name.as_str());
    proof {
        assert(s@ =~= "cluster/"@ + spec_placeholder_name(instance_id as int));
    }
    s
}

/// The path of an instance's admin console socket, relative to the cluster
/// data directory.
pub fn admin_socket_rel_path(instance_name: &str) -> (r: String)
    ensures
        r@ == "cluster/"@ + instance_name@ + "/admin.sock"@,
{
    let mut s = "cluster/".to_owned();
    s.append(instance_name);
    s.append("/admin.sock");
    proof {
        assert(s@ =~= "cluster/"@ + instance_name@ + "/admin.sock"@);
    }
    s
}

/// What the readiness poll does after one identity query.
#[derive(Clone, Copy, Debug, PartialEq, Eq, Structural)]
pub enum PollDecision {
    /// The node reported its name: adopt it and stop polling.
    Adopt,
    /// No name yet and time remains: query again.
    Retry,
    /// No name and the timeout has passed: keep the placeholder name and go
    /// on — failing to resolve the name is not fatal.
    GiveUp,
}

/// Decides the readiness poll after one identity query: adopt a reported
/// name at once; otherwise retry until the timeout has elapsed, then give
/// up and keep the placeholder.
pub fn readiness_decision(attempt_succeeded: bool, elapsed_ms: u64, timeout_ms: u64) -> (r:
    PollDecision)
    ensures
        attempt_succeeded ==> r == PollDecision::Adopt,
        !attempt_succeeded && elapsed_ms < timeout_ms ==> r == PollDecision::Retry,
        !attempt_succeeded && elapsed_ms >= timeout_ms ==> r == PollDecision::GiveUp,
{
    if attempt_succeeded {
        PollDecision::Adopt
    } else if elapsed_ms < timeout_ms {
        PollDecision::Retry
    } else {
        PollDecision::GiveUp
    }
}

/// Whether a node binary's version banner calls for the legacy flag names.
pub fn uses_legacy_flags(version_output: &str) -> (r: bool)
    ensures
        r == has_substring(version_output@, "picodata 24.6"@),
{
    str_contains(version_output, "picodata 24.6")
}

/// A listen address: host, colon, decimal port.
pub fn listen_address(host: &str, port: u16) -> (r: String)
    ensures
        r@ == host@ + ":"@ + dec_rep(port as nat),
{
    let mut s = host.to_owned();
    s.append(":");
    let digits = u64_to_dec(port as u64);
    s.append(digits.as_str());
    proof {
        assert(s@ =~= host@ + ":"@ + dec_rep(port as nat));
    }
    s
}

/// Scans the cluster entries for a running instance: the socket path of the
/// first entry whose control socket answers, if any. Entries pair a name
/// with whether its socket accepts connections.
pub fn first_active_socket(entries: &Vec<(String, bool)>) -> (r: Option<String>)
    ensures
        r is Some <==> exists|k: int| 0 <= k < entries@.len() && (#[trigger] entries@[k]).1,
        r matches Some(p) ==> exists|k: int|
            {
                &&& 0 <= k < entries@.len()
                &&& (#[trigger] entries@[k]).1
                &&& p@ == "cluster/"@ + entries@[k].0@ + "/admin.sock"@
                &&& (forall|m: int| 0 <= m < k ==> !(#[trigger] entries@[m]).1)
            },
{
    let n = entries.len();
    let mut i: usize = 0;
    while i < n
        invariant
            0 <= i <= n,
            n == entries@.len(),
            forall|m: int| 0 <= m < i ==> !(#[trigger] entries@[m]).1,
        decreases n - i,
    {
        if entries[i].1 {
            let p = admin_socket_rel_path(entries[i].0.as_str());
            return Some(p);
        }
        i += 1;
    }
    None
}

/// Everything the argument list of one node process is built from.
#[derive(Debug)]
pub struct SpawnConfig {
    /// The instance's data directory, as handed to the node binary.
    pub instance_dir: String,
    pub bin_port: u16,
    /// The iproto port of the first instance, the cluster bootstrap anchor.
    pub first_instance_bin_port: u16,
    pub http_port: u16,
    pub pg_port: u16,
    pub tier: String,
    /// The serialized tier-configuration override.
    pub tier_config: String,
    /// The plugin artifact directory, when the run serves a plugin project.
    pub plugins_dir: Option<String>,
    /// In daemon mode the node logs to a file instead of captured pipes.
    pub daemon: bool,
    pub log_file_path: String,
    /// Old node versions take differently named flags.
    pub legacy_flags: bool,
}

/// The fixed head of the argument list of one node process.
pub open spec fn spec_base_args(c: SpawnConfig) -> Seq<Seq<char>> {
    seq![
        "run"@,
        if c.legacy_flags {
            "--data-dir"@
        } else {
            "--instance-dir"@
        },
        c.instance_dir@,
        if c.legacy_flags {
            "--listen"@
        } else {
            "--iproto-listen"@
        },
        "127.0.0.1"@ + ":"@ + dec_rep(c.bin_port as nat),
        "--peer"@,
        "127.0.0.1"@ + ":"@ + dec_rep(c.first_instance_bin_port as nat),
        "--http-listen"@,
        "0.0.0.0"@ + ":"@ + dec_rep(c.http_port as nat),
        "--pg-listen"@,
        "127.0.0.1"@ + ":"@ + dec_rep(c.pg_port as nat),
        "--tier"@,
        c.tier@,
        "--config-parameter"@,
        "cluster.tier="@ + c.tier_config@,
    ]
}

/// The argument list of one node process.
pub open spec fn spec_spawn_args(c: SpawnConfig) -> Seq<Seq<char>> {
    spec_base_args(c) + (if c.plugins_dir is Some {
        seq!["--plugin-dir"@, c.plugins_dir->0@]
    } else {
        Seq::<Seq<char>>::empty()
    }) + (if c.daemon {
        seq!["--log"@, c.log_file_path@]
    } else {
        Seq::<Seq<char>>::empty()
    })
}

/// Builds the argument list the node binary is spawned with.
pub fn spawn_args(c: &SpawnConfig) -> (r: Vec<String>)
    ensures
        r@.map(|i: int, s: String| s@) == spec_spawn_args(*c),
{
    let dir_flag: &str = if c.legacy_flags {
        "--data-dir"
    } else {
        "--instance-dir"
    };
    let listen_flag: &str = if c.legacy_flags {
        "--listen"
    } else {
        "--iproto-listen"
    };
    let mut cfg = "cluster.tier=".to_owned();
    cfg.append(c.tier_config.as_str());
    let mut out: Vec<String> = vec![
        "run".to_owned(),
        dir_flag.to_owned(),
        c.instance_dir.clone(),
        listen_flag.to_owned(),
        listen_address("127.0.0.1", c.bin_port),
        "--peer".to_owned(),
        listen_address("127.0.0.1", c.first_instance_bin_port),
        "--http-listen".to_owned(),
        listen_address("0.0.0.0", c.http_port),
        "--pg-listen".to_owned(),
        listen_address("127.0.0.1", c.pg_port),
        "--tier".to_owned(),
        c.tier.clone(),
        "--config-parameter".to_owned(),
        cfg,
    ];
    proof {
        assert(out@.map(|i: int, s: String| s@) =~~= spec_base_args(*c));
    }
    let ghost with_plugin = spec_base_args(*c) + (if c.plugins_dir is Some {
        seq!["--plugin-dir"@, c.plugins_dir->0@]
    } else {
        Seq::<Seq<char>>::empty()
    });
    match &c.plugins_dir {
        Some(dir) => {
            out.push("--plugin-dir".to_owned());
            out.push(dir.clone());
        },
        None => {},
    }
    proof {
        assert(out@.map(|i: int, s: String| s@) =~~= with_plugin);
    }
    if c.daemon {
        out.push("--log".to_owned());
        out.push(c.log_file_path.clone());
    }
    proof {
        assert(out@.map(|i: int, s: String| s@) =~~= spec_spawn_args(*c));
    }
    out
}

} // verus!
