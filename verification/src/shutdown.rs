//! The shutdown controller's decisions: which cluster entries are instances,
//! which are already stopped, and which get killed by the pid on record.
//! All entries are attempted; the first failure is reported afterwards.

use vstd::prelude::*;
use vstd::string::StrSliceExecFns;
use vstd::string::StringExecFns;
use crate::text::{
    all_dec_digits, dec_rep, dec_value, first_line, is_space, lemma_dec_rep_digits,
    lemma_dec_round_trip, lemma_lines_split, parse_u32, spec_lines, spec_trim, trim_back,
    trim_front, trim_spaces, u64_to_dec,
};

verus! {

/// One entry of the cluster data directory, as the controller sees it:
/// its name, whether it is a symbolic link (only those are instances), the
/// contents of its pid file if one exists, and whether its control socket
/// accepts connections.
#[derive(Debug)]
pub struct ClusterEntry {
    pub name: String,
    pub is_symlink: bool,
    pub pid_file: Option<String>,
    pub reachable: bool,
}

/// What to do with one entry.
#[derive(Clone, Copy, Debug, PartialEq, Eq, Structural)]
pub enum StopAction {
    /// Not a symbolic link: not an instance, passed over.
    Ignore,
    /// Unreachable: already stopped, skipped without error.
    SkipStopped,
    /// Alive: kill this process.
    Kill { pid: u32 },
}

/// Why one entry fails.
#[derive(Clone, Copy, Debug, PartialEq, Eq, Structural)]
pub enum StopEntryError {
    /// A reachable instance has no pid file: the run is corrupted.
    MissingPidFile,
    /// The pid file does not hold a decimal process id.
    MalformedPidFile,
}

/// The process id a pid file holds: its first line, trimmed, as a decimal
/// number.
pub open spec fn spec_pid_value(content: Seq<char>) -> Option<u32> {
    let t = spec_trim(spec_lines(content)[0]);
    if t.len() > 0 && all_dec_digits(t) && dec_value(t) <= u32::MAX {
        Some(dec_value(t) as u32)
    } else {
        None
    }
}

/// Reads the process id from a pid file's contents.
pub fn parse_pid_content(content: &str) -> (r: Option<u32>)
    ensures
        r == spec_pid_value(content@),
{
    let line = first_line(content);
    let t = trim_spaces(line);
    parse_u32(t)
}

/// The contents written to a pid file: the decimal process id and a final
/// line break.
pub fn render_pid_file_content(pid: u32) -> (r: String)
    ensures
        r@ == dec_rep(pid as nat) + "\n"@,
{
    let mut s = u64_to_dec(pid as u64);
    s.append("\n");
    s
}

/// A pid file written for a process reads back as that process's id.
pub proof fn lemma_pid_round_trip(pid: u32)
    ensures
        spec_pid_value(dec_rep(pid as nat) + "\n"@) == Some(pid),
{
    reveal_strlit("\n");
    let digits = dec_rep(pid as nat);
    let content = digits + "\n"@;
    lemma_dec_rep_digits(pid as nat);
    assert(content[digits.len() as int] == '\n');
    assert forall|m: int| 0 <= m < digits.len() implies content[m] != '\n' by {
        assert(content[m] == digits[m]);
        assert(48 <= content[m] as int <= 57);
        assert('\n' as int == 10);
    }
    lemma_lines_split(content, digits.len() as int);
    assert(content.subrange(0, digits.len() as int) =~= digits);
    assert(spec_lines(content)[0] == digits);
    assert(digits.len() > 0);
    assert(!is_space(digits[0]));
    assert(trim_front(digits) == digits);
    assert(!is_space(digits.last()));
    assert(trim_back(digits) == digits);
    assert(spec_trim(digits) == digits);
    lemma_dec_round_trip(pid as nat);
}

/// What the controller decides for one entry: only symbolic links are
/// instances; an unreachable instance is already stopped; a reachable one is
/// killed by the pid on record, and a missing or malformed pid file for a
/// reachable instance is that entry's error.
pub open spec fn spec_stop_action(e: ClusterEntry) -> Result<StopAction, StopEntryError> {
    if !e.is_symlink {
        Ok(StopAction::Ignore)
    } else if !e.reachable {
        Ok(StopAction::SkipStopped)
    } else {
        match e.pid_file {
            None => Err(StopEntryError::MissingPidFile),
            Some(content) => match spec_pid_value(content@) {
                Some(pid) => Ok(StopAction::Kill { pid }),
                None => Err(StopEntryError::MalformedPidFile),
            },
        }
    }
}

/// Decides one entry.
pub fn stop_entry_action(e: &ClusterEntry) -> (r: Result<StopAction, StopEntryError>)
    ensures
        r == spec_stop_action(*e),
{
    if !e.is_symlink {
        Ok(StopAction::Ignore)
    } else if !e.reachable {
        Ok(StopAction::SkipStopped)
    } else {
        match &e.pid_file {
            None => Err(StopEntryError::MissingPidFile),
            Some(content) => match parse_pid_content(content.as_str()) {
                Some(pid) => Ok(StopAction::Kill { pid }),
                None => Err(StopEntryError::MalformedPidFile),
            },
        }
    }
}

/// Decides every entry, in order; no failure stops the sweep.
pub fn stop_plan(entries: &Vec<ClusterEntry>) -> (r: Vec<Result<StopAction, StopEntryError>>)
    ensures
        r@.len() == entries@.len(),
        forall|k: int| 0 <= k < r@.len() ==> r@[k] == spec_stop_action(#[trigger] entries@[k]),
{
    let n = entries.len();
    let mut out: Vec<Result<StopAction, StopEntryError>> = Vec::new();
    let mut i: usize = 0;
    while i < n
        invariant
            0 <= i <= n,
            n == entries@.len(),
            out@.len() == i,
            forall|k: int| 0 <= k < i ==> out@[k] == spec_stop_action(#[trigger] entries@[k]),
        decreases n - i,
    {
        let a = stop_entry_action(&entries[i]);
        out.push(a);
        i += 1;
    }
    out
}

/// The index of the first failed entry, after every entry was attempted;
/// `None` exactly when all succeeded.
pub fn first_stop_error(plan: &Vec<Result<StopAction, StopEntryError>>) -> (r: Option<usize>)
    ensures
        r is None <==> (forall|k: int| 0 <= k < plan@.len() ==> (#[trigger] plan@[k]) is Ok),
        r matches Some(i) ==> i < plan@.len() && plan@[i as int] is Err && (forall|k: int|
            0 <= k < i ==> (#[trigger] plan@[k]) is Ok),
{
    let n = plan.len();
    let mut i: usize = 0;
    while i < n
        invariant
            0 <= i <= n,
            n == plan@.len(),
            forall|k: int| 0 <= k < i ==> (#[trigger] plan@[k]) is Ok,
        decreases n - i,
    {
        if plan[i].is_err() {
            return Some(i);
        }
        i += 1;
    }
    None
}

/// Stopping a cluster with no live instance succeeds: every entry is passed
/// over or skipped, none fails, and nothing is killed.
pub proof fn lemma_stop_already_stopped(entries: Seq<ClusterEntry>)
    requires
        forall|k: int| 0 <= k < entries.len() ==> !(#[trigger] entries[k]).reachable,
    ensures
        forall|k: int|
            0 <= k < entries.len() ==> (#[trigger] spec_stop_action(entries[k])) is Ok && !(
            spec_stop_action(entries[k])->Ok_0 is Kill),
{
}

} // verus!
