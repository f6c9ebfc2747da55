//! The installation run: statements are executed strictly in sequence, the
//! run stops at the first failure, and a failed run rolls back by killing
//! every instance spawned in the run.

use vstd::prelude::*;
use crate::statements::{spec_render, Statement};

verus! {

/// An instance spawned in the current run, by identifier and OS process id.
#[derive(Clone, Copy, Debug, PartialEq, Eq, Structural)]
pub struct SpawnedInstance {
    pub instance_id: u16,
    pub pid: u32,
}

/// What the installation run asks for next.
#[derive(Clone, Copy, Debug, PartialEq, Eq, Structural)]
pub enum InstallStep {
    /// Execute the statement at this index and report how it went.
    Execute(usize),
    /// A statement failed: kill every instance spawned in this run.
    RollbackAll,
    /// Every statement succeeded.
    Done,
}

/// The state of one installation run over a fixed statement sequence.
#[derive(Debug)]
pub struct InstallRun {
    statements: Vec<Statement>,
    executed: usize,
    failed: bool,
}

impl InstallRun {
    /// The statements of the run, in execution order.
    pub closed spec fn spec_statements(self) -> Seq<Statement> {
        self.statements@
    }

    /// How many statements have succeeded so far.
    pub closed spec fn spec_executed(self) -> int {
        self.executed as int
    }

    /// Whether a statement has failed.
    pub closed spec fn spec_failed(self) -> bool {
        self.failed
    }

    /// At most every statement has been executed.
    pub open spec fn wf(self) -> bool {
        self.spec_executed() <= self.spec_statements().len()
    }

    /// Starts a run over the given statements; nothing is executed yet.
    pub fn new(statements: Vec<Statement>) -> (r: Self)
        ensures
            r.wf(),
            r.spec_statements() == statements@,
            r.spec_executed() == 0,
            !r.spec_failed(),
    {
        InstallRun { statements, executed: 0, failed: false }
    }

    /// What to do next: execute the next statement in sequence, roll back
    /// after a failure, or finish once every statement has succeeded.
    pub fn next_step(&self) -> (r: InstallStep)
        requires
            self.wf(),
        ensures
            self.spec_failed() ==> r == InstallStep::RollbackAll,
            !self.spec_failed() && self.spec_executed() < self.spec_statements().len() ==> r
                == InstallStep::Execute(self.spec_executed() as usize),
            !self.spec_failed() && self.spec_executed() == self.spec_statements().len() ==> r
                == InstallStep::Done,
    {
        if self.failed {
            InstallStep::RollbackAll
        } else if self.executed < self.statements.len() {
            InstallStep::Execute(self.executed)
        } else {
            InstallStep::Done
        }
    }

    /// The administrative text of the statement at an index.
    pub fn statement_text(&self, idx: usize) -> (r: String)
        requires
            idx < self.spec_statements().len(),
        ensures
            r@ == spec_render(self.spec_statements()[idx as int]),
    {
        crate::statements::render_statement(&self.statements[idx])
    }

    /// Records that the statement just handed out succeeded; the run moves
    /// to the next statement.
    pub fn note_success(&mut self)
        requires
            old(self).wf(),
            !old(self).spec_failed(),
            old(self).spec_executed() < old(self).spec_statements().len(),
        ensures
            final(self).wf(),
            final(self).spec_statements() == old(self).spec_statements(),
            final(self).spec_executed() == old(self).spec_executed() + 1,
            !final(self).spec_failed(),
    {
        let n = self.statements.len();
        proof {
            assert(self.executed < n);
        }
        self.executed = self.executed + 1;
    }

    /// Records that the statement just handed out failed; the run stops and
    /// asks for rollback from now on.
    pub fn note_failure(&mut self)
        requires
            old(self).wf(),
        ensures
            final(self).wf(),
            final(self).spec_statements() == old(self).spec_statements(),
            final(self).spec_executed() == old(self).spec_executed(),
            final(self).spec_failed(),
    {
        self.failed = true;
    }
}

/// The kill list of a rollback: one entry per spawned instance, in spawn
/// order — never a subset.
pub fn rollback_targets(spawned: &Vec<SpawnedInstance>) -> (r: Vec<u32>)
    ensures
        r@.len() == spawned@.len(),
        forall|k: int| 0 <= k < r@.len() ==> r@[k] == (#[trigger] spawned@[k]).pid,
{
    let n = spawned.len();
    let mut out: Vec<u32> = Vec::new();
    let mut i: usize = 0;
    while i < n
        invariant
            0 <= i <= n,
            n == spawned@.len(),
            out@.len() == i,
            forall|k: int| 0 <= k < i ==> out@[k] == (#[trigger] spawned@[k]).pid,
        decreases n - i,
    {
        out.push(spawned[i].pid);
        i += 1;
    }
    out
}

/// Rollback is complete: the pid of every instance spawned in the run is on
/// the kill list.
pub proof fn lemma_rollback_complete(spawned: Seq<SpawnedInstance>, targets: Seq<u32>)
    requires
        targets.len() == spawned.len(),
        forall|k: int| 0 <= k < targets.len() ==> targets[k] == (#[trigger] spawned[k]).pid,
    ensures
        forall|k: int| 0 <= k < spawned.len() ==> targets.contains((#[trigger] spawned[k]).pid),
{
    assert forall|k: int| 0 <= k < spawned.len() implies targets.contains(
        (#[trigger] spawned[k]).pid,
    ) by {
        assert(targets[k] == spawned[k].pid);
    }
}

} // verus!
