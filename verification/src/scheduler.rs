//! The bounded-concurrency dispatch scheduler.
//!
//! The scheduler owns the pending queue and the window of in-flight process
//! handles and decides, one step at a time, whether to spawn the next
//! command or to retire the oldest running one. It is generic over the
//! handle type `T`: the caller performs the actual process creation and
//! waiting and reports each outcome back, so every decision and every
//! bookkeeping step is verified here while the operating system work stays
//! outside.
//!
//! The protocol is a single-threaded loop: while the window has a
//! free slot and commands are pending, one command is popped and built
//! (`next_command`), and its spawn outcome is reported (`add_child` or
//! `spawn_failed`); otherwise the oldest handle is taken (`take_oldest`),
//! waited on outside, and its exit reported (`record_exit`). A failed build
//! is fatal for the whole batch and the caller stops driving the loop.

use vstd::prelude::*;

use crate::command::Command;
use crate::command::ProgramError;
use crate::command::Shell;
use crate::command::builds;
use crate::command::tokens_of;

verus! {

/// Counts a pending report as one outstanding obligation.
pub open spec fn one_if(b: bool) -> int {
    if b {
        1
    } else {
        0
    }
}

/// The spawn sequence numbers `0, 1, ..., n - 1` in spawn order.
pub open spec fn spawn_order(n: nat) -> Seq<nat> {
    Seq::new(n, |i: int| i as nat)
}

proof fn lemma_spawn_order_push(n: nat)
    ensures
        spawn_order(n + 1) == spawn_order(n).push(n),
{
    assert(spawn_order(n + 1) =~= spawn_order(n).push(n));
}

/// The dispatch scheduler: pending commands, the bounded window of running
/// handles (oldest first), and the exit tally.
///
/// The ghost fields record the run's history: how many commands were
/// attempted (built successfully), how many spawns succeeded or failed, the
/// spawn sequence numbers of the handles still in the window, and the spawn
/// sequence numbers of the retired handles in retirement order.
pub struct Scheduler<T> {
    pub pending: Vec<String>,
    pub shell: Shell,
    pub max_parallel: usize,
    pub running: Vec<T>,
    pub ok_count: usize,
    pub err_count: usize,
    /// A handle was taken with `take_oldest` and its exit is not yet recorded.
    pub waiting: bool,
    /// A command came back from `next_command` and its spawn outcome is not
    /// yet reported.
    pub awaiting_spawn_report: bool,
    pub total: Ghost<nat>,
    pub attempted: Ghost<nat>,
    pub spawn_count: Ghost<nat>,
    pub spawn_failures: Ghost<nat>,
    pub running_ids: Ghost<Seq<nat>>,
    pub retired: Ghost<Seq<nat>>,
}

impl<T> Scheduler<T> {
    /// The scheduler's invariant. In particular: the window never exceeds
    /// `max_parallel`, and the retired spawn numbers followed by the running
    /// ones are exactly `0, 1, ..., spawn_count - 1` in order, so handles
    /// leave the window in the order they entered it.
    pub open spec fn wf(self) -> bool {
        &&& self.max_parallel >= 1
        &&& self.running@.len() <= self.max_parallel
        &&& self.running@.len() == self.running_ids@.len()
        &&& self.retired@ + self.running_ids@ == spawn_order(self.spawn_count@)
        &&& self.ok_count + self.err_count + self.running@.len() + one_if(self.waiting) + one_if(
            self.awaiting_spawn_report,
        ) == self.attempted@
        &&& self.spawn_count@ + self.spawn_failures@ + one_if(self.awaiting_spawn_report)
            == self.attempted@
        &&& self.attempted@ + self.pending@.len() <= self.total@
        &&& self.total@ <= usize::MAX
    }

    /// A fresh scheduler: everything pending, nothing running, tally zero.
    pub fn new(commands: Vec<String>, shell: Shell, max_parallel: usize) -> (s: Scheduler<T>)
        requires
            max_parallel >= 1,
        ensures
            s.wf(),
            s.pending@ == commands@,
            s.shell == shell,
            s.max_parallel == max_parallel,
            s.running@.len() == 0,
            s.ok_count == 0,
            s.err_count == 0,
            !s.waiting,
            !s.awaiting_spawn_report,
            s.total@ == commands@.len(),
            s.attempted@ == 0,
            s.spawn_count@ == 0,
            s.spawn_failures@ == 0,
            s.retired@ == Seq::<nat>::empty(),
    {
        let s = Scheduler {
            pending: commands,
            shell,
            max_parallel,
            running: Vec::new(),
            ok_count: 0,
            err_count: 0,
            waiting: false,
            awaiting_spawn_report: false,
            total: Ghost(0nat),
            attempted: Ghost(0nat),
            spawn_count: Ghost(0nat),
            spawn_failures: Ghost(0nat),
            running_ids: Ghost(Seq::empty()),
            retired: Ghost(Seq::empty()),
        };
        let mut s = s;
        let n: usize = s.pending.len();
        proof {
            assert(s.pending@.len() == n);
            s.total@ = s.pending@.len();
            assert(s.retired@ + s.running_ids@ =~= spawn_order(0));
        }
        s
    }

    /// The loop is finished: nothing pending and nothing running.
    pub fn done(&self) -> (r: bool)
        ensures
            r == (self.pending@.len() == 0 && self.running@.len() == 0),
    {
        self.pending.is_empty() && self.running.is_empty()
    }

    /// A new command may be dispatched this iteration: the window has a free
    /// slot and a command is pending.
    pub fn can_spawn(&self) -> (r: bool)
        ensures
            r == (self.running@.len() < self.max_parallel && self.pending@.len() > 0),
    {
        self.running.len() < self.max_parallel && !self.pending.is_empty()
    }

    /// Pops the front pending command and builds its specification. An
    /// `EmptyCommand` error is fatal for the batch: the command was popped
    /// but not attempted, and the caller must stop the run. On success the
    /// command counts as attempted and the spawn outcome is owed.
    pub fn next_command(&mut self) -> (r: Result<Command, ProgramError>)
        requires
            old(self).wf(),
            old(self).running@.len() < old(self).max_parallel,
            old(self).pending@.len() > 0,
            !old(self).waiting,
            !old(self).awaiting_spawn_report,
        ensures
            final(self).wf(),
            final(self).pending@ == old(self).pending@.drop_first(),
            final(self).shell == old(self).shell,
            final(self).max_parallel == old(self).max_parallel,
            final(self).running@ == old(self).running@,
            final(self).running_ids == old(self).running_ids,
            final(self).retired == old(self).retired,
            final(self).ok_count == old(self).ok_count,
            final(self).err_count == old(self).err_count,
            final(self).spawn_count == old(self).spawn_count,
            final(self).spawn_failures == old(self).spawn_failures,
            final(self).total == old(self).total,
            !final(self).waiting,
            r is Err <==> (old(self).shell is Direct && tokens_of(
                old(self).pending@[0]@,
            ).len() == 0),
            r matches Err(e) ==> e is EmptyCommand && !final(self).awaiting_spawn_report && final(self).attempted == old(self).attempted,
            r matches Ok(c) ==> builds(old(self).pending@[0]@, old(self).shell, c) && final(self).awaiting_spawn_report && final(self).attempted@ == old(self).attempted@ + 1,
    {
        let raw = self.pending.remove(0);
        let r = Command::from(raw.as_str(), &self.shell);
        if r.is_ok() {
            proof {
                self.attempted@ = self.attempted@ + 1;
            }
            self.awaiting_spawn_report = true;
        }
        r
    }

    /// Reports a successful spawn: the new handle enters the window at the
    /// back, with the next spawn sequence number.
    pub fn add_child(&mut self, handle: T)
        requires
            old(self).wf(),
            old(self).awaiting_spawn_report,
            old(self).running@.len() < old(self).max_parallel,
        ensures
            final(self).wf(),
            final(self).running@ == old(self).running@.push(handle),
            final(self).running_ids@ == old(self).running_ids@.push(old(self).spawn_count@),
            final(self).spawn_count@ == old(self).spawn_count@ + 1,
            !final(self).awaiting_spawn_report,
            final(self).pending@ == old(self).pending@,
            final(self).shell == old(self).shell,
            final(self).max_parallel == old(self).max_parallel,
            final(self).ok_count == old(self).ok_count,
            final(self).err_count == old(self).err_count,
            final(self).waiting == old(self).waiting,
            final(self).retired == old(self).retired,
            final(self).attempted == old(self).attempted,
            final(self).spawn_failures == old(self).spawn_failures,
            final(self).total == old(self).total,
    {
        self.running.push(handle);
        proof {
            self.running_ids@ = self.running_ids@.push(self.spawn_count@);
            self.spawn_count@ = self.spawn_count@ + 1;
            lemma_spawn_order_push(old(self).spawn_count@);
            assert(self.retired@ + self.running_ids@ =~= spawn_order(old(self).spawn_count@).push(
                old(self).spawn_count@,
            ));
        }
        self.awaiting_spawn_report = false;
    }

    /// Reports a failed spawn (for example, a missing executable): the
    /// failure is tallied and the batch goes on; nothing enters the window.
    pub fn spawn_failed(&mut self)
        requires
            old(self).wf(),
            old(self).awaiting_spawn_report,
        ensures
            final(self).wf(),
            final(self).err_count == old(self).err_count + 1,
            final(self).spawn_failures@ == old(self).spawn_failures@ + 1,
            !final(self).awaiting_spawn_report,
            final(self).pending@ == old(self).pending@,
            final(self).shell == old(self).shell,
            final(self).max_parallel == old(self).max_parallel,
            final(self).running@ == old(self).running@,
            final(self).running_ids == old(self).running_ids,
            final(self).ok_count == old(self).ok_count,
            final(self).waiting == old(self).waiting,
            final(self).retired == old(self).retired,
            final(self).attempted == old(self).attempted,
            final(self).spawn_count == old(self).spawn_count,
            final(self).total == old(self).total,
    {
        self.err_count = self.err_count + 1;
        proof {
            self.spawn_failures@ = self.spawn_failures@ + 1;
        }
        self.awaiting_spawn_report = false;
    }

    /// Takes the handle at the front of the window: the oldest spawned, not
    /// the first to finish. The caller blocks on exactly this handle and
    /// reports its exit with `record_exit`. Its spawn sequence number is the
    /// next one in retirement order, so retirement is in spawn order.
    pub fn take_oldest(&mut self) -> (h: T)
        requires
            old(self).wf(),
            old(self).running@.len() > 0,
            !old(self).waiting,
            !old(self).awaiting_spawn_report,
        ensures
            final(self).wf(),
            h == old(self).running@[0],
            final(self).running@ == old(self).running@.drop_first(),
            final(self).running_ids@ == old(self).running_ids@.drop_first(),
            final(self).retired@ == old(self).retired@.push(old(self).running_ids@[0]),
            old(self).running_ids@[0] == old(self).retired@.len(),
            final(self).waiting,
            final(self).pending@ == old(self).pending@,
            final(self).shell == old(self).shell,
            final(self).max_parallel == old(self).max_parallel,
            final(self).ok_count == old(self).ok_count,
            final(self).err_count == old(self).err_count,
            !final(self).awaiting_spawn_report,
            final(self).attempted == old(self).attempted,
            final(self).spawn_count == old(self).spawn_count,
            final(self).spawn_failures == old(self).spawn_failures,
            final(self).total == old(self).total,
    {
        proof {
            assert((old(self).retired@ + old(self).running_ids@)[old(self).retired@.len() as int]
                == old(self).running_ids@[0]);
        }
        let h = self.running.remove(0);
        proof {
            self.retired@ = self.retired@.push(self.running_ids@[0]);
            self.running_ids@ = self.running_ids@.drop_first();
            assert(self.running@ =~= old(self).running@.drop_first());
            assert(self.retired@ + self.running_ids@ =~= old(self).retired@
                + old(self).running_ids@);
        }
        self.waiting = true;
        h
    }

    /// Records the exit of the handle taken with `take_oldest`: a success
    /// status increments `ok_count`, anything else increments `err_count`.
    pub fn record_exit(&mut self, success: bool)
        requires
            old(self).wf(),
            old(self).waiting,
        ensures
            final(self).wf(),
            !final(self).waiting,
            success ==> final(self).ok_count == old(self).ok_count + 1 && final(self).err_count
                == old(self).err_count,
            !success ==> final(self).err_count == old(self).err_count + 1 && final(self).ok_count
                == old(self).ok_count,
            final(self).pending@ == old(self).pending@,
            final(self).shell == old(self).shell,
            final(self).max_parallel == old(self).max_parallel,
            final(self).running@ == old(self).running@,
            final(self).running_ids == old(self).running_ids,
            final(self).awaiting_spawn_report == old(self).awaiting_spawn_report,
            final(self).retired == old(self).retired,
            final(self).attempted == old(self).attempted,
            final(self).spawn_count == old(self).spawn_count,
            final(self).spawn_failures == old(self).spawn_failures,
            final(self).total == old(self).total,
    {
        if success {
            self.ok_count = self.ok_count + 1;
        } else {
            self.err_count = self.err_count + 1;
        }
        self.waiting = false;
    }

    /// The aggregate outcome of the batch: a success if at least one command
    /// succeeded or none failed (so an empty batch succeeds vacuously).
    pub fn is_success(&self) -> (r: bool)
        ensures
            r == (self.ok_count > 0 || self.err_count == 0),
    {
        self.ok_count > 0 || self.err_count == 0
    }

    /// The final process exit code: 0 on aggregate success, 1 otherwise.
    pub fn exit_code(&self) -> (r: i32)
        ensures
            r == 0 <==> (self.ok_count > 0 || self.err_count == 0),
            r == 0 || r == 1,
    {
        if self.is_success() {
            0
        } else {
            1
        }
    }
}

/// The window of running handles never exceeds the concurrency ceiling;
/// since every operation preserves `wf`, this holds at every instant of the
/// run.
pub proof fn lemma_window_bounded<T>(s: &Scheduler<T>)
    requires
        s.wf(),
    ensures
        s.running@.len() <= s.max_parallel,
{
}

/// When the window is drained and no report is outstanding, the exit tally
/// accounts for exactly the attempted commands: `ok_count + err_count`
/// equals the number of commands built successfully, and those split into
/// the retired handles (one output block each) and the failed spawns (one
/// diagnostic each).
pub proof fn lemma_tally_counts_attempted<T>(s: &Scheduler<T>)
    requires
        s.wf(),
        s.running@.len() == 0,
        !s.waiting,
        !s.awaiting_spawn_report,
    ensures
        s.ok_count + s.err_count == s.attempted@,
        s.retired@.len() + s.spawn_failures@ == s.attempted@,
{
    assert(s.retired@.len() == (s.retired@ + s.running_ids@).len());
}

/// Handles retire in exactly their spawn order: the sequence of retired
/// spawn numbers is `0, 1, 2, ...`, independent of when each process
/// actually finished.
pub proof fn lemma_retirement_in_spawn_order<T>(s: &Scheduler<T>)
    requires
        s.wf(),
    ensures
        forall|i: int| 0 <= i < s.retired@.len() ==> s.retired@[i] == i,
{
    assert(s.retired@.len() + s.running_ids@.len() == spawn_order(s.spawn_count@).len());
    assert forall|i: int| 0 <= i < s.retired@.len() implies s.retired@[i] == i by {
        assert((s.retired@ + s.running_ids@)[i] == s.retired@[i]);
        assert(spawn_order(s.spawn_count@)[i] == i);
    }
}

} // verus!
