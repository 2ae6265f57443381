//! The order in which the mixing tasks are started and stopped.
use vstd::prelude::*;

verus! {

/// One thing that the task of the extension has to do.
#[derive(Clone, Copy, Debug, PartialEq, Eq, Structural)]
pub enum RunStep {
    /// Start the task of the mixer at this position.
    Spawn(usize),
    /// Wait until the extension is told to stop.
    AwaitStop,
    /// Tell the mixer at this position to stop.
    Stop(usize),
    /// Wait for the end of the task of the mixer at this position.
    Join(usize),
    /// Nothing is left to do.
    Done,
}

/// The step at position `k` for `count` mixers: all tasks are started in
/// order, the stop is awaited, all mixers are told to stop in order, and the
/// tasks are awaited in reverse.
pub open spec fn step_at(count: nat, k: nat) -> RunStep {
    if k < count {
        RunStep::Spawn(k as usize)
    } else if k == count {
        RunStep::AwaitStop
    } else if k < 2 * count + 1 {
        RunStep::Stop((k - count - 1) as usize)
    } else if k < 3 * count + 1 {
        RunStep::Join((3 * count - k) as usize)
    } else {
        RunStep::Done
    }
}

#[derive(Clone, Copy, Debug, PartialEq, Eq, Structural)]
enum Phase {
    Spawning(usize),
    Stopping(usize),
    Joining(usize),
}

/// Walks through the steps of a run.
pub struct RunPlan {
    count: usize,
    phase: Phase,
}

impl RunPlan {
    /// How many mixers there are.
    pub closed spec fn count(&self) -> nat {
        self.count as nat
    }

    /// How many steps were taken.
    pub closed spec fn taken(&self) -> nat {
        match self.phase {
            Phase::Spawning(k) => k as nat,
            Phase::Stopping(k) => (self.count + 1 + k) as nat,
            Phase::Joining(left) => (3 * self.count + 1 - left) as nat,
        }
    }

    /// Whether the position is one that `next` can reach.
    pub closed spec fn wf(&self) -> bool {
        match self.phase {
            Phase::Spawning(k) => k <= self.count,
            Phase::Stopping(k) => k <= self.count,
            Phase::Joining(left) => left <= self.count,
        }
    }

    /// A run at its first step.
    pub fn new(count: usize) -> (plan: RunPlan)
        ensures
            plan.wf(),
            plan.count() == count,
            plan.taken() == 0,
    {
        RunPlan { count, phase: Phase::Spawning(0) }
    }

    /// The next step, `Done` once all were taken.
    pub fn next(&mut self) -> (step: RunStep)
        requires
            old(self).wf(),
        ensures
            final(self).wf(),
            final(self).count() == old(self).count(),
            step == step_at(old(self).count(), old(self).taken()),
            final(self).taken() == if step is Done {
                old(self).taken()
            } else {
                old(self).taken() + 1
            },
    {
        if let Phase::Spawning(k) = self.phase {
            if k < self.count {
                self.phase = Phase::Spawning(k + 1);
                return RunStep::Spawn(k);
            }
            self.phase = Phase::Stopping(0);
            return RunStep::AwaitStop;
        }
        if let Phase::Stopping(k) = self.phase {
            if k < self.count {
                self.phase = Phase::Stopping(k + 1);
                return RunStep::Stop(k);
            }
            self.phase = Phase::Joining(self.count);
        }
        if let Phase::Joining(left) = self.phase {
            if left > 0 {
                self.phase = Phase::Joining(left - 1);
                return RunStep::Join(left - 1);
            }
        }
        RunStep::Done
    }
}

/// Every mixer's task is started, told to stop and awaited once each, in this
/// order, and no task is awaited before all mixers were told to stop.
pub proof fn law_every_task_is_stopped(count: nat, mixer: nat, k: nat)
    requires
        mixer < count <= usize::MAX,
    ensures
        step_at(count, k) == RunStep::Spawn(mixer as usize) <==> k == mixer,
        step_at(count, k) == RunStep::Stop(mixer as usize) <==> k == count + 1 + mixer,
        step_at(count, k) == RunStep::Join(mixer as usize) <==> k == 3 * count - mixer,
        step_at(count, k) is Join ==> k > count + 1 + mixer,
{
}

/// Tasks are awaited in the reverse of the order in which they were started.
pub proof fn law_joins_reverse_spawns(count: nat, k: nat)
    requires
        k < count <= usize::MAX,
    ensures
        step_at(count, k) == RunStep::Spawn(k as usize),
        step_at(count, (3 * count - k) as nat) == RunStep::Join(k as usize),
{
}

/// What has to be done to end a run: each at most once.
#[derive(Clone, Copy, Debug, PartialEq, Eq, Structural)]
pub struct ShutdownPlan {
    /// Send the stop signal.
    pub signal: bool,
    /// Wait for the thread of the run.
    pub join: bool,
}

/// What is known of the extension from its load to its shutdown.
#[derive(Clone, Copy, Debug, PartialEq, Eq, Structural)]
pub struct RunModel {
    /// Whether the extension is loaded.
    pub loaded: bool,
    /// Whether a run can still be told to stop.
    pub signal: bool,
    /// Whether the thread of a run can still be waited for.
    pub thread: bool,
}

/// Whether a state can be reached: a run that can be told to stop can be
/// waited for, and only what is loaded runs.
pub open spec fn run_inv(m: RunModel) -> bool {
    &&& m.signal == m.thread
    &&& m.signal ==> m.loaded
}

/// What a shutdown has to do.
pub open spec fn shutdown_plan(m: RunModel) -> ShutdownPlan {
    ShutdownPlan { signal: m.signal, join: m.thread }
}

/// The state in which nothing is loaded, which a shutdown leads back to.
pub open spec fn unloaded() -> RunModel {
    RunModel { loaded: false, signal: false, thread: false }
}

/// Whether the extension is loaded, and whether its run can still be told to
/// stop and waited for.
pub struct RunState {
    loaded: bool,
    signal: bool,
    thread: bool,
}

impl View for RunState {
    type V = RunModel;

    closed spec fn view(&self) -> RunModel {
        RunModel { loaded: self.loaded, signal: self.signal, thread: self.thread }
    }
}

impl RunState {
    /// Nothing is loaded.
    pub fn new() -> (state: RunState)
        ensures
            state@ == unloaded(),
            run_inv(state@),
    {
        RunState { loaded: false, signal: false, thread: false }
    }

    /// Notes that the extension was loaded. No run was started yet.
    pub fn load(&mut self)
        ensures
            final(self)@ == (RunModel { loaded: true, signal: false, thread: false }),
            run_inv(final(self)@),
    {
        self.loaded = true;
        self.signal = false;
        self.thread = false;
    }

    /// Whether the extension is loaded.
    pub fn is_loaded(&self) -> (loaded: bool)
        ensures
            loaded == self@.loaded,
    {
        self.loaded
    }

    /// Notes that a run was started. There is none without an extension.
    pub fn started(&mut self)
        requires
            old(self)@.loaded,
        ensures
            final(self)@ == (RunModel { loaded: true, signal: true, thread: true }),
            run_inv(final(self)@),
    {
        self.signal = true;
        self.thread = true;
    }

    /// What has to be done to end the run. Nothing is loaded after that, so
    /// there is no second shutdown before another load.
    pub fn shutdown(&mut self) -> (plan: ShutdownPlan)
        requires
            old(self)@.loaded,
        ensures
            plan == shutdown_plan(old(self)@),
            final(self)@ == unloaded(),
            run_inv(final(self)@),
    {
        let plan = ShutdownPlan { signal: self.signal, join: self.thread };
        self.loaded = false;
        self.signal = false;
        self.thread = false;
        plan
    }
}

/// A shutdown of the loaded extension sends the stop signal and waits for the
/// thread exactly when a run was started, and leaves nothing loaded, so that a
/// second shutdown is out of the question.
///
/// The run waits for the signal after its last start. Between the signal and
/// its end, which the shutdown waits for, it tells every mixer to stop once,
/// and then awaits the task of every mixer once.
pub proof fn law_shutdown_ends_the_run(before: RunModel, count: nat, mixer: nat, k: nat)
    requires
        before.loaded,
        run_inv(before),
        mixer < count <= usize::MAX,
    ensures
        shutdown_plan(before) == (ShutdownPlan { signal: before.signal, join: before.signal }),
        !unloaded().loaded,
        step_at(count, k) is AwaitStop <==> k == count,
        step_at(count, k) == RunStep::Stop(mixer as usize) <==> k == count + 1 + mixer,
        step_at(count, k) == RunStep::Join(mixer as usize) <==> k == 3 * count - mixer,
        step_at(count, k) is Done <==> k > 3 * count,
        count < count + 1 + mixer < 3 * count - mixer <= 3 * count,
{
    law_every_task_is_stopped(count, mixer, k);
}

/// A shutdown signals what can be signalled and waits for what can be waited
/// for, whichever of the two there is, and leaves neither behind.
pub proof fn law_shutdown_leaves_nothing(m: RunModel)
    ensures
        shutdown_plan(m).signal == m.signal,
        shutdown_plan(m).join == m.thread,
        !unloaded().loaded && !unloaded().signal && !unloaded().thread,
        run_inv(m) <==> (m.signal <==> m.thread) && (m.thread ==> m.loaded),
{
}

} // verus!
