//! The execution engine as a state machine. The runner holds the run's
//! mutable state behind one exclusively-owned handle; the caller performs
//! each shell command and hands the captured output back. Between those two
//! calls the caller persists a snapshot, so the log traces every observable
//! state change. Status moves only forward: `Never -> Running ->
//! {Succeeded, Failed, Aborted}`, and a terminal status never changes.

use vstd::prelude::*;
use crate::status::{Status, is_terminal, rank};
use crate::types::{CommandView, Output, OutputView, Pipeline, Step, StepView};
use crate::text::copy_chars;

verus! {

broadcast use crate::text::lemma_text_deep_view;

#[derive(Clone, Copy, Debug, PartialEq, Eq, Structural)]
pub enum Phase {
    /// Running the declared commands: position (step, command).
    Steps { step: usize, cmd: usize },
    /// A step failed; running its fallback commands, best effort.
    Fallback { step: usize, cmd: usize },
    /// Every step is done; the terminal snapshot is still owed.
    Finishing,
    /// Nothing left to run.
    Done,
}

/// The first real command position at or after step `s`, skipping steps
/// without commands; `Finishing` when none is left.
pub open spec fn spec_seek(steps: Seq<Step>, s: int) -> Phase
    decreases steps.len() - s,
{
    if s < 0 || s >= steps.len() {
        Phase::Finishing
    } else if steps[s].commands@.len() > 0 {
        Phase::Steps { step: s as usize, cmd: 0 }
    } else {
        spec_seek(steps, s + 1)
    }
}

/// Where execution goes after finishing command (s, c) without an
/// unrecoverable failure.
pub open spec fn spec_advance(steps: Seq<Step>, s: int, c: int) -> Phase {
    if c + 1 < steps[s].commands@.len() {
        Phase::Steps { step: s as usize, cmd: (c + 1) as usize }
    } else {
        spec_seek(steps, s + 1)
    }
}

/// Where execution goes when step `s` fails hard: into its fallback
/// commands if it declares any, else nothing is left to run.
pub open spec fn spec_fallback_phase(st: Step, s: usize) -> Phase {
    match st.on_failure {
        Some(fb) => if fb@.len() > 0 {
            Phase::Fallback { step: s, cmd: 0 }
        } else {
            Phase::Done
        },
        None => Phase::Done,
    }
}

/// The steps after command (s, c) got its captured output.
pub open spec fn spec_record_output(steps: Seq<StepView>, s: int, c: int, o: OutputView) -> Seq<
    StepView,
> {
    steps.update(
        s,
        StepView {
            name: steps[s].name,
            commands: steps[s].commands.update(
                c,
                CommandView { stdin: steps[s].commands[c].stdin, output: Some(o) },
            ),
            non_blocking: steps[s].non_blocking,
            on_failure: steps[s].on_failure,
        },
    )
}

/// One run in progress: the pipeline being mutated in place, and where
/// execution stands.
pub struct Runner {
    pub pipeline: Pipeline,
    pub phase: Phase,
}

impl Runner {
    /// The runner's invariant: the phase points at a real position and
    /// agrees with the recorded status.
    pub open spec fn wf(&self) -> bool {
        match self.phase {
            Phase::Steps { step, cmd } => {
                &&& (step as int) < self.pipeline.steps@.len()
                &&& (cmd as int) < self.pipeline.steps@[step as int].commands@.len()
                &&& self.pipeline.status == Status::Running
            },
            Phase::Fallback { step, cmd } => {
                &&& (step as int) < self.pipeline.steps@.len()
                &&& (self.pipeline.steps@[step as int].on_failure matches Some(fb) && (cmd as int)
                    < fb@.len())
                &&& self.pipeline.status == Status::Failed
            },
            Phase::Finishing => self.pipeline.status == Status::Running,
            Phase::Done => is_terminal(self.pipeline.status),
        }
    }

    /// The shell string to execute next, if any.
    pub open spec fn spec_next_command(&self) -> Option<Seq<char>> {
        match self.phase {
            Phase::Steps { step, cmd } => Some(
                self.pipeline.steps@[step as int].commands@[cmd as int].stdin@,
            ),
            Phase::Fallback { step, cmd } => Some(
                self.pipeline.steps@[step as int].on_failure->0@[cmd as int]@,
            ),
            Phase::Finishing => None,
            Phase::Done => None,
        }
    }

    /// Start a fresh run: record the pid, set the status to `Running`, and
    /// stand at the first command. The caller persists the first snapshot.
    pub fn new(p: Pipeline, pid: u32) -> (r: Runner)
        requires
            p.status == Status::Never,
        ensures
            r.wf(),
            r.pipeline.status == Status::Running,
            r.pipeline.pid == Some(pid),
            r.pipeline.uuid == p.uuid,
            r.pipeline.name == p.name,
            r.pipeline.date == p.date,
            r.pipeline.triggers == p.triggers,
            r.pipeline.steps == p.steps,
            r.phase == spec_seek(p.steps@, 0),
    {
        let mut p = p;
        p.pid = Some(pid);
        p.status = Status::Running;
        let phase = seek(&p.steps, 0);
        Runner { pipeline: p, phase }
    }

    /// The command to run now: the current declared command, or the current
    /// fallback command of a failed step.
    pub fn next_command(&self) -> (r: Option<Vec<char>>)
        requires
            self.wf(),
        ensures
            r matches Some(cmd) ==> self.spec_next_command() == Some(cmd@),
            r is None <==> self.spec_next_command() is None,
    {
        match self.phase {
            Phase::Steps { step, cmd } => Some(
                copy_chars(&self.pipeline.steps[step].commands[cmd].stdin),
            ),
            Phase::Fallback { step, cmd } => {
                let fb = self.pipeline.steps[step].on_failure.as_ref().unwrap();
                Some(copy_chars(&fb[cmd]))
            },
            Phase::Finishing => None,
            Phase::Done => None,
        }
    }

    /// Record the captured output of the current command and move on.
    /// A failing command in a step whose `non_blocking` is not set marks the
    /// run `Failed` and diverts into that step's fallback commands — later
    /// steps never run. A failing command under `non_blocking = true`, or in
    /// a fallback, changes no status and execution simply proceeds. A
    /// terminal status never changes.
    pub fn record(&mut self, out: Output)
        requires
            old(self).wf(),
            !(old(self).phase is Finishing),
            !(old(self).phase is Done),
        ensures
            final(self).wf(),
            final(self).pipeline.uuid == old(self).pipeline.uuid,
            final(self).pipeline.name == old(self).pipeline.name,
            final(self).pipeline.date == old(self).pipeline.date,
            final(self).pipeline.triggers == old(self).pipeline.triggers,
            final(self).pipeline.pid == old(self).pipeline.pid,
            rank(old(self).pipeline.status) <= rank(final(self).pipeline.status),
            is_terminal(old(self).pipeline.status) ==> final(self).pipeline.status == old(
                self,
            ).pipeline.status,
            old(self).phase matches Phase::Steps { step, cmd } ==> {
                &&& final(self).pipeline.steps.deep_view() == spec_record_output(
                    old(self).pipeline.steps.deep_view(),
                    step as int,
                    cmd as int,
                    out.deep_view(),
                )
                &&& (if !out.success && old(self).pipeline.steps@[step as int].non_blocking
                    != Some(true) {
                    &&& final(self).pipeline.status == Status::Failed
                    &&& final(self).phase == spec_fallback_phase(
                        old(self).pipeline.steps@[step as int],
                        step,
                    )
                } else {
                    &&& final(self).pipeline.status == Status::Running
                    &&& final(self).phase == spec_advance(
                        final(self).pipeline.steps@,
                        step as int,
                        cmd as int,
                    )
                })
            },
            old(self).phase matches Phase::Fallback { step, cmd } ==> {
                &&& final(self).pipeline.steps == old(self).pipeline.steps
                &&& final(self).pipeline.status == Status::Failed
                &&& final(self).phase == (if cmd + 1 < old(
                    self,
                ).pipeline.steps@[step as int].on_failure->0@.len() {
                    Phase::Fallback { step, cmd: (cmd + 1) as usize }
                } else {
                    Phase::Done
                })
            },
    {
        match self.phase {
            Phase::Steps { step, cmd } => {
                let succ = out.success;
                let ghost steps0 = self.pipeline.steps.deep_view();
                let mut stp = self.pipeline.steps.remove(step);
                let mut cm = stp.commands.remove(cmd);
                cm.output = Some(out);
                stp.commands.insert(cmd, cm);
                let nb_true = match stp.non_blocking {
                    Some(true) => true,
                    _ => false,
                };
                let has_fb: bool = match &stp.on_failure {
                    Some(fb) => fb.len() > 0,
                    None => false,
                };
                let ncmds = stp.commands.len();
                self.pipeline.steps.insert(step, stp);
                proof {
                    assert(self.pipeline.steps.deep_view() =~~= spec_record_output(
                        steps0,
                        step as int,
                        cmd as int,
                        self.pipeline.steps@[step as int].commands@[cmd as int].output->0.deep_view(),
                    ));
                }
                if !succ && !nb_true {
                    self.pipeline.status = Status::Failed;
                    if has_fb {
                        self.phase = Phase::Fallback { step, cmd: 0 };
                    } else {
                        self.phase = Phase::Done;
                    }
                } else {
                    let nsteps: usize = self.pipeline.steps.len();
                    if cmd + 1 < ncmds {
                        self.phase = Phase::Steps { step, cmd: cmd + 1 };
                    } else {
                        proof {
                            assert((step as int) < nsteps as int);
                        }
                        self.phase = seek(&self.pipeline.steps, step + 1);
                    }
                }
            },
            Phase::Fallback { step, cmd } => {
                let fb_len: usize = match &self.pipeline.steps[step].on_failure {
                    Some(fb) => fb.len(),
                    None => 0,
                };
                if cmd + 1 < fb_len {
                    self.phase = Phase::Fallback { step, cmd: cmd + 1 };
                } else {
                    self.phase = Phase::Done;
                }
            },
            Phase::Finishing => {},
            Phase::Done => {},
        }
    }

    /// Whether the run still owes its terminal `Succeeded` transition.
    pub fn needs_finish(&self) -> (r: bool)
        ensures
            r == (self.phase is Finishing),
    {
        match self.phase {
            Phase::Finishing => true,
            _ => false,
        }
    }

    /// Every step completed without an unrecoverable failure: the run
    /// succeeded, and the pid is cleared. The caller persists the final
    /// snapshot.
    pub fn finish(&mut self)
        requires
            old(self).wf(),
            old(self).phase is Finishing,
        ensures
            final(self).wf(),
            final(self).pipeline.status == Status::Succeeded,
            final(self).pipeline.pid is None,
            final(self).phase == Phase::Done,
            final(self).pipeline.uuid == old(self).pipeline.uuid,
            final(self).pipeline.name == old(self).pipeline.name,
            final(self).pipeline.date == old(self).pipeline.date,
            final(self).pipeline.triggers == old(self).pipeline.triggers,
            final(self).pipeline.steps == old(self).pipeline.steps,
            rank(old(self).pipeline.status) <= rank(final(self).pipeline.status),
            is_terminal(old(self).pipeline.status) ==> final(self).pipeline.status == old(
                self,
            ).pipeline.status,
    {
        self.pipeline.status = Status::Succeeded;
        self.pipeline.pid = None;
        self.phase = Phase::Done;
    }

    /// Cooperative cancellation: on an outside termination request the run
    /// writes its own `Aborted` state. Only a run that has not already
    /// reached a terminal status can be aborted.
    pub fn abort(&mut self)
        requires
            old(self).wf(),
            !is_terminal(old(self).pipeline.status),
        ensures
            final(self).wf(),
            final(self).pipeline.status == Status::Aborted,
            final(self).pipeline.pid is None,
            final(self).phase == Phase::Done,
            final(self).pipeline.uuid == old(self).pipeline.uuid,
            final(self).pipeline.name == old(self).pipeline.name,
            final(self).pipeline.date == old(self).pipeline.date,
            final(self).pipeline.triggers == old(self).pipeline.triggers,
            final(self).pipeline.steps == old(self).pipeline.steps,
            rank(old(self).pipeline.status) <= rank(final(self).pipeline.status),
    {
        self.pipeline.status = Status::Aborted;
        self.pipeline.pid = None;
        self.phase = Phase::Done;
    }
}

/// Find the first real command position at or after step `from`.
fn seek(steps: &Vec<Step>, from: usize) -> (ph: Phase)
    requires
        from <= steps@.len(),
    ensures
        ph == spec_seek(steps@, from as int),
        match ph {
            Phase::Steps { step, cmd } => (step as int) < steps@.len() && cmd == 0
                && steps@[step as int].commands@.len() > 0,
            Phase::Finishing => true,
            _ => false,
        },
{
    let n: usize = steps.len();
    let mut s: usize = from;
    while s < n && steps[s].commands.len() == 0
        invariant
            n == steps@.len(),
            from <= s <= n,
            spec_seek(steps@, from as int) == spec_seek(steps@, s as int),
        decreases n - s,
    {
        s = s + 1;
    }
    if s < n {
        Phase::Steps { step: s, cmd: 0 }
    } else {
        Phase::Finishing
    }
}

} // verus!
