//! The executable tree — pipelines, steps, commands, concrete triggers —
//! and the pure parts of the engine: conversion from the declarative form
//! (with trigger flattening), trigger matching, and the log-discovery
//! predicates used to find and stop running pipelines.

use vstd::prelude::*;
use crate::cast;
use crate::error::PipelightError;
use crate::hook::{Hook, spec_hook_parse};
use crate::status::Status;
use crate::text::{chars_eq, copy_chars};
use crate::wrappers::{new_uuid, now_utc};

verus! {

broadcast use crate::text::lemma_text_deep_view;

/// The captured result of one executed shell command: whether it
/// succeeded, the exit code the OS reported (absent when the process was
/// ended by a signal), and what it wrote.
pub struct Output {
    pub success: bool,
    pub code: Option<u32>,
    pub stdout: Vec<char>,
    pub stderr: Vec<char>,
}

/// One shell-invocable string, plus its output once it has run.
pub struct Command {
    pub stdin: Vec<char>,
    pub output: Option<Output>,
}

/// An ordered group of commands sharing an on-failure policy.
pub struct Step {
    pub name: Vec<char>,
    pub commands: Vec<Command>,
    pub non_blocking: Option<bool>,
    pub on_failure: Option<Vec<Vec<char>>>,
}

/// A concrete match rule: one hook action paired with one branch.
pub struct Trigger {
    pub action: Option<Hook>,
    pub branch: Option<Vec<char>>,
}

/// One named, independently runnable unit of ordered steps.
pub struct Pipeline {
    pub uuid: Vec<char>,
    pub pid: Option<u32>,
    pub name: Vec<char>,
    pub date: Option<Vec<char>>,
    pub status: Status,
    pub triggers: Option<Vec<Trigger>>,
    pub steps: Vec<Step>,
}

/// The validated runtime configuration.
pub struct Config {
    pub pipelines: Option<Vec<Pipeline>>,
}

#[verifier::ext_equal]
pub struct OutputView {
    pub success: bool,
    pub code: Option<u32>,
    pub stdout: Seq<char>,
    pub stderr: Seq<char>,
}

#[verifier::ext_equal]
pub struct CommandView {
    pub stdin: Seq<char>,
    pub output: Option<OutputView>,
}

#[verifier::ext_equal]
pub struct StepView {
    pub name: Seq<char>,
    pub commands: Seq<CommandView>,
    pub non_blocking: Option<bool>,
    pub on_failure: Option<Seq<Seq<char>>>,
}

#[verifier::ext_equal]
pub struct TriggerView {
    pub action: Option<Hook>,
    pub branch: Option<Seq<char>>,
}

#[verifier::ext_equal]
pub struct PipelineView {
    pub uuid: Seq<char>,
    pub pid: Option<u32>,
    pub name: Seq<char>,
    pub date: Option<Seq<char>>,
    pub status: Status,
    pub triggers: Option<Seq<TriggerView>>,
    pub steps: Seq<StepView>,
}

#[verifier::ext_equal]
pub struct ConfigView {
    pub pipelines: Option<Seq<PipelineView>>,
}

impl DeepView for Output {
    type V = OutputView;

    open spec fn deep_view(&self) -> OutputView {
        OutputView {
            success: self.success,
            code: self.code,
            stdout: self.stdout.deep_view(),
            stderr: self.stderr.deep_view(),
        }
    }
}

impl DeepView for Command {
    type V = CommandView;

    open spec fn deep_view(&self) -> CommandView {
        CommandView { stdin: self.stdin.deep_view(), output: self.output.deep_view() }
    }
}

impl DeepView for Step {
    type V = StepView;

    open spec fn deep_view(&self) -> StepView {
        StepView {
            name: self.name.deep_view(),
            commands: self.commands.deep_view(),
            non_blocking: self.non_blocking,
            on_failure: self.on_failure.deep_view(),
        }
    }
}

impl DeepView for Trigger {
    type V = TriggerView;

    open spec fn deep_view(&self) -> TriggerView {
        TriggerView { action: self.action, branch: self.branch.deep_view() }
    }
}

impl DeepView for Pipeline {
    type V = PipelineView;

    open spec fn deep_view(&self) -> PipelineView {
        PipelineView {
            uuid: self.uuid.deep_view(),
            pid: self.pid,
            name: self.name.deep_view(),
            date: self.date.deep_view(),
            status: self.status,
            triggers: self.triggers.deep_view(),
            steps: self.steps.deep_view(),
        }
    }
}

impl DeepView for Config {
    type V = ConfigView;

    open spec fn deep_view(&self) -> ConfigView {
        ConfigView { pipelines: self.pipelines.deep_view() }
    }
}

impl Command {
    /// An empty command: nothing to run, nothing captured yet.
    pub fn new() -> (r: Command)
        ensures
            r.deep_view() == (CommandView { stdin: Seq::<char>::empty(), output: None }),
    {
        Command { stdin: Vec::new(), output: None }
    }

    /// A command made from its shell string; no output yet.
    pub fn from(s: &Vec<char>) -> (r: Command)
        ensures
            r.deep_view() == (CommandView { stdin: s@, output: None }),
    {
        Command { stdin: copy_chars(s), output: None }
    }
}

/// What converting one declarative step yields: same name and policy, each
/// command string wrapped as a not-yet-run command.
pub open spec fn spec_step_from(e: cast::StepView) -> StepView {
    StepView {
        name: e.name,
        commands: Seq::new(e.commands.len(), |i: int| CommandView { stdin: e.commands[i], output: None }),
        non_blocking: e.non_blocking,
        on_failure: e.on_failure,
    }
}

impl Step {
    /// Convert one declarative step.
    pub fn from(e: &cast::Step) -> (r: Step)
        ensures
            r.deep_view() == spec_step_from(e.deep_view()),
    {
        let mut commands: Vec<Command> = Vec::new();
        let n: usize = e.commands.len();
        let mut i: usize = 0;
        while i < n
            invariant
                n == e.commands@.len(),
                i <= n,
                commands@.len() == i,
                forall|k: int|
                    0 <= k < i ==> (#[trigger] commands@[k]).deep_view() == (CommandView {
                        stdin: e.commands@[k]@,
                        output: None,
                    }),
            decreases n - i,
        {
            commands.push(Command::from(&e.commands[i]));
            i = i + 1;
        }
        let r = Step {
            name: copy_chars(&e.name),
            commands,
            non_blocking: e.non_blocking,
            on_failure: match &e.on_failure {
                None => None,
                Some(fb) => Some(copy_texts(fb)),
            },
        };
        proof {
            assert forall|k: int|
                0 <= k < n implies r.deep_view().commands[k] == spec_step_from(
                e.deep_view(),
            ).commands[k] by {
                assert(r.commands@[k].deep_view() == (CommandView {
                    stdin: e.commands@[k]@,
                    output: None,
                }));
            }
            assert(r.deep_view().commands =~= spec_step_from(e.deep_view()).commands);
            assert(r.deep_view() =~= spec_step_from(e.deep_view()));
        }
        r
    }
}

/// Copy a list of texts.
pub fn copy_texts(v: &Vec<Vec<char>>) -> (r: Vec<Vec<char>>)
    ensures
        r.deep_view() == v.deep_view(),
{
    let mut out: Vec<Vec<char>> = Vec::new();
    let n: usize = v.len();
    let mut i: usize = 0;
    while i < n
        invariant
            n == v@.len(),
            i <= n,
            out@.len() == i,
            forall|k: int| 0 <= k < i ==> out@[k]@ == v@[k]@,
        decreases n - i,
    {
        out.push(copy_chars(&v[i]));
        i = i + 1;
    }
    proof {
        assert forall|k: int| 0 <= k < n implies out.deep_view()[k] == v.deep_view()[k] by {
            assert(out@[k]@ == v@[k]@);
        }
        assert(out.deep_view() =~= v.deep_view());
    }
    out
}

/// A declared trigger can be flattened: it names actions, and each one is a
/// recognized hook.
pub open spec fn spec_flattenable(e: cast::TriggerView) -> bool {
    &&& e.actions is Some
    &&& forall|a: int|
        0 <= a < e.actions->0.len() ==> (#[trigger] spec_hook_parse(e.actions->0[a])) is Some
}

/// The cross product of a declared trigger's branches and actions, branches
/// outermost: entry `b * n_actions + a` pairs branch `b` with action `a`.
pub open spec fn spec_flatten(e: cast::TriggerView) -> Seq<TriggerView> {
    let acts = e.actions->0;
    Seq::new(
        e.branches.len() * acts.len(),
        |idx: int|
            TriggerView {
                branch: Some(e.branches[idx / acts.len() as int]),
                action: spec_hook_parse(acts[idx % acts.len() as int]),
            },
    )
}

/// What the triggering context is for a given current branch and invoking
/// hook name: both must be present and the hook recognized, else the exact
/// error.
pub open spec fn spec_env(branch: Option<Seq<char>>, action: Option<Seq<char>>) -> Result<
    TriggerView,
    PipelightError,
> {
    match branch {
        None => Err(PipelightError::NoBranch),
        Some(bv) => match action {
            None => Err(PipelightError::UnknownHook),
            Some(av) => match spec_hook_parse(av) {
                None => Err(PipelightError::UnknownHook),
                Some(h) => Ok(TriggerView { action: Some(h), branch: Some(bv) }),
            },
        },
    }
}

impl Trigger {
    /// Copy a concrete trigger.
    pub fn duplicate(&self) -> (r: Trigger)
        ensures
            r.deep_view() == self.deep_view(),
    {
        Trigger {
            action: self.action,
            branch: match &self.branch {
                None => None,
                Some(b) => Some(copy_chars(b)),
            },
        }
    }

    /// Exact match on both dimensions: same action, same branch.
    pub fn matches(&self, other: &Trigger) -> (r: bool)
        ensures
            r == (self.deep_view() == other.deep_view()),
    {
        let act_eq = match (&self.action, &other.action) {
            (None, None) => true,
            (Some(a), Some(b)) => *a == *b,
            _ => false,
        };
        let br_eq = match (&self.branch, &other.branch) {
            (None, None) => true,
            (Some(a), Some(b)) => chars_eq(a, b),
            _ => false,
        };
        act_eq && br_eq
    }

    /// Flatten one declared trigger into the cross product of concrete
    /// (action, branch) pairs: every declared combination becomes an
    /// independent match rule.
    pub fn flatten(e: &cast::Trigger) -> (r: Result<Vec<Trigger>, PipelightError>)
        ensures
            e.actions is None ==> r == Result::<Vec<Trigger>, PipelightError>::Err(
                PipelightError::NoActions,
            ),
            e.actions is Some && !spec_flattenable(e.deep_view()) ==> r == Result::<
                Vec<Trigger>,
                PipelightError,
            >::Err(PipelightError::UnknownHook),
            spec_flattenable(e.deep_view()) ==> (r matches Ok(list) && list.deep_view()
                == spec_flatten(e.deep_view())),
    {
        if e.actions.is_none() {
            return Err(PipelightError::NoActions);
        }
        let acts: &Vec<Vec<char>> = e.actions.as_ref().unwrap();
        let na: usize = acts.len();
        let mut hooks: Vec<Hook> = Vec::new();
        let mut a: usize = 0;
        while a < na
            invariant
                e.actions is Some,
                na == acts@.len(),
                acts.deep_view() == e.deep_view().actions->0,
                a <= na,
                hooks@.len() == a,
                forall|k: int|
                    0 <= k < a ==> spec_hook_parse(acts.deep_view()[k]) == Some(hooks@[k]),
            decreases na - a,
        {
            match Hook::from_wire(&acts[a]) {
                None => {
                    proof {
                        assert(spec_hook_parse(e.deep_view().actions->0[a as int]) is None);
                        assert(!spec_flattenable(e.deep_view()));
                    }
                    return Err(PipelightError::UnknownHook);
                },
                Some(h) => {
                    hooks.push(h);
                },
            }
            a = a + 1;
        }
        let nb: usize = e.branches.len();
        let mut list: Vec<Trigger> = Vec::new();
        let mut b: usize = 0;
        while b < nb
            invariant
                na == acts@.len(),
                nb == e.branches@.len(),
                acts.deep_view() == e.deep_view().actions->0,
                e.deep_view().actions is Some,
                hooks@.len() == na,
                forall|k: int|
                    0 <= k < na ==> spec_hook_parse(acts.deep_view()[k]) == Some(hooks@[k]),
                b <= nb,
                list.deep_view().len() == b * na,
                forall|idx: int|
                    0 <= idx < b * na ==> list.deep_view()[idx] == spec_flatten(e.deep_view())[idx],
            decreases nb - b,
        {
            let mut a2: usize = 0;
            while a2 < na
                invariant
                    na == acts@.len(),
                    nb == e.branches@.len(),
                    acts.deep_view() == e.deep_view().actions->0,
                    e.deep_view().actions is Some,
                    hooks@.len() == na,
                    forall|k: int|
                        0 <= k < na ==> spec_hook_parse(acts.deep_view()[k]) == Some(hooks@[k]),
                    b < nb,
                    a2 <= na,
                    list.deep_view().len() == b * na + a2,
                    forall|idx: int|
                        0 <= idx < b * na + a2 ==> list.deep_view()[idx] == spec_flatten(
                            e.deep_view(),
                        )[idx],
                decreases na - a2,
            {
                let ghost prev = list.deep_view();
                let t = Trigger {
                    branch: Some(copy_chars(&e.branches[b])),
                    action: Some(hooks[a2]),
                };
                let ghost tv = t.deep_view();
                list.push(t);
                proof {
                    assert(list.deep_view() =~= prev.push(tv));
                    let idx = b * na + a2;
                    assert(0 <= idx && idx + 1 <= nb * na) by (nonlinear_arith)
                        requires
                            0 <= b < nb,
                            0 <= a2 < na,
                            idx == b * na + a2,
                    ;
                    vstd::arithmetic::div_mod::lemma_fundamental_div_mod_converse(
                        idx as int,
                        na as int,
                        b as int,
                        a2 as int,
                    );
                    assert(spec_flatten(e.deep_view()).len() == nb * na);
                    assert(tv == spec_flatten(e.deep_view())[idx as int]);
                    assert forall|k: int|
                        0 <= k < idx + 1 implies list.deep_view()[k] == spec_flatten(
                        e.deep_view(),
                    )[k] by {
                        if k < idx {
                            assert(prev[k] == spec_flatten(e.deep_view())[k]);
                        }
                    }
                }
                a2 = a2 + 1;
            }
            b = b + 1;
            proof {
                assert(b * na == (b - 1) * na + na) by (nonlinear_arith);
            }
        }
        proof {
            assert(list.deep_view() =~= spec_flatten(e.deep_view()));
        }
        Ok(list)
    }

    /// The actual triggering context, from the collaborator-supplied current
    /// branch and invoking hook name. Fails if the branch cannot be
    /// determined or the hook is missing or unrecognized.
    pub fn env(branch: Option<Vec<char>>, action: Option<Vec<char>>) -> (r: Result<
        Trigger,
        PipelightError,
    >)
        ensures
            r matches Ok(t) ==> spec_env(branch.deep_view(), action.deep_view()) == Result::<
                TriggerView,
                PipelightError,
            >::Ok(t.deep_view()),
            r matches Err(er) ==> spec_env(branch.deep_view(), action.deep_view()) == Result::<
                TriggerView,
                PipelightError,
            >::Err(er),
    {
        let b = match branch {
            None => {
                return Err(PipelightError::NoBranch);
            },
            Some(b) => b,
        };
        let a = match action {
            None => {
                return Err(PipelightError::UnknownHook);
            },
            Some(a) => a,
        };
        match Hook::from_wire(&a) {
            None => Err(PipelightError::UnknownHook),
            Some(h) => Ok(Trigger { action: Some(h), branch: Some(b) }),
        }
    }
}

/// A pipeline fires iff at least one of its flattened triggers exactly
/// equals the actual context; a pipeline with no declared triggers never
/// fires.
pub open spec fn spec_is_triggerable(p: PipelineView, env: TriggerView) -> bool {
    match p.triggers {
        Some(ts) => exists|i: int| 0 <= i < ts.len() && ts[i] == env,
        None => false,
    }
}

/// The first pipeline of a list carrying this name, if any (configuration
/// lookup; a validated configuration holds at most one).
pub open spec fn spec_first_with_name(ps: Seq<PipelineView>, name: Seq<char>) -> Option<
    PipelineView,
>
    decreases ps.len(),
{
    if ps.len() == 0 {
        None
    } else if ps[0].name == name {
        Some(ps[0])
    } else {
        spec_first_with_name(ps.drop_first(), name)
    }
}

/// The recorded pids of every logged pipeline that carries this name and
/// still looks alive (pid present).
pub open spec fn spec_running_pids(ps: Seq<PipelineView>, name: Seq<char>) -> Seq<u32>
    decreases ps.len(),
{
    if ps.len() == 0 {
        Seq::empty()
    } else {
        let rest = spec_running_pids(ps.drop_first(), name);
        if ps[0].name == name && ps[0].pid is Some {
            seq![ps[0].pid->0] + rest
        } else {
            rest
        }
    }
}

impl Pipeline {
    /// Advance the recorded status.
    pub fn status(&mut self, status: &Status)
        ensures
            final(self).status == *status,
            final(self).uuid == old(self).uuid,
            final(self).pid == old(self).pid,
            final(self).name == old(self).name,
            final(self).date == old(self).date,
            final(self).triggers == old(self).triggers,
            final(self).steps == old(self).steps,
    {
        self.status = *status;
    }

    /// True iff at least one flattened trigger exactly equals the context.
    pub fn is_triggerable(&self, env: &Trigger) -> (r: bool)
        ensures
            r == spec_is_triggerable(self.deep_view(), env.deep_view()),
    {
        match &self.triggers {
            None => false,
            Some(ts) => {
                let n: usize = ts.len();
                let mut i: usize = 0;
                while i < n
                    invariant
                        n == ts@.len(),
                        ts.deep_view() == self.deep_view().triggers->0,
                        self.deep_view().triggers is Some,
                        i <= n,
                        forall|k: int| 0 <= k < i ==> ts.deep_view()[k] != env.deep_view(),
                    decreases n - i,
                {
                    if ts[i].matches(env) {
                        proof {
                            assert(self.deep_view().triggers->0[i as int] == env.deep_view());
                        }
                        return true;
                    }
                    i = i + 1;
                }
                false
            },
        }
    }

    /// Whether a pipeline of this name is observed running in the logged
    /// snapshots: it is iff any snapshot carries the name with a pid
    /// present. This is what the run-time de-duplication relies on — at
    /// most one observed-running instance per name — so one running match
    /// anywhere in the scan counts, whatever finished streams of the same
    /// name surround it. A belief read from the logs, not a liveness check.
    pub fn is_running(&self, logged: &Vec<Pipeline>) -> (r: bool)
        ensures
            r == exists|i: int|
                0 <= i < logged.deep_view().len() && (#[trigger] logged.deep_view()[i]).name
                    == self.name@ && logged.deep_view()[i].pid is Some,
    {
        let n: usize = logged.len();
        let mut i: usize = 0;
        while i < n
            invariant
                n == logged@.len(),
                i <= n,
                forall|k: int|
                    0 <= k < i ==> !((#[trigger] logged.deep_view()[k]).name == self.name@
                        && logged.deep_view()[k].pid is Some),
            decreases n - i,
        {
            if chars_eq(&logged[i].name, &self.name) && logged[i].pid.is_some() {
                proof {
                    assert(logged.deep_view()[i as int].name == self.name@
                        && logged.deep_view()[i as int].pid is Some);
                }
                return true;
            }
            i = i + 1;
        }
        false
    }
}

/// The flattened triggers of a whole declared trigger list, in declaration
/// order.
pub open spec fn spec_flatten_all(ts: Seq<cast::TriggerView>) -> Seq<TriggerView>
    decreases ts.len(),
{
    if ts.len() == 0 {
        Seq::empty()
    } else {
        spec_flatten(ts[0]) + spec_flatten_all(ts.drop_first())
    }
}

/// What a successful conversion of one declared pipeline guarantees: fresh
/// identity fields, `Never` status, no pid, steps converted in order, and
/// the declared triggers flattened.
pub open spec fn spec_pipeline_from_ok(p: PipelineView, e: cast::PipelineView) -> bool {
    &&& p.name == e.name
    &&& p.pid is None
    &&& p.status == Status::Never
    &&& p.date is Some
    &&& p.uuid.len() == 36
    &&& p.steps == Seq::new(e.steps.len(), |i: int| spec_step_from(e.steps[i]))
    &&& p.triggers == (match e.triggers {
        None => None,
        Some(ts) => Some(spec_flatten_all(ts)),
    })
}

/// Every declared trigger of this pipeline can be flattened.
pub open spec fn spec_pipeline_flattenable(e: cast::PipelineView) -> bool {
    match e.triggers {
        None => true,
        Some(ts) => forall|k: int| 0 <= k < ts.len() ==> spec_flattenable(#[trigger] ts[k]),
    }
}

impl Pipeline {
    /// Convert one declared pipeline into a runnable one: fresh run
    /// identifier and timestamp, no pid, `Never` status, steps converted,
    /// declared triggers flattened into concrete (action, branch) pairs.
    /// Fails iff some declared trigger cannot be flattened.
    pub fn from(e: &cast::Pipeline) -> (r: Result<Pipeline, PipelightError>)
        ensures
            r is Ok <==> spec_pipeline_flattenable(e.deep_view()),
            r matches Ok(p) ==> spec_pipeline_from_ok(p.deep_view(), e.deep_view()),
            r matches Err(er) ==> (er == PipelightError::NoActions || er
                == PipelightError::UnknownHook),
    {
        let triggers: Option<Vec<Trigger>> = match &e.triggers {
            None => None,
            Some(ts) => {
                let mut flat: Vec<Trigger> = Vec::new();
                let n: usize = ts.len();
                let mut k: usize = 0;
                proof {
                    assert(ts.deep_view().skip(0) =~= ts.deep_view());
                }
                while k < n
                    invariant
                        e.triggers == Some(*ts),
                        n == ts@.len(),
                        k <= n,
                        forall|m: int| 0 <= m < k ==> spec_flattenable(#[trigger] ts.deep_view()[m]),
                        flat.deep_view() + spec_flatten_all(ts.deep_view().skip(k as int))
                            =~= spec_flatten_all(ts.deep_view()),
                    decreases n - k,
                {
                    let ghost pre = flat.deep_view();
                    proof {
                        assert(ts.deep_view().skip(k as int)[0] == ts.deep_view()[k as int]);
                        assert(ts.deep_view().skip(k as int).drop_first() =~= ts.deep_view().skip(
                            k as int + 1,
                        ));
                    }
                    match Trigger::flatten(&ts[k]) {
                        Err(er) => {
                            proof {
                                assert(e.deep_view().triggers == Some(ts.deep_view()));
                                assert(e.deep_view().triggers->0 == ts.deep_view());
                                assert(!spec_flattenable(e.deep_view().triggers->0[k as int]));
                                assert(!spec_pipeline_flattenable(e.deep_view()));
                            }
                            return Err(er);
                        },
                        Ok(mut part) => {
                            let ghost pv = part.deep_view();
                            flat.append(&mut part);
                            proof {
                                assert(flat.deep_view() =~= pre + pv);
                                assert(flat.deep_view() + spec_flatten_all(
                                    ts.deep_view().skip(k as int + 1),
                                ) =~= spec_flatten_all(ts.deep_view()));
                            }
                        },
                    }
                    k = k + 1;
                }
                proof {
                    assert(ts.deep_view().skip(n as int) =~= Seq::<cast::TriggerView>::empty());
                    assert(flat.deep_view() =~= spec_flatten_all(ts.deep_view()));
                }
                Some(flat)
            },
        };
        let mut steps: Vec<Step> = Vec::new();
        let ns: usize = e.steps.len();
        let mut i: usize = 0;
        while i < ns
            invariant
                ns == e.steps@.len(),
                i <= ns,
                steps@.len() == i,
                forall|m: int|
                    0 <= m < i ==> (#[trigger] steps@[m]).deep_view() == spec_step_from(
                        e.steps.deep_view()[m],
                    ),
            decreases ns - i,
        {
            steps.push(Step::from(&e.steps[i]));
            i = i + 1;
        }
        let p = Pipeline {
            uuid: new_uuid(),
            pid: None,
            name: copy_chars(&e.name),
            date: Some(now_utc()),
            status: Status::Never,
            triggers,
            steps,
        };
        proof {
            assert(p.deep_view().steps =~= Seq::new(
                e.deep_view().steps.len(),
                |i: int| spec_step_from(e.deep_view().steps[i]),
            ));
        }
        Ok(p)
    }
}

impl Config {
    /// The validated runtime configuration from its declared form, in one
    /// step: duplicate pipeline names are rejected first — before anything
    /// could run — then the declaration is converted and its triggers
    /// flattened. On success the configuration's pipeline names are
    /// pairwise distinct.
    pub fn new(e: &cast::Config) -> (r: Result<Config, PipelightError>)
        ensures
            r is Ok <==> ({
                &&& (match e.pipelines {
                    Some(ps) => cast::spec_names_unique(ps@),
                    None => true,
                })
                &&& (match e.deep_view().pipelines {
                    None => true,
                    Some(ps) => forall|i: int|
                        0 <= i < ps.len() ==> spec_pipeline_flattenable(#[trigger] ps[i]),
                })
            }),
            !(match e.pipelines {
                Some(ps) => cast::spec_names_unique(ps@),
                None => true,
            }) ==> r == Result::<Config, PipelightError>::Err(
                PipelightError::DuplicatePipelineNames,
            ),
            r matches Ok(c) ==> (match e.deep_view().pipelines {
                None => c.pipelines is None,
                Some(ps) => c.deep_view().pipelines matches Some(cs) && cs.len() == ps.len()
                    && forall|i: int|
                        0 <= i < ps.len() ==> spec_pipeline_from_ok(#[trigger] cs[i], ps[i]),
            }),
            r matches Ok(c) ==> (match c.pipelines {
                None => true,
                Some(cps) => forall|i: int, j: int|
                    0 <= i < j < cps@.len() ==> cps@[i].name@ != cps@[j].name@,
            }),
    {
        match e.check_duplicates() {
            Err(er) => {
                return Err(er);
            },
            Ok(()) => {},
        }
        let c = match Config::from(e) {
            Err(er) => {
                return Err(er);
            },
            Ok(c) => c,
        };
        proof {
            let ghost cp = c.pipelines;
            match cp {
                Some(cps) => {
                    let ps = e.deep_view().pipelines->0;
                    let cs = c.deep_view().pipelines->0;
                    assert forall|i: int, j: int|
                        0 <= i < j < cps@.len() implies cps@[i].name@ != cps@[j].name@ by {
                        assert(cs[i] == cps@[i].deep_view());
                        assert(cs[j] == cps@[j].deep_view());
                        assert(spec_pipeline_from_ok(cs[i], ps[i]));
                        assert(spec_pipeline_from_ok(cs[j], ps[j]));
                        assert(ps[i] == e.pipelines->0@[i].deep_view());
                        assert(ps[j] == e.pipelines->0@[j].deep_view());
                        assert(e.pipelines->0@[i].name@ != e.pipelines->0@[j].name@);
                    }
                },
                None => {},
            }
        }
        Ok(c)
    }

    /// Convert a whole declared configuration. Fails iff some pipeline's
    /// declared triggers cannot be flattened.
    pub fn from(e: &cast::Config) -> (r: Result<Config, PipelightError>)
        ensures
            r is Ok <==> (match e.deep_view().pipelines {
                None => true,
                Some(ps) => forall|i: int|
                    0 <= i < ps.len() ==> spec_pipeline_flattenable(#[trigger] ps[i]),
            }),
            r matches Ok(c) ==> (match e.deep_view().pipelines {
                None => c.pipelines is None,
                Some(ps) => c.deep_view().pipelines matches Some(cs) && cs.len() == ps.len()
                    && forall|i: int| 0 <= i < ps.len() ==> spec_pipeline_from_ok(#[trigger] cs[i], ps[i]),
            }),
    {
        match &e.pipelines {
            None => Ok(Config { pipelines: None }),
            Some(ps) => {
                let mut out: Vec<Pipeline> = Vec::new();
                let n: usize = ps.len();
                let mut i: usize = 0;
                while i < n
                    invariant
                        e.pipelines == Some(*ps),
                        n == ps@.len(),
                        i <= n,
                        out@.len() == i,
                        forall|m: int| 0 <= m < i ==> spec_pipeline_flattenable(#[trigger] ps.deep_view()[m]),
                        forall|m: int|
                            0 <= m < i ==> spec_pipeline_from_ok(
                                (#[trigger] out@[m]).deep_view(),
                                ps.deep_view()[m],
                            ),
                    decreases n - i,
                {
                    match Pipeline::from(&ps[i]) {
                        Err(er) => {
                            proof {
                                assert(e.deep_view().pipelines == Some(ps.deep_view()));
                                assert(e.deep_view().pipelines->0 == ps.deep_view());
                                assert(!spec_pipeline_flattenable(
                                    e.deep_view().pipelines->0[i as int],
                                ));
                                assert(!(match e.deep_view().pipelines {
                                    None => true,
                                    Some(psv) => forall|m: int|
                                        0 <= m < psv.len() ==> spec_pipeline_flattenable(
                                            #[trigger] psv[m],
                                        ),
                                }));
                            }
                            return Err(er);
                        },
                        Ok(p) => {
                            out.push(p);
                        },
                    }
                    i = i + 1;
                }
                Ok(Config { pipelines: Some(out) })
            },
        }
    }

    /// The first pipeline of this name, or "no pipeline of that name".
    pub fn pipeline(&self, name: &Vec<char>) -> (r: Result<&Pipeline, PipelightError>)
        ensures
            r matches Ok(p) ==> (match self.pipelines {
                Some(ps) => spec_first_with_name(ps.deep_view(), name@) == Some(p.deep_view()),
                None => false,
            }),
            r is Err <==> (match self.pipelines {
                Some(ps) => spec_first_with_name(ps.deep_view(), name@) is None,
                None => true,
            }),
            r matches Err(er) ==> er == PipelightError::PipelineNotFound,
    {
        match &self.pipelines {
            None => Err(PipelightError::PipelineNotFound),
            Some(ps) => {
                let n: usize = ps.len();
                let mut i: usize = 0;
                proof {
                    assert(ps.deep_view().skip(0) =~= ps.deep_view());
                }
                while i < n
                    invariant
                        self.pipelines == Some(*ps),
                        n == ps@.len(),
                        i <= n,
                        spec_first_with_name(ps.deep_view(), name@) == spec_first_with_name(
                            ps.deep_view().skip(i as int),
                            name@,
                        ),
                    decreases n - i,
                {
                    proof {
                        assert(ps.deep_view().skip(i as int)[0] == ps.deep_view()[i as int]);
                    }
                    if chars_eq(&ps[i].name, name) {
                        return Ok(&ps[i]);
                    }
                    proof {
                        assert(ps.deep_view().skip(i as int).drop_first() =~= ps.deep_view().skip(
                            i as int + 1,
                        ));
                    }
                    i = i + 1;
                }
                proof {
                    assert(ps.deep_view().skip(n as int) =~= Seq::<PipelineView>::empty());
                }
                Err(PipelightError::PipelineNotFound)
            },
        }
    }

    /// All concrete triggers declared across the configuration's pipelines,
    /// in order; pipelines without triggers contribute nothing.
    pub fn triggers(&self) -> (r: Vec<Trigger>)
        ensures
            r.deep_view() == (match self.pipelines {
                None => Seq::<TriggerView>::empty(),
                Some(ps) => spec_all_triggers(ps.deep_view()),
            }),
    {
        let mut out: Vec<Trigger> = Vec::new();
        match &self.pipelines {
            None => out,
            Some(ps) => {
                let n: usize = ps.len();
                let mut i: usize = 0;
                proof {
                    assert(ps.deep_view().skip(0) =~= ps.deep_view());
                }
                while i < n
                    invariant
                        self.pipelines == Some(*ps),
                        n == ps@.len(),
                        i <= n,
                        out.deep_view() + spec_all_triggers(ps.deep_view().skip(i as int))
                            =~= spec_all_triggers(ps.deep_view()),
                    decreases n - i,
                {
                    let ghost pre = out.deep_view();
                    proof {
                        assert(ps.deep_view().skip(i as int)[0] == ps.deep_view()[i as int]);
                        assert(ps.deep_view().skip(i as int).drop_first() =~= ps.deep_view().skip(
                            i as int + 1,
                        ));
                    }
                    match &ps[i].triggers {
                        None => {},
                        Some(ts) => {
                            let nt: usize = ts.len();
                            let mut k: usize = 0;
                            proof {
                                assert(pre + ts.deep_view().subrange(0, 0) =~= pre);
                            }
                            while k < nt
                                invariant
                                    nt == ts@.len(),
                                    k <= nt,
                                    out.deep_view() =~= pre + ts.deep_view().subrange(0, k as int),
                                decreases nt - k,
                            {
                                let ghost opre = out.deep_view();
                                let d = ts[k].duplicate();
                                let ghost dv = d.deep_view();
                                out.push(d);
                                proof {
                                    assert(out.deep_view() =~= opre.push(dv));
                                    assert(dv == ts.deep_view()[k as int]);
                                    assert(out.deep_view() =~= pre + ts.deep_view().subrange(
                                        0,
                                        k as int + 1,
                                    ));
                                }
                                k = k + 1;
                            }
                            proof {
                                assert(ts.deep_view().subrange(0, nt as int) =~= ts.deep_view());
                            }
                        },
                    }
                    proof {
                        assert(out.deep_view() + spec_all_triggers(
                            ps.deep_view().skip(i as int + 1),
                        ) =~= spec_all_triggers(ps.deep_view()));
                    }
                    i = i + 1;
                }
                proof {
                    assert(ps.deep_view().skip(n as int) =~= Seq::<PipelineView>::empty());
                    assert(out.deep_view() =~= spec_all_triggers(ps.deep_view()));
                }
                out
            },
        }
    }

    /// The pipelines that should fire under the given context: the indices,
    /// in order, of every pipeline with a trigger exactly matching it.
    pub fn triggerable(&self, env: &Trigger) -> (r: Vec<usize>)
        ensures
            match self.pipelines {
                None => r@.len() == 0,
                Some(ps) => {
                    &&& forall|k: int|
                        0 <= k < r@.len() ==> (#[trigger] r@[k]) < ps@.len()
                            && spec_is_triggerable(ps.deep_view()[r@[k] as int], env.deep_view())
                    &&& forall|i: int|
                        0 <= i < ps@.len() && spec_is_triggerable(
                            ps.deep_view()[i],
                            env.deep_view(),
                        ) ==> exists|k: int| 0 <= k < r@.len() && #[trigger] r@[k] == i
                    &&& forall|k1: int, k2: int| 0 <= k1 < k2 < r@.len() ==> r@[k1] < r@[k2]
                },
            },
    {
        let mut out: Vec<usize> = Vec::new();
        match &self.pipelines {
            None => out,
            Some(ps) => {
                let n: usize = ps.len();
                let mut i: usize = 0;
                while i < n
                    invariant
                        self.pipelines == Some(*ps),
                        n == ps@.len(),
                        i <= n,
                        forall|k: int|
                            0 <= k < out@.len() ==> (#[trigger] out@[k]) < i
                                && spec_is_triggerable(
                                ps.deep_view()[out@[k] as int],
                                env.deep_view(),
                            ),
                        forall|m: int|
                            0 <= m < i && spec_is_triggerable(ps.deep_view()[m], env.deep_view())
                                ==> exists|k: int| 0 <= k < out@.len() && #[trigger] out@[k] == m,
                        forall|k1: int, k2: int| 0 <= k1 < k2 < out@.len() ==> out@[k1] < out@[k2],
                    decreases n - i,
                {
                    let ghost opre = out@;
                    if ps[i].is_triggerable(env) {
                        out.push(i);
                        proof {
                            assert(out@[out@.len() - 1] == i);
                            assert forall|m: int|
                                0 <= m < i + 1 && spec_is_triggerable(
                                    ps.deep_view()[m],
                                    env.deep_view(),
                                ) implies exists|k: int|
                                0 <= k < out@.len() && #[trigger] out@[k] == m by {
                                if m < i {
                                    let k = choose|k: int|
                                        0 <= k < opre.len() && #[trigger] opre[k] == m;
                                    assert(out@[k] == m);
                                } else {
                                    assert(out@[out@.len() - 1] == m);
                                }
                            }
                        }
                    }
                    i = i + 1;
                }
                out
            },
        }
    }
}

/// All concrete triggers held by a list of pipelines, in order.
pub open spec fn spec_all_triggers(ps: Seq<PipelineView>) -> Seq<TriggerView>
    decreases ps.len(),
{
    if ps.len() == 0 {
        Seq::empty()
    } else {
        (match ps[0].triggers {
            Some(ts) => ts,
            None => Seq::empty(),
        }) + spec_all_triggers(ps.drop_first())
    }
}

/// A hook parses back from exactly its own wire string.
proof fn lemma_hook_parse_inverse(s: Seq<char>, h: Hook)
    requires
        spec_hook_parse(s) == Some(h),
    ensures
        s == crate::hook::spec_hook_wire(h),
{
}

/// Flattening a declared trigger with pairwise-distinct actions and
/// pairwise-distinct branches yields exactly `branches x actions` concrete
/// triggers, pairwise distinct.
pub proof fn lemma_flatten_cross_product(e: cast::TriggerView)
    requires
        spec_flattenable(e),
        forall|x: int, y: int|
            0 <= x < y < e.branches.len() ==> e.branches[x] != e.branches[y],
        forall|x: int, y: int|
            0 <= x < y < e.actions->0.len() ==> e.actions->0[x] != e.actions->0[y],
    ensures
        spec_flatten(e).len() == e.branches.len() * e.actions->0.len(),
        forall|i: int, j: int|
            0 <= i < j < spec_flatten(e).len() ==> spec_flatten(e)[i] != spec_flatten(e)[j],
{
    let acts = e.actions->0;
    let nn = acts.len() as int;
    let fl = spec_flatten(e);
    assert forall|i: int, j: int| 0 <= i < j < fl.len() implies fl[i] != fl[j] by {
        vstd::arithmetic::div_mod::lemma_fundamental_div_mod(i, nn);
        vstd::arithmetic::div_mod::lemma_fundamental_div_mod(j, nn);
        vstd::arithmetic::div_mod::lemma_mod_bound(i, nn);
        vstd::arithmetic::div_mod::lemma_mod_bound(j, nn);
        vstd::arithmetic::div_mod::lemma_multiply_divide_lt(i, nn, e.branches.len() as int);
        vstd::arithmetic::div_mod::lemma_multiply_divide_lt(j, nn, e.branches.len() as int);
        assert(i / nn >= 0) by (nonlinear_arith)
            requires
                nn > 0,
                i >= 0,
                nn * (i / nn) + i % nn == i,
                0 <= i % nn < nn,
        ;
        assert(j / nn >= 0) by (nonlinear_arith)
            requires
                nn > 0,
                j >= 0,
                nn * (j / nn) + j % nn == j,
                0 <= j % nn < nn,
        ;
        if fl[i] == fl[j] {
            assert(e.branches[i / nn] == e.branches[j / nn]);
            assert(i / nn == j / nn);
            let hi = spec_hook_parse(acts[i % nn]);
            assert(hi == spec_hook_parse(acts[j % nn]));
            assert(hi is Some);
            lemma_hook_parse_inverse(acts[i % nn], hi->0);
            lemma_hook_parse_inverse(acts[j % nn], hi->0);
            assert(acts[i % nn] == acts[j % nn]);
            assert(i % nn == j % nn);
            assert(i == j);
        }
    }
}

/// Stop by name: the pids to signal are those of every logged pipeline that
/// carries the name and has a recorded pid. With no such pipeline the stop
/// request fails as "not running".
pub fn stop(logged: &Vec<Pipeline>, name: &Vec<char>) -> (r: Result<Vec<u32>, PipelightError>)
    ensures
        spec_running_pids(logged.deep_view(), name@).len() == 0 ==> r == Result::<
            Vec<u32>,
            PipelightError,
        >::Err(PipelightError::NotRunning),
        spec_running_pids(logged.deep_view(), name@).len() > 0 ==> (r matches Ok(pids) && pids@
            == spec_running_pids(logged.deep_view(), name@)),
{
    let mut pids: Vec<u32> = Vec::new();
    let n: usize = logged.len();
    let mut i: usize = 0;
    proof {
        assert(logged.deep_view().skip(0) =~= logged.deep_view());
    }
    while i < n
        invariant
            n == logged@.len(),
            i <= n,
            pids@ + spec_running_pids(logged.deep_view().skip(i as int), name@)
                =~= spec_running_pids(logged.deep_view(), name@),
        decreases n - i,
    {
        proof {
            assert(logged.deep_view().skip(i as int)[0] == logged.deep_view()[i as int]);
            assert(logged.deep_view().skip(i as int).drop_first() =~= logged.deep_view().skip(
                i as int + 1,
            ));
        }
        if chars_eq(&logged[i].name, name) {
            match logged[i].pid {
                Some(pid) => {
                    pids.push(pid);
                },
                None => {},
            }
        }
        i = i + 1;
    }
    proof {
        assert(logged.deep_view().skip(n as int) =~= Seq::<PipelineView>::empty());
        assert(pids@ =~= spec_running_pids(logged.deep_view(), name@));
    }
    if pids.len() == 0 {
        Err(PipelightError::NotRunning)
    } else {
        Ok(pids)
    }
}

} // verus!
