//! The declarative form of the configuration, as an external loader hands it
//! over: plain names and command strings, triggers still as action-set x
//! branch-set, nothing flattened or validated yet.

use vstd::prelude::*;
use crate::error::PipelightError;

verus! {

broadcast use crate::text::lemma_text_deep_view;

pub struct Config {
    pub pipelines: Option<Vec<Pipeline>>,
}

pub struct Pipeline {
    pub name: Vec<char>,
    pub steps: Vec<Step>,
    pub triggers: Option<Vec<Trigger>>,
}

pub struct Step {
    pub name: Vec<char>,
    pub commands: Vec<Vec<char>>,
    pub non_blocking: Option<bool>,
    pub on_failure: Option<Vec<Vec<char>>>,
}

/// A declared trigger: a set of hook-action names and a set of branch names,
/// to be flattened into the cross product of concrete (action, branch) pairs.
pub struct Trigger {
    pub actions: Option<Vec<Vec<char>>>,
    pub branches: Vec<Vec<char>>,
}

#[verifier::ext_equal]
pub struct ConfigView {
    pub pipelines: Option<Seq<PipelineView>>,
}

#[verifier::ext_equal]
pub struct PipelineView {
    pub name: Seq<char>,
    pub steps: Seq<StepView>,
    pub triggers: Option<Seq<TriggerView>>,
}

#[verifier::ext_equal]
pub struct StepView {
    pub name: Seq<char>,
    pub commands: Seq<Seq<char>>,
    pub non_blocking: Option<bool>,
    pub on_failure: Option<Seq<Seq<char>>>,
}

#[verifier::ext_equal]
pub struct TriggerView {
    pub actions: Option<Seq<Seq<char>>>,
    pub branches: Seq<Seq<char>>,
}

impl DeepView for Config {
    type V = ConfigView;

    open spec fn deep_view(&self) -> ConfigView {
        ConfigView { pipelines: self.pipelines.deep_view() }
    }
}

impl DeepView for Pipeline {
    type V = PipelineView;

    open spec fn deep_view(&self) -> PipelineView {
        PipelineView {
            name: self.name.deep_view(),
            steps: self.steps.deep_view(),
            triggers: self.triggers.deep_view(),
        }
    }
}

impl DeepView for Step {
    type V = StepView;

    open spec fn deep_view(&self) -> StepView {
        StepView {
            name: self.name.deep_view(),
            commands: self.commands.deep_view(),
            non_blocking: self.non_blocking,
            on_failure: self.on_failure.deep_view(),
        }
    }
}

impl DeepView for Trigger {
    type V = TriggerView;

    open spec fn deep_view(&self) -> TriggerView {
        TriggerView { actions: self.actions.deep_view(), branches: self.branches.deep_view() }
    }
}

/// Pipeline names are pairwise distinct.
pub open spec fn spec_names_unique(ps: Seq<Pipeline>) -> bool {
    forall|i: int, j: int| 0 <= i < j < ps.len() ==> ps[i].name@ != ps[j].name@
}

impl Config {
    /// Validate that pipeline names are unique within this configuration.
    /// A duplicate name is a hard validation failure, detected at load time
    /// before anything executes. A configuration without pipelines is valid.
    pub fn check_duplicates(&self) -> (r: Result<(), PipelightError>)
        ensures
            r is Ok <==> (match self.pipelines {
                Some(ps) => spec_names_unique(ps@),
                None => true,
            }),
            r is Err ==> r == Result::<(), PipelightError>::Err(
                PipelightError::DuplicatePipelineNames,
            ),
    {
        match &self.pipelines {
            None => Ok(()),
            Some(ps) => {
                let n: usize = ps.len();
                let mut i: usize = 0;
                while i < n
                    invariant
                        self.pipelines == Some(*ps),
                        n == ps@.len(),
                        i <= n,
                        forall|a: int, b: int| 0 <= a < b < n && a < i ==> ps@[a].name@
                            != ps@[b].name@,
                    decreases n - i,
                {
                    let mut j: usize = i + 1;
                    while j < n
                        invariant
                            self.pipelines == Some(*ps),
                            n == ps@.len(),
                            i < n,
                            i < j <= n,
                            forall|b: int| i < b < j ==> ps@[i as int].name@ != ps@[b].name@,
                        decreases n - j,
                    {
                        if crate::text::chars_eq(&ps[i].name, &ps[j].name) {
                            proof {
                                assert(ps@[i as int].name@ == ps@[j as int].name@);
                                assert(!spec_names_unique(ps@));
                            }
                            return Err(PipelightError::DuplicatePipelineNames);
                        }
                        j = j + 1;
                    }
                    i = i + 1;
                }
                Ok(())
            },
        }
    }
}

} // verus!
