//! Recognized version-control lifecycle hooks, used as the action half of a
//! trigger, with an explicit, exhaustive mapping between each variant and
//! its canonical wire string.

use vstd::prelude::*;
use crate::text::{append_str, chars_eq_str};

verus! {

#[derive(Clone, Copy, Debug, PartialEq, Eq, Structural)]
pub enum Hook {
    ApplypatchMsg,
    PreApplypatch,
    PostApplypatch,
    PreCommit,
    PrepareCommitMsg,
    CommitMsg,
    PostCommit,
    PreRebase,
    PostCheckout,
    PostMerge,
    PrePush,
}

/// The canonical wire string of each hook (kebab-case, exhaustive).
pub open spec fn spec_hook_wire(h: Hook) -> Seq<char> {
    match h {
        Hook::ApplypatchMsg => "applypatch-msg"@,
        Hook::PreApplypatch => "pre-applypatch"@,
        Hook::PostApplypatch => "post-applypatch"@,
        Hook::PreCommit => "pre-commit"@,
        Hook::PrepareCommitMsg => "prepare-commit-msg"@,
        Hook::CommitMsg => "commit-msg"@,
        Hook::PostCommit => "post-commit"@,
        Hook::PreRebase => "pre-rebase"@,
        Hook::PostCheckout => "post-checkout"@,
        Hook::PostMerge => "post-merge"@,
        Hook::PrePush => "pre-push"@,
    }
}

/// Deterministic parse of a wire string back to a hook.
pub open spec fn spec_hook_parse(v: Seq<char>) -> Option<Hook> {
    if v == "applypatch-msg"@ {
        Some(Hook::ApplypatchMsg)
    } else if v == "pre-applypatch"@ {
        Some(Hook::PreApplypatch)
    } else if v == "post-applypatch"@ {
        Some(Hook::PostApplypatch)
    } else if v == "pre-commit"@ {
        Some(Hook::PreCommit)
    } else if v == "prepare-commit-msg"@ {
        Some(Hook::PrepareCommitMsg)
    } else if v == "commit-msg"@ {
        Some(Hook::CommitMsg)
    } else if v == "post-commit"@ {
        Some(Hook::PostCommit)
    } else if v == "pre-rebase"@ {
        Some(Hook::PreRebase)
    } else if v == "post-checkout"@ {
        Some(Hook::PostCheckout)
    } else if v == "post-merge"@ {
        Some(Hook::PostMerge)
    } else if v == "pre-push"@ {
        Some(Hook::PrePush)
    } else {
        None
    }
}

impl Hook {
    /// Serialize to the canonical wire string.
    pub fn to_wire(&self) -> (r: Vec<char>)
        ensures
            r@ == spec_hook_wire(*self),
    {
        let mut out: Vec<char> = Vec::new();
        match self {
            Hook::ApplypatchMsg => append_str(&mut out, "applypatch-msg"),
            Hook::PreApplypatch => append_str(&mut out, "pre-applypatch"),
            Hook::PostApplypatch => append_str(&mut out, "post-applypatch"),
            Hook::PreCommit => append_str(&mut out, "pre-commit"),
            Hook::PrepareCommitMsg => append_str(&mut out, "prepare-commit-msg"),
            Hook::CommitMsg => append_str(&mut out, "commit-msg"),
            Hook::PostCommit => append_str(&mut out, "post-commit"),
            Hook::PreRebase => append_str(&mut out, "pre-rebase"),
            Hook::PostCheckout => append_str(&mut out, "post-checkout"),
            Hook::PostMerge => append_str(&mut out, "post-merge"),
            Hook::PrePush => append_str(&mut out, "pre-push"),
        }
        out
    }

    /// Parse a wire string; `None` on anything but the recognized hooks.
    pub fn from_wire(v: &Vec<char>) -> (r: Option<Hook>)
        ensures
            r == spec_hook_parse(v@),
    {
        if chars_eq_str(v, "applypatch-msg") {
            Some(Hook::ApplypatchMsg)
        } else if chars_eq_str(v, "pre-applypatch") {
            Some(Hook::PreApplypatch)
        } else if chars_eq_str(v, "post-applypatch") {
            Some(Hook::PostApplypatch)
        } else if chars_eq_str(v, "pre-commit") {
            Some(Hook::PreCommit)
        } else if chars_eq_str(v, "prepare-commit-msg") {
            Some(Hook::PrepareCommitMsg)
        } else if chars_eq_str(v, "commit-msg") {
            Some(Hook::CommitMsg)
        } else if chars_eq_str(v, "post-commit") {
            Some(Hook::PostCommit)
        } else if chars_eq_str(v, "pre-rebase") {
            Some(Hook::PreRebase)
        } else if chars_eq_str(v, "post-checkout") {
            Some(Hook::PostCheckout)
        } else if chars_eq_str(v, "post-merge") {
            Some(Hook::PostMerge)
        } else if chars_eq_str(v, "pre-push") {
            Some(Hook::PrePush)
        } else {
            None
        }
    }
}

/// Parsing the wire string of a hook gives that hook back.
pub proof fn lemma_hook_wire_round_trip(h: Hook)
    ensures
        spec_hook_parse(spec_hook_wire(h)) == Some(h),
{
    reveal_strlit("applypatch-msg");
    reveal_strlit("pre-applypatch");
    reveal_strlit("post-applypatch");
    reveal_strlit("pre-commit");
    reveal_strlit("prepare-commit-msg");
    reveal_strlit("commit-msg");
    reveal_strlit("post-commit");
    reveal_strlit("pre-rebase");
    reveal_strlit("post-checkout");
    reveal_strlit("post-merge");
    reveal_strlit("pre-push");
    assert("applypatch-msg"@.len() == 14);
    assert("pre-applypatch"@.len() == 14);
    assert("post-applypatch"@.len() == 15);
    assert("pre-commit"@.len() == 10);
    assert("prepare-commit-msg"@.len() == 18);
    assert("commit-msg"@.len() == 10);
    assert("post-commit"@.len() == 11);
    assert("pre-rebase"@.len() == 10);
    assert("post-checkout"@.len() == 13);
    assert("post-merge"@.len() == 10);
    assert("pre-push"@.len() == 8);
    assert("applypatch-msg"@[0] == 'a');
    assert("pre-applypatch"@[0] == 'p');
    assert("pre-commit"@[0] == 'p');
    assert("commit-msg"@[0] == 'c');
    assert("pre-rebase"@[0] == 'p');
    assert("post-merge"@[0] == 'p');
    assert("pre-commit"@[1] == 'r');
    assert("pre-rebase"@[1] == 'r');
    assert("post-merge"@[1] == 'o');
    assert("pre-commit"@[4] == 'c');
    assert("pre-rebase"@[4] == 'r');
}

} // verus!
