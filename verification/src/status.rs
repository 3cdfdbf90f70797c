//! The run lifecycle: `Never -> Started -> Running -> {Succeeded, Failed,
//! Aborted}`, with an explicit, exhaustive mapping between each variant and
//! its canonical wire string.

use vstd::prelude::*;
use crate::text::{append_str, chars_eq_str};

verus! {

#[derive(Clone, Copy, Debug, PartialEq, Eq, Structural)]
pub enum Status {
    Started,
    Succeeded,
    Failed,
    Running,
    Aborted,
    Never,
}

/// A terminal status admits no further transition within the same run.
pub open spec fn is_terminal(s: Status) -> bool {
    s == Status::Succeeded || s == Status::Failed || s == Status::Aborted
}

/// Position of a status along the lifecycle; transitions only move forward.
pub open spec fn rank(s: Status) -> int {
    match s {
        Status::Never => 0,
        Status::Started => 1,
        Status::Running => 2,
        Status::Succeeded => 3,
        Status::Failed => 3,
        Status::Aborted => 3,
    }
}

/// The canonical wire string of each variant (lowercase, exhaustive).
pub open spec fn spec_wire(s: Status) -> Seq<char> {
    match s {
        Status::Started => "started"@,
        Status::Succeeded => "succeeded"@,
        Status::Failed => "failed"@,
        Status::Running => "running"@,
        Status::Aborted => "aborted"@,
        Status::Never => "never"@,
    }
}

/// Deterministic parse of a wire string back to a status.
pub open spec fn spec_status_parse(v: Seq<char>) -> Option<Status> {
    if v == "started"@ {
        Some(Status::Started)
    } else if v == "succeeded"@ {
        Some(Status::Succeeded)
    } else if v == "failed"@ {
        Some(Status::Failed)
    } else if v == "running"@ {
        Some(Status::Running)
    } else if v == "aborted"@ {
        Some(Status::Aborted)
    } else if v == "never"@ {
        Some(Status::Never)
    } else {
        None
    }
}

impl Status {
    /// Serialize to the canonical wire string.
    pub fn to_wire(&self) -> (r: Vec<char>)
        ensures
            r@ == spec_wire(*self),
    {
        let mut out: Vec<char> = Vec::new();
        match self {
            Status::Started => append_str(&mut out, "started"),
            Status::Succeeded => append_str(&mut out, "succeeded"),
            Status::Failed => append_str(&mut out, "failed"),
            Status::Running => append_str(&mut out, "running"),
            Status::Aborted => append_str(&mut out, "aborted"),
            Status::Never => append_str(&mut out, "never"),
        }
        out
    }

    /// Parse a wire string; `None` on anything but the six canonical strings.
    pub fn from_wire(v: &Vec<char>) -> (r: Option<Status>)
        ensures
            r == spec_status_parse(v@),
    {
        if chars_eq_str(v, "started") {
            Some(Status::Started)
        } else if chars_eq_str(v, "succeeded") {
            Some(Status::Succeeded)
        } else if chars_eq_str(v, "failed") {
            Some(Status::Failed)
        } else if chars_eq_str(v, "running") {
            Some(Status::Running)
        } else if chars_eq_str(v, "aborted") {
            Some(Status::Aborted)
        } else if chars_eq_str(v, "never") {
            Some(Status::Never)
        } else {
            None
        }
    }
}

/// Parsing the wire string of a status gives that status back.
pub proof fn lemma_status_wire_round_trip(s: Status)
    ensures
        spec_status_parse(spec_wire(s)) == Some(s),
{
    reveal_strlit("started");
    reveal_strlit("succeeded");
    reveal_strlit("failed");
    reveal_strlit("running");
    reveal_strlit("aborted");
    reveal_strlit("never");
    assert("started"@.len() == 7);
    assert("succeeded"@.len() == 9);
    assert("failed"@.len() == 6);
    assert("running"@.len() == 7);
    assert("aborted"@.len() == 7);
    assert("never"@.len() == 5);
    assert("started"@[0] == 's');
    assert("running"@[0] == 'r');
    assert("aborted"@[0] == 'a');
}

} // verus!
