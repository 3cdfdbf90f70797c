//! Discovery over the log directory: the caller hands over the last line of
//! each stream, and the store reconstructs each pipeline's current believed
//! state. A line that does not parse is skipped, not fatal: the scan yields
//! partial results.

use vstd::prelude::*;
use crate::json::spec_parse_line;
use crate::types::{Pipeline, PipelineView};
use crate::text::chars_eq;

verus! {

broadcast use crate::text::lemma_text_deep_view;

/// The pipelines reconstructed from a list of last lines, parse failures
/// skipped, order kept.
pub open spec fn spec_parse_all(lines: Seq<Seq<char>>) -> Seq<PipelineView>
    decreases lines.len(),
{
    if lines.len() == 0 {
        Seq::empty()
    } else {
        let rest = spec_parse_all(lines.drop_first());
        match spec_parse_line(lines[0]) {
            Some(p) => seq![p] + rest,
            None => rest,
        }
    }
}

/// Those pipelines of `ps` whose name is `name`, order kept.
pub open spec fn spec_with_name(ps: Seq<PipelineView>, name: Seq<char>) -> Seq<PipelineView>
    decreases ps.len(),
{
    if ps.len() == 0 {
        Seq::empty()
    } else {
        let rest = spec_with_name(ps.drop_first(), name);
        if ps[0].name == name {
            seq![ps[0]] + rest
        } else {
            rest
        }
    }
}

pub struct Logs;

impl Logs {
    /// Reconstruct every pipeline from the given last lines; lines that are
    /// not valid snapshots are skipped.
    pub fn get(lines: &Vec<Vec<char>>) -> (r: Vec<Pipeline>)
        ensures
            r.deep_view() == spec_parse_all(lines.deep_view()),
    {
        let mut out: Vec<Pipeline> = Vec::new();
        let n: usize = lines.len();
        let mut i: usize = 0;
        proof {
            assert(lines.deep_view().skip(0) =~= lines.deep_view());
        }
        while i < n
            invariant
                n == lines@.len(),
                i <= n,
                out.deep_view() + spec_parse_all(lines.deep_view().skip(i as int))
                    =~= spec_parse_all(lines.deep_view()),
            decreases n - i,
        {
            let ghost pre = out.deep_view();
            proof {
                assert(lines.deep_view().skip(i as int)[0] == lines.deep_view()[i as int]);
                assert(lines.deep_view().skip(i as int).drop_first() =~= lines.deep_view().skip(
                    i as int + 1,
                ));
            }
            match Pipeline::from_log_line(&lines[i]) {
                Some(p) => {
                    let ghost pv = p.deep_view();
                    out.push(p);
                    proof {
                        assert(out.deep_view() =~= pre.push(pv));
                        assert(out.deep_view() + spec_parse_all(
                            lines.deep_view().skip(i as int + 1),
                        ) =~= spec_parse_all(lines.deep_view()));
                    }
                },
                None => {
                    proof {
                        assert(out.deep_view() + spec_parse_all(
                            lines.deep_view().skip(i as int + 1),
                        ) =~= spec_parse_all(lines.deep_view()));
                    }
                },
            }
            i = i + 1;
        }
        proof {
            assert(lines.deep_view().skip(n as int) =~= Seq::<Seq<char>>::empty());
            assert(out.deep_view() =~= spec_parse_all(lines.deep_view()));
        }
        out
    }

    /// The reconstructed pipelines carrying exactly this name.
    pub fn get_by_name(lines: &Vec<Vec<char>>, name: &Vec<char>) -> (r: Vec<Pipeline>)
        ensures
            r.deep_view() == spec_with_name(spec_parse_all(lines.deep_view()), name@),
    {
        let all = Logs::get(lines);
        let mut out: Vec<Pipeline> = Vec::new();
        let mut rest = all;
        proof {
            assert(out.deep_view() + spec_with_name(rest.deep_view(), name@) =~= spec_with_name(
                spec_parse_all(lines.deep_view()),
                name@,
            ));
        }
        while rest.len() > 0
            invariant
                out.deep_view() + spec_with_name(rest.deep_view(), name@) =~= spec_with_name(
                    spec_parse_all(lines.deep_view()),
                    name@,
                ),
            decreases rest@.len(),
        {
            let ghost pre = out.deep_view();
            let ghost restpre = rest.deep_view();
            let p = rest.remove(0);
            proof {
                assert(p.deep_view() == restpre[0]);
                assert(rest.deep_view() =~= restpre.drop_first());
            }
            if chars_eq(&p.name, name) {
                let ghost pv = p.deep_view();
                out.push(p);
                proof {
                    assert(out.deep_view() =~= pre.push(pv));
                    assert(out.deep_view() + spec_with_name(rest.deep_view(), name@)
                        =~= spec_with_name(spec_parse_all(lines.deep_view()), name@));
                }
            } else {
                proof {
                    assert(out.deep_view() + spec_with_name(rest.deep_view(), name@)
                        =~= spec_with_name(spec_parse_all(lines.deep_view()), name@));
                }
            }
        }
        proof {
            assert(rest.deep_view() =~= Seq::<PipelineView>::empty());
            assert(out.deep_view() =~= spec_with_name(spec_parse_all(lines.deep_view()), name@));
        }
        out
    }
}

} // verus!
