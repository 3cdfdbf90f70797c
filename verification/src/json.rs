//! The persisted log line: one JSON object per line, fields `uuid, pid,
//! name, date, status, triggers, steps`, in that order, with strings escaped
//! so a snapshot always stays on one line. The writer and the reader are
//! both here, verified against the same specification, so a snapshot can be
//! read back from the last line of a stream.

use vstd::prelude::*;
use crate::status::{Status, spec_wire};
use crate::hook::{Hook, spec_hook_wire};
use crate::types::{
    Command, CommandView, Output, OutputView, Pipeline, PipelineView, Step, StepView, Trigger,
    TriggerView,
};
use crate::text::append_str;

verus! {

broadcast use crate::text::lemma_text_deep_view;

// ---------------------------------------------------------------------------
// What a serialized snapshot is, character for character.
// ---------------------------------------------------------------------------
/// How one character is written inside a JSON string: quote, backslash and
/// newline are escaped, everything else stands as itself.
pub open spec fn spec_esc_char(c: char) -> Seq<char> {
    if c == '"' {
        seq!['\\', '"']
    } else if c == '\\' {
        seq!['\\', '\\']
    } else if c == '\n' {
        seq!['\\', 'n']
    } else {
        seq![c]
    }
}

pub open spec fn spec_escape(s: Seq<char>) -> Seq<char>
    decreases s.len(),
{
    if s.len() == 0 {
        Seq::empty()
    } else {
        spec_esc_char(s[0]) + spec_escape(s.drop_first())
    }
}

/// A JSON string: quote, escaped body, quote.
pub open spec fn spec_jstr(s: Seq<char>) -> Seq<char> {
    seq!['"'] + spec_escape(s) + seq!['"']
}

pub open spec fn spec_digit_char(d: nat) -> char {
    if d == 0 {
        '0'
    } else if d == 1 {
        '1'
    } else if d == 2 {
        '2'
    } else if d == 3 {
        '3'
    } else if d == 4 {
        '4'
    } else if d == 5 {
        '5'
    } else if d == 6 {
        '6'
    } else if d == 7 {
        '7'
    } else if d == 8 {
        '8'
    } else {
        '9'
    }
}

/// A number in decimal, most significant digit first.
pub open spec fn spec_dec(n: nat) -> Seq<char>
    decreases n,
{
    if n < 10 {
        seq![spec_digit_char(n)]
    } else {
        spec_dec(n / 10) + seq![spec_digit_char(n % 10)]
    }
}

pub open spec fn spec_jbool(b: bool) -> Seq<char> {
    if b {
        "true"@
    } else {
        "false"@
    }
}

pub open spec fn spec_opt_num(p: Option<u32>) -> Seq<char> {
    match p {
        None => "null"@,
        Some(x) => spec_dec(x as nat),
    }
}

pub open spec fn spec_opt_jstr(o: Option<Seq<char>>) -> Seq<char> {
    match o {
        None => "null"@,
        Some(s) => spec_jstr(s),
    }
}

pub open spec fn spec_ser_output(o: OutputView) -> Seq<char> {
    "{\"status\":"@ + spec_jbool(o.success) + ",\"code\":"@ + spec_opt_num(o.code)
        + ",\"stdout\":"@ + spec_jstr(o.stdout) + ",\"stderr\":"@ + spec_jstr(o.stderr) + "}"@
}

pub open spec fn spec_ser_opt_output(o: Option<OutputView>) -> Seq<char> {
    match o {
        None => "null"@,
        Some(out) => spec_ser_output(out),
    }
}

pub open spec fn spec_ser_command(c: CommandView) -> Seq<char> {
    "{\"stdin\":"@ + spec_jstr(c.stdin) + ",\"output\":"@ + spec_ser_opt_output(c.output) + "}"@
}

pub open spec fn spec_ser_commands(cs: Seq<CommandView>) -> Seq<char>
    decreases cs.len(),
{
    if cs.len() == 0 {
        Seq::empty()
    } else if cs.len() == 1 {
        spec_ser_command(cs[0])
    } else {
        spec_ser_command(cs[0]) + seq![','] + spec_ser_commands(cs.drop_first())
    }
}

pub open spec fn spec_ser_texts(ts: Seq<Seq<char>>) -> Seq<char>
    decreases ts.len(),
{
    if ts.len() == 0 {
        Seq::empty()
    } else if ts.len() == 1 {
        spec_jstr(ts[0])
    } else {
        spec_jstr(ts[0]) + seq![','] + spec_ser_texts(ts.drop_first())
    }
}

pub open spec fn spec_ser_trigger(t: TriggerView) -> Seq<char> {
    "{\"action\":"@ + (match t.action {
        None => "null"@,
        Some(h) => spec_jstr(spec_hook_wire(h)),
    }) + ",\"branch\":"@ + spec_opt_jstr(t.branch) + "}"@
}

pub open spec fn spec_ser_triggers(ts: Seq<TriggerView>) -> Seq<char>
    decreases ts.len(),
{
    if ts.len() == 0 {
        Seq::empty()
    } else if ts.len() == 1 {
        spec_ser_trigger(ts[0])
    } else {
        spec_ser_trigger(ts[0]) + seq![','] + spec_ser_triggers(ts.drop_first())
    }
}

pub open spec fn spec_ser_step(s: StepView) -> Seq<char> {
    "{\"name\":"@ + spec_jstr(s.name) + ",\"commands\":["@ + spec_ser_commands(s.commands)
        + "],\"non_blocking\":"@ + (match s.non_blocking {
        None => "null"@,
        Some(b) => spec_jbool(b),
    }) + ",\"on_failure\":"@ + (match s.on_failure {
        None => "null"@,
        Some(fb) => seq!['['] + spec_ser_texts(fb) + seq![']'],
    }) + "}"@
}

pub open spec fn spec_ser_steps(ss: Seq<StepView>) -> Seq<char>
    decreases ss.len(),
{
    if ss.len() == 0 {
        Seq::empty()
    } else if ss.len() == 1 {
        spec_ser_step(ss[0])
    } else {
        spec_ser_step(ss[0]) + seq![','] + spec_ser_steps(ss.drop_first())
    }
}

/// One complete snapshot line.
pub open spec fn spec_log_line(p: PipelineView) -> Seq<char> {
    "{\"uuid\":"@ + spec_jstr(p.uuid) + ",\"pid\":"@ + spec_opt_num(p.pid) + ",\"name\":"@
        + spec_jstr(p.name) + ",\"date\":"@ + spec_opt_jstr(p.date) + ",\"status\":"@ + spec_jstr(
        spec_wire(p.status),
    ) + ",\"triggers\":"@ + (match p.triggers {
        None => "null"@,
        Some(ts) => seq!['['] + spec_ser_triggers(ts) + seq![']'],
    }) + ",\"steps\":["@ + spec_ser_steps(p.steps) + "]}"@
}

// ---------------------------------------------------------------------------
// What parsing a snapshot yields. Each parser consumes a prefix and returns
// the value with the remaining characters; the reader below is verified to
// agree with these. A guard of the shape `rest.len() < s.len()` in the list
// parsers only makes the recursion visibly bounded: every element parser
// consumes at least one character, so the guard holds wherever the element
// parser succeeded.
// ---------------------------------------------------------------------------
pub open spec fn spec_p_lit(s: Seq<char>, lit: Seq<char>) -> Option<Seq<char>> {
    if lit.len() <= s.len() && s.subrange(0, lit.len() as int) == lit {
        Some(s.skip(lit.len() as int))
    } else {
        None
    }
}

/// The character an escape code stands for.
pub open spec fn spec_unesc_char(c: char) -> char {
    if c == 'n' {
        '\n'
    } else {
        c
    }
}

/// The body of a JSON string, up to and over the closing quote.
pub open spec fn spec_p_strbody(s: Seq<char>) -> Option<(Seq<char>, Seq<char>)>
    decreases s.len(),
{
    if s.len() == 0 {
        None
    } else if s[0] == '"' {
        Some((Seq::empty(), s.drop_first()))
    } else if s[0] == '\\' {
        if s.len() >= 2 && (s[1] == '"' || s[1] == '\\' || s[1] == 'n') {
            match spec_p_strbody(s.skip(2)) {
                None => None,
                Some((t, rest)) => Some((seq![spec_unesc_char(s[1])] + t, rest)),
            }
        } else {
            None
        }
    } else {
        match spec_p_strbody(s.drop_first()) {
            None => None,
            Some((t, rest)) => Some((seq![s[0]] + t, rest)),
        }
    }
}

pub open spec fn spec_p_jstr(s: Seq<char>) -> Option<(Seq<char>, Seq<char>)> {
    if s.len() > 0 && s[0] == '"' {
        spec_p_strbody(s.drop_first())
    } else {
        None
    }
}

pub open spec fn spec_is_digit(c: char) -> bool {
    c == '0' || c == '1' || c == '2' || c == '3' || c == '4' || c == '5' || c == '6' || c == '7'
        || c == '8' || c == '9'
}

pub open spec fn spec_digit_val(c: char) -> nat {
    if c == '1' {
        1
    } else if c == '2' {
        2
    } else if c == '3' {
        3
    } else if c == '4' {
        4
    } else if c == '5' {
        5
    } else if c == '6' {
        6
    } else if c == '7' {
        7
    } else if c == '8' {
        8
    } else if c == '9' {
        9
    } else {
        0
    }
}

/// How many leading characters of `s` are digits.
pub open spec fn spec_digits_len(s: Seq<char>) -> nat
    decreases s.len(),
{
    if s.len() > 0 && spec_is_digit(s[0]) {
        1 + spec_digits_len(s.drop_first())
    } else {
        0
    }
}

/// The value of a digit string, most significant digit first.
pub open spec fn spec_digits_val(ds: Seq<char>) -> nat
    decreases ds.len(),
{
    if ds.len() == 0 {
        0
    } else {
        spec_digits_val(ds.drop_last()) * 10 + spec_digit_val(ds.last())
    }
}

/// A decimal number: maximal run of digits, which must fit in a `u32`.
pub open spec fn spec_p_u32(s: Seq<char>) -> Option<(u32, Seq<char>)> {
    let k = spec_digits_len(s);
    if k == 0 {
        None
    } else {
        let v = spec_digits_val(s.take(k as int));
        if v <= u32::MAX {
            Some((v as u32, s.skip(k as int)))
        } else {
            None
        }
    }
}

pub open spec fn spec_p_bool(s: Seq<char>) -> Option<(bool, Seq<char>)> {
    match spec_p_lit(s, "true"@) {
        Some(rest) => Some((true, rest)),
        None => match spec_p_lit(s, "false"@) {
            Some(rest) => Some((false, rest)),
            None => None,
        },
    }
}

pub open spec fn spec_p_opt_num(s: Seq<char>) -> Option<(Option<u32>, Seq<char>)> {
    match spec_p_lit(s, "null"@) {
        Some(rest) => Some((None, rest)),
        None => match spec_p_u32(s) {
            Some((v, rest)) => Some((Some(v), rest)),
            None => None,
        },
    }
}

pub open spec fn spec_p_opt_jstr(s: Seq<char>) -> Option<(Option<Seq<char>>, Seq<char>)> {
    match spec_p_lit(s, "null"@) {
        Some(rest) => Some((None, rest)),
        None => match spec_p_jstr(s) {
            Some((t, rest)) => Some((Some(t), rest)),
            None => None,
        },
    }
}

pub open spec fn spec_p_status(s: Seq<char>) -> Option<(Status, Seq<char>)> {
    match spec_p_jstr(s) {
        None => None,
        Some((w, rest)) => match crate::status::spec_status_parse(w) {
            None => None,
            Some(st) => Some((st, rest)),
        },
    }
}

pub open spec fn spec_p_output(s: Seq<char>) -> Option<(OutputView, Seq<char>)> {
    match spec_p_lit(s, "{\"status\":"@) {
        None => None,
        Some(s1) => match spec_p_bool(s1) {
            None => None,
            Some((success, s2)) => match spec_p_lit(s2, ",\"code\":"@) {
                None => None,
                Some(s3) => match spec_p_opt_num(s3) {
                    None => None,
                    Some((code, s4)) => match spec_p_lit(s4, ",\"stdout\":"@) {
                        None => None,
                        Some(s5) => match spec_p_jstr(s5) {
                            None => None,
                            Some((stdout, s6)) => match spec_p_lit(s6, ",\"stderr\":"@) {
                                None => None,
                                Some(s7) => match spec_p_jstr(s7) {
                                    None => None,
                                    Some((stderr, s8)) => match spec_p_lit(s8, "}"@) {
                                        None => None,
                                        Some(s9) => Some(
                                            (OutputView { success, code, stdout, stderr }, s9),
                                        ),
                                    },
                                },
                            },
                        },
                    },
                },
            },
        },
    }
}

pub open spec fn spec_p_opt_output(s: Seq<char>) -> Option<(Option<OutputView>, Seq<char>)> {
    match spec_p_lit(s, "null"@) {
        Some(rest) => Some((None, rest)),
        None => match spec_p_output(s) {
            Some((o, rest)) => Some((Some(o), rest)),
            None => None,
        },
    }
}

pub open spec fn spec_p_command(s: Seq<char>) -> Option<(CommandView, Seq<char>)> {
    match spec_p_lit(s, "{\"stdin\":"@) {
        None => None,
        Some(s1) => match spec_p_jstr(s1) {
            None => None,
            Some((stdin, s2)) => match spec_p_lit(s2, ",\"output\":"@) {
                None => None,
                Some(s3) => match spec_p_opt_output(s3) {
                    None => None,
                    Some((output, s4)) => match spec_p_lit(s4, "}"@) {
                        None => None,
                        Some(s5) => Some((CommandView { stdin, output }, s5)),
                    },
                },
            },
        },
    }
}

pub open spec fn spec_p_commands(s: Seq<char>) -> Option<(Seq<CommandView>, Seq<char>)>
    decreases s.len(),
{
    match spec_p_command(s) {
        None => None,
        Some((c, rest)) => if rest.len() > 0 && rest[0] == ',' {
            if rest.len() < s.len() {
                match spec_p_commands(rest.drop_first()) {
                    None => None,
                    Some((cs, rest2)) => Some((seq![c] + cs, rest2)),
                }
            } else {
                None
            }
        } else {
            Some((seq![c], rest))
        },
    }
}

pub open spec fn spec_p_texts(s: Seq<char>) -> Option<(Seq<Seq<char>>, Seq<char>)>
    decreases s.len(),
{
    match spec_p_jstr(s) {
        None => None,
        Some((t, rest)) => if rest.len() > 0 && rest[0] == ',' {
            if rest.len() < s.len() {
                match spec_p_texts(rest.drop_first()) {
                    None => None,
                    Some((ts, rest2)) => Some((seq![t] + ts, rest2)),
                }
            } else {
                None
            }
        } else {
            Some((seq![t], rest))
        },
    }
}

pub open spec fn spec_p_trigger(s: Seq<char>) -> Option<(TriggerView, Seq<char>)> {
    match spec_p_lit(s, "{\"action\":"@) {
        None => None,
        Some(s1) => match (match spec_p_lit(s1, "null"@) {
            Some(rest) => Some((None, rest)),
            None => match spec_p_jstr(s1) {
                None => None,
                Some((w, rest)) => match crate::hook::spec_hook_parse(w) {
                    None => None,
                    Some(h) => Some((Some(h), rest)),
                },
            },
        }) {
            None => None,
            Some((action, s2)) => match spec_p_lit(s2, ",\"branch\":"@) {
                None => None,
                Some(s3) => match spec_p_opt_jstr(s3) {
                    None => None,
                    Some((branch, s4)) => match spec_p_lit(s4, "}"@) {
                        None => None,
                        Some(s5) => Some((TriggerView { action, branch }, s5)),
                    },
                },
            },
        },
    }
}

pub open spec fn spec_p_triggers(s: Seq<char>) -> Option<(Seq<TriggerView>, Seq<char>)>
    decreases s.len(),
{
    match spec_p_trigger(s) {
        None => None,
        Some((t, rest)) => if rest.len() > 0 && rest[0] == ',' {
            if rest.len() < s.len() {
                match spec_p_triggers(rest.drop_first()) {
                    None => None,
                    Some((ts, rest2)) => Some((seq![t] + ts, rest2)),
                }
            } else {
                None
            }
        } else {
            Some((seq![t], rest))
        },
    }
}

pub open spec fn spec_p_step(s: Seq<char>) -> Option<(StepView, Seq<char>)> {
    match spec_p_lit(s, "{\"name\":"@) {
        None => None,
        Some(s1) => match spec_p_jstr(s1) {
            None => None,
            Some((name, s2)) => match spec_p_lit(s2, ",\"commands\":["@) {
                None => None,
                Some(s3) => match (if s3.len() > 0 && s3[0] == ']' {
                    Some((Seq::<CommandView>::empty(), s3))
                } else {
                    spec_p_commands(s3)
                }) {
                    None => None,
                    Some((commands, s4)) => match spec_p_lit(s4, "],\"non_blocking\":"@) {
                        None => None,
                        Some(s5) => match (match spec_p_lit(s5, "null"@) {
                            Some(rest) => Some((None, rest)),
                            None => match spec_p_bool(s5) {
                                Some((b, rest)) => Some((Some(b), rest)),
                                None => None,
                            },
                        }) {
                            None => None,
                            Some((non_blocking, s6)) => match spec_p_lit(
                                s6,
                                ",\"on_failure\":"@,
                            ) {
                                None => None,
                                Some(s7) => match (match spec_p_lit(s7, "null"@) {
                                    Some(rest) => Some((None, rest)),
                                    None => match spec_p_lit(s7, "["@) {
                                        None => None,
                                        Some(s8) => match (if s8.len() > 0 && s8[0] == ']' {
                                            Some((Seq::<Seq<char>>::empty(), s8))
                                        } else {
                                            spec_p_texts(s8)
                                        }) {
                                            None => None,
                                            Some((fb, s9)) => match spec_p_lit(s9, "]"@) {
                                                None => None,
                                                Some(s10) => Some((Some(fb), s10)),
                                            },
                                        },
                                    },
                                }) {
                                    None => None,
                                    Some((on_failure, s11)) => match spec_p_lit(s11, "}"@) {
                                        None => None,
                                        Some(s12) => Some(
                                            (
                                                StepView {
                                                    name,
                                                    commands,
                                                    non_blocking,
                                                    on_failure,
                                                },
                                                s12,
                                            ),
                                        ),
                                    },
                                },
                            },
                        },
                    },
                },
            },
        },
    }
}

pub open spec fn spec_p_steps(s: Seq<char>) -> Option<(Seq<StepView>, Seq<char>)>
    decreases s.len(),
{
    match spec_p_step(s) {
        None => None,
        Some((st, rest)) => if rest.len() > 0 && rest[0] == ',' {
            if rest.len() < s.len() {
                match spec_p_steps(rest.drop_first()) {
                    None => None,
                    Some((ss, rest2)) => Some((seq![st] + ss, rest2)),
                }
            } else {
                None
            }
        } else {
            Some((seq![st], rest))
        },
    }
}

pub open spec fn spec_p_pipeline(s: Seq<char>) -> Option<(PipelineView, Seq<char>)> {
    match spec_p_lit(s, "{\"uuid\":"@) {
        None => None,
        Some(s1) => match spec_p_jstr(s1) {
            None => None,
            Some((uuid, s2)) => match spec_p_lit(s2, ",\"pid\":"@) {
                None => None,
                Some(s3) => match spec_p_opt_num(s3) {
                    None => None,
                    Some((pid, s4)) => match spec_p_lit(s4, ",\"name\":"@) {
                        None => None,
                        Some(s5) => match spec_p_jstr(s5) {
                            None => None,
                            Some((name, s6)) => match spec_p_lit(s6, ",\"date\":"@) {
                                None => None,
                                Some(s7) => match spec_p_opt_jstr(s7) {
                                    None => None,
                                    Some((date, s8)) => match spec_p_lit(s8, ",\"status\":"@) {
                                        None => None,
                                        Some(s9) => match spec_p_status(s9) {
                                            None => None,
                                            Some((status, s10)) => match spec_p_lit(
                                                s10,
                                                ",\"triggers\":"@,
                                            ) {
                                                None => None,
                                                Some(s11) => match (match spec_p_lit(
                                                    s11,
                                                    "null"@,
                                                ) {
                                                    Some(rest) => Some((None, rest)),
                                                    None => match spec_p_lit(s11, "["@) {
                                                        None => None,
                                                        Some(s12) => match (if s12.len() > 0
                                                            && s12[0] == ']' {
                                                            Some(
                                                                (
                                                                    Seq::<
                                                                        TriggerView,
                                                                    >::empty(),
                                                                    s12,
                                                                ),
                                                            )
                                                        } else {
                                                            spec_p_triggers(s12)
                                                        }) {
                                                            None => None,
                                                            Some((ts, s13)) => match spec_p_lit(
                                                                s13,
                                                                "]"@,
                                                            ) {
                                                                None => None,
                                                                Some(s14) => Some(
                                                                    (Some(ts), s14),
                                                                ),
                                                            },
                                                        },
                                                    },
                                                }) {
                                                    None => None,
                                                    Some((triggers, s15)) => match spec_p_lit(
                                                        s15,
                                                        ",\"steps\":["@,
                                                    ) {
                                                        None => None,
                                                        Some(s16) => match (if s16.len() > 0
                                                            && s16[0] == ']' {
                                                            Some((Seq::<StepView>::empty(), s16))
                                                        } else {
                                                            spec_p_steps(s16)
                                                        }) {
                                                            None => None,
                                                            Some((steps, s17)) => match spec_p_lit(
                                                                s17,
                                                                "]}"@,
                                                            ) {
                                                                None => None,
                                                                Some(s18) => Some(
                                                                    (
                                                                        PipelineView {
                                                                            uuid,
                                                                            pid,
                                                                            name,
                                                                            date,
                                                                            status,
                                                                            triggers,
                                                                            steps,
                                                                        },
                                                                        s18,
                                                                    ),
                                                                ),
                                                            },
                                                        },
                                                    },
                                                },
                                            },
                                        },
                                    },
                                },
                            },
                        },
                    },
                },
            },
        },
    }
}

/// What one full log line means: a snapshot, with nothing after it.
pub open spec fn spec_parse_line(s: Seq<char>) -> Option<PipelineView> {
    match spec_p_pipeline(s) {
        None => None,
        Some((p, rest)) => if rest.len() == 0 {
            Some(p)
        } else {
            None
        },
    }
}

// ---------------------------------------------------------------------------
// The writer.
// ---------------------------------------------------------------------------
proof fn lemma_escape_snoc(s: Seq<char>, c: char)
    ensures
        spec_escape(s.push(c)) == spec_escape(s) + spec_esc_char(c),
    decreases s.len(),
{
    if s.len() == 0 {
        assert(s.push(c) =~= seq![c]);
        assert(s.push(c).drop_first() =~= Seq::<char>::empty());
        assert(spec_escape(Seq::<char>::empty()) =~= Seq::<char>::empty());
        assert(spec_escape(s.push(c)) =~= spec_escape(s) + spec_esc_char(c));
    } else {
        assert(s.push(c)[0] == s[0]);
        assert(s.push(c).drop_first() =~= s.drop_first().push(c));
        lemma_escape_snoc(s.drop_first(), c);
        assert(spec_escape(s.push(c)) =~= spec_escape(s) + spec_esc_char(c));
    }
}

fn push_escaped(out: &mut Vec<char>, s: &Vec<char>)
    ensures
        final(out)@ == old(out)@ + spec_escape(s@),
{
    let n: usize = s.len();
    let mut i: usize = 0;
    proof {
        assert(s@.subrange(0, 0) =~= Seq::<char>::empty());
    }
    while i < n
        invariant
            n == s@.len(),
            i <= n,
            out@ == old(out)@ + spec_escape(s@.subrange(0, i as int)),
        decreases n - i,
    {
        let ghost pre = s@.subrange(0, i as int);
        let c = s[i];
        if c == '"' {
            out.push('\\');
            out.push('"');
        } else if c == '\\' {
            out.push('\\');
            out.push('\\');
        } else if c == '\n' {
            out.push('\\');
            out.push('n');
        } else {
            out.push(c);
        }
        proof {
            lemma_escape_snoc(pre, s@[i as int]);
            assert(s@.subrange(0, i as int + 1) =~= pre.push(s@[i as int]));
            assert(out@ =~= old(out)@ + spec_escape(s@.subrange(0, i as int + 1)));
        }
        i = i + 1;
    }
    proof {
        assert(s@.subrange(0, n as int) =~= s@);
    }
}

fn push_jstr(out: &mut Vec<char>, s: &Vec<char>)
    ensures
        final(out)@ == old(out)@ + spec_jstr(s@),
{
    out.push('"');
    push_escaped(out, s);
    out.push('"');
    proof {
        assert(out@ =~= old(out)@ + spec_jstr(s@));
    }
}

fn digit_to_char(d: u32) -> (r: char)
    requires
        d < 10,
    ensures
        r == spec_digit_char(d as nat),
{
    if d == 0 {
        '0'
    } else if d == 1 {
        '1'
    } else if d == 2 {
        '2'
    } else if d == 3 {
        '3'
    } else if d == 4 {
        '4'
    } else if d == 5 {
        '5'
    } else if d == 6 {
        '6'
    } else if d == 7 {
        '7'
    } else if d == 8 {
        '8'
    } else {
        '9'
    }
}

fn push_dec(out: &mut Vec<char>, n: u32)
    ensures
        final(out)@ == old(out)@ + spec_dec(n as nat),
    decreases n,
{
    if n < 10 {
        out.push(digit_to_char(n));
        proof {
            assert(out@ =~= old(out)@ + spec_dec(n as nat));
        }
    } else {
        push_dec(out, n / 10);
        out.push(digit_to_char(n % 10));
        proof {
            assert((n as nat) / 10 == (n / 10) as nat);
            assert((n as nat) % 10 == (n % 10) as nat);
            assert(out@ =~= old(out)@ + spec_dec(n as nat));
        }
    }
}

fn push_output(out: &mut Vec<char>, o: &Output)
    ensures
        final(out)@ == old(out)@ + spec_ser_output(o.deep_view()),
{
    append_str(out, "{\"status\":");
    if o.success {
        append_str(out, "true");
    } else {
        append_str(out, "false");
    }
    append_str(out, ",\"code\":");
    match o.code {
        None => append_str(out, "null"),
        Some(x) => push_dec(out, x),
    }
    append_str(out, ",\"stdout\":");
    push_jstr(out, &o.stdout);
    append_str(out, ",\"stderr\":");
    push_jstr(out, &o.stderr);
    append_str(out, "}");
    proof {
        assert(out@ =~= old(out)@ + spec_ser_output(o.deep_view()));
    }
}

fn push_command(out: &mut Vec<char>, c: &Command)
    ensures
        final(out)@ == old(out)@ + spec_ser_command(c.deep_view()),
{
    append_str(out, "{\"stdin\":");
    push_jstr(out, &c.stdin);
    append_str(out, ",\"output\":");
    match &c.output {
        None => append_str(out, "null"),
        Some(o) => push_output(out, o),
    }
    append_str(out, "}");
    proof {
        assert(out@ =~= old(out)@ + spec_ser_command(c.deep_view()));
    }
}

fn push_commands(out: &mut Vec<char>, cs: &Vec<Command>, i: usize)
    requires
        i <= cs@.len(),
    ensures
        final(out)@ == old(out)@ + spec_ser_commands(cs.deep_view().skip(i as int)),
    decreases cs@.len() - i,
{
    let n: usize = cs.len();
    if i >= n {
        proof {
            assert(cs.deep_view().skip(i as int) =~= Seq::<CommandView>::empty());
        }
        return ;
    }
    push_command(out, &cs[i]);
    proof {
        assert(cs.deep_view().skip(i as int)[0] == cs.deep_view()[i as int]);
        assert(cs.deep_view().skip(i as int).drop_first() =~= cs.deep_view().skip(i as int + 1));
    }
    if i + 1 < n {
        append_str(out, ",");
        push_commands(out, cs, i + 1);
        proof {
            reveal_strlit(",");
            assert(","@ =~= seq![',']);
            assert(out@ =~= old(out)@ + spec_ser_commands(cs.deep_view().skip(i as int)));
        }
    } else {
        proof {
            assert(cs.deep_view().skip(i as int).len() == 1);
            assert(out@ =~= old(out)@ + spec_ser_commands(cs.deep_view().skip(i as int)));
        }
    }
}

fn push_texts(out: &mut Vec<char>, ts: &Vec<Vec<char>>, i: usize)
    requires
        i <= ts@.len(),
    ensures
        final(out)@ == old(out)@ + spec_ser_texts(ts.deep_view().skip(i as int)),
    decreases ts@.len() - i,
{
    let n: usize = ts.len();
    if i >= n {
        proof {
            assert(ts.deep_view().skip(i as int) =~= Seq::<Seq<char>>::empty());
        }
        return ;
    }
    push_jstr(out, &ts[i]);
    proof {
        assert(ts.deep_view().skip(i as int)[0] == ts.deep_view()[i as int]);
        assert(ts.deep_view().skip(i as int).drop_first() =~= ts.deep_view().skip(i as int + 1));
    }
    if i + 1 < n {
        append_str(out, ",");
        push_texts(out, ts, i + 1);
        proof {
            reveal_strlit(",");
            assert(","@ =~= seq![',']);
            assert(out@ =~= old(out)@ + spec_ser_texts(ts.deep_view().skip(i as int)));
        }
    } else {
        proof {
            assert(ts.deep_view().skip(i as int).len() == 1);
            assert(out@ =~= old(out)@ + spec_ser_texts(ts.deep_view().skip(i as int)));
        }
    }
}

fn push_trigger(out: &mut Vec<char>, t: &Trigger)
    ensures
        final(out)@ == old(out)@ + spec_ser_trigger(t.deep_view()),
{
    append_str(out, "{\"action\":");
    match &t.action {
        None => append_str(out, "null"),
        Some(h) => {
            let w = h.to_wire();
            push_jstr(out, &w);
        },
    }
    append_str(out, ",\"branch\":");
    match &t.branch {
        None => append_str(out, "null"),
        Some(b) => push_jstr(out, b),
    }
    append_str(out, "}");
    proof {
        assert(out@ =~= old(out)@ + spec_ser_trigger(t.deep_view()));
    }
}

fn push_triggers(out: &mut Vec<char>, ts: &Vec<Trigger>, i: usize)
    requires
        i <= ts@.len(),
    ensures
        final(out)@ == old(out)@ + spec_ser_triggers(ts.deep_view().skip(i as int)),
    decreases ts@.len() - i,
{
    let n: usize = ts.len();
    if i >= n {
        proof {
            assert(ts.deep_view().skip(i as int) =~= Seq::<TriggerView>::empty());
        }
        return ;
    }
    push_trigger(out, &ts[i]);
    proof {
        assert(ts.deep_view().skip(i as int)[0] == ts.deep_view()[i as int]);
        assert(ts.deep_view().skip(i as int).drop_first() =~= ts.deep_view().skip(i as int + 1));
    }
    if i + 1 < n {
        append_str(out, ",");
        push_triggers(out, ts, i + 1);
        proof {
            reveal_strlit(",");
            assert(","@ =~= seq![',']);
            assert(out@ =~= old(out)@ + spec_ser_triggers(ts.deep_view().skip(i as int)));
        }
    } else {
        proof {
            assert(ts.deep_view().skip(i as int).len() == 1);
            assert(out@ =~= old(out)@ + spec_ser_triggers(ts.deep_view().skip(i as int)));
        }
    }
}

#[verifier::rlimit(100)]
fn push_step(out: &mut Vec<char>, s: &Step)
    ensures
        final(out)@ == old(out)@ + spec_ser_step(s.deep_view()),
{
    append_str(out, "{\"name\":");
    push_jstr(out, &s.name);
    append_str(out, ",\"commands\":[");
    push_commands(out, &s.commands, 0);
    proof {
        assert(s.commands.deep_view().skip(0) =~= s.commands.deep_view());
    }
    append_str(out, "],\"non_blocking\":");
    match s.non_blocking {
        None => append_str(out, "null"),
        Some(b) => {
            if b {
                append_str(out, "true");
            } else {
                append_str(out, "false");
            }
        },
    }
    append_str(out, ",\"on_failure\":");
    match &s.on_failure {
        None => append_str(out, "null"),
        Some(fb) => {
            append_str(out, "[");
            push_texts(out, fb, 0);
            proof {
                assert(fb.deep_view().skip(0) =~= fb.deep_view());
            }
            append_str(out, "]");
        },
    }
    append_str(out, "}");
    proof {
        reveal_strlit("[");
        reveal_strlit("]");
        assert("["@ =~= seq!['[']);
        assert("]"@ =~= seq![']']);
        assert(out@ =~= old(out)@ + spec_ser_step(s.deep_view()));
    }
}

fn push_steps(out: &mut Vec<char>, ss: &Vec<Step>, i: usize)
    requires
        i <= ss@.len(),
    ensures
        final(out)@ == old(out)@ + spec_ser_steps(ss.deep_view().skip(i as int)),
    decreases ss@.len() - i,
{
    let n: usize = ss.len();
    if i >= n {
        proof {
            assert(ss.deep_view().skip(i as int) =~= Seq::<StepView>::empty());
        }
        return ;
    }
    push_step(out, &ss[i]);
    proof {
        assert(ss.deep_view().skip(i as int)[0] == ss.deep_view()[i as int]);
        assert(ss.deep_view().skip(i as int).drop_first() =~= ss.deep_view().skip(i as int + 1));
    }
    if i + 1 < n {
        append_str(out, ",");
        push_steps(out, ss, i + 1);
        proof {
            reveal_strlit(",");
            assert(","@ =~= seq![',']);
            assert(out@ =~= old(out)@ + spec_ser_steps(ss.deep_view().skip(i as int)));
        }
    } else {
        proof {
            assert(ss.deep_view().skip(i as int).len() == 1);
            assert(out@ =~= old(out)@ + spec_ser_steps(ss.deep_view().skip(i as int)));
        }
    }
}

impl Pipeline {
    /// The snapshot of this pipeline as one log line.
    #[verifier::rlimit(100)]
    pub fn log(&self) -> (r: Vec<char>)
        ensures
            r@ == spec_log_line(self.deep_view()),
    {
        let mut out: Vec<char> = Vec::new();
        append_str(&mut out, "{\"uuid\":");
        push_jstr(&mut out, &self.uuid);
        append_str(&mut out, ",\"pid\":");
        match self.pid {
            None => append_str(&mut out, "null"),
            Some(x) => push_dec(&mut out, x),
        }
        append_str(&mut out, ",\"name\":");
        push_jstr(&mut out, &self.name);
        append_str(&mut out, ",\"date\":");
        match &self.date {
            None => append_str(&mut out, "null"),
            Some(d) => push_jstr(&mut out, d),
        }
        append_str(&mut out, ",\"status\":");
        let w = self.status.to_wire();
        push_jstr(&mut out, &w);
        append_str(&mut out, ",\"triggers\":");
        match &self.triggers {
            None => append_str(&mut out, "null"),
            Some(ts) => {
                append_str(&mut out, "[");
                push_triggers(&mut out, ts, 0);
                proof {
                    assert(ts.deep_view().skip(0) =~= ts.deep_view());
                }
                append_str(&mut out, "]");
            },
        }
        append_str(&mut out, ",\"steps\":[");
        push_steps(&mut out, &self.steps, 0);
        proof {
            assert(self.steps.deep_view().skip(0) =~= self.steps.deep_view());
        }
        append_str(&mut out, "]}");
        proof {
            reveal_strlit("[");
            reveal_strlit("]");
            assert("["@ =~= seq!['[']);
            assert("]"@ =~= seq![']']);
            assert(out@ =~= spec_log_line(self.deep_view()));
        }
        out
    }
}

// ---------------------------------------------------------------------------
// The reader.
// ---------------------------------------------------------------------------
fn expect_str(v: &Vec<char>, i: usize, pat: &str) -> (r: Option<usize>)
    requires
        i <= v@.len(),
    ensures
        r matches Some(j) ==> i <= j <= v@.len() && spec_p_lit(v@.skip(i as int), pat@) == Some(
            v@.skip(j as int),
        ),
        r is None ==> spec_p_lit(v@.skip(i as int), pat@) is None,
{
    let n: usize = pat.unicode_len();
    let vn: usize = v.len();
    if n > vn - i {
        return None;
    }
    let mut k: usize = 0;
    while k < n
        invariant
            vn == v@.len(),
            i + n <= vn,
            n == pat@.len(),
            k <= n,
            forall|m: int| 0 <= m < k ==> v@[i + m] == pat@[m],
        decreases n - k,
    {
        if v[i + k] != pat.get_char(k) {
            proof {
                assert(v@.skip(i as int).subrange(0, n as int)[k as int] != pat@[k as int]);
            }
            return None;
        }
        k = k + 1;
    }
    proof {
        assert(v@.skip(i as int).subrange(0, n as int) =~= pat@);
        assert(v@.skip(i as int).skip(n as int) =~= v@.skip(i as int + n as int));
    }
    Some(i + n)
}

/// What string body parsing yields once the already-read prefix is put back
/// in front.
pub open spec fn spec_strbody_result(acc: Seq<char>, r: Option<(Seq<char>, Seq<char>)>) -> Option<
    (Seq<char>, Seq<char>),
> {
    match r {
        None => None,
        Some((t, rest)) => Some((acc + t, rest)),
    }
}

fn parse_jstr(v: &Vec<char>, i: usize) -> (r: Option<(Vec<char>, usize)>)
    requires
        i <= v@.len(),
    ensures
        r matches Some((t, j)) ==> i <= j <= v@.len() && spec_p_jstr(v@.skip(i as int)) == Some(
            (t@, v@.skip(j as int)),
        ),
        r is None ==> spec_p_jstr(v@.skip(i as int)) is None,
{
    let n: usize = v.len();
    if i >= n || v[i] != '"' {
        return None;
    }
    let mut acc: Vec<char> = Vec::new();
    let mut cur: usize = i + 1;
    proof {
        assert(v@.skip(i as int)[0] == '"');
        assert(v@.skip(i as int).drop_first() =~= v@.skip(i as int + 1));
    }
    while cur < n
        invariant
            n == v@.len(),
            i + 1 <= cur <= n,
            spec_p_jstr(v@.skip(i as int)) == spec_strbody_result(
                acc@,
                spec_p_strbody(v@.skip(cur as int)),
            ),
        decreases n - cur,
    {
        let ghost s_cur = v@.skip(cur as int);
        proof {
            assert(s_cur[0] == v@[cur as int]);
            assert(s_cur.drop_first() =~= v@.skip(cur as int + 1));
        }
        let c = v[cur];
        if c == '"' {
            proof {
                assert(spec_p_strbody(s_cur) == Some((Seq::<char>::empty(), v@.skip(cur as int + 1))));
                assert(acc@ + Seq::<char>::empty() =~= acc@);
            }
            return Some((acc, cur + 1));
        } else if c == '\\' {
            if cur + 1 >= n {
                proof {
                    assert(s_cur.len() < 2);
                    assert(spec_p_strbody(s_cur) is None);
                }
                return None;
            }
            let ghost acc0 = acc@;
            proof {
                assert(s_cur[1] == v@[cur as int + 1]);
                assert(s_cur.skip(2) =~= v@.skip(cur as int + 2));
            }
            let d = v[cur + 1];
            if d == '"' {
                acc.push('"');
            } else if d == '\\' {
                acc.push('\\');
            } else if d == 'n' {
                acc.push('\n');
            } else {
                proof {
                    assert(spec_p_strbody(s_cur) is None);
                }
                return None;
            }
            proof {
                assert(acc@ =~= acc0.push(spec_unesc_char(v@[cur as int + 1])));
                assert forall|t: Seq<char>| true implies acc0 + (seq![
                    spec_unesc_char(v@[cur as int + 1]),
                ] + t) =~= acc@ + t by {}
            }
            cur = cur + 2;
        } else {
            let ghost acc0 = acc@;
            acc.push(c);
            proof {
                assert forall|t: Seq<char>| true implies acc0 + (seq![v@[cur as int]] + t) =~= acc@
                    + t by {}
            }
            cur = cur + 1;
        }
    }
    proof {
        assert(v@.skip(cur as int).len() == 0);
        assert(spec_p_strbody(v@.skip(cur as int)) is None);
    }
    None
}

fn is_digit(c: char) -> (r: bool)
    ensures
        r == spec_is_digit(c),
{
    c == '0' || c == '1' || c == '2' || c == '3' || c == '4' || c == '5' || c == '6' || c == '7'
        || c == '8' || c == '9'
}

fn digit_val(c: char) -> (r: u32)
    requires
        spec_is_digit(c),
    ensures
        r == spec_digit_val(c),
        r < 10,
{
    if c == '1' {
        1
    } else if c == '2' {
        2
    } else if c == '3' {
        3
    } else if c == '4' {
        4
    } else if c == '5' {
        5
    } else if c == '6' {
        6
    } else if c == '7' {
        7
    } else if c == '8' {
        8
    } else if c == '9' {
        9
    } else {
        0
    }
}

proof fn lemma_digits_len_from_pointwise(s: Seq<char>, k: int)
    requires
        0 <= k <= s.len(),
        forall|m: int| 0 <= m < k ==> spec_is_digit(s[m]),
        k == s.len() || !spec_is_digit(s[k]),
    ensures
        spec_digits_len(s) == k,
    decreases k,
{
    if k == 0 {
    } else {
        assert(spec_is_digit(s[0]));
        let t = s.drop_first();
        assert forall|m: int| 0 <= m < k - 1 implies spec_is_digit(t[m]) by {
            assert(t[m] == s[m + 1]);
        }
        if k < s.len() {
            assert(t[k - 1] == s[k as int]);
        }
        lemma_digits_len_from_pointwise(t, k - 1);
    }
}

fn parse_u32(v: &Vec<char>, i: usize) -> (r: Option<(u32, usize)>)
    requires
        i <= v@.len(),
    ensures
        r matches Some((x, j)) ==> i <= j <= v@.len() && spec_p_u32(v@.skip(i as int)) == Some(
            (x, v@.skip(j as int)),
        ),
        r is None ==> spec_p_u32(v@.skip(i as int)) is None,
{
    let ghost s = v@.skip(i as int);
    let n: usize = v.len();
    let mut cur: usize = i;
    let mut acc: u64 = 0;
    let mut over: bool = false;
    while cur < n && is_digit(v[cur])
        invariant
            n == v@.len(),
            s == v@.skip(i as int),
            i <= cur <= n,
            forall|m: int| 0 <= m < cur - i ==> spec_is_digit(s[m]),
            over ==> spec_digits_val(s.take(cur - i)) > u32::MAX,
            !over ==> acc == spec_digits_val(s.take(cur - i)) && acc <= u32::MAX,
        decreases n - cur,
    {
        let d = digit_val(v[cur]);
        proof {
            assert(s[cur - i] == v@[cur as int]);
            assert(s.take(cur - i + 1).drop_last() =~= s.take(cur - i));
            assert(s.take(cur - i + 1).last() == s[cur - i]);
        }
        if !over {
            let next: u64 = acc * 10 + (d as u64);
            if next > 0xffff_ffff {
                over = true;
            } else {
                acc = next;
            }
        } else {
            proof {
                let pv = spec_digits_val(s.take(cur - i));
                assert(spec_digits_val(s.take(cur - i + 1)) == pv * 10 + spec_digit_val(
                    v@[cur as int],
                ));
                assert(pv * 10 >= pv);
            }
        }
        cur = cur + 1;
    }
    proof {
        assert(cur == n || !spec_is_digit(s[cur - i]));
        lemma_digits_len_from_pointwise(s, cur - i);
    }
    if cur == i {
        return None;
    }
    if over {
        return None;
    }
    proof {
        assert(s.skip(cur - i) =~= v@.skip(cur as int));
    }
    Some((acc as u32, cur))
}

fn parse_bool(v: &Vec<char>, i: usize) -> (r: Option<(bool, usize)>)
    requires
        i <= v@.len(),
    ensures
        r matches Some((b, j)) ==> i <= j <= v@.len() && spec_p_bool(v@.skip(i as int)) == Some(
            (b, v@.skip(j as int)),
        ),
        r is None ==> spec_p_bool(v@.skip(i as int)) is None,
{
    match expect_str(v, i, "true") {
        Some(j) => Some((true, j)),
        None => match expect_str(v, i, "false") {
            Some(j) => Some((false, j)),
            None => None,
        },
    }
}

fn parse_opt_num(v: &Vec<char>, i: usize) -> (r: Option<(Option<u32>, usize)>)
    requires
        i <= v@.len(),
    ensures
        r matches Some((p, j)) ==> i <= j <= v@.len() && spec_p_opt_num(v@.skip(i as int)) == Some(
            (p, v@.skip(j as int)),
        ),
        r is None ==> spec_p_opt_num(v@.skip(i as int)) is None,
{
    match expect_str(v, i, "null") {
        Some(j) => Some((None, j)),
        None => match parse_u32(v, i) {
            Some((x, j)) => Some((Some(x), j)),
            None => None,
        },
    }
}

fn parse_opt_jstr(v: &Vec<char>, i: usize) -> (r: Option<(Option<Vec<char>>, usize)>)
    requires
        i <= v@.len(),
    ensures
        r matches Some((o, j)) ==> i <= j <= v@.len() && spec_p_opt_jstr(v@.skip(i as int))
            == Some((o.deep_view(), v@.skip(j as int))),
        r is None ==> spec_p_opt_jstr(v@.skip(i as int)) is None,
{
    match expect_str(v, i, "null") {
        Some(j) => Some((None, j)),
        None => match parse_jstr(v, i) {
            Some((t, j)) => Some((Some(t), j)),
            None => None,
        },
    }
}

fn parse_status(v: &Vec<char>, i: usize) -> (r: Option<(Status, usize)>)
    requires
        i <= v@.len(),
    ensures
        r matches Some((st, j)) ==> i <= j <= v@.len() && spec_p_status(v@.skip(i as int)) == Some(
            (st, v@.skip(j as int)),
        ),
        r is None ==> spec_p_status(v@.skip(i as int)) is None,
{
    match parse_jstr(v, i) {
        None => None,
        Some((w, j)) => match Status::from_wire(&w) {
            None => None,
            Some(st) => Some((st, j)),
        },
    }
}

fn parse_output(v: &Vec<char>, i: usize) -> (r: Option<(Output, usize)>)
    requires
        i <= v@.len(),
    ensures
        r matches Some((o, j)) ==> i <= j <= v@.len() && spec_p_output(v@.skip(i as int)) == Some(
            (o.deep_view(), v@.skip(j as int)),
        ),
        r is None ==> spec_p_output(v@.skip(i as int)) is None,
{
    let j1 = match expect_str(v, i, "{\"status\":") {
        None => {
            return None;
        },
        Some(j) => j,
    };
    let (success, j2) = match parse_bool(v, j1) {
        None => {
            return None;
        },
        Some(x) => x,
    };
    let j3 = match expect_str(v, j2, ",\"code\":") {
        None => {
            return None;
        },
        Some(j) => j,
    };
    let (code, j4) = match parse_opt_num(v, j3) {
        None => {
            return None;
        },
        Some(x) => x,
    };
    let j5 = match expect_str(v, j4, ",\"stdout\":") {
        None => {
            return None;
        },
        Some(j) => j,
    };
    let (stdout, j6) = match parse_jstr(v, j5) {
        None => {
            return None;
        },
        Some(x) => x,
    };
    let j7 = match expect_str(v, j6, ",\"stderr\":") {
        None => {
            return None;
        },
        Some(j) => j,
    };
    let (stderr, j8) = match parse_jstr(v, j7) {
        None => {
            return None;
        },
        Some(x) => x,
    };
    let j9 = match expect_str(v, j8, "}") {
        None => {
            return None;
        },
        Some(j) => j,
    };
    Some((Output { success, code, stdout, stderr }, j9))
}

fn parse_opt_output(v: &Vec<char>, i: usize) -> (r: Option<(Option<Output>, usize)>)
    requires
        i <= v@.len(),
    ensures
        r matches Some((o, j)) ==> i <= j <= v@.len() && spec_p_opt_output(v@.skip(i as int))
            == Some((o.deep_view(), v@.skip(j as int))),
        r is None ==> spec_p_opt_output(v@.skip(i as int)) is None,
{
    match expect_str(v, i, "null") {
        Some(j) => Some((None, j)),
        None => match parse_output(v, i) {
            Some((o, j)) => Some((Some(o), j)),
            None => None,
        },
    }
}

fn parse_command(v: &Vec<char>, i: usize) -> (r: Option<(Command, usize)>)
    requires
        i <= v@.len(),
    ensures
        r matches Some((c, j)) ==> i <= j <= v@.len() && spec_p_command(v@.skip(i as int)) == Some(
            (c.deep_view(), v@.skip(j as int)),
        ),
        r is None ==> spec_p_command(v@.skip(i as int)) is None,
{
    let j1 = match expect_str(v, i, "{\"stdin\":") {
        None => {
            return None;
        },
        Some(j) => j,
    };
    let (stdin, j2) = match parse_jstr(v, j1) {
        None => {
            return None;
        },
        Some(x) => x,
    };
    let j3 = match expect_str(v, j2, ",\"output\":") {
        None => {
            return None;
        },
        Some(j) => j,
    };
    let (output, j4) = match parse_opt_output(v, j3) {
        None => {
            return None;
        },
        Some(x) => x,
    };
    let j5 = match expect_str(v, j4, "}") {
        None => {
            return None;
        },
        Some(j) => j,
    };
    Some((Command { stdin, output }, j5))
}

fn parse_commands(v: &Vec<char>, i: usize) -> (r: Option<(Vec<Command>, usize)>)
    requires
        i <= v@.len(),
    ensures
        r matches Some((cs, j)) ==> i <= j <= v@.len() && spec_p_commands(v@.skip(i as int))
            == Some((cs.deep_view(), v@.skip(j as int))),
        r is None ==> spec_p_commands(v@.skip(i as int)) is None,
    decreases v@.len() - i,
{
    match parse_command(v, i) {
        None => None,
        Some((c, j)) => {
            proof {
                assert(j < v@.len() ==> v@.skip(j as int)[0] == v@[j as int]);
                if j < v@.len() {
                    assert(v@.skip(j as int).drop_first() =~= v@.skip(j as int + 1));
                }
            }
            if j < v.len() && v[j] == ',' {
                if j > i {
                    match parse_commands(v, j + 1) {
                        None => None,
                        Some((cs, j2)) => {
                            let ghost pre = cs.deep_view();
                            let mut rest = cs;
                            let mut out: Vec<Command> = Vec::new();
                            out.push(c);
                            out.append(&mut rest);
                            proof {
                                assert(out.deep_view() =~= seq![c.deep_view()] + pre);
                            }
                            Some((out, j2))
                        },
                    }
                } else {
                    None
                }
            } else {
                let mut cs: Vec<Command> = Vec::new();
                cs.push(c);
                proof {
                    assert(cs.deep_view() =~= seq![cs@[0].deep_view()]);
                }
                Some((cs, j))
            }
        },
    }
}

fn parse_texts(v: &Vec<char>, i: usize) -> (r: Option<(Vec<Vec<char>>, usize)>)
    requires
        i <= v@.len(),
    ensures
        r matches Some((ts, j)) ==> i <= j <= v@.len() && spec_p_texts(v@.skip(i as int)) == Some(
            (ts.deep_view(), v@.skip(j as int)),
        ),
        r is None ==> spec_p_texts(v@.skip(i as int)) is None,
    decreases v@.len() - i,
{
    match parse_jstr(v, i) {
        None => None,
        Some((t, j)) => {
            proof {
                assert(j < v@.len() ==> v@.skip(j as int)[0] == v@[j as int]);
                if j < v@.len() {
                    assert(v@.skip(j as int).drop_first() =~= v@.skip(j as int + 1));
                }
            }
            if j < v.len() && v[j] == ',' {
                if j > i {
                    match parse_texts(v, j + 1) {
                        None => None,
                        Some((ts, j2)) => {
                            let ghost pre = ts.deep_view();
                            let mut rest = ts;
                            let mut out: Vec<Vec<char>> = Vec::new();
                            out.push(t);
                            out.append(&mut rest);
                            proof {
                                assert(out.deep_view() =~= seq![out@[0]@] + pre);
                            }
                            Some((out, j2))
                        },
                    }
                } else {
                    None
                }
            } else {
                let mut ts: Vec<Vec<char>> = Vec::new();
                ts.push(t);
                proof {
                    assert(ts.deep_view() =~= seq![ts@[0]@]);
                }
                Some((ts, j))
            }
        },
    }
}

fn parse_trigger(v: &Vec<char>, i: usize) -> (r: Option<(Trigger, usize)>)
    requires
        i <= v@.len(),
    ensures
        r matches Some((t, j)) ==> i <= j <= v@.len() && spec_p_trigger(v@.skip(i as int)) == Some(
            (t.deep_view(), v@.skip(j as int)),
        ),
        r is None ==> spec_p_trigger(v@.skip(i as int)) is None,
{
    let j1 = match expect_str(v, i, "{\"action\":") {
        None => {
            return None;
        },
        Some(j) => j,
    };
    let (action, j2) = match expect_str(v, j1, "null") {
        Some(j) => (None, j),
        None => match parse_jstr(v, j1) {
            None => {
                return None;
            },
            Some((w, j)) => match Hook::from_wire(&w) {
                None => {
                    return None;
                },
                Some(h) => (Some(h), j),
            },
        },
    };
    let j3 = match expect_str(v, j2, ",\"branch\":") {
        None => {
            return None;
        },
        Some(j) => j,
    };
    let (branch, j4) = match parse_opt_jstr(v, j3) {
        None => {
            return None;
        },
        Some(x) => x,
    };
    let j5 = match expect_str(v, j4, "}") {
        None => {
            return None;
        },
        Some(j) => j,
    };
    Some((Trigger { action, branch }, j5))
}

fn parse_triggers(v: &Vec<char>, i: usize) -> (r: Option<(Vec<Trigger>, usize)>)
    requires
        i <= v@.len(),
    ensures
        r matches Some((ts, j)) ==> i <= j <= v@.len() && spec_p_triggers(v@.skip(i as int))
            == Some((ts.deep_view(), v@.skip(j as int))),
        r is None ==> spec_p_triggers(v@.skip(i as int)) is None,
    decreases v@.len() - i,
{
    match parse_trigger(v, i) {
        None => None,
        Some((t, j)) => {
            proof {
                assert(j < v@.len() ==> v@.skip(j as int)[0] == v@[j as int]);
                if j < v@.len() {
                    assert(v@.skip(j as int).drop_first() =~= v@.skip(j as int + 1));
                }
            }
            if j < v.len() && v[j] == ',' {
                if j > i {
                    match parse_triggers(v, j + 1) {
                        None => None,
                        Some((ts, j2)) => {
                            let ghost pre = ts.deep_view();
                            let mut rest = ts;
                            let mut out: Vec<Trigger> = Vec::new();
                            out.push(t);
                            out.append(&mut rest);
                            proof {
                                assert(out.deep_view() =~= seq![t.deep_view()] + pre);
                            }
                            Some((out, j2))
                        },
                    }
                } else {
                    None
                }
            } else {
                let mut ts: Vec<Trigger> = Vec::new();
                ts.push(t);
                proof {
                    assert(ts.deep_view() =~= seq![ts@[0].deep_view()]);
                }
                Some((ts, j))
            }
        },
    }
}

fn parse_step(v: &Vec<char>, i: usize) -> (r: Option<(Step, usize)>)
    requires
        i <= v@.len(),
    ensures
        r matches Some((s, j)) ==> i <= j <= v@.len() && spec_p_step(v@.skip(i as int)) == Some(
            (s.deep_view(), v@.skip(j as int)),
        ),
        r is None ==> spec_p_step(v@.skip(i as int)) is None,
{
    let j1 = match expect_str(v, i, "{\"name\":") {
        None => {
            return None;
        },
        Some(j) => j,
    };
    let (name, j2) = match parse_jstr(v, j1) {
        None => {
            return None;
        },
        Some(x) => x,
    };
    let j3 = match expect_str(v, j2, ",\"commands\":[") {
        None => {
            return None;
        },
        Some(j) => j,
    };
    proof {
        assert(j3 < v@.len() ==> v@.skip(j3 as int)[0] == v@[j3 as int]);
    }
    let (commands, j4) = if j3 < v.len() && v[j3] == ']' {
        (Vec::new(), j3)
    } else {
        match parse_commands(v, j3) {
            None => {
                return None;
            },
            Some(x) => x,
        }
    };
    proof {
        assert(commands@.len() == 0 ==> commands.deep_view() =~= Seq::<CommandView>::empty());
    }
    let j5 = match expect_str(v, j4, "],\"non_blocking\":") {
        None => {
            return None;
        },
        Some(j) => j,
    };
    let (non_blocking, j6) = match expect_str(v, j5, "null") {
        Some(j) => (None, j),
        None => match parse_bool(v, j5) {
            None => {
                return None;
            },
            Some((b, j)) => (Some(b), j),
        },
    };
    let j7 = match expect_str(v, j6, ",\"on_failure\":") {
        None => {
            return None;
        },
        Some(j) => j,
    };
    let (on_failure, j11) = match expect_str(v, j7, "null") {
        Some(j) => (None, j),
        None => {
            let j8 = match expect_str(v, j7, "[") {
                None => {
                    return None;
                },
                Some(j) => j,
            };
            proof {
                assert(j8 < v@.len() ==> v@.skip(j8 as int)[0] == v@[j8 as int]);
            }
            let (fb, j9) = if j8 < v.len() && v[j8] == ']' {
                (Vec::new(), j8)
            } else {
                match parse_texts(v, j8) {
                    None => {
                        return None;
                    },
                    Some(x) => x,
                }
            };
            proof {
                assert(fb@.len() == 0 ==> fb.deep_view() =~= Seq::<Seq<char>>::empty());
            }
            let j10 = match expect_str(v, j9, "]") {
                None => {
                    return None;
                },
                Some(j) => j,
            };
            (Some(fb), j10)
        },
    };
    let j12 = match expect_str(v, j11, "}") {
        None => {
            return None;
        },
        Some(j) => j,
    };
    Some((Step { name, commands, non_blocking, on_failure }, j12))
}

fn parse_steps(v: &Vec<char>, i: usize) -> (r: Option<(Vec<Step>, usize)>)
    requires
        i <= v@.len(),
    ensures
        r matches Some((ss, j)) ==> i <= j <= v@.len() && spec_p_steps(v@.skip(i as int)) == Some(
            (ss.deep_view(), v@.skip(j as int)),
        ),
        r is None ==> spec_p_steps(v@.skip(i as int)) is None,
    decreases v@.len() - i,
{
    match parse_step(v, i) {
        None => None,
        Some((st, j)) => {
            proof {
                assert(j < v@.len() ==> v@.skip(j as int)[0] == v@[j as int]);
                if j < v@.len() {
                    assert(v@.skip(j as int).drop_first() =~= v@.skip(j as int + 1));
                }
            }
            if j < v.len() && v[j] == ',' {
                if j > i {
                    match parse_steps(v, j + 1) {
                        None => None,
                        Some((ss, j2)) => {
                            let ghost pre = ss.deep_view();
                            let mut rest = ss;
                            let mut out: Vec<Step> = Vec::new();
                            out.push(st);
                            out.append(&mut rest);
                            proof {
                                assert(out.deep_view() =~= seq![st.deep_view()] + pre);
                            }
                            Some((out, j2))
                        },
                    }
                } else {
                    None
                }
            } else {
                let mut ss: Vec<Step> = Vec::new();
                ss.push(st);
                proof {
                    assert(ss.deep_view() =~= seq![ss@[0].deep_view()]);
                }
                Some((ss, j))
            }
        },
    }
}

impl Pipeline {
    /// Read one snapshot back from a log line; `None` on anything the writer
    /// above would not have produced.
    pub fn from_log_line(line: &Vec<char>) -> (r: Option<Pipeline>)
        ensures
            r matches Some(p) ==> spec_parse_line(line@) == Some(p.deep_view()),
            r is None ==> spec_parse_line(line@) is None,
    {
        let v = line;
        proof {
            assert(v@.skip(0) =~= v@);
        }
        let j1 = match expect_str(v, 0, "{\"uuid\":") {
            None => {
                return None;
            },
            Some(j) => j,
        };
        let (uuid, j2) = match parse_jstr(v, j1) {
            None => {
                return None;
            },
            Some(x) => x,
        };
        let j3 = match expect_str(v, j2, ",\"pid\":") {
            None => {
                return None;
            },
            Some(j) => j,
        };
        let (pid, j4) = match parse_opt_num(v, j3) {
            None => {
                return None;
            },
            Some(x) => x,
        };
        let j5 = match expect_str(v, j4, ",\"name\":") {
            None => {
                return None;
            },
            Some(j) => j,
        };
        let (name, j6) = match parse_jstr(v, j5) {
            None => {
                return None;
            },
            Some(x) => x,
        };
        let j7 = match expect_str(v, j6, ",\"date\":") {
            None => {
                return None;
            },
            Some(j) => j,
        };
        let (date, j8) = match parse_opt_jstr(v, j7) {
            None => {
                return None;
            },
            Some(x) => x,
        };
        let j9 = match expect_str(v, j8, ",\"status\":") {
            None => {
                return None;
            },
            Some(j) => j,
        };
        let (status, j10) = match parse_status(v, j9) {
            None => {
                return None;
            },
            Some(x) => x,
        };
        let j11 = match expect_str(v, j10, ",\"triggers\":") {
            None => {
                return None;
            },
            Some(j) => j,
        };
        let (triggers, j15) = match expect_str(v, j11, "null") {
            Some(j) => (None, j),
            None => {
                let j12 = match expect_str(v, j11, "[") {
                    None => {
                        return None;
                    },
                    Some(j) => j,
                };
                proof {
                    assert(j12 < v@.len() ==> v@.skip(j12 as int)[0] == v@[j12 as int]);
                }
                let (ts, j13) = if j12 < v.len() && v[j12] == ']' {
                    (Vec::new(), j12)
                } else {
                    match parse_triggers(v, j12) {
                        None => {
                            return None;
                        },
                        Some(x) => x,
                    }
                };
                proof {
                    assert(ts@.len() == 0 ==> ts.deep_view() =~= Seq::<TriggerView>::empty());
                }
                let j14 = match expect_str(v, j13, "]") {
                    None => {
                        return None;
                    },
                    Some(j) => j,
                };
                (Some(ts), j14)
            },
        };
        let j16 = match expect_str(v, j15, ",\"steps\":[") {
            None => {
                return None;
            },
            Some(j) => j,
        };
        proof {
            assert(j16 < v@.len() ==> v@.skip(j16 as int)[0] == v@[j16 as int]);
        }
        let (steps, j17) = if j16 < v.len() && v[j16] == ']' {
            (Vec::new(), j16)
        } else {
            match parse_steps(v, j16) {
                None => {
                    return None;
                },
                Some(x) => x,
            }
        };
        proof {
            assert(steps@.len() == 0 ==> steps.deep_view() =~= Seq::<StepView>::empty());
        }
        let j18 = match expect_str(v, j17, "]}") {
            None => {
                return None;
            },
            Some(j) => j,
        };
        if j18 != v.len() {
            return None;
        }
        Some(Pipeline { uuid, pid, name, date, status, triggers, steps })
    }
}

// ---------------------------------------------------------------------------
// Round trip: what the writer writes, the reader reads back unchanged.
// ---------------------------------------------------------------------------
proof fn lemma_p_lit(lit: Seq<char>, rest: Seq<char>)
    ensures
        spec_p_lit(lit + rest, lit) == Some(rest),
{
    let s = lit + rest;
    assert(s.subrange(0, lit.len() as int) =~= lit);
    assert(s.skip(lit.len() as int) =~= rest);
}

proof fn lemma_null_fails(s: Seq<char>)
    requires
        s.len() > 0,
        s[0] != 'n',
    ensures
        spec_p_lit(s, "null"@) is None,
{
    reveal_strlit("null");
    if "null"@.len() <= s.len() {
        assert(s.subrange(0, 4)[0] == s[0]);
        assert(s.subrange(0, 4) != "null"@);
    }
}

proof fn lemma_strbody_round_trip(x: Seq<char>, rest: Seq<char>)
    ensures
        spec_p_strbody(spec_escape(x) + seq!['"'] + rest) == Some((x, rest)),
    decreases x.len(),
{
    let s = spec_escape(x) + seq!['"'] + rest;
    if x.len() == 0 {
        assert(spec_escape(x) =~= Seq::<char>::empty());
        assert(s =~= seq!['"'] + rest);
        assert(s[0] == '"');
        assert(s.drop_first() =~= rest);
        assert(Seq::<char>::empty() =~= x);
    } else {
        let c = x[0];
        let x1 = x.drop_first();
        lemma_strbody_round_trip(x1, rest);
        let s1 = spec_escape(x1) + seq!['"'] + rest;
        assert(spec_escape(x) == spec_esc_char(c) + spec_escape(x1));
        if c == '"' || c == '\\' || c == '\n' {
            assert(s[0] == '\\');
            assert(s[1] == spec_esc_char(c)[1]);
            assert(s.skip(2) =~= s1);
            assert(spec_unesc_char(spec_esc_char(c)[1]) == c);
            assert(seq![c] + x1 =~= x);
        } else {
            assert(s[0] == c);
            assert(s.drop_first() =~= s1);
            assert(seq![c] + x1 =~= x);
        }
    }
}

proof fn lemma_jstr_round_trip(x: Seq<char>, rest: Seq<char>)
    ensures
        spec_p_jstr(spec_jstr(x) + rest) == Some((x, rest)),
        (spec_jstr(x) + rest)[0] == '"',
        (spec_jstr(x) + rest).len() > 0,
{
    let s = spec_jstr(x) + rest;
    assert(s[0] == '"');
    assert(s.drop_first() =~= spec_escape(x) + seq!['"'] + rest);
    lemma_strbody_round_trip(x, rest);
}

proof fn lemma_dec_props(n: nat)
    ensures
        spec_dec(n).len() >= 1,
        forall|i: int| 0 <= i < spec_dec(n).len() ==> spec_is_digit(#[trigger] spec_dec(n)[i]),
    decreases n,
{
    if n < 10 {
        assert(spec_is_digit(spec_digit_char(n)));
    } else {
        lemma_dec_props(n / 10);
        assert(spec_is_digit(spec_digit_char(n % 10)));
        assert forall|i: int| 0 <= i < spec_dec(n).len() implies spec_is_digit(
            #[trigger] spec_dec(n)[i],
        ) by {
            if i < spec_dec(n / 10).len() {
                assert(spec_dec(n)[i] == spec_dec(n / 10)[i]);
            } else {
                assert(spec_dec(n)[i] == spec_digit_char(n % 10));
            }
        }
    }
}

proof fn lemma_val_dec(n: nat)
    ensures
        spec_digits_val(spec_dec(n)) == n,
    decreases n,
{
    if n < 10 {
        assert(spec_dec(n) =~= seq![spec_digit_char(n)]);
        assert(spec_dec(n).drop_last() =~= Seq::<char>::empty());
        assert(spec_digits_val(Seq::<char>::empty()) == 0);
        assert(spec_dec(n).last() == spec_digit_char(n));
        assert(spec_digit_val(spec_digit_char(n)) == n);
    } else {
        lemma_val_dec(n / 10);
        assert(spec_dec(n).drop_last() =~= spec_dec(n / 10));
        assert(spec_dec(n).last() == spec_digit_char(n % 10));
        assert(spec_digit_val(spec_digit_char(n % 10)) == n % 10);
        assert(spec_digits_val(spec_dec(n)) == spec_digits_val(spec_dec(n / 10)) * 10 + n % 10);
        vstd::arithmetic::div_mod::lemma_fundamental_div_mod(n as int, 10);
    }
}

proof fn lemma_u32_round_trip(x: u32, rest: Seq<char>)
    requires
        rest.len() == 0 || !spec_is_digit(rest[0]),
    ensures
        spec_p_u32(spec_dec(x as nat) + rest) == Some((x, rest)),
    decreases x,
{
    let ds = spec_dec(x as nat);
    let s = ds + rest;
    lemma_dec_props(x as nat);
    assert forall|m: int| 0 <= m < ds.len() implies spec_is_digit(s[m]) by {
        assert(s[m] == ds[m]);
    }
    if ds.len() < s.len() {
        assert(s[ds.len() as int] == rest[0]);
    }
    lemma_digits_len_from_pointwise(s, ds.len() as int);
    assert(s.take(ds.len() as int) =~= ds);
    lemma_val_dec(x as nat);
    assert(s.skip(ds.len() as int) =~= rest);
}

proof fn lemma_bool_round_trip(b: bool, rest: Seq<char>)
    ensures
        spec_p_bool(spec_jbool(b) + rest) == Some((b, rest)),
        (spec_jbool(b) + rest)[0] == 't' || (spec_jbool(b) + rest)[0] == 'f',
{
    reveal_strlit("true");
    reveal_strlit("false");
    if b {
        lemma_p_lit("true"@, rest);
        assert((spec_jbool(b) + rest)[0] == 't');
    } else {
        let s = "false"@ + rest;
        assert(s[0] == 'f');
        if "true"@.len() <= s.len() {
            assert(s.subrange(0, 4)[0] == 'f');
            assert(s.subrange(0, 4) != "true"@);
        }
        lemma_p_lit("false"@, rest);
    }
}

proof fn lemma_opt_num_round_trip(p: Option<u32>, rest: Seq<char>)
    requires
        rest.len() > 0,
        !spec_is_digit(rest[0]),
        rest[0] != 'n',
    ensures
        spec_p_opt_num(spec_opt_num(p) + rest) == Some((p, rest)),
{
    match p {
        None => {
            reveal_strlit("null");
            lemma_p_lit("null"@, rest);
        },
        Some(x) => {
            let s = spec_dec(x as nat) + rest;
            lemma_dec_props(x as nat);
            assert(s[0] == spec_dec(x as nat)[0]);
            assert(!spec_is_digit('n')) by {
            }
            assert(s[0] != 'n');
            lemma_null_fails(s);
            lemma_u32_round_trip(x, rest);
        },
    }
}

proof fn lemma_opt_jstr_round_trip(o: Option<Seq<char>>, rest: Seq<char>)
    ensures
        spec_p_opt_jstr(spec_opt_jstr(o) + rest) == Some((o, rest)),
{
    match o {
        None => {
            reveal_strlit("null");
            lemma_p_lit("null"@, rest);
        },
        Some(x) => {
            lemma_jstr_round_trip(x, rest);
            lemma_null_fails(spec_jstr(x) + rest);
        },
    }
}

proof fn lemma_status_round_trip(st: Status, rest: Seq<char>)
    ensures
        spec_p_status(spec_jstr(spec_wire(st)) + rest) == Some((st, rest)),
{
    lemma_jstr_round_trip(spec_wire(st), rest);
    crate::status::lemma_status_wire_round_trip(st);
}

proof fn lemma_output_round_trip(o: OutputView, rest: Seq<char>)
    ensures
        spec_p_output(spec_ser_output(o) + rest) == Some((o, rest)),
        (spec_ser_output(o) + rest)[0] == '{',
        (spec_ser_output(o) + rest).len() > 0,
{
    reveal_strlit("{\"status\":");
    reveal_strlit(",\"code\":");
    reveal_strlit(",\"stdout\":");
    let s = spec_ser_output(o) + rest;
    let t1 = spec_jbool(o.success) + (",\"code\":"@ + (spec_opt_num(o.code) + (",\"stdout\":"@
        + (spec_jstr(o.stdout) + (",\"stderr\":"@ + (spec_jstr(o.stderr) + ("}"@ + rest)))))));
    assert(s =~= "{\"status\":"@ + t1);
    lemma_p_lit("{\"status\":"@, t1);
    assert(s[0] == '{');
    let t2 = ",\"code\":"@ + (spec_opt_num(o.code) + (",\"stdout\":"@ + (spec_jstr(o.stdout) + (
    ",\"stderr\":"@ + (spec_jstr(o.stderr) + ("}"@ + rest))))));
    lemma_bool_round_trip(o.success, t2);
    let t2b = spec_opt_num(o.code) + (",\"stdout\":"@ + (spec_jstr(o.stdout) + (",\"stderr\":"@
        + (spec_jstr(o.stderr) + ("}"@ + rest)))));
    lemma_p_lit(",\"code\":"@, t2b);
    let t2c = ",\"stdout\":"@ + (spec_jstr(o.stdout) + (",\"stderr\":"@ + (spec_jstr(o.stderr)
        + ("}"@ + rest))));
    assert(t2c[0] == ',');
    assert(!spec_is_digit(',') && ',' != 'n');
    lemma_opt_num_round_trip(o.code, t2c);
    let t3 = spec_jstr(o.stdout) + (",\"stderr\":"@ + (spec_jstr(o.stderr) + ("}"@ + rest)));
    lemma_p_lit(",\"stdout\":"@, t3);
    let t4 = ",\"stderr\":"@ + (spec_jstr(o.stderr) + ("}"@ + rest));
    lemma_jstr_round_trip(o.stdout, t4);
    let t5 = spec_jstr(o.stderr) + ("}"@ + rest);
    lemma_p_lit(",\"stderr\":"@, t5);
    let t6 = "}"@ + rest;
    lemma_jstr_round_trip(o.stderr, t6);
    lemma_p_lit("}"@, rest);
}

proof fn lemma_command_round_trip(c: CommandView, rest: Seq<char>)
    ensures
        spec_p_command(spec_ser_command(c) + rest) == Some((c, rest)),
        (spec_ser_command(c) + rest)[0] == '{',
        spec_ser_command(c).len() > 0,
{
    reveal_strlit("{\"stdin\":");
    let s = spec_ser_command(c) + rest;
    let t1 = spec_jstr(c.stdin) + (",\"output\":"@ + (spec_ser_opt_output(c.output) + ("}"@
        + rest)));
    assert(s =~= "{\"stdin\":"@ + t1);
    lemma_p_lit("{\"stdin\":"@, t1);
    assert(s[0] == '{');
    let t2 = ",\"output\":"@ + (spec_ser_opt_output(c.output) + ("}"@ + rest));
    lemma_jstr_round_trip(c.stdin, t2);
    let t3 = spec_ser_opt_output(c.output) + ("}"@ + rest);
    lemma_p_lit(",\"output\":"@, t3);
    let t4 = "}"@ + rest;
    match c.output {
        None => {
            reveal_strlit("null");
            lemma_p_lit("null"@, t4);
            assert(t3 =~= "null"@ + t4);
        },
        Some(o) => {
            lemma_output_round_trip(o, t4);
            lemma_null_fails(t3);
        },
    }
    lemma_p_lit("}"@, rest);
}

#[verifier::rlimit(100)]
proof fn lemma_commands_round_trip(cs: Seq<CommandView>, rest: Seq<char>)
    requires
        cs.len() > 0,
        rest.len() > 0,
        rest[0] != ',',
    ensures
        spec_p_commands(spec_ser_commands(cs) + rest) == Some((cs, rest)),
    decreases cs.len(),
{
    let s = spec_ser_commands(cs) + rest;
    if cs.len() == 1 {
        lemma_command_round_trip(cs[0], rest);
        assert(seq![cs[0]] =~= cs);
    } else {
        let tail = seq![','] + (spec_ser_commands(cs.drop_first()) + rest);
        assert(s =~= spec_ser_command(cs[0]) + tail);
        lemma_command_round_trip(cs[0], tail);
        assert(tail[0] == ',');
        assert(tail.len() < s.len());
        assert(tail.drop_first() =~= spec_ser_commands(cs.drop_first()) + rest);
        lemma_commands_round_trip(cs.drop_first(), rest);
        assert(seq![cs[0]] + cs.drop_first() =~= cs);
    }
}

#[verifier::rlimit(100)]
proof fn lemma_texts_round_trip(ts: Seq<Seq<char>>, rest: Seq<char>)
    requires
        ts.len() > 0,
        rest.len() > 0,
        rest[0] != ',',
    ensures
        spec_p_texts(spec_ser_texts(ts) + rest) == Some((ts, rest)),
    decreases ts.len(),
{
    let s = spec_ser_texts(ts) + rest;
    if ts.len() == 1 {
        lemma_jstr_round_trip(ts[0], rest);
        assert(seq![ts[0]] =~= ts);
    } else {
        let tail = seq![','] + (spec_ser_texts(ts.drop_first()) + rest);
        assert(s =~= spec_jstr(ts[0]) + tail);
        lemma_jstr_round_trip(ts[0], tail);
        assert(tail[0] == ',');
        assert(tail.len() < s.len());
        assert(tail.drop_first() =~= spec_ser_texts(ts.drop_first()) + rest);
        lemma_texts_round_trip(ts.drop_first(), rest);
        assert(seq![ts[0]] + ts.drop_first() =~= ts);
    }
}

proof fn lemma_trigger_round_trip(t: TriggerView, rest: Seq<char>)
    ensures
        spec_p_trigger(spec_ser_trigger(t) + rest) == Some((t, rest)),
        (spec_ser_trigger(t) + rest)[0] == '{',
        spec_ser_trigger(t).len() > 0,
{
    reveal_strlit("{\"action\":");
    let s = spec_ser_trigger(t) + rest;
    let act = match t.action {
        None => "null"@,
        Some(h) => spec_jstr(spec_hook_wire(h)),
    };
    let t1 = act + (",\"branch\":"@ + (spec_opt_jstr(t.branch) + ("}"@ + rest)));
    assert(s =~= "{\"action\":"@ + t1);
    lemma_p_lit("{\"action\":"@, t1);
    assert(s[0] == '{');
    let t2 = ",\"branch\":"@ + (spec_opt_jstr(t.branch) + ("}"@ + rest));
    match t.action {
        None => {
            reveal_strlit("null");
            lemma_p_lit("null"@, t2);
        },
        Some(h) => {
            lemma_jstr_round_trip(spec_hook_wire(h), t2);
            lemma_null_fails(t1);
            crate::hook::lemma_hook_wire_round_trip(h);
        },
    }
    let t3 = spec_opt_jstr(t.branch) + ("}"@ + rest);
    lemma_p_lit(",\"branch\":"@, t3);
    let t4 = "}"@ + rest;
    lemma_opt_jstr_round_trip(t.branch, t4);
    lemma_p_lit("}"@, rest);
}

#[verifier::rlimit(100)]
proof fn lemma_triggers_round_trip(ts: Seq<TriggerView>, rest: Seq<char>)
    requires
        ts.len() > 0,
        rest.len() > 0,
        rest[0] != ',',
    ensures
        spec_p_triggers(spec_ser_triggers(ts) + rest) == Some((ts, rest)),
    decreases ts.len(),
{
    let s = spec_ser_triggers(ts) + rest;
    if ts.len() == 1 {
        lemma_trigger_round_trip(ts[0], rest);
        assert(seq![ts[0]] =~= ts);
    } else {
        let tail = seq![','] + (spec_ser_triggers(ts.drop_first()) + rest);
        assert(s =~= spec_ser_trigger(ts[0]) + tail);
        lemma_trigger_round_trip(ts[0], tail);
        assert(tail[0] == ',');
        assert(tail.len() < s.len());
        assert(tail.drop_first() =~= spec_ser_triggers(ts.drop_first()) + rest);
        lemma_triggers_round_trip(ts.drop_first(), rest);
        assert(seq![ts[0]] + ts.drop_first() =~= ts);
    }
}

#[verifier::rlimit(100)]
proof fn lemma_step_commands(cs: Seq<CommandView>, tail: Seq<char>)
    requires
        tail.len() > 0,
        tail[0] == ']',
    ensures
        ({
            let t3 = spec_ser_commands(cs) + tail;
            (if t3.len() > 0 && t3[0] == ']' {
                Some((Seq::<CommandView>::empty(), t3))
            } else {
                spec_p_commands(t3)
            }) == Some((cs, tail))
        }),
{
    let t3 = spec_ser_commands(cs) + tail;
    if cs.len() == 0 {
        assert(spec_ser_commands(cs) =~= Seq::<char>::empty());
        assert(t3 =~= tail);
        assert(t3[0] == ']');
    } else {
        lemma_command_round_trip(cs[0], tail);
        assert(t3[0] == (spec_ser_commands(cs) + tail)[0]);
        assert(spec_ser_commands(cs)[0] == (spec_ser_command(cs[0]) + (if cs.len() == 1 {
            Seq::<char>::empty()
        } else {
            seq![','] + spec_ser_commands(cs.drop_first())
        }))[0]);
        assert(t3[0] == '{');
        lemma_commands_round_trip(cs, tail);
    }
}

#[verifier::rlimit(100)]
proof fn lemma_step_on_failure(of: Option<Seq<Seq<char>>>, tail: Seq<char>)
    requires
        tail.len() > 0,
        tail[0] == '}',
    ensures
        ({
            let ofs = match of {
                None => "null"@,
                Some(fb) => seq!['['] + spec_ser_texts(fb) + seq![']'],
            };
            let t7 = ofs + tail;
            (match spec_p_lit(t7, "null"@) {
                Some(rest) => Some((None, rest)),
                None => match spec_p_lit(t7, "["@) {
                    None => None,
                    Some(s8) => match (if s8.len() > 0 && s8[0] == ']' {
                        Some((Seq::<Seq<char>>::empty(), s8))
                    } else {
                        spec_p_texts(s8)
                    }) {
                        None => None,
                        Some((fb, s9)) => match spec_p_lit(s9, "]"@) {
                            None => None,
                            Some(s10) => Some((Some(fb), s10)),
                        },
                    },
                },
            }) == Some((of, tail))
        }),
{
    reveal_strlit("null");
    reveal_strlit("[");
    reveal_strlit("]");
    let ofs = match of {
        None => "null"@,
        Some(fb) => seq!['['] + spec_ser_texts(fb) + seq![']'],
    };
    let t7 = ofs + tail;
    match of {
        None => {
            lemma_p_lit("null"@, tail);
        },
        Some(fb) => {
            assert(t7[0] == '[');
            lemma_null_fails(t7);
            let t9 = "]"@ + tail;
            let t8 = spec_ser_texts(fb) + t9;
            assert(t7.skip(1) =~= t8);
            assert(spec_p_lit(t7, "["@) == Some(t8)) by {
                assert(t7.subrange(0, 1) =~= "["@);
            }
            assert(t9[0] == ']');
            if fb.len() == 0 {
                assert(spec_ser_texts(fb) =~= Seq::<char>::empty());
                assert(t8 =~= t9);
                assert(t8[0] == ']');
            } else {
                lemma_jstr_round_trip(fb[0], t9);
                assert(t8[0] == (spec_ser_texts(fb) + t9)[0]);
                assert(spec_ser_texts(fb)[0] == (spec_jstr(fb[0]) + (if fb.len() == 1 {
                    Seq::<char>::empty()
                } else {
                    seq![','] + spec_ser_texts(fb.drop_first())
                }))[0]);
                assert(t8[0] == '"');
                lemma_texts_round_trip(fb, t9);
            }
            lemma_p_lit("]"@, tail);
        },
    }
}

#[verifier::rlimit(100)]
proof fn lemma_step_round_trip(st: StepView, rest: Seq<char>)
    ensures
        spec_p_step(spec_ser_step(st) + rest) == Some((st, rest)),
        (spec_ser_step(st) + rest)[0] == '{',
        spec_ser_step(st).len() > 0,
{
    reveal_strlit("{\"name\":");
    reveal_strlit("],\"non_blocking\":");
    reveal_strlit(",\"on_failure\":");
    reveal_strlit("null");
    reveal_strlit("}");
    let s = spec_ser_step(st) + rest;
    let nb = match st.non_blocking {
        None => "null"@,
        Some(b) => spec_jbool(b),
    };
    let of = match st.on_failure {
        None => "null"@,
        Some(fb) => seq!['['] + spec_ser_texts(fb) + seq![']'],
    };
    let t1 = spec_jstr(st.name) + (",\"commands\":["@ + (spec_ser_commands(st.commands) + (
    "],\"non_blocking\":"@ + (nb + (",\"on_failure\":"@ + (of + ("}"@ + rest)))))));
    assert(s =~= "{\"name\":"@ + t1);
    lemma_p_lit("{\"name\":"@, t1);
    assert(s[0] == '{');
    let t2 = ",\"commands\":["@ + (spec_ser_commands(st.commands) + ("],\"non_blocking\":"@ + (nb
        + (",\"on_failure\":"@ + (of + ("}"@ + rest))))));
    lemma_jstr_round_trip(st.name, t2);
    let t3 = spec_ser_commands(st.commands) + ("],\"non_blocking\":"@ + (nb + (",\"on_failure\":"@
        + (of + ("}"@ + rest)))));
    lemma_p_lit(",\"commands\":["@, t3);
    let t4 = "],\"non_blocking\":"@ + (nb + (",\"on_failure\":"@ + (of + ("}"@ + rest))));
    assert(t4[0] == ']');
    lemma_step_commands(st.commands, t4);
    let t5 = nb + (",\"on_failure\":"@ + (of + ("}"@ + rest)));
    lemma_p_lit("],\"non_blocking\":"@, t5);
    match st.non_blocking {
        None => {
            lemma_p_lit("null"@, ",\"on_failure\":"@ + (of + ("}"@ + rest)));
            assert(t5 =~= "null"@ + (",\"on_failure\":"@ + (of + ("}"@ + rest))));
        },
        Some(b) => {
            lemma_bool_round_trip(b, ",\"on_failure\":"@ + (of + ("}"@ + rest)));
            assert(t5 =~= spec_jbool(b) + (",\"on_failure\":"@ + (of + ("}"@ + rest))));
            lemma_null_fails(t5);
        },
    }
    let t7 = of + ("}"@ + rest);
    lemma_p_lit(",\"on_failure\":"@, t7);
    assert(("}"@ + rest)[0] == '}');
    lemma_step_on_failure(st.on_failure, "}"@ + rest);
    lemma_p_lit("}"@, rest);
}

#[verifier::rlimit(100)]
proof fn lemma_steps_round_trip(ss: Seq<StepView>, rest: Seq<char>)
    requires
        ss.len() > 0,
        rest.len() > 0,
        rest[0] != ',',
    ensures
        spec_p_steps(spec_ser_steps(ss) + rest) == Some((ss, rest)),
    decreases ss.len(),
{
    let s = spec_ser_steps(ss) + rest;
    if ss.len() == 1 {
        lemma_step_round_trip(ss[0], rest);
        assert(seq![ss[0]] =~= ss);
    } else {
        let tail = seq![','] + (spec_ser_steps(ss.drop_first()) + rest);
        assert(s =~= spec_ser_step(ss[0]) + tail);
        lemma_step_round_trip(ss[0], tail);
        assert(tail[0] == ',');
        assert(tail.len() < s.len());
        assert(tail.drop_first() =~= spec_ser_steps(ss.drop_first()) + rest);
        lemma_steps_round_trip(ss.drop_first(), rest);
        assert(seq![ss[0]] + ss.drop_first() =~= ss);
    }
}


#[verifier::rlimit(100)]
proof fn lemma_line_triggers(trv: Option<Seq<TriggerView>>, tail: Seq<char>)
    requires
        tail.len() > 0,
        tail[0] == ',',
    ensures
        ({
            let trs = match trv {
                None => "null"@,
                Some(ts) => seq!['['] + spec_ser_triggers(ts) + seq![']'],
            };
            let t11 = trs + tail;
            (match spec_p_lit(t11, "null"@) {
                Some(rest) => Some((None, rest)),
                None => match spec_p_lit(t11, "["@) {
                    None => None,
                    Some(s12) => match (if s12.len() > 0 && s12[0] == ']' {
                        Some((Seq::<TriggerView>::empty(), s12))
                    } else {
                        spec_p_triggers(s12)
                    }) {
                        None => None,
                        Some((ts, s13)) => match spec_p_lit(s13, "]"@) {
                            None => None,
                            Some(s14) => Some((Some(ts), s14)),
                        },
                    },
                },
            }) == Some((trv, tail))
        }),
{
    reveal_strlit("null");
    reveal_strlit("[");
    reveal_strlit("]");
    let trs = match trv {
        None => "null"@,
        Some(ts) => seq!['['] + spec_ser_triggers(ts) + seq![']'],
    };
    let t11 = trs + tail;
    match trv {
        None => {
            lemma_p_lit("null"@, tail);
        },
        Some(ts) => {
            assert(t11[0] == '[');
            lemma_null_fails(t11);
            let t13 = "]"@ + tail;
            let t12 = spec_ser_triggers(ts) + t13;
            assert(t11.skip(1) =~= t12);
            assert(spec_p_lit(t11, "["@) == Some(t12)) by {
                assert(t11.subrange(0, 1) =~= "["@);
            }
            assert(t13[0] == ']');
            if ts.len() == 0 {
                assert(spec_ser_triggers(ts) =~= Seq::<char>::empty());
                assert(t12 =~= t13);
                assert(t12[0] == ']');
            } else {
                lemma_trigger_round_trip(ts[0], t13);
                assert(t12[0] == (spec_ser_triggers(ts) + t13)[0]);
                assert(spec_ser_triggers(ts)[0] == (spec_ser_trigger(ts[0]) + (if ts.len() == 1 {
                    Seq::<char>::empty()
                } else {
                    seq![','] + spec_ser_triggers(ts.drop_first())
                }))[0]);
                assert(t12[0] == '{');
                lemma_triggers_round_trip(ts, t13);
            }
            lemma_p_lit("]"@, tail);
        },
    }
}

#[verifier::rlimit(100)]
proof fn lemma_line_steps(steps: Seq<StepView>, tail: Seq<char>)
    requires
        tail.len() > 0,
        tail[0] == ']',
    ensures
        ({
            let t16 = spec_ser_steps(steps) + tail;
            (if t16.len() > 0 && t16[0] == ']' {
                Some((Seq::<StepView>::empty(), t16))
            } else {
                spec_p_steps(t16)
            }) == Some((steps, tail))
        }),
{
    let t16 = spec_ser_steps(steps) + tail;
    if steps.len() == 0 {
        assert(spec_ser_steps(steps) =~= Seq::<char>::empty());
        assert(t16 =~= tail);
        assert(t16[0] == ']');
    } else {
        lemma_step_round_trip(steps[0], tail);
        assert(t16[0] == (spec_ser_steps(steps) + tail)[0]);
        assert(spec_ser_steps(steps)[0] == (spec_ser_step(steps[0]) + (if steps.len() == 1 {
            Seq::<char>::empty()
        } else {
            seq![','] + spec_ser_steps(steps.drop_first())
        }))[0]);
        assert(t16[0] == '{');
        lemma_steps_round_trip(steps, tail);
    }
}

/// Round trip: the snapshot line written for a pipeline parses back to that
/// very pipeline — in particular its name, status and pid survive the log.
#[verifier::rlimit(100)]
pub proof fn lemma_log_line_round_trip(p: PipelineView)
    ensures
        spec_parse_line(spec_log_line(p)) == Some(p),
{
    reveal_strlit("{\"uuid\":");
    reveal_strlit(",\"pid\":");
    reveal_strlit(",\"name\":");
    reveal_strlit(",\"date\":");
    reveal_strlit(",\"status\":");
    reveal_strlit(",\"triggers\":");
    reveal_strlit(",\"steps\":[");
    reveal_strlit("null");
    reveal_strlit("[");
    reveal_strlit("]");
    reveal_strlit("]}");
    let s = spec_log_line(p);
    let trs = match p.triggers {
        None => "null"@,
        Some(ts) => seq!['['] + spec_ser_triggers(ts) + seq![']'],
    };
    let t1 = spec_jstr(p.uuid) + (",\"pid\":"@ + (spec_opt_num(p.pid) + (",\"name\":"@ + (
    spec_jstr(p.name) + (",\"date\":"@ + (spec_opt_jstr(p.date) + (",\"status\":"@ + (spec_jstr(
        spec_wire(p.status),
    ) + (",\"triggers\":"@ + (trs + (",\"steps\":["@ + (spec_ser_steps(p.steps) + "]}"@))))))))))));
    assert(s =~= "{\"uuid\":"@ + t1);
    lemma_p_lit("{\"uuid\":"@, t1);
    let t2 = ",\"pid\":"@ + (spec_opt_num(p.pid) + (",\"name\":"@ + (spec_jstr(p.name) + (
    ",\"date\":"@ + (spec_opt_jstr(p.date) + (",\"status\":"@ + (spec_jstr(spec_wire(p.status)) + (
    ",\"triggers\":"@ + (trs + (",\"steps\":["@ + (spec_ser_steps(p.steps) + "]}"@)))))))))));
    lemma_jstr_round_trip(p.uuid, t2);
    let t3 = spec_opt_num(p.pid) + (",\"name\":"@ + (spec_jstr(p.name) + (",\"date\":"@ + (
    spec_opt_jstr(p.date) + (",\"status\":"@ + (spec_jstr(spec_wire(p.status)) + (
    ",\"triggers\":"@ + (trs + (",\"steps\":["@ + (spec_ser_steps(p.steps) + "]}"@))))))))));
    lemma_p_lit(",\"pid\":"@, t3);
    let t4 = ",\"name\":"@ + (spec_jstr(p.name) + (",\"date\":"@ + (spec_opt_jstr(p.date) + (
    ",\"status\":"@ + (spec_jstr(spec_wire(p.status)) + (",\"triggers\":"@ + (trs + (
    ",\"steps\":["@ + (spec_ser_steps(p.steps) + "]}"@)))))))));
    assert(t4[0] == ',');
    assert(!spec_is_digit(',') && ',' != 'n');
    lemma_opt_num_round_trip(p.pid, t4);
    let t5 = spec_jstr(p.name) + (",\"date\":"@ + (spec_opt_jstr(p.date) + (",\"status\":"@ + (
    spec_jstr(spec_wire(p.status)) + (",\"triggers\":"@ + (trs + (",\"steps\":["@ + (
    spec_ser_steps(p.steps) + "]}"@))))))));
    lemma_p_lit(",\"name\":"@, t5);
    let t6 = ",\"date\":"@ + (spec_opt_jstr(p.date) + (",\"status\":"@ + (spec_jstr(
        spec_wire(p.status),
    ) + (",\"triggers\":"@ + (trs + (",\"steps\":["@ + (spec_ser_steps(p.steps) + "]}"@)))))));
    lemma_jstr_round_trip(p.name, t6);
    let t7 = spec_opt_jstr(p.date) + (",\"status\":"@ + (spec_jstr(spec_wire(p.status)) + (
    ",\"triggers\":"@ + (trs + (",\"steps\":["@ + (spec_ser_steps(p.steps) + "]}"@))))));
    lemma_p_lit(",\"date\":"@, t7);
    let t8 = ",\"status\":"@ + (spec_jstr(spec_wire(p.status)) + (",\"triggers\":"@ + (trs + (
    ",\"steps\":["@ + (spec_ser_steps(p.steps) + "]}"@)))));
    lemma_opt_jstr_round_trip(p.date, t8);
    let t9 = spec_jstr(spec_wire(p.status)) + (",\"triggers\":"@ + (trs + (",\"steps\":["@ + (
    spec_ser_steps(p.steps) + "]}"@))));
    lemma_p_lit(",\"status\":"@, t9);
    let t10 = ",\"triggers\":"@ + (trs + (",\"steps\":["@ + (spec_ser_steps(p.steps) + "]}"@)));
    lemma_status_round_trip(p.status, t10);
    let t11 = trs + (",\"steps\":["@ + (spec_ser_steps(p.steps) + "]}"@));
    lemma_p_lit(",\"triggers\":"@, t11);
    let t15 = ",\"steps\":["@ + (spec_ser_steps(p.steps) + "]}"@);
    assert(t15[0] == ',');
    lemma_line_triggers(p.triggers, t15);
    let t16 = spec_ser_steps(p.steps) + "]}"@;
    lemma_p_lit(",\"steps\":["@, t16);
    let t17 = "]}"@;
    assert(t17[0] == ']');
    lemma_line_steps(p.steps, t17);
    lemma_p_lit("]}"@, Seq::<char>::empty());
    assert(t17 =~= "]}"@ + Seq::<char>::empty());
    assert(spec_p_pipeline(s) == Some((p, Seq::<char>::empty())));
}

} // verus!
