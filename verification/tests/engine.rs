use pipelight::logs::Logs;
use pipelight::error::PipelightError;
use pipelight::runner::{Phase, Runner};
use pipelight::status::Status;
use pipelight::types::{stop, Command, Output, Pipeline, Step};

fn t(s: &str) -> Vec<char> {
    s.chars().collect()
}

fn s(v: &[char]) -> String {
    v.iter().collect()
}

fn command(line: &str) -> Command {
    Command { stdin: t(line), output: None }
}

fn ok_output(stdout: &str) -> Output {
    Output { success: true, code: Some(0), stdout: t(stdout), stderr: t("") }
}

fn failed_output(stderr: &str) -> Output {
    Output { success: false, code: Some(1), stdout: t(""), stderr: t(stderr) }
}

fn pipeline(name: &str, steps: Vec<Step>) -> Pipeline {
    Pipeline {
        uuid: t("5e0d2345-6789-4abc-8def-001122334455"),
        pid: None,
        name: t(name),
        date: Some(t("2024-01-01 00:00:00 UTC")),
        status: Status::Never,
        triggers: None,
        steps,
    }
}

fn rank(s: Status) -> u32 {
    match s {
        Status::Never => 0,
        Status::Started => 1,
        Status::Running => 2,
        _ => 3,
    }
}

#[test]
fn failing_step_runs_fallback_and_stops_the_run() {
    // pipeline "build": step1 runs `echo hi`; step2 runs `exit 1`, fails,
    // and has `echo cleanup` as its fallback. Expected: final status
    // `Failed`, step1's output captured, the fallback invoked, and nothing
    // after step2.
    let steps = vec![
        Step { name: t("step1"), commands: vec![command("echo hi")], non_blocking: None, on_failure: None },
        Step {
            name: t("step2"),
            commands: vec![command("exit 1")],
            non_blocking: None,
            on_failure: Some(vec![t("echo cleanup")]),
        },
    ];
    let mut statuses: Vec<Status> = Vec::new();
    let p = pipeline("build", steps);
    statuses.push(p.status);
    let mut r = Runner::new(p, 42);
    statuses.push(r.pipeline.status);
    assert_eq!(r.pipeline.pid, Some(42));
    assert_eq!(r.pipeline.status, Status::Running);

    assert_eq!(s(&r.next_command().unwrap()), "echo hi");
    r.record(ok_output("hi"));
    statuses.push(r.pipeline.status);
    assert_eq!(r.pipeline.status, Status::Running);
    assert_eq!(
        s(&r.pipeline.steps[0].commands[0].output.as_ref().unwrap().stdout),
        "hi"
    );
    assert_eq!(r.pipeline.steps[0].commands[0].output.as_ref().unwrap().code, Some(0));

    assert_eq!(s(&r.next_command().unwrap()), "exit 1");
    r.record(failed_output("boom"));
    statuses.push(r.pipeline.status);
    assert_eq!(r.pipeline.status, Status::Failed);

    // the fallback command runs, and nothing after it
    assert_eq!(s(&r.next_command().unwrap()), "echo cleanup");
    r.record(ok_output(""));
    statuses.push(r.pipeline.status);
    assert_eq!(r.pipeline.status, Status::Failed);
    assert!(r.next_command().is_none());
    assert!(!r.needs_finish());
    assert_eq!(r.phase, Phase::Done);

    // status only ever moved forward
    for w in statuses.windows(2) {
        assert!(rank(w[0]) <= rank(w[1]));
    }
}

#[test]
fn non_blocking_failure_does_not_stop_the_run() {
    let steps = vec![
        Step {
            name: t("lint"),
            commands: vec![command("exit 1")],
            non_blocking: Some(true),
            on_failure: None,
        },
        Step { name: t("build"), commands: vec![command("make")], non_blocking: None, on_failure: None },
    ];
    let mut r = Runner::new(pipeline("soft", steps), 7);
    assert_eq!(s(&r.next_command().unwrap()), "exit 1");
    r.record(failed_output("lint failed"));
    // not failed because of the non-blocking command; the next step runs
    assert_eq!(r.pipeline.status, Status::Running);
    assert_eq!(s(&r.next_command().unwrap()), "make");
    r.record(ok_output(""));
    assert!(r.next_command().is_none());
    assert!(r.needs_finish());
    r.finish();
    assert_eq!(r.pipeline.status, Status::Succeeded);
    assert_eq!(r.pipeline.pid, None);
}

#[test]
fn blocking_failure_without_fallback_skips_later_steps() {
    let steps = vec![
        Step { name: t("one"), commands: vec![command("exit 1")], non_blocking: None, on_failure: None },
        Step { name: t("two"), commands: vec![command("echo never")], non_blocking: None, on_failure: None },
    ];
    let mut r = Runner::new(pipeline("hard", steps), 7);
    r.record(failed_output(""));
    assert_eq!(r.pipeline.status, Status::Failed);
    assert!(r.next_command().is_none());
    assert!(r.pipeline.steps[1].commands[0].output.is_none());
}

#[test]
fn empty_pipeline_succeeds_immediately() {
    let mut r = Runner::new(pipeline("empty", vec![]), 9);
    assert!(r.next_command().is_none());
    assert!(r.needs_finish());
    r.finish();
    assert_eq!(r.pipeline.status, Status::Succeeded);
    assert_eq!(r.pipeline.pid, None);
}

#[test]
fn abort_writes_its_own_terminal_state() {
    let steps = vec![Step {
        name: t("one"),
        commands: vec![command("sleep 60")],
        non_blocking: None,
        on_failure: None,
    }];
    let mut r = Runner::new(pipeline("task", steps), 11);
    r.abort();
    assert_eq!(r.pipeline.status, Status::Aborted);
    assert_eq!(r.pipeline.pid, None);
    assert_eq!(r.phase, Phase::Done);
}

#[test]
fn log_line_exact_shape() {
    let p = Pipeline {
        uuid: t("u"),
        pid: None,
        name: t("p"),
        date: None,
        status: Status::Never,
        triggers: None,
        steps: vec![],
    };
    let line = s(&p.log());
    assert_eq!(
        line,
        "{\"uuid\":\"u\",\"pid\":null,\"name\":\"p\",\"date\":null,\"status\":\"never\",\"triggers\":null,\"steps\":[]}"
    );
}

#[test]
fn log_line_is_valid_json() {
    let steps = vec![Step {
        name: t("step1"),
        commands: vec![Command { stdin: t("echo hi"), output: Some(ok_output("hi")) }],
        non_blocking: Some(false),
        on_failure: Some(vec![t("echo cleanup")]),
    }];
    let mut p = pipeline("build", steps);
    p.pid = Some(1234);
    p.status = Status::Running;
    let line = s(&p.log());
    let value: serde_json::Value = serde_json::from_str(&line).unwrap();
    assert_eq!(value.get("name").unwrap().as_str().unwrap(), "build");
    assert_eq!(value.get("pid").unwrap().as_u64().unwrap(), 1234);
    assert_eq!(value.get("status").unwrap().as_str().unwrap(), "running");
    assert_eq!(
        value.get("steps").unwrap()[0]["commands"][0]["stdin"].as_str().unwrap(),
        "echo hi"
    );
    assert_eq!(
        value.get("steps").unwrap()[0]["commands"][0]["output"]["code"].as_u64().unwrap(),
        0
    );
}

#[test]
fn log_line_round_trip() {
    let steps = vec![Step {
        name: t("step1"),
        commands: vec![Command { stdin: t("echo hi"), output: Some(ok_output("hi")) }],
        non_blocking: Some(true),
        on_failure: Some(vec![t("echo cleanup")]),
    }];
    let mut p = pipeline("build", steps);
    p.pid = Some(321);
    p.status = Status::Running;
    let line = p.log();
    let q = Pipeline::from_log_line(&line).unwrap();
    assert_eq!(s(&q.name), "build");
    assert_eq!(q.status, Status::Running);
    assert_eq!(q.pid, Some(321));
    assert_eq!(s(&q.uuid), s(&p.uuid));
    assert_eq!(s(q.date.as_ref().unwrap()), s(p.date.as_ref().unwrap()));
    assert_eq!(q.steps.len(), 1);
    assert_eq!(s(&q.steps[0].commands[0].stdin), "echo hi");
    assert_eq!(
        s(&q.steps[0].commands[0].output.as_ref().unwrap().stdout),
        "hi"
    );
    assert_eq!(q.steps[0].commands[0].output.as_ref().unwrap().code, Some(0));
    assert_eq!(q.steps[0].non_blocking, Some(true));
    assert_eq!(s(&q.steps[0].on_failure.as_ref().unwrap()[0]), "echo cleanup");
}

#[test]
fn log_line_round_trip_with_escapes() {
    let mut p = pipeline("na\"me\\with\nnasties", vec![]);
    p.status = Status::Started;
    let line = p.log();
    // still one line
    assert!(!line.contains(&'\n'));
    let q = Pipeline::from_log_line(&line).unwrap();
    assert_eq!(s(&q.name), "na\"me\\with\nnasties");
    assert_eq!(q.status, Status::Started);
}

#[test]
fn garbage_line_is_rejected() {
    assert!(Pipeline::from_log_line(&t("not a snapshot")).is_none());
    assert!(Pipeline::from_log_line(&t("")).is_none());
    assert!(Pipeline::from_log_line(&t("{\"uuid\":\"u\"")).is_none());
}

fn last_line(name: &str, pid: Option<u32>) -> Vec<char> {
    let mut p = pipeline(name, vec![]);
    p.pid = pid;
    p.status = if pid.is_some() { Status::Running } else { Status::Succeeded };
    p.log()
}

#[test]
fn discovery_and_stop_by_name() {
    // three streams: only "x" looks alive
    let lines = vec![last_line("x", Some(77)), last_line("y", None), last_line("z", None)];
    let all = Logs::get(&lines);
    assert_eq!(all.len(), 3);
    let xs = Logs::get_by_name(&lines, &t("x"));
    assert_eq!(xs.len(), 1);
    assert_eq!(xs[0].pid, Some(77));

    assert_eq!(stop(&all, &t("x")), Ok(vec![77]));
    assert!(matches!(stop(&all, &t("y")), Err(PipelightError::NotRunning)));
    assert!(matches!(stop(&all, &t("w")), Err(PipelightError::NotRunning)));
}

#[test]
fn discovery_skips_unparsable_streams() {
    let lines = vec![last_line("x", None), t("{{{{broken"), last_line("y", Some(5))];
    let all = Logs::get(&lines);
    assert_eq!(all.len(), 2);
    assert_eq!(s(&all[0].name), "x");
    assert_eq!(s(&all[1].name), "y");
}

#[test]
fn is_running_counts_any_running_match() {
    let mine = pipeline("x", vec![]);
    let running = Logs::get(&vec![last_line("x", Some(3))]);
    assert!(mine.is_running(&running));
    // a finished stream of the same name ahead of the live one does not hide it
    let mixed = Logs::get(&vec![last_line("x", None), last_line("x", Some(3))]);
    assert!(mine.is_running(&mixed));
    let finished = Logs::get(&vec![last_line("x", None), last_line("x", None)]);
    assert!(!mine.is_running(&finished));
    let others = Logs::get(&vec![last_line("y", Some(3))]);
    assert!(!mine.is_running(&others));
}
