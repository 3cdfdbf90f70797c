use pipelight::cast;
use pipelight::error::PipelightError;
use pipelight::hook::Hook;
use pipelight::service::{Actions, Service};
use pipelight::status::Status;
use pipelight::types::{Command, Config, Pipeline, Trigger};

fn t(s: &str) -> Vec<char> {
    s.chars().collect()
}

fn s(v: &[char]) -> String {
    v.iter().collect()
}

#[test]
fn status_wire_round_trip() {
    let all = [
        (Status::Started, "started"),
        (Status::Succeeded, "succeeded"),
        (Status::Failed, "failed"),
        (Status::Running, "running"),
        (Status::Aborted, "aborted"),
        (Status::Never, "never"),
    ];
    for (st, wire) in all {
        let w = st.to_wire();
        assert_eq!(s(&w), wire);
        assert_eq!(Status::from_wire(&w), Some(st));
    }
    assert_eq!(Status::from_wire(&t("bogus")), None);
    assert_eq!(Status::from_wire(&t("Started")), None);
}

#[test]
fn hook_wire_round_trip() {
    let all = [
        (Hook::ApplypatchMsg, "applypatch-msg"),
        (Hook::PreApplypatch, "pre-applypatch"),
        (Hook::PostApplypatch, "post-applypatch"),
        (Hook::PreCommit, "pre-commit"),
        (Hook::PrepareCommitMsg, "prepare-commit-msg"),
        (Hook::CommitMsg, "commit-msg"),
        (Hook::PostCommit, "post-commit"),
        (Hook::PreRebase, "pre-rebase"),
        (Hook::PostCheckout, "post-checkout"),
        (Hook::PostMerge, "post-merge"),
        (Hook::PrePush, "pre-push"),
    ];
    for (h, wire) in all {
        let w = h.to_wire();
        assert_eq!(s(&w), wire);
        assert_eq!(Hook::from_wire(&w), Some(h));
    }
    assert_eq!(Hook::from_wire(&t("post-push")), None);
}

fn cast_pipeline(name: &str) -> cast::Pipeline {
    cast::Pipeline {
        name: t(name),
        steps: vec![cast::Step {
            name: t("step"),
            commands: vec![t("echo hi")],
            non_blocking: None,
            on_failure: None,
        }],
        triggers: None,
    }
}

#[test]
fn duplicate_names_fail_validation() {
    let config = cast::Config {
        pipelines: Some(vec![cast_pipeline("a"), cast_pipeline("b"), cast_pipeline("a")]),
    };
    assert_eq!(config.check_duplicates(), Err(PipelightError::DuplicatePipelineNames));
    let ok = cast::Config { pipelines: Some(vec![cast_pipeline("a"), cast_pipeline("b")]) };
    assert_eq!(ok.check_duplicates(), Ok(()));
    let none = cast::Config { pipelines: None };
    assert_eq!(none.check_duplicates(), Ok(()));
}

#[test]
fn flatten_is_the_cross_product() {
    let declared = cast::Trigger {
        actions: Some(vec![t("pre-push"), t("post-merge")]),
        branches: vec![t("main"), t("dev"), t("feat")],
    };
    let flat = Trigger::flatten(&declared).unwrap();
    assert_eq!(flat.len(), 6);
    let expect = [
        (Hook::PrePush, "main"),
        (Hook::PostMerge, "main"),
        (Hook::PrePush, "dev"),
        (Hook::PostMerge, "dev"),
        (Hook::PrePush, "feat"),
        (Hook::PostMerge, "feat"),
    ];
    for (i, (h, b)) in expect.iter().enumerate() {
        assert_eq!(flat[i].action, Some(*h));
        assert_eq!(s(flat[i].branch.as_ref().unwrap()), *b);
    }
    for i in 0..flat.len() {
        for j in (i + 1)..flat.len() {
            assert!(!flat[i].matches(&flat[j]));
        }
    }
}

#[test]
fn flatten_without_actions_fails() {
    let declared = cast::Trigger { actions: None, branches: vec![t("main")] };
    assert!(matches!(Trigger::flatten(&declared), Err(PipelightError::NoActions)));
}

#[test]
fn flatten_with_unknown_hook_fails() {
    let declared = cast::Trigger {
        actions: Some(vec![t("pre-push"), t("post-push")]),
        branches: vec![t("main")],
    };
    assert!(matches!(Trigger::flatten(&declared), Err(PipelightError::UnknownHook)));
}

#[test]
fn env_builds_the_actual_context() {
    let env = Trigger::env(Some(t("main")), Some(t("pre-push"))).unwrap();
    assert_eq!(env.action, Some(Hook::PrePush));
    assert_eq!(s(env.branch.as_ref().unwrap()), "main");
    assert!(matches!(
        Trigger::env(None, Some(t("pre-push"))),
        Err(PipelightError::NoBranch)
    ));
    assert!(matches!(Trigger::env(Some(t("main")), None), Err(PipelightError::UnknownHook)));
    assert!(matches!(
        Trigger::env(Some(t("main")), Some(t("post-push"))),
        Err(PipelightError::UnknownHook)
    ));
}

fn pipeline_with_triggers(name: &str, triggers: Option<Vec<Trigger>>) -> Pipeline {
    Pipeline {
        uuid: t("0000"),
        pid: None,
        name: t(name),
        date: None,
        status: Status::Never,
        triggers,
        steps: vec![],
    }
}

#[test]
fn is_triggerable_is_exact_match_only() {
    let declared = Trigger { action: Some(Hook::PrePush), branch: Some(t("main")) };
    let p = pipeline_with_triggers("a", Some(vec![declared]));
    let hit = Trigger { action: Some(Hook::PrePush), branch: Some(t("main")) };
    let wrong_branch = Trigger { action: Some(Hook::PrePush), branch: Some(t("dev")) };
    let wrong_action = Trigger { action: Some(Hook::PostMerge), branch: Some(t("main")) };
    assert!(p.is_triggerable(&hit));
    assert!(!p.is_triggerable(&wrong_branch));
    assert!(!p.is_triggerable(&wrong_action));
    let untriggered = pipeline_with_triggers("b", None);
    assert!(!untriggered.is_triggerable(&hit));
}

#[test]
fn triggerable_selects_matching_pipelines() {
    let rule = |h: Hook, b: &str| Trigger { action: Some(h), branch: Some(t(b)) };
    let config = Config {
        pipelines: Some(vec![
            pipeline_with_triggers("one", Some(vec![rule(Hook::PrePush, "main")])),
            pipeline_with_triggers("two", None),
            pipeline_with_triggers("three", Some(vec![rule(Hook::PostMerge, "main")])),
            pipeline_with_triggers("four", Some(vec![rule(Hook::PrePush, "main")])),
        ]),
    };
    let env = rule(Hook::PrePush, "main");
    assert_eq!(config.triggerable(&env), vec![0usize, 3usize]);
    let nobody = rule(Hook::PreCommit, "dev");
    assert_eq!(config.triggerable(&nobody), Vec::<usize>::new());
}

#[test]
fn config_lookup_by_name() {
    let config = Config {
        pipelines: Some(vec![pipeline_with_triggers("a", None), pipeline_with_triggers("b", None)]),
    };
    let found = config.pipeline(&t("b")).unwrap();
    assert_eq!(s(&found.name), "b");
    assert!(matches!(config.pipeline(&t("zzz")), Err(PipelightError::PipelineNotFound)));
    let empty = Config { pipelines: None };
    assert!(matches!(empty.pipeline(&t("a")), Err(PipelightError::PipelineNotFound)));
}

#[test]
fn config_collects_all_triggers() {
    let rule = |h: Hook, b: &str| Trigger { action: Some(h), branch: Some(t(b)) };
    let config = Config {
        pipelines: Some(vec![
            pipeline_with_triggers("one", Some(vec![rule(Hook::PrePush, "main")])),
            pipeline_with_triggers("two", None),
            pipeline_with_triggers("three", Some(vec![
                rule(Hook::PostMerge, "dev"),
                rule(Hook::PreCommit, "main"),
            ])),
        ]),
    };
    let all = config.triggers();
    assert_eq!(all.len(), 3);
    assert_eq!(all[0].action, Some(Hook::PrePush));
    assert_eq!(all[1].action, Some(Hook::PostMerge));
    assert_eq!(all[2].action, Some(Hook::PreCommit));
}

#[test]
fn conversion_from_declared_config() {
    let declared = cast::Config {
        pipelines: Some(vec![cast::Pipeline {
            name: t("deploy"),
            steps: vec![cast::Step {
                name: t("build"),
                commands: vec![t("make"), t("make install")],
                non_blocking: Some(true),
                on_failure: Some(vec![t("make clean")]),
            }],
            triggers: Some(vec![cast::Trigger {
                actions: Some(vec![t("pre-push")]),
                branches: vec![t("main"), t("dev")],
            }]),
        }]),
    };
    let config = Config::from(&declared).unwrap();
    let ps = config.pipelines.as_ref().unwrap();
    assert_eq!(ps.len(), 1);
    let p = &ps[0];
    assert_eq!(s(&p.name), "deploy");
    assert_eq!(p.status, Status::Never);
    assert_eq!(p.pid, None);
    assert_eq!(p.uuid.len(), 36);
    assert!(p.date.is_some());
    assert_eq!(p.steps.len(), 1);
    assert_eq!(s(&p.steps[0].commands[0].stdin), "make");
    assert_eq!(s(&p.steps[0].commands[1].stdin), "make install");
    assert!(p.steps[0].commands[0].output.is_none());
    assert_eq!(p.steps[0].non_blocking, Some(true));
    let flat = p.triggers.as_ref().unwrap();
    assert_eq!(flat.len(), 2);
    assert_eq!(flat[0].action, Some(Hook::PrePush));
    assert_eq!(s(flat[0].branch.as_ref().unwrap()), "main");
    assert_eq!(s(flat[1].branch.as_ref().unwrap()), "dev");
}

#[test]
fn conversion_rejects_bad_triggers() {
    let declared = cast::Config {
        pipelines: Some(vec![cast::Pipeline {
            name: t("deploy"),
            steps: vec![],
            triggers: Some(vec![cast::Trigger { actions: None, branches: vec![t("main")] }]),
        }]),
    };
    assert!(matches!(Config::from(&declared), Err(PipelightError::NoActions)));
}

#[test]
fn error_messages() {
    assert_eq!(PipelightError::NotRunning.message(), "pipeline isn't running");
    assert_eq!(
        PipelightError::DuplicatePipelineNames.message(),
        "duplicate pipeline names in config"
    );
}

#[test]
fn service_carries_its_action() {
    let svc = Service::new(Actions::Trigger, None);
    assert_eq!(svc.cmd, Actions::Trigger);
    assert!(svc.args.is_none());
}

#[test]
fn command_new_is_empty() {
    let c = Command::new();
    assert!(c.stdin.is_empty());
    assert!(c.output.is_none());
    let c2 = Command::from(&t("echo hi"));
    assert_eq!(s(&c2.stdin), "echo hi");
    assert!(c2.output.is_none());
}

#[test]
fn status_setter_advances_the_status() {
    let mut p = pipeline_with_triggers("a", None);
    assert_eq!(p.status, Status::Never);
    p.status(&Status::Running);
    assert_eq!(p.status, Status::Running);
    p.status(&Status::Succeeded);
    assert_eq!(p.status, Status::Succeeded);
}

#[test]
fn config_new_validates_before_converting() {
    let dup = cast::Config {
        pipelines: Some(vec![cast_pipeline("a"), cast_pipeline("a")]),
    };
    assert!(matches!(Config::new(&dup), Err(PipelightError::DuplicatePipelineNames)));
    let good = cast::Config {
        pipelines: Some(vec![cast_pipeline("a"), cast_pipeline("b")]),
    };
    let config = Config::new(&good).unwrap();
    let ps = config.pipelines.as_ref().unwrap();
    assert_eq!(ps.len(), 2);
    assert_ne!(s(&ps[0].name), s(&ps[1].name));
    assert!(Config::new(&cast::Config { pipelines: None }).unwrap().pipelines.is_none());
}
