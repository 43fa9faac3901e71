use bah::config::{Arg, Args, Config};
use bah::backend::alpm::{
    add_target, event_cb, plan_from_args, target_lookup, trans_flags_for_remove,
    trans_flags_for_sync, trans_flags_for_upgrade, AlpmBackend, LocalRun, Operation, Route, Stage,
    StageResult, TargetFound, TargetLookup,
};
use bah::backend::legacy_pacman::LegacyPacmanBackend;
use bah::backend::{allow_fallback, pacman, selected_backend, BackendKind, BackendStep};
use bah::backend::alpm::StageResult::{Done, Missing};
use bah::exec::Status;
use bah::flags::TransFlags;
use bah::style::{Colour, Style};
use bah::tx_helper::events::HelperEvent;
use bah::tx_helper::plan::{
    validate_plan, validate_upgrade_pkg_path, PlanError, TransactionPlan, MAX_TARGETS,
    MAX_TARGET_LEN,
};
use bah::tx_helper::transaction::{flags_for_plan, CommitFailure};

fn args(op: &str, keys: &[&str], targets: &[&str]) -> Args {
    Args {
        bin: "pacman".into(),
        op: op.into(),
        args: keys
            .iter()
            .map(|k| Arg { key: k.to_string(), value: None })
            .collect(),
        targets: targets.iter().map(|t| t.to_string()).collect(),
    }
}

fn remove(targets: Vec<String>) -> TransactionPlan {
    TransactionPlan::Remove {
        targets,
        nodeps: false,
        cascade: false,
        no_save: false,
        db_only: false,
        no_scriptlet: false,
        recursive_count: 0,
        unneeded: false,
        print_only: false,
        no_confirm: false,
    }
}

fn upgrade(targets: &[&str]) -> TransactionPlan {
    plan_from_args(&args("upgrade", &[], targets), false).unwrap()
}

fn reason(reason: &str) -> TransactionPlan {
    TransactionPlan::SetInstallReason {
        reason: reason.into(),
        packages: vec!["a".into()],
        no_confirm: true,
    }
}

fn refusal(plan: &TransactionPlan) -> String {
    validate_plan(plan).unwrap_err().message(plan)
}

#[test]
fn ordinary_plans_are_accepted() {
    assert_eq!(validate_plan(&remove(vec!["nano".into(), "gtk+".into()])), Ok(()));
    assert_eq!(validate_plan(&upgrade(&["/tmp/x.pkg.tar.zst", "//a/./b"])), Ok(()));
    assert_eq!(validate_plan(&reason("asdeps")), Ok(()));
    assert_eq!(validate_plan(&reason("asexplicit")), Ok(()));
    assert_eq!(validate_plan(&remove(vec!["x".repeat(MAX_TARGET_LEN)])), Ok(()));
    assert_eq!(validate_plan(&remove(vec!["x".into(); MAX_TARGETS])), Ok(()));
}

#[test]
fn too_many_targets_are_refused() {
    let plan = remove(vec!["x".into(); MAX_TARGETS + 1]);
    assert_eq!(validate_plan(&plan), Err(PlanError::TooManyTargets));
    assert_eq!(refusal(&plan), "transaction plan has too many targets (4097 > 4096)");
}

#[test]
fn long_targets_are_refused() {
    let plan = remove(vec!["a".into(), "é".repeat(MAX_TARGET_LEN / 2) + "x"]);
    assert_eq!(validate_plan(&plan), Err(PlanError::TargetTooLong(1)));
    assert_eq!(refusal(&plan), "target too long (>4096 bytes)");
}

#[test]
fn control_characters_are_refused() {
    for t in ["a\0b", "a\nb", "\u{7f}", "\u{9b}x"] {
        let plan = remove(vec![t.into()]);
        assert_eq!(validate_plan(&plan), Err(PlanError::ControlCharacter(0)));
        assert_eq!(refusal(&plan), "target contains forbidden control characters");
    }
}

#[test]
fn dots_that_go_up_are_refused() {
    let plan = remove(vec!["ok".into(), "a..b".into(), "\0".into()]);
    assert_eq!(validate_plan(&plan), Err(PlanError::DotDot(1)));
    assert_eq!(refusal(&plan), "target must not contain '..'");
    assert_eq!(validate_upgrade_pkg_path("/a/../b", 7), Some(PlanError::ParentInPath(7)));
    assert_eq!(validate_upgrade_pkg_path("/a/..b", 7), None);
    let error = PlanError::ParentInPath(0);
    assert_eq!(error.message(&plan), "local package path must not contain '..'");
}

#[test]
fn relative_package_files_are_refused() {
    let plan = upgrade(&["/a", "b.pkg"]);
    assert_eq!(validate_plan(&plan), Err(PlanError::RelativePath(1)));
    assert_eq!(refusal(&plan), "local package path must be absolute (got b.pkg)");
}

#[test]
fn unknown_reasons_are_refused() {
    assert_eq!(validate_plan(&reason("other")), Err(PlanError::UnsupportedReason));
    assert_eq!(refusal(&reason("other")), "unsupported install reason 'other'");
}

#[test]
fn command_lines_become_plans() {
    let a = args(
        "sync",
        &["y", "refresh", "u", "w", "d", "nodeps", "needed", "overwrite", "p"],
        &["core/a", "b"],
    );
    match plan_from_args(&a, true).unwrap() {
        TransactionPlan::Sync {
            targets,
            refresh_count,
            sysupgrade_count,
            download_only,
            nodeps_count,
            needed,
            db_only,
            no_scriptlet,
            overwrite,
            print_only,
            no_confirm,
        } => {
            assert_eq!(targets, vec!["core/a", "b"]);
            assert_eq!((refresh_count, sysupgrade_count, nodeps_count), (2, 1, 2));
            assert!(download_only && needed && overwrite && print_only && no_confirm);
            assert!(!db_only && !no_scriptlet);
        }
        _ => panic!("not a sync plan"),
    }
    assert_eq!(
        plan_from_args(&args("query", &[], &[]), false).unwrap_err(),
        "ALPM helper plan unsupported op 'query'"
    );
}

#[test]
fn helper_and_backend_use_the_same_switches() {
    let keys = [
        "w", "d", "nodeps", "needed", "dbonly", "noscriptlet", "overwrite", "cascade", "nosave",
        "recursive", "recursive", "unneeded",
    ];
    for n in 0..=keys.len() {
        for op in ["sync", "remove", "upgrade"] {
            let a = args(op, &keys[..n], &[]);
            let here = match op {
                "sync" => trans_flags_for_sync(&a),
                "remove" => trans_flags_for_remove(&a),
                _ => trans_flags_for_upgrade(&a),
            };
            assert_eq!(
                flags_for_plan(&plan_from_args(&a, false).unwrap()),
                TransFlags { no_scriptlet: false, ..here }
            );
        }
    }
    let none = TransFlags::none();
    let a = args("remove", &["d", "recursive"], &[]);
    assert_eq!(
        trans_flags_for_remove(&a),
        TransFlags { no_deps: true, recurse: true, ..none }
    );
}

#[test]
fn plans_never_leave_scriptlets_out() {
    let a = args("sync", &["noscriptlet"], &["x"]);
    assert!(matches!(
        plan_from_args(&a, false),
        Ok(TransactionPlan::Sync { no_scriptlet: false, .. })
    ));
    let b = args("remove", &["noscriptlet"], &["x"]);
    assert!(matches!(
        plan_from_args(&b, false),
        Ok(TransactionPlan::Remove { no_scriptlet: false, .. })
    ));
}

#[test]
fn pacman_cleans_the_cache() {
    let mut cfg = Config::default();
    for need_root in [false, true] {
        cfg.need_root = need_root;
        for key in ["c", "clean"] {
            let a = args("sync", &[key], &[]);
            assert!(matches!(AlpmBackend.pacman(&cfg, &a, false), Ok(Route::Legacy)));
            for ended in [None, Some(Ok(Status(0))), Some(Err("boom".to_string()))] {
                let step = pacman(&cfg, &a, &vec![], Some("alpm"), Some("1"), false, &ended);
                assert!(matches!(step, BackendStep::Legacy(notice) if notice.is_empty()));
            }
        }
    }
    let a = args("remove", &["c"], &["x"]);
    assert!(!matches!(AlpmBackend.pacman(&cfg, &a, false), Ok(Route::Legacy)));
}

#[test]
fn operations_go_to_the_helper_without_rights() {
    let mut cfg = Config::default();
    cfg.need_root = true;
    let a = args("remove", &[], &["x"]);
    assert!(matches!(AlpmBackend.pacman(&cfg, &a, false), Ok(Route::Helper(_))));
    assert!(matches!(
        AlpmBackend.pacman(&cfg, &a, true),
        Ok(Route::Here(Operation::Remove))
    ));
    let b = args("files", &[], &[]);
    assert_eq!(
        AlpmBackend.pacman(&cfg, &b, false).unwrap_err(),
        "ALPM helper plan unsupported op 'files'"
    );
    assert_eq!(
        AlpmBackend.pacman(&cfg, &b, true).unwrap_err(),
        "ALPM backend currently supports sync/remove/upgrade operations"
    );
}

#[test]
fn targets_are_looked_for_in_repositories() {
    assert!(matches!(
        target_lookup("core/a/b"),
        TargetLookup::InRepo(repo, name) if repo == "core" && name == "a/b"
    ));
    assert!(matches!(target_lookup("a"), TargetLookup::Anywhere));
    let text = |t: &str, f: TargetFound| add_target(t, &f).unwrap_err();
    assert_eq!(add_target("a", &TargetFound::Added), Ok(()));
    assert_eq!(text("core/a", TargetFound::NoRepo), "repository 'core' was not found");
    assert_eq!(text("core/a", TargetFound::NoPackage), "target not found in repo 'core': a");
    assert_eq!(text("a", TargetFound::NoPackage), "target not found: a");
    assert_eq!(
        text("a", TargetFound::Refused("dup".into())),
        "failed to add target 'a': dup"
    );
}

fn stages(op: Operation, a: &Args, results: Vec<StageResult>) -> (Vec<Stage>, Option<String>) {
    stages_with(&Config::default(), op, a, results)
}

fn stages_with(
    cfg: &Config,
    op: Operation,
    a: &Args,
    results: Vec<StageResult>,
) -> (Vec<Stage>, Option<String>) {
    let mut run = match op {
        Operation::Sync => LocalRun::run_sync(a),
        Operation::Remove => LocalRun::run_remove(a),
        Operation::Upgrade => LocalRun::run_upgrade(a),
    };
    let mut seen = vec![run.stage];
    for r in &results {
        run.advance(cfg, a, r);
        seen.push(run.stage);
    }
    (seen, run.error)
}

fn failed(e: &str) -> StageResult {
    StageResult::Failed(e.into())
}

#[test]
fn local_operations_go_through_their_stages() {
    let a = args("sync", &["y", "u"], &["x"]);
    let (seen, error) = stages(
        Operation::Sync,
        &a,
        vec![Done, Done, Done, Done, Done, Done, Done, Done],
    );
    assert_eq!(
        seen,
        vec![
            Stage::Refresh,
            Stage::Init,
            Stage::SystemUpgrade,
            Stage::Target(0),
            Stage::Prepare,
            Stage::Boot,
            Stage::Commit,
            Stage::Release,
            Stage::Finished
        ]
    );
    assert_eq!(error, None);
    let (seen, _) = stages(Operation::Sync, &args("sync", &["y"], &[]), vec![Done]);
    assert_eq!(seen, vec![Stage::Refresh, Stage::Finished]);
    let (seen, _) = stages(
        Operation::Remove,
        &args("remove", &["print"], &["x"]),
        vec![Done, Done, Done],
    );
    assert_eq!(
        seen,
        vec![Stage::Init, Stage::Target(0), Stage::Prepare, Stage::Release]
    );
}

#[test]
fn failed_stages_release_the_transaction() {
    let x = |op: &str| args(op, &[], &["x"]);
    let (seen, error) = stages(Operation::Remove, &x("remove"), vec![Done, Missing("no".into())]);
    assert_eq!(seen.last(), Some(&Stage::Release));
    assert_eq!(error.unwrap(), "target not found in local db: x");
    let (_, error) = stages(Operation::Upgrade, &x("upgrade"), vec![Done, Missing("no".into())]);
    assert_eq!(error.unwrap(), "failed to load local package file 'x'");
    let (_, error) = stages(Operation::Upgrade, &x("upgrade"), vec![Done, failed("bad")]);
    assert_eq!(error.unwrap(), "failed to add package file 'x': bad");
    let (_, error) = stages(Operation::Sync, &x("sync"), vec![Done, failed("bad")]);
    assert_eq!(error.unwrap(), "bad");
    let (_, error) = stages(Operation::Remove, &x("remove"), vec![Done, Done, failed("e")]);
    assert_eq!(error.unwrap(), "failed to prepare ALPM remove transaction: e");
    let (seen, error) =
        stages(Operation::Sync, &x("sync"), vec![Done, Done, Done, Done, failed("e"), Done]);
    assert_eq!(error.unwrap(), "failed to commit ALPM transaction: e");
    assert_eq!(seen.last(), Some(&Stage::Finished));
    let (seen, error) = stages(Operation::Sync, &x("sync"), vec![failed("locked")]);
    assert_eq!((seen.last(), error.unwrap()), (Some(&Stage::Finished), "locked".to_string()));
}

#[test]
fn failed_commits_name_the_hook() {
    let x = args("remove", &[], &["x"]);
    let fail = |kind, hook: Option<&str>| {
        let last = StageResult::CommitFailed(kind, "e".into(), hook.map(|h| h.to_string()));
        stages(Operation::Remove, &x, vec![Done, Done, Done, Done, last]).1.unwrap()
    };
    assert_eq!(
        fail(CommitFailure::HookFailed, Some("mkinitcpio")),
        "failed to commit ALPM remove transaction: e (transaction hook failed: last running hook \
         was 'mkinitcpio'; see hook output streamed above for details)"
    );
    assert_eq!(
        fail(CommitFailure::Aborted, None),
        "failed to commit ALPM remove transaction: e (transaction aborted, often due to Ctrl+C)"
    );
    assert_eq!(fail(CommitFailure::Other, None), "failed to commit ALPM remove transaction: e");
}

#[test]
fn local_commits_are_checked() {
    let names = |list: &[&str]| StageResult::Critical(list.iter().map(|s| s.to_string()).collect());
    for (op, word) in
        [(Operation::Sync, "sync"), (Operation::Remove, "remove"), (Operation::Upgrade, "upgrade")]
    {
        let a = args(word, &["noscriptlet"], &["x"]);
        let (seen, error) = stages(op, &a, vec![Done, Done, Done, names(&["linux", "glibc"]), Done]);
        assert_eq!(
            seen[2..],
            [Stage::Prepare, Stage::Critical, Stage::Release, Stage::Finished]
        );
        assert_eq!(
            error.unwrap(),
            "--noscriptlet cannot be used with critical system packages (linux, glibc).\n       \
             Post-install scriptlets are required for these packages to function correctly."
        );
        let (seen, error) = stages(op, &a, vec![Done, Done, Done, names(&[]), Done, Done]);
        assert_eq!(
            seen[3..],
            [Stage::Critical, Stage::Boot, Stage::Commit, Stage::Release]
        );
        assert_eq!(error, None);
        let mut forced = Config::default();
        forced.force_noscriptlet = true;
        let (seen, _) = stages_with(&forced, op, &a, vec![Done, Done, Done]);
        assert_eq!(seen.last(), Some(&Stage::Boot));
        let plain = args(word, &[], &["x"]);
        let (seen, error) = stages(op, &plain, vec![Done, Done, Done, failed("/boot is read-only")]);
        assert_eq!(seen[3..], [Stage::Boot, Stage::Release]);
        assert_eq!(error.unwrap(), "/boot is read-only");
        let mut program = Config::default();
        program.args.args.push(Arg { key: "noscriptlet".into(), value: None });
        let (seen, _) = stages_with(&program, op, &plain, vec![Done, Done, Done]);
        assert_eq!(seen.last(), Some(&Stage::Critical));
    }
}

#[test]
fn insisting_options_are_noticed() {
    let a = args("sync", &["y", "y", "u"], &["x"]);
    let mut run = LocalRun::run_sync(&a);
    assert!(run.insists(&a));
    run.advance(&Config::default(), &a, &StageResult::Done);
    run.advance(&Config::default(), &a, &StageResult::Done);
    assert_eq!(run.stage, Stage::SystemUpgrade);
    assert!(!run.insists(&a));
    assert_eq!(run.flags(&a), trans_flags_for_sync(&a));
}

#[test]
fn backends_are_selected_by_variables() {
    assert_eq!(selected_backend(None), BackendKind::Alpm);
    assert_eq!(selected_backend(Some("Legacy")), BackendKind::LegacyPacman);
    assert_eq!(selected_backend(Some("PACMAN")), BackendKind::LegacyPacman);
    assert_eq!(selected_backend(Some("x")), BackendKind::Alpm);
    assert!(allow_fallback(None));
    assert!(allow_fallback(Some("0")));
    for v in ["1", "TRUE", "Yes"] {
        assert!(!allow_fallback(Some(v)));
    }
}

#[test]
fn backend_failures_are_reported() {
    let mut cfg = Config::default();
    cfg.color.warning = Style { foreground: Some(Colour::Yellow), bold: false, dimmed: false };
    let a = args("sync", &["y"], &["a\"b", "c"]);
    let failed = Some(Err("boom".to_string()));
    match pacman(&cfg, &a, &vec!["-y".into()], None, None, true, &failed) {
        BackendStep::Legacy(notice) => assert_eq!(
            notice,
            "\x1b[33m::\x1b[0m ALPM backend failed: boom (op=sync args=[\"-y\"] \
             targets=[\"a\\\"b\", \"c\"])\n\
             \x1b[33m::\x1b[0m falling back to legacy pacman backend\n"
        ),
        other => panic!("{other:?}"),
    }
    match pacman(&cfg, &a, &vec![], None, Some("yes"), true, &failed) {
        BackendStep::Failed { notice, error } => {
            assert_eq!(notice.lines().count(), 1);
            assert_eq!(error, "boom");
        }
        other => panic!("{other:?}"),
    }
    let done = pacman(&cfg, &a, &vec![], None, None, true, &Some(Ok(Status(3))));
    assert!(matches!(done, BackendStep::Done(Status(3))));
}

#[test]
fn operations_go_to_the_selected_backend() {
    let mut cfg = Config::default();
    cfg.need_root = true;
    let a = args("upgrade", &[], &["/x"]);
    let step = |a: &Args, var: Option<&str>, is_root: bool| {
        pacman(&cfg, a, &vec![], var, Some("1"), is_root, &None)
    };
    assert!(matches!(step(&a, None, false), BackendStep::Helper(_)));
    assert!(matches!(step(&a, None, true), BackendStep::Here(Operation::Upgrade)));
    assert!(matches!(step(&a, Some("legacy"), true), BackendStep::Legacy(n) if n.is_empty()));
    let query = args("query", &[], &[]);
    match step(&query, None, false) {
        BackendStep::Failed { error, .. } => {
            assert_eq!(error, "ALPM helper plan unsupported op 'query'")
        }
        other => panic!("{other:?}"),
    }
}

#[test]
fn the_legacy_backend_runs_pacman() {
    let mut cfg = Config::default();
    cfg.pacman_conf = Some("/p.conf".into());
    let run = LegacyPacmanBackend.pacman(&cfg, "pacman", &vec!["-S".into(), "x".into()]);
    assert_eq!(run.program, "pacman");
    assert_eq!(run.args, vec!["--config", "/p.conf", "-S", "x"]);
    cfg.need_root = true;
    cfg.sudo_flags = vec!["-A".into()];
    let run = LegacyPacmanBackend.pacman(&cfg, "pacman", &vec!["-S".into()]);
    assert_eq!(run.program, "sudo");
    assert_eq!(run.args, vec!["-A", "pacman", "--config", "/p.conf", "-S"]);
}

#[test]
fn local_events_have_lines() {
    let mut c = Config::default().color;
    c.tx_install = Style { foreground: Some(Colour::Green), bold: false, dimmed: false };
    let line = |e: HelperEvent| event_cb(&e, &c);
    assert_eq!(line(HelperEvent::LoadStart), Some(":: Loading package files...\n".into()));
    assert_eq!(line(HelperEvent::HookStart { post: false }), Some(":: Running hooks...\n".into()));
    assert_eq!(
        line(HelperEvent::Installed { name: "x".into() }),
        Some(":: \x1b[32m[OK]\x1b[0m Installed x\n".into())
    );
    assert_eq!(
        line(HelperEvent::Upgraded { old: "1".into(), new: "2".into() }),
        Some(":: \x1b[32m[OK]\x1b[0m Upgraded 1 -> 2\n".into())
    );
    assert_eq!(
        line(HelperEvent::Removed { name: "x".into() }),
        Some(":: \x1b[32m[OK]\x1b[0m Removed x\n".into())
    );
    assert_eq!(line(HelperEvent::Other), None);
}
