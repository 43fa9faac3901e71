use bah::config::{Arg, Config};
use bah::exec::Status;
use bah::flags::TransFlags;
use bah::style::{Colour, Style};
use bah::tx_helper::environment::{on_signal, sanitize_helper_environment, SignalStep};
use bah::tx_helper::events::{
    answer_value, format_log_line_for_parent, helper_download_cb, helper_event_cb, helper_log_cb,
    helper_progress_cb, helper_question_cb, log_level_to_tag, sanitize_log_fragment,
    settle_question, DownloadEvent, HelperEvent, HookTracking, LogLevels, ProgressKind,
    QuestionIpcState, QuestionStep, Reaction, TxQuestion, MAX_LOG_MESSAGE_BYTES,
};
use bah::tx_helper::ipc::{
    accept_plan_line, ask_helper_question, read_ipc_line_bounded, read_until_newline_limited,
    result_message, wait_parent_answer, Asking, HelperRefusal, HelperToParent, IpcRead,
    LineBuffer, ParentToHelper, PlanRead, Reply, Wait, MAX_IPC_LINE_BYTES,
};
use bah::tx_helper::lock::{announcement, LockFact, LockPhase, LockRecovery};
use bah::tx_helper::parent::{
    answer, helper_arguments, helper_end, interrupted_notice, lock_cleanup_arguments,
    lock_cleanup_result, on_parent_event, on_parent_signal, wait_helper_exit, ExitWait, HelperEnd,
    InterruptedError, ParentEvent, ParentSignal, ParentStep,
};
use bah::tx_helper::plan::TransactionPlan;
use bah::tx_helper::throttle::Throttle;
use bah::tx_helper::transaction::{
    ensure_noscriptlet_allowed, map_commit_error, sync_allows_empty_transaction, Action,
    CommitFailure, Outcome, PlanRun,
};
use bah::ui::TransactionRenderController;

fn sync_plan(refresh: u8, upgrade: u8, targets: &[&str], print_only: bool) -> TransactionPlan {
    TransactionPlan::Sync {
        targets: targets.iter().map(|t| t.to_string()).collect(),
        refresh_count: refresh,
        sysupgrade_count: upgrade,
        download_only: false,
        nodeps_count: 0,
        needed: true,
        db_only: false,
        no_scriptlet: false,
        overwrite: false,
        print_only,
        no_confirm: true,
    }
}

fn upgrade_plan(targets: &[&str]) -> TransactionPlan {
    TransactionPlan::Upgrade {
        targets: targets.iter().map(|t| t.to_string()).collect(),
        nodeps_count: 2,
        db_only: false,
        download_only: false,
        needed: false,
        overwrite: true,
        print_only: false,
        no_confirm: false,
    }
}

fn run(
    plan: &TransactionPlan,
    config: &Config,
    outcomes: Vec<Outcome>,
) -> (Vec<Action>, Result<i32, String>) {
    let mut run = PlanRun::new(plan);
    let mut actions = vec![run.action(plan)];
    for o in &outcomes {
        run.advance(plan, config, o);
        actions.push(run.action(plan));
    }
    (actions, run.result())
}

fn done() -> Outcome {
    Outcome::Done
}

fn locked() -> Outcome {
    Outcome::Locked("unable to lock database".into())
}

fn failure(t: &str) -> Outcome {
    Outcome::Failed(t.into())
}

fn noscriptlet() -> Config {
    let mut cfg = Config::default();
    cfg.args.args = vec![Arg { key: "noscriptlet".into(), value: None }];
    cfg
}

#[test]
fn plans_are_carried_out_step_by_step() {
    let plan = sync_plan(2, 1, &["a", "b"], false);
    let cfg = Config::default();
    let flags = TransFlags { needed: true, ..TransFlags::none() };
    let mut outcomes = vec![done(); 6];
    outcomes.push(Outcome::Empty(false));
    outcomes.extend(vec![done(); 7]);
    let (actions, result) = run(&plan, &cfg, outcomes);
    assert_eq!(
        actions,
        vec![
            Action::Open { no_confirm: true },
            Action::Update { force: true },
            Action::Init(flags),
            Action::SystemUpgrade { downgrade: false },
            Action::AddSync(0),
            Action::AddSync(1),
            Action::Inspect,
            Action::Prepare,
            Action::WatchSignals,
            Action::CheckBoot,
            Action::ResetHooks,
            Action::Commit,
            Action::Release,
            Action::Unlock,
            Action::Finish,
        ]
    );
    assert_eq!(result, Ok(0));
}

#[test]
fn shown_plans_are_not_committed() {
    let plan = sync_plan(0, 0, &["a"], true);
    let (actions, result) = run(
        &plan,
        &Config::default(),
        vec![done(), done(), done(), Outcome::Empty(false), done(), done()],
    );
    assert_eq!(actions[4..], [Action::Prepare, Action::Release, Action::Finish]);
    assert_eq!(result, Ok(0));
}

#[test]
fn locks_are_recovered_from_once() {
    let plan = sync_plan(1, 0, &[], false);
    let cfg = Config::default();
    let (actions, result) = run(
        &plan,
        &cfg,
        vec![done(), locked(), done(), done(), locked(), done(), done(), Outcome::Empty(true), done()],
    );
    assert_eq!(
        actions[1..],
        [
            Action::Update { force: false },
            Action::Recover,
            Action::Update { force: false },
            Action::Init(TransFlags { needed: true, ..TransFlags::none() }),
            Action::Recover,
            Action::Init(TransFlags { needed: true, ..TransFlags::none() }),
            Action::Inspect,
            Action::Release,
            Action::Finish,
        ]
    );
    assert_eq!(result, Ok(0));
    let (actions, result) = run(&plan, &cfg, vec![done(), locked(), done(), locked()]);
    assert_eq!(actions.last(), Some(&Action::Finish));
    assert_eq!(result, Err("unable to lock database".into()));
    let (_, result) = run(&plan, &cfg, vec![done(), locked(), failure("declined")]);
    assert_eq!(result, Err("declined".into()));
}

#[test]
fn empty_transactions_are_refused_unless_refreshed() {
    assert!(sync_allows_empty_transaction(1, 0));
    assert!(sync_allows_empty_transaction(0, 1));
    assert!(!sync_allows_empty_transaction(0, 0));
    let cfg = Config::default();
    let (actions, result) = run(
        &sync_plan(0, 0, &[], false),
        &cfg,
        vec![done(), done(), Outcome::Empty(true), done()],
    );
    assert_eq!(actions[3], Action::Release);
    assert_eq!(
        result,
        Err("refusing empty ALPM transaction: nothing to install, upgrade, or remove".into())
    );
}

#[test]
fn failed_preparations_are_released() {
    let cfg = Config::default();
    let (actions, result) = run(
        &upgrade_plan(&["/x"]),
        &cfg,
        vec![done(), done(), done(), Outcome::Empty(false), failure("conflict"), done()],
    );
    assert_eq!(actions[2], Action::AddFile(0));
    assert_eq!(actions[5..], [Action::Release, Action::Finish]);
    assert_eq!(result, Err("failed to prepare ALPM upgrade transaction: conflict".into()));
}

#[test]
fn refused_targets_are_named() {
    let cfg = Config::default();
    let plan = upgrade_plan(&["/x"]);
    let (_, result) = run(&plan, &cfg, vec![done(), done(), Outcome::Rejected("dup".into())]);
    assert_eq!(result, Err("failed to add package file '/x': dup".into()));
    let (_, result) = run(&plan, &cfg, vec![done(), done(), failure("no such file")]);
    assert_eq!(result, Err("no such file".into()));
}

#[test]
fn critical_packages_need_their_scriptlets() {
    let plan = upgrade_plan(&["/x"]);
    let start = |last: Vec<Outcome>| {
        let mut o = vec![done(), done(), done(), Outcome::Empty(false), done(), done()];
        o.extend(last);
        o
    };
    let critical = vec!["linux".to_string(), "glibc".to_string()];
    let text = "--noscriptlet cannot be used with critical system packages (linux, glibc).\n       \
                Post-install scriptlets are required for these packages to function correctly.";
    let (actions, result) =
        run(&plan, &noscriptlet(), start(vec![Outcome::Critical(critical.clone()), done()]));
    assert_eq!(actions[6..], [Action::ListCritical, Action::Release, Action::Finish]);
    assert_eq!(result, Err(text.into()));
    let (actions, _) = run(&plan, &noscriptlet(), start(vec![Outcome::Critical(vec![])]));
    assert_eq!(actions.last(), Some(&Action::CheckBoot));
    let mut forced = noscriptlet();
    forced.force_noscriptlet = true;
    let (actions, _) = run(&plan, &forced, start(vec![]));
    assert_eq!(actions.last(), Some(&Action::CheckBoot));
    assert_eq!(ensure_noscriptlet_allowed(&critical, &forced), Ok(()));
    assert_eq!(ensure_noscriptlet_allowed(&critical, &Config::default()), Ok(()));
    assert_eq!(ensure_noscriptlet_allowed(&vec![], &noscriptlet()), Ok(()));
    assert_eq!(ensure_noscriptlet_allowed(&critical, &noscriptlet()), Err(text.into()));
}

#[test]
fn failed_commits_are_cleaned_up() {
    let plan = sync_plan(0, 0, &["a"], false);
    let mut outcomes = vec![done(), done(), done(), Outcome::Empty(false), done(), done(), done(), done()];
    outcomes.push(Outcome::CommitFailed(
        CommitFailure::HookFailed,
        "transaction hook failed".into(),
        Some("Updating fonts".into()),
    ));
    outcomes.extend(vec![done(), done()]);
    let (actions, result) = run(&plan, &Config::default(), outcomes);
    assert_eq!(actions[8..], [Action::Commit, Action::Release, Action::Unlock, Action::Finish]);
    assert_eq!(
        result.unwrap_err(),
        "failed to commit ALPM sync transaction: transaction hook failed (transaction hook \
         failed: last running hook was 'Updating fonts'; see hook output streamed above for details)"
    );
}

#[test]
fn commit_errors_have_contexts() {
    assert_eq!(map_commit_error(CommitFailure::Other, "e", "ctx", Some("h")), "ctx: e");
    assert_eq!(
        map_commit_error(CommitFailure::Aborted, "e", "ctx", None),
        "ctx: e (transaction aborted, often due to Ctrl+C)"
    );
    assert_eq!(
        map_commit_error(CommitFailure::HookFailed, "e", "ctx", None),
        "ctx: e (transaction hook failed; see hook output streamed above for details)"
    );
}

#[test]
fn reasons_are_set_without_a_transaction() {
    let plan = |reason: &str| TransactionPlan::SetInstallReason {
        reason: reason.into(),
        packages: vec!["a".into(), "b".into()],
        no_confirm: false,
    };
    let cfg = Config::default();
    let (actions, result) = run(&plan("asdeps"), &cfg, vec![done(), done(), done()]);
    assert_eq!(
        actions[1..],
        [
            Action::SetReason { package: 0, dependency: true },
            Action::SetReason { package: 1, dependency: true },
            Action::Finish
        ]
    );
    assert_eq!(result, Ok(0));
    let (actions, result) = run(&plan("asexplicit"), &cfg, vec![done(), failure("read-only")]);
    assert_eq!(actions[1], Action::SetReason { package: 0, dependency: false });
    assert_eq!(result, Err("read-only".into()));
    let (_, result) = run(&plan("x"), &cfg, vec![done()]);
    assert_eq!(result, Err("unsupported install reason 'x'".into()));
}

fn feed(text: &[u8], limit: usize) -> PlanRead {
    let mut line = LineBuffer::new(limit);
    for b in text {
        match read_until_newline_limited(&mut line, Some(*b)) {
            PlanRead::More => {}
            other => return other,
        }
    }
    read_until_newline_limited(&mut line, None)
}

#[test]
fn plans_are_read_up_to_a_newline() {
    assert!(matches!(feed(b"{}\nrest", 9), PlanRead::Line(l) if l == b"{}"));
    assert!(matches!(feed(b"abc", 3), PlanRead::Line(l) if l == b"abc"));
    assert!(matches!(feed(b"", 3), PlanRead::Line(l) if l.is_empty()));
    assert!(matches!(
        feed(b"abcd", 3),
        PlanRead::Failed(e) if e == "input line exceeded maximum size (3 bytes)"
    ));
}

fn read_lines(bytes: &[u8]) -> Vec<IpcRead> {
    let mut line = LineBuffer::new(MAX_IPC_LINE_BYTES);
    let mut out = Vec::new();
    for b in bytes {
        match read_ipc_line_bounded(&mut line, Some(*b)) {
            IpcRead::More => {}
            other => out.push(other),
        }
    }
    out.push(read_ipc_line_bounded(&mut line, None));
    out
}

#[test]
fn messages_are_lines_of_text() {
    let read = read_lines("a\n\nü".as_bytes());
    assert!(matches!(&read[0], IpcRead::Line(l) if l == "a"));
    assert!(matches!(&read[1], IpcRead::Line(l) if l.is_empty()));
    assert!(matches!(&read[2], IpcRead::Line(l) if l == "ü"));
    assert!(matches!(read_lines(b"a\n").last(), Some(IpcRead::Closed)));
    assert!(matches!(
        &read_lines(&[0xff, b'\n'])[0],
        IpcRead::Failed(e) if e == "IPC line is not valid UTF-8"
    ));
    let long = vec![b'x'; MAX_IPC_LINE_BYTES + 1];
    assert!(matches!(
        &read_lines(&long)[0],
        IpcRead::Failed(e) if e == "IPC line exceeds 16384 bytes"
    ));
    let full = vec![b'x'; MAX_IPC_LINE_BYTES];
    assert!(matches!(&read_lines(&full)[0], IpcRead::Line(l) if l.len() == MAX_IPC_LINE_BYTES));
}

#[test]
fn answers_belong_to_their_questions() {
    let reply = |id, yes| Reply::Message(ParentToHelper::Answer { id, yes });
    assert_eq!(wait_parent_answer(4, &reply(4, false)), Wait::Over(Some(false)));
    assert_eq!(wait_parent_answer(4, &reply(5, true)), Wait::Again);
    assert_eq!(wait_parent_answer(4, &Reply::Noise), Wait::Again);
    assert_eq!(wait_parent_answer(4, &Reply::NoMore), Wait::Over(None));
    assert!(matches!(answer(4, true), ParentToHelper::Answer { id: 4, yes: true }));
}

#[test]
fn questions_are_numbered() {
    let mut id = 10_000;
    assert!(matches!(ask_helper_question(true, &mut id, "?", true), Asking::Decided(true)));
    assert_eq!(id, 10_000);
    assert!(matches!(
        ask_helper_question(false, &mut id, "really?", false),
        Asking::Ask(HelperToParent::Question { id: 10_000, prompt, default_yes: false })
            if prompt == "really?"
    ));
    assert_eq!(id, 10_001);
}

#[test]
fn the_helper_starts_with_rights_and_a_plan() {
    assert_eq!(accept_plan_line(false, &vec![1]), Err(HelperRefusal::NotRoot));
    assert_eq!(accept_plan_line(true, &vec![]), Err(HelperRefusal::EmptyPlan));
    assert_eq!(accept_plan_line(true, &vec![1]), Ok(()));
    assert_eq!(HelperRefusal::NotRoot.message(), "--helper-transaction must be run as root");
    assert_eq!(HelperRefusal::EmptyPlan.message(), "helper transaction plan is empty");
    assert!(matches!(result_message(&Ok(3)), HelperToParent::Result { code: 3 }));
    assert!(matches!(
        result_message(&Err("x".into())),
        HelperToParent::Error { message } if message == "x"
    ));
}

fn recover(no_confirm: bool, facts: Vec<LockFact>) -> (Vec<LockPhase>, Option<String>) {
    let mut r = LockRecovery::new();
    let mut seen = vec![r.phase];
    for f in &facts {
        r.recover_from_stale_lock(no_confirm, f);
        seen.push(r.phase);
    }
    (seen, r.error)
}

#[test]
fn stale_locks_are_removed_with_consent() {
    let (seen, error) = recover(
        false,
        vec![
            LockFact::Present(Some(" 42\n".into())),
            LockFact::Alive(false),
            LockFact::Answer(true),
            LockFact::Done,
            LockFact::Absent,
            LockFact::Done,
            LockFact::Done,
            LockFact::Done,
        ],
    );
    assert_eq!(
        seen,
        vec![
            LockPhase::Look,
            LockPhase::Process(42),
            LockPhase::Ask(Some(42)),
            LockPhase::Release,
            LockPhase::Remove,
            LockPhase::Announce,
            LockPhase::Pause,
            LockPhase::Reopen,
            LockPhase::Finished
        ]
    );
    assert_eq!(error, None);
    assert!(matches!(
        announcement(),
        HelperToParent::Event { message }
            if message == "Removed stale /var/lib/pacman/db.lck lock; retrying transaction."
    ));
}

#[test]
fn locks_of_living_processes_stay() {
    let (seen, error) =
        recover(false, vec![LockFact::Present(Some("42".into())), LockFact::Alive(true)]);
    assert_eq!(seen.last(), Some(&LockPhase::Finished));
    assert_eq!(
        error.unwrap(),
        "Pacman is already in use by running process 42 (db lock is active)"
    );
    let declined = "database lock present and removal was declined";
    let (_, error) = recover(true, vec![LockFact::Present(None)]);
    assert_eq!(error.unwrap(), declined);
    let (_, error) = recover(true, vec![LockFact::Present(Some("1".into())), LockFact::Alive(false)]);
    assert_eq!(error.unwrap(), declined);
    let (_, error) = recover(false, vec![LockFact::Present(None), LockFact::Answer(false)]);
    assert_eq!(error.unwrap(), declined);
    let (_, error) = recover(
        false,
        vec![LockFact::Absent, LockFact::Done, LockFact::Failed("EPERM".into())],
    );
    assert_eq!(error.unwrap(), "failed to remove stale pacman lock");
}

#[test]
fn the_question_about_a_lock_names_its_process() {
    let mut id = 7;
    let mut r = LockRecovery::new();
    assert!(r.question(&mut id).is_none());
    r.recover_from_stale_lock(false, &LockFact::Present(Some("x".into())));
    assert!(matches!(
        r.question(&mut id),
        Some(HelperToParent::Question { id: 7, prompt, default_yes: false })
            if prompt == "Stale pacman lock detected. Remove it and retry?"
    ));
    let mut r = LockRecovery::new();
    r.recover_from_stale_lock(false, &LockFact::Present(Some("5".into())));
    r.recover_from_stale_lock(false, &LockFact::Alive(false));
    assert!(matches!(
        r.question(&mut id),
        Some(HelperToParent::Question { id: 8, prompt, .. })
            if prompt == "Stale pacman lock detected (PID 5). Remove it and retry?"
    ));
    assert_eq!(id, 9);
}

const MS: u128 = 1_000_000;

#[test]
fn reports_are_spaced_out() {
    let mut t = Throttle::new();
    assert!(t.pass("a", 0, false));
    assert!(!t.pass("a", 99 * MS, false));
    assert!(t.pass("a", 100 * MS, false));
    assert!(t.pass("a", 101 * MS, true));
    assert!(t.pass("b", 101 * MS, false));
    assert!(!t.pass("a", 0, false));
    t.forget("a");
    assert!(t.pass("a", 102 * MS, false));
    assert!(!t.pass("b", 102 * MS, false));
    t.forget("c");
}

#[test]
fn progress_of_packages_is_reported() {
    let mut t = Throttle::new();
    assert!(helper_progress_cb(ProgressKind::Other, "a", 1, 2, 1, 0, &mut t).is_none());
    let m = helper_progress_cb(ProgressKind::Remove, "a", -4, 2, 1, 0, &mut t);
    assert!(matches!(
        m,
        Some(HelperToParent::InstallProgress { package, percent: 0, current: 1, total: 2, removing: true })
            if package == "a"
    ));
    assert!(helper_progress_cb(ProgressKind::Add, "a", 50, 2, 1, MS, &mut t).is_none());
    let m = helper_progress_cb(ProgressKind::Upgrade, "a", 101, 2, 1, 2 * MS, &mut t);
    assert!(matches!(
        m,
        Some(HelperToParent::InstallProgress { percent: 100, removing: false, .. })
    ));
}

#[test]
fn progress_of_downloads_is_reported() {
    let mut t = Throttle::new();
    let progress = |downloaded, total| DownloadEvent::Progress { downloaded, total };
    assert!(helper_download_cb("a.sig", progress(1, 2), 0, &mut t).is_none());
    assert!(helper_download_cb("a", progress(1, -1), 0, &mut t).is_none());
    assert!(matches!(
        helper_download_cb("a", progress(-1, 9), 0, &mut t),
        Some(HelperToParent::DownloadProgress { downloaded: 0, total: 9, .. })
    ));
    assert!(helper_download_cb("a", progress(5, 9), MS, &mut t).is_none());
    assert!(helper_download_cb("a", progress(9, 9), MS, &mut t).is_some());
    assert!(helper_download_cb("a", DownloadEvent::Other, MS, &mut t).is_none());
    let completed = |total, failed| DownloadEvent::Completed { total, failed };
    assert!(matches!(
        helper_download_cb("a", completed(9, false), MS, &mut t),
        Some(HelperToParent::DownloadProgress { downloaded: 9, total: 9, .. })
    ));
    assert!(helper_download_cb("a", completed(0, false), MS, &mut t).is_none());
    assert!(matches!(
        helper_download_cb("a", completed(0, true), MS, &mut t),
        Some(HelperToParent::LogLine { level, message })
            if level == "warning" && message == "download failed for a"
    ));
    assert!(helper_download_cb("a", progress(1, 9), MS, &mut t).is_some());
}

#[test]
fn hooks_are_followed() {
    let c = Config::default().color;
    let mut hooks = HookTracking::new();
    let mut on = |e: HelperEvent, now: u128, hooks: &mut HookTracking| {
        helper_event_cb(&e, &c, hooks, now)
    };
    assert!(matches!(
        on(HelperEvent::HookStart { post: true }, 5, &mut hooks),
        Reaction::Emit(HelperToParent::HookPhaseStart)
    ));
    assert!(hooks.phase_active && hooks.started == Some(5));
    assert!(matches!(
        on(HelperEvent::HookRunStart { name: "n".into(), desc: None }, 6, &mut hooks),
        Reaction::Nothing
    ));
    assert_eq!(hooks.last_hook, Some("n".into()));
    let ran = HelperEvent::HookRunDone {
        name: "n".into(),
        desc: Some("D".into()),
        position: 2,
        total: 3,
    };
    assert!(matches!(
        on(ran, 7, &mut hooks),
        Reaction::Emit(HelperToParent::HookStep { current: 2, total: 3, desc }) if desc == "D"
    ));
    assert!(matches!(
        on(HelperEvent::HookDone { post: true }, 8, &mut hooks),
        Reaction::Emit(HelperToParent::HookPhaseDone)
    ));
    assert!(!hooks.phase_active && hooks.started.is_none());
    assert!(matches!(
        on(HelperEvent::HookStart { post: false }, 9, &mut hooks),
        Reaction::Nothing
    ));
}

#[test]
fn events_have_words() {
    let c = Config::default().color;
    let mut hooks = HookTracking::new();
    let mut text = |e: HelperEvent| match helper_event_cb(&e, &c, &mut hooks, 0) {
        Reaction::Emit(HelperToParent::Event { message }) => message,
        Reaction::Print(line) => line,
        _ => String::new(),
    };
    assert_eq!(text(HelperEvent::ResolveDepsStart), ":: Resolving dependencies...");
    assert_eq!(text(HelperEvent::InterConflictsStart), ":: Checking conflicts...");
    assert_eq!(text(HelperEvent::IntegrityStart), ":: Checking integrity...");
    assert_eq!(text(HelperEvent::KeyringStart), ":: Checking keyring...");
    assert_eq!(text(HelperEvent::DiskSpaceStart), ":: Checking disk space...");
    assert_eq!(text(HelperEvent::TransactionStart), ":: Committing transaction...");
    assert_eq!(text(HelperEvent::Installed { name: "x".into() }), ":: Installed x");
    assert_eq!(
        text(HelperEvent::Upgraded { old: "1".into(), new: "2".into() }),
        ":: Upgraded 1 -> 2"
    );
    assert_eq!(text(HelperEvent::Removed { name: "x".into() }), ":: Removed x");
    assert_eq!(text(HelperEvent::ScriptletInfo { line: "\x1b[1mhi".into() }), "\x1b[1mhi\n");
    assert_eq!(text(HelperEvent::ScriptletInfo { line: "".into() }), "");
    assert_eq!(text(HelperEvent::Other), "");
}

#[test]
fn questions_of_transactions_have_words_and_defaults() {
    let mut state = QuestionIpcState { no_confirm: false, next_id: 1 };
    let mut words = |q: TxQuestion| match helper_question_cb(&q, &mut state) {
        QuestionStep::Ask(HelperToParent::Question { id, prompt, default_yes }, d) => {
            assert_eq!(default_yes, d);
            (id, prompt, d)
        }
        _ => panic!("not asked"),
    };
    assert_eq!(
        words(TxQuestion::InstallIgnored { pkg: "p".into() }),
        (1, "Install ignored package 'p'?".to_string(), true)
    );
    assert_eq!(
        words(TxQuestion::Replace { old: "o".into(), new: "n".into(), db: "d".into() }),
        (2, "Replace 'o' with 'n' from 'd'?".to_string(), true)
    );
    assert_eq!(
        words(TxQuestion::Conflict { package2: "p".into() }),
        (3, "Resolve conflict by removing 'p' ?".to_string(), true)
    );
    assert_eq!(
        words(TxQuestion::Corrupted { filepath: "f".into() }).1,
        "Corrupted package 'f'. Remove from cache?"
    );
    assert_eq!(
        words(TxQuestion::RemovePkgs { packages: vec!["a".into(), "b".into()] }).1,
        "Remove packages: a, b ?"
    );
    assert_eq!(
        words(TxQuestion::ImportKey { fingerprint: "F".into(), uid: "U".into() }).1,
        "Import key 'F' (U)?"
    );
    assert!(matches!(
        helper_question_cb(&TxQuestion::SelectProvider, &mut state),
        QuestionStep::FirstProvider
    ));
    let mut silent = QuestionIpcState { no_confirm: true, next_id: 1 };
    let conflict = TxQuestion::Conflict { package2: "p".into() };
    assert!(matches!(
        helper_question_cb(&conflict, &mut silent),
        QuestionStep::Decided(false)
    ));
    let replace = TxQuestion::InstallIgnored { pkg: "p".into() };
    assert!(matches!(
        helper_question_cb(&replace, &mut silent),
        QuestionStep::Decided(true)
    ));
}

#[test]
fn unanswered_questions_take_their_default() {
    assert!(settle_question(true, Some(true), false));
    assert!(!settle_question(true, None, false));
    assert!(settle_question(false, Some(false), true));
    assert!(!answer_value(&TxQuestion::RemovePkgs { packages: vec![] }, true));
    assert!(answer_value(&TxQuestion::SelectProvider, true));
}

#[test]
fn log_lines_are_cleaned() {
    assert_eq!(sanitize_log_fragment("a\0b\x1bc\nd\t\u{9b}"), "ab c\nd\t ");
    let long = "x".repeat(MAX_LOG_MESSAGE_BYTES + 5);
    let cut = sanitize_log_fragment(&long);
    assert_eq!(cut.len(), MAX_LOG_MESSAGE_BYTES + 3);
    assert!(cut.ends_with("..."));
    let exact = "x".repeat(MAX_LOG_MESSAGE_BYTES);
    assert_eq!(sanitize_log_fragment(&exact), exact);
    let wide = "\u{1f600}".repeat(3000);
    assert!(sanitize_log_fragment(&wide).len() <= MAX_LOG_MESSAGE_BYTES + 6);
    for text in [&long, &exact, &wide] {
        let once = sanitize_log_fragment(text);
        assert_eq!(sanitize_log_fragment(&once), once);
    }
}

fn level(error: bool, warning: bool, debug: bool, function: bool) -> LogLevels {
    LogLevels { error, warning, debug, function }
}

#[test]
fn only_grave_log_lines_are_passed_on() {
    assert_eq!(log_level_to_tag(level(true, true, true, true)), "error");
    assert_eq!(log_level_to_tag(level(false, true, true, true)), "warning");
    assert_eq!(log_level_to_tag(level(false, false, false, true)), "debug");
    assert_eq!(log_level_to_tag(level(false, false, false, false)), "message");
    assert!(helper_log_cb(level(false, false, true, true), "x").is_none());
    assert!(helper_log_cb(level(true, false, false, false), "\0").is_none());
    assert!(matches!(
        helper_log_cb(level(false, true, false, false), "w\n"),
        Some(HelperToParent::LogLine { level, message }) if level == "warning" && message == "w\n"
    ));
}

#[test]
fn log_lines_are_marked() {
    let mut cfg = Config::default();
    cfg.color.error = Style { foreground: Some(Colour::Red), bold: false, dimmed: false };
    assert_eq!(format_log_line_for_parent(&cfg, "error", "m"), "\x1b[31m[X]\x1b[0m m");
    assert_eq!(format_log_line_for_parent(&cfg, "warning", "m"), "[!] m");
    assert_eq!(format_log_line_for_parent(&cfg, "debug", "m"), "[·] m");
}

#[test]
fn unsafe_variables_are_taken_out() {
    let names: Vec<String> = ["HOME", "LD_PRELOAD", "PATH", "DYLD_X", "PYTHONPATH", "PERL5LIB",
        "RUBYLIB", "NODE_PATH", "XLD_", "PYTHONPATH2"]
        .iter()
        .map(|s| s.to_string())
        .collect();
    let change = sanitize_helper_environment(&names);
    assert_eq!(
        change.remove,
        vec!["LD_PRELOAD", "DYLD_X", "PYTHONPATH", "PERL5LIB", "RUBYLIB", "NODE_PATH"]
    );
    assert_eq!(change.path, "/usr/local/sbin:/usr/local/bin:/usr/sbin:/usr/bin:/sbin:/bin");
}

#[test]
fn signals_wait_for_hooks() {
    assert_eq!(on_signal(false, true, false), SignalStep::Ignore);
    assert_eq!(on_signal(true, true, false), SignalStep::InterruptTransaction);
    assert_eq!(on_signal(true, false, true), SignalStep::AlreadyLeaving);
    assert_eq!(on_signal(true, false, false), SignalStep::Leave);
    assert_eq!(on_parent_signal(0, false), ParentSignal::Watch);
    assert_eq!(on_parent_signal(2, false), ParentSignal::PassOn);
    assert_eq!(on_parent_signal(2, true), ParentSignal::Stop);
    assert_eq!(interrupted_notice(), "\r\x1b[2K\x1b[1m:: Interrupted. Cleaning up...\x1b[0m\n");
    assert_eq!(InterruptedError.message(), "operation interrupted");
}

#[test]
fn the_parent_follows_the_helper() {
    let cfg = Config::default();
    let mut ui = TransactionRenderController::new();
    let mut step = |e: ParentEvent| on_parent_event(&cfg, &mut ui, &e, 0, Some(90));
    let print = |s: ParentStep| match s {
        ParentStep::Print(t) => t,
        _ => panic!("not printed"),
    };
    let message = |m| ParentEvent::Message(m);
    assert_eq!(print(step(message(HelperToParent::Event { message: "e".into() }))), "e\n");
    let log = HelperToParent::LogLine { level: "error".into(), message: "m".into() };
    assert_eq!(print(step(message(log))), "[X] m\n");
    let hook = HelperToParent::HookStep { current: 1, total: 2, desc: "d".into() };
    assert_eq!(print(step(message(hook))), "(1/2) d \x1b[32m::\x1b[0m\n");
    assert!(print(step(message(HelperToParent::HookPhaseStart))).contains("Running"));
    assert!(print(step(message(HelperToParent::HookPhaseDone))).contains("completed"));
    let install = HelperToParent::InstallProgress {
        package: "p".into(),
        percent: 3,
        current: 1,
        total: 1,
        removing: false,
    };
    assert!(print(step(message(install))).contains("Installing"));
    let download = HelperToParent::DownloadProgress { package: "p".into(), downloaded: 1, total: 2 };
    assert!(matches!(step(message(download)), ParentStep::Draw(lines) if lines.len() == 1));
    let question = HelperToParent::Question { id: 9, prompt: "?".into(), default_yes: true };
    assert!(matches!(
        step(message(question)),
        ParentStep::Ask { id: 9, prompt, default_yes: true } if prompt == "?"
    ));
    assert!(matches!(
        step(message(HelperToParent::Result { code: 4 })),
        ParentStep::Stop(Some(4))
    ));
    assert!(matches!(
        step(message(HelperToParent::Error { message: "x".into() })),
        ParentStep::Fail(e) if e == "helper error: x"
    ));
    assert!(matches!(step(ParentEvent::Noise), ParentStep::Wait));
    assert!(matches!(step(ParentEvent::Closed), ParentStep::Stop(None)));
    assert!(matches!(step(ParentEvent::Disconnected), ParentStep::Stop(None)));
    assert!(matches!(step(ParentEvent::Quiet(true)), ParentStep::Stop(None)));
    assert!(matches!(step(ParentEvent::Quiet(false)), ParentStep::Wait));
    assert!(matches!(
        step(ParentEvent::ReadFailed("io".into())),
        ParentStep::Fail(e) if e == "read helper IPC line: io"
    ));
}

#[test]
fn the_parent_ends_with_the_result_of_the_helper() {
    assert!(matches!(helper_end(Some(3), true, Status(9)), HelperEnd::Status(Status(3))));
    assert!(matches!(helper_end(None, true, Status(0)), HelperEnd::Interrupted));
    assert!(matches!(
        helper_end(None, false, Status(-1)),
        HelperEnd::Failed(e)
            if e == "transaction helper terminated before sending a result (status -1)"
    ));
    assert_eq!(wait_helper_exit(Some(Some(2)), 9, 1), ExitWait::Ended(Status(2)));
    assert_eq!(wait_helper_exit(Some(None), 0, 1), ExitWait::Ended(Status(1)));
    assert_eq!(wait_helper_exit(None, 0, 1), ExitWait::Sleep);
    assert_eq!(wait_helper_exit(None, 1, 1), ExitWait::Kill);
}

#[test]
fn commands_around_the_helper_are_composed() {
    let mut cfg = Config::default();
    cfg.sudo_flags = vec!["-n".into()];
    assert_eq!(helper_arguments(&cfg, "/bin/bah"), vec!["-n", "/bin/bah", "--helper-transaction"]);
    assert_eq!(
        lock_cleanup_arguments(&cfg),
        vec!["-n", "rm", "-f", "/var/lib/pacman/db.lck"]
    );
    assert_eq!(lock_cleanup_result(Status(0)), Ok(()));
    assert_eq!(
        lock_cleanup_result(Status(1)),
        Err("failed to remove stale pacman db lock after interruption")
    );
}
