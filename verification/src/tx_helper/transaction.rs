//! The order in which the helper carries out a plan.
//!
//! A run asks for one action at a time and goes on with its outcome. What is done with the
//! package database happens elsewhere; which action comes next, what counts as a failure and
//! what is reported is decided here.

use crate::config::Config;
use crate::flags::TransFlags;
#[allow(unused_imports)]
use crate::flags::no_flags;
use crate::text::{join, put, same};
#[allow(unused_imports)]
use crate::text::{joined, opt_text, texts};
use crate::tx_helper::plan::TransactionPlan;
use vstd::prelude::*;

verus! {

/// How a commit failed.
#[derive(Debug, Clone, Copy, PartialEq, Eq, Structural)]
pub enum CommitFailure {
    HookFailed,
    Aborted,
    Other,
}

/// What the run waits for.
#[derive(Debug, Clone, Copy, PartialEq, Eq, Structural)]
pub enum Phase {
    Open,
    SetReason(usize),
    Refresh,
    RecoverRefresh,
    RefreshAgain,
    Init,
    RecoverInit,
    InitAgain,
    SystemUpgrade,
    AddTarget(usize),
    Inspect,
    ReleaseEmpty,
    Prepare,
    ReleaseUncommitted,
    WatchSignals,
    Critical,
    Boot,
    ResetHooks,
    Commit,
    Release,
    Unlock,
    Finished,
}

/// What is to be done next. A number is the place of a target in the plan.
#[derive(Debug, Clone, Copy, PartialEq, Eq, Structural)]
pub enum Action {
    /// Open the package database with the helper's callbacks.
    Open { no_confirm: bool },
    /// Set the install reason of a package, where it is installed.
    SetReason { package: usize, dependency: bool },
    /// Update the sync databases.
    Update { force: bool },
    /// Recover from a stale lock and open the package database anew.
    Recover,
    /// Start a transaction.
    Init(TransFlags),
    /// Add all upgrades.
    SystemUpgrade { downgrade: bool },
    /// Add a target from the sync databases.
    AddSync(usize),
    /// Mark an installed package for removal.
    RemoveLocal(usize),
    /// Add a package file.
    AddFile(usize),
    /// Tell whether the transaction is empty.
    Inspect,
    /// Release the transaction.
    Release,
    /// Prepare the transaction.
    Prepare,
    /// Start to watch for signals.
    WatchSignals,
    /// List the critical packages of the transaction.
    ListCritical,
    /// Check that the boot partition can be written.
    CheckBoot,
    /// Forget which hook ran last.
    ResetHooks,
    /// Commit the transaction, with interrupts held back.
    Commit,
    /// Give the database lock back.
    Unlock,
    /// Nothing: the run is over.
    Finish,
}

/// What came of an action.
#[derive(Debug, Clone)]
pub enum Outcome {
    Done,
    /// The database is locked; the text is that of the error.
    Locked(String),
    /// The action failed with this error.
    Failed(String),
    /// The target was found, and the transaction refused it with this error.
    Rejected(String),
    /// Whether the transaction is empty.
    Empty(bool),
    /// The critical packages of the transaction.
    Critical(Vec<String>),
    /// The commit failed: how, with which error, and the hook that ran last.
    CommitFailed(CommitFailure, String, Option<String>),
}

/// The text of an error.
pub open spec fn failure_text(o: Outcome) -> Seq<char> {
    match o {
        Outcome::Locked(t) => t@,
        Outcome::Failed(t) => t@,
        Outcome::Rejected(t) => t@,
        Outcome::CommitFailed(_, t, _) => t@,
        _ => seq![],
    }
}

/// The critical packages that an outcome names.
pub open spec fn critical_names(o: Outcome) -> Seq<Seq<char>> {
    match o {
        Outcome::Critical(list) => texts(list@),
        _ => seq![],
    }
}

/// The switches that a plan asks for.
pub open spec fn plan_flags(plan: TransactionPlan) -> TransFlags {
    match plan {
        TransactionPlan::Sync {
            download_only,
            nodeps_count,
            needed,
            db_only,
            no_scriptlet,
            overwrite,
            ..
        } => TransFlags {
            download_only,
            no_deps: nodeps_count > 0,
            no_dep_version: nodeps_count > 1,
            needed,
            db_only,
            no_scriptlet,
            no_conflicts: overwrite,
            ..no_flags()
        },
        TransactionPlan::Remove {
            nodeps,
            cascade,
            no_save,
            db_only,
            no_scriptlet,
            recursive_count,
            unneeded,
            ..
        } => TransFlags {
            no_deps: nodeps,
            cascade,
            no_save,
            db_only,
            no_scriptlet,
            recurse: recursive_count > 0,
            recurse_all: recursive_count > 1,
            unneeded,
            ..no_flags()
        },
        TransactionPlan::Upgrade {
            nodeps_count,
            db_only,
            download_only,
            needed,
            overwrite,
            ..
        } => TransFlags {
            no_deps: nodeps_count > 0,
            no_dep_version: nodeps_count > 1,
            db_only,
            download_only,
            needed,
            no_conflicts: overwrite,
            ..no_flags()
        },
        TransactionPlan::SetInstallReason { .. } => no_flags(),
    }
}

/// Whether nothing to do is a success: after a refresh or a system upgrade.
pub open spec fn may_be_empty(plan: TransactionPlan) -> bool {
    match plan {
        TransactionPlan::Sync { refresh_count, sysupgrade_count, .. } => refresh_count > 0
            || sysupgrade_count > 0,
        _ => false,
    }
}

/// The phase for the target at `i`, or the one after all targets.
pub open spec fn target_phase(plan: TransactionPlan, i: int) -> Phase {
    if i < plan.subjects().len() {
        Phase::AddTarget(i as usize)
    } else {
        Phase::Inspect
    }
}

/// The phase for the package at `i`, or the one after all packages.
pub open spec fn reason_phase(plan: TransactionPlan, i: int) -> Phase {
    if i < plan.subjects().len() {
        Phase::SetReason(i as usize)
    } else {
        Phase::Finished
    }
}

/// Whether the install reason of a plan is one that can be set.
pub open spec fn reason_known(plan: TransactionPlan) -> bool {
    match plan {
        TransactionPlan::SetInstallReason { reason, .. } => reason@ == "asdeps"@ || reason@
            == "asexplicit"@,
        _ => true,
    }
}

/// What comes after an action. `guarded` tells whether critical packages stop the transaction.
pub open spec fn next(plan: TransactionPlan, guarded: bool, phase: Phase, o: Outcome) -> Phase {
    match phase {
        Phase::Open => if o !is Done {
            Phase::Finished
        } else {
            match plan {
                TransactionPlan::SetInstallReason { .. } => if reason_known(plan) {
                    reason_phase(plan, 0)
                } else {
                    Phase::Finished
                },
                TransactionPlan::Sync { refresh_count, .. } => if refresh_count > 0 {
                    Phase::Refresh
                } else {
                    Phase::Init
                },
                _ => Phase::Init,
            }
        },
        Phase::SetReason(i) => if o is Done {
            reason_phase(plan, i + 1)
        } else {
            Phase::Finished
        },
        Phase::Refresh => match o {
            Outcome::Done => Phase::Init,
            Outcome::Locked(_) => Phase::RecoverRefresh,
            _ => Phase::Finished,
        },
        Phase::RecoverRefresh => if o is Done {
            Phase::RefreshAgain
        } else {
            Phase::Finished
        },
        Phase::RefreshAgain => if o is Done {
            Phase::Init
        } else {
            Phase::Finished
        },
        Phase::Init => match o {
            Outcome::Done => after_init(plan),
            Outcome::Locked(_) => Phase::RecoverInit,
            _ => Phase::Finished,
        },
        Phase::RecoverInit => if o is Done {
            Phase::InitAgain
        } else {
            Phase::Finished
        },
        Phase::InitAgain => if o is Done {
            after_init(plan)
        } else {
            Phase::Finished
        },
        Phase::SystemUpgrade => if o is Done {
            target_phase(plan, 0)
        } else {
            Phase::ReleaseUncommitted
        },
        Phase::AddTarget(i) => if o is Done {
            target_phase(plan, i + 1)
        } else {
            Phase::ReleaseUncommitted
        },
        Phase::Inspect => match o {
            Outcome::Empty(empty) => if empty {
                Phase::ReleaseEmpty
            } else {
                Phase::Prepare
            },
            _ => Phase::ReleaseEmpty,
        },
        Phase::ReleaseEmpty => Phase::Finished,
        Phase::Prepare => if o !is Done || plan.only_shows() {
            Phase::ReleaseUncommitted
        } else {
            Phase::WatchSignals
        },
        Phase::ReleaseUncommitted => Phase::Finished,
        Phase::WatchSignals => if guarded {
            Phase::Critical
        } else {
            Phase::Boot
        },
        Phase::Critical => if o is Critical && critical_names(o).len() == 0 {
            Phase::Boot
        } else {
            Phase::ReleaseUncommitted
        },
        Phase::Boot => if o is Done {
            Phase::ResetHooks
        } else {
            Phase::ReleaseUncommitted
        },
        Phase::ResetHooks => Phase::Commit,
        Phase::Commit => Phase::Release,
        Phase::Release => Phase::Unlock,
        Phase::Unlock => Phase::Finished,
        Phase::Finished => Phase::Finished,
    }
}

/// What comes after the start of the transaction.
pub open spec fn after_init(plan: TransactionPlan) -> Phase {
    match plan {
        TransactionPlan::Sync { sysupgrade_count, .. } => if sysupgrade_count > 0 {
            Phase::SystemUpgrade
        } else {
            target_phase(plan, 0)
        },
        _ => target_phase(plan, 0),
    }
}

/// The words that name the kind of transaction in a report on its preparation.
pub open spec fn prepare_context(plan: TransactionPlan) -> Seq<char> {
    match plan {
        TransactionPlan::Remove { .. } => "failed to prepare ALPM remove transaction: "@,
        TransactionPlan::Upgrade { .. } => "failed to prepare ALPM upgrade transaction: "@,
        _ => "failed to prepare ALPM transaction: "@,
    }
}

/// The words that name the kind of transaction in a report on its commit.
pub open spec fn commit_context(plan: TransactionPlan) -> Seq<char> {
    match plan {
        TransactionPlan::Remove { .. } => "failed to commit ALPM remove transaction"@,
        TransactionPlan::Upgrade { .. } => "failed to commit ALPM upgrade (local pkg) transaction"@,
        _ => "failed to commit ALPM sync transaction"@,
    }
}

/// The report on a commit that failed.
pub open spec fn commit_error(
    kind: CommitFailure,
    text: Seq<char>,
    context: Seq<char>,
    hook: Option<Seq<char>>,
) -> Seq<char> {
    let head = context + ": "@ + text;
    match kind {
        CommitFailure::HookFailed => head + " (transaction hook failed"@ + (match hook {
            Some(h) => ": last running hook was '"@ + h + "'"@,
            None => seq![],
        }) + "; see hook output streamed above for details)"@,
        CommitFailure::Aborted => head + " (transaction aborted, often due to Ctrl+C)"@,
        CommitFailure::Other => head,
    }
}

/// The report that critical packages may not go without their scriptlets.
pub open spec fn noscriptlet_error(critical: Seq<Seq<char>>) -> Seq<char> {
    "--noscriptlet cannot be used with critical system packages ("@ + joined(critical, ", "@)
        + ").\n       Post-install scriptlets are required for these packages to function correctly."@
}

/// The report on an empty transaction.
pub open spec fn empty_error() -> Seq<char> {
    "refusing empty ALPM transaction: nothing to install, upgrade, or remove"@
}

/// The failure that an outcome means in a phase.
pub open spec fn failure(
    plan: TransactionPlan,
    guarded: bool,
    phase: Phase,
    o: Outcome,
) -> Option<Seq<char>> {
    match phase {
        Phase::Open => if o !is Done {
            Some(failure_text(o))
        } else if !reason_known(plan) {
            match plan {
                TransactionPlan::SetInstallReason { reason, .. } => Some(
                    "unsupported install reason '"@ + reason@ + "'"@,
                ),
                _ => None,
            }
        } else {
            None
        },
        Phase::SetReason(_) | Phase::RecoverRefresh | Phase::RefreshAgain | Phase::RecoverInit
        | Phase::InitAgain | Phase::SystemUpgrade | Phase::Boot => if o is Done {
            None
        } else {
            Some(failure_text(o))
        },
        Phase::Refresh | Phase::Init => if o is Done || o is Locked {
            None
        } else {
            Some(failure_text(o))
        },
        Phase::AddTarget(i) => if o is Done {
            None
        } else if o is Rejected && plan is Upgrade {
            Some(
                "failed to add package file '"@ + plan.subjects()[i as int]@ + "': "@
                    + failure_text(o),
            )
        } else {
            Some(failure_text(o))
        },
        Phase::ReleaseEmpty => if may_be_empty(plan) {
            None
        } else {
            Some(empty_error())
        },
        Phase::Prepare => if o is Done {
            None
        } else {
            Some(prepare_context(plan) + failure_text(o))
        },
        Phase::Critical => if o is Critical && critical_names(o).len() == 0 {
            None
        } else {
            Some(noscriptlet_error(critical_names(o)))
        },
        Phase::Commit => match o {
            Outcome::Done => None,
            Outcome::CommitFailed(kind, text, hook) => Some(
                commit_error(kind, text@, commit_context(plan), opt_text(hook)),
            ),
            _ => Some(
                commit_error(CommitFailure::Other, failure_text(o), commit_context(plan), None),
            ),
        },
        _ => None,
    }
}

/// What a run asks for in a phase.
pub open spec fn action_in(plan: TransactionPlan, phase: Phase) -> Action {
    match phase {
        Phase::Open => Action::Open { no_confirm: plan.unattended() },
        Phase::SetReason(i) => Action::SetReason {
            package: i,
            dependency: match plan {
                TransactionPlan::SetInstallReason { reason, .. } => reason@ == "asdeps"@,
                _ => false,
            },
        },
        Phase::Refresh | Phase::RefreshAgain => Action::Update {
            force: match plan {
                TransactionPlan::Sync { refresh_count, .. } => refresh_count > 1,
                _ => false,
            },
        },
        Phase::RecoverRefresh | Phase::RecoverInit => Action::Recover,
        Phase::Init | Phase::InitAgain => Action::Init(plan_flags(plan)),
        Phase::SystemUpgrade => Action::SystemUpgrade {
            downgrade: match plan {
                TransactionPlan::Sync { sysupgrade_count, .. } => sysupgrade_count > 1,
                _ => false,
            },
        },
        Phase::AddTarget(i) => match plan {
            TransactionPlan::Remove { .. } => Action::RemoveLocal(i),
            TransactionPlan::Upgrade { .. } => Action::AddFile(i),
            _ => Action::AddSync(i),
        },
        Phase::Inspect => Action::Inspect,
        Phase::ReleaseEmpty | Phase::ReleaseUncommitted | Phase::Release => Action::Release,
        Phase::Prepare => Action::Prepare,
        Phase::WatchSignals => Action::WatchSignals,
        Phase::Critical => Action::ListCritical,
        Phase::Boot => Action::CheckBoot,
        Phase::ResetHooks => Action::ResetHooks,
        Phase::Commit => Action::Commit,
        Phase::Unlock => Action::Unlock,
        Phase::Finished => Action::Finish,
    }
}

/// A phase that a run of `plan` can be in.
pub open spec fn fits_plan(plan: TransactionPlan, phase: Phase) -> bool {
    match phase {
        Phase::SetReason(i) => i < plan.subjects().len(),
        Phase::AddTarget(i) => i < plan.subjects().len(),
        _ => true,
    }
}

/// A plan that is being carried out.
#[derive(Debug)]
pub struct PlanRun {
    pub phase: Phase,
    /// The first failure.
    pub error: Option<String>,
}

/// The flags of a transaction for `plan`.
pub fn flags_for_plan(plan: &TransactionPlan) -> (r: TransFlags)
    ensures
        r == plan_flags(*plan),
{
    let mut flags = TransFlags::none();
    match plan {
        TransactionPlan::Sync {
            download_only,
            nodeps_count,
            needed,
            db_only,
            no_scriptlet,
            overwrite,
            ..
        } => {
            flags.download_only = *download_only;
            flags.no_deps = *nodeps_count > 0;
            flags.no_dep_version = *nodeps_count > 1;
            flags.needed = *needed;
            flags.db_only = *db_only;
            flags.no_scriptlet = *no_scriptlet;
            flags.no_conflicts = *overwrite;
        },
        TransactionPlan::Remove {
            nodeps,
            cascade,
            no_save,
            db_only,
            no_scriptlet,
            recursive_count,
            unneeded,
            ..
        } => {
            flags.no_deps = *nodeps;
            flags.cascade = *cascade;
            flags.no_save = *no_save;
            flags.db_only = *db_only;
            flags.no_scriptlet = *no_scriptlet;
            flags.recurse = *recursive_count > 0;
            flags.recurse_all = *recursive_count > 1;
            flags.unneeded = *unneeded;
        },
        TransactionPlan::Upgrade {
            nodeps_count,
            db_only,
            download_only,
            needed,
            overwrite,
            ..
        } => {
            flags.no_deps = *nodeps_count > 0;
            flags.no_dep_version = *nodeps_count > 1;
            flags.db_only = *db_only;
            flags.download_only = *download_only;
            flags.needed = *needed;
            flags.no_conflicts = *overwrite;
        },
        TransactionPlan::SetInstallReason { .. } => {},
    }
    flags
}

/// A refresh or a system upgrade may leave nothing to do.
pub fn sync_allows_empty_transaction(refresh_count: u8, sysupgrade_count: u8) -> (r: bool)
    ensures
        r == (refresh_count > 0 || sysupgrade_count > 0),
{
    refresh_count > 0 || sysupgrade_count > 0
}

/// The report on a commit that failed.
pub fn map_commit_error(
    kind: CommitFailure,
    text: &str,
    context: &str,
    hook: Option<&str>,
) -> (r: String)
    ensures
        r@ == commit_error(kind, text@, context@, crate::text::opt_str(hook)),
{
    let mut out = context.to_owned();
    put(&mut out, ": ");
    put(&mut out, text);
    match kind {
        CommitFailure::HookFailed => {
            put(&mut out, " (transaction hook failed");
            let ghost before = out@;
            match hook {
                Some(h) => {
                    put(&mut out, ": last running hook was '");
                    put(&mut out, h);
                    put(&mut out, "'");
                    assert(out@ =~= before + (": last running hook was '"@ + h@ + "'"@));
                },
                None => {
                    assert(out@ =~= before + seq![]);
                },
            }
            put(&mut out, "; see hook output streamed above for details)");
        },
        CommitFailure::Aborted => {
            put(&mut out, " (transaction aborted, often due to Ctrl+C)");
        },
        CommitFailure::Other => {},
    }
    out
}

/// The report that critical packages may not go without their scriptlets.
pub fn noscriptlet_refusal(critical: &Vec<String>) -> (r: String)
    ensures
        r@ == noscriptlet_error(texts(critical@)),
{
    let mut out = "--noscriptlet cannot be used with critical system packages (".to_owned();
    put(&mut out, join(critical, ", ").as_str());
    put(
        &mut out,
        ").\n       Post-install scriptlets are required for these packages to function correctly.",
    );
    out
}

/// Whether critical packages stop a transaction: scriptlets are switched off, and nobody insisted.
pub open spec fn scriptlet_guard(config: Config) -> bool {
    config.args.given("noscriptlet"@, "noscriptlet"@) && !config.force_noscriptlet
}

/// Refuses critical packages where scriptlets are switched off.
pub fn ensure_noscriptlet_allowed(critical: &Vec<String>, config: &Config) -> (r: Result<(), String>)
    ensures
        match r {
            Ok(_) => !(scriptlet_guard(*config) && critical@.len() > 0),
            Err(e) => scriptlet_guard(*config) && critical@.len() > 0 && e@ == noscriptlet_error(
                texts(critical@),
            ),
        },
{
    if !config.args.has_arg("noscriptlet", "noscriptlet") {
        return Ok(());
    }
    if config.force_noscriptlet {
        return Ok(());
    }
    if critical.len() == 0 {
        return Ok(());
    }
    Err(noscriptlet_refusal(critical))
}

fn failure_of(o: &Outcome) -> (r: String)
    ensures
        r@ == failure_text(*o),
{
    match o {
        Outcome::Locked(t) => t.clone(),
        Outcome::Failed(t) => t.clone(),
        Outcome::Rejected(t) => t.clone(),
        Outcome::CommitFailed(_, t, _) => t.clone(),
        _ => String::new(),
    }
}

fn is_done(o: &Outcome) -> (r: bool)
    ensures
        r == (*o is Done),
{
    match o {
        Outcome::Done => true,
        _ => false,
    }
}

fn is_reason_known(plan: &TransactionPlan) -> (r: bool)
    ensures
        r == reason_known(*plan),
{
    match plan {
        TransactionPlan::SetInstallReason { reason, .. } => same(reason.as_str(), "asdeps") || same(
            reason.as_str(),
            "asexplicit",
        ),
        _ => true,
    }
}

fn phase_of_target(plan: &TransactionPlan, i: usize) -> (r: Phase)
    ensures
        r == target_phase(*plan, i as int),
{
    if i < plan.targets().len() {
        Phase::AddTarget(i)
    } else {
        Phase::Inspect
    }
}

fn phase_of_reason(plan: &TransactionPlan, i: usize) -> (r: Phase)
    ensures
        r == reason_phase(*plan, i as int),
{
    if i < plan.targets().len() {
        Phase::SetReason(i)
    } else {
        Phase::Finished
    }
}

fn phase_after_init(plan: &TransactionPlan) -> (r: Phase)
    ensures
        r == after_init(*plan),
{
    match plan {
        TransactionPlan::Sync { sysupgrade_count, .. } => {
            if *sysupgrade_count > 0 {
                Phase::SystemUpgrade
            } else {
                phase_of_target(plan, 0)
            }
        },
        _ => phase_of_target(plan, 0),
    }
}

fn step(plan: &TransactionPlan, guarded: bool, phase: Phase, o: &Outcome) -> (r: Phase)
    requires
        fits_plan(*plan, phase),
    ensures
        r == next(*plan, guarded, phase, *o),
        fits_plan(*plan, r),
{
    let done = is_done(o);
    let over = Phase::Finished;
    let count: usize = plan.targets().len();
    assert(plan.subjects().len() == count);
    match phase {
        Phase::Open => {
            if !done {
                return over;
            }
            match plan {
                TransactionPlan::SetInstallReason { .. } => {
                    if is_reason_known(plan) {
                        phase_of_reason(plan, 0)
                    } else {
                        over
                    }
                },
                TransactionPlan::Sync { refresh_count, .. } => {
                    if *refresh_count > 0 {
                        Phase::Refresh
                    } else {
                        Phase::Init
                    }
                },
                _ => Phase::Init,
            }
        },
        Phase::SetReason(i) => if done {
            phase_of_reason(plan, i + 1)
        } else {
            over
        },
        Phase::Refresh => match o {
            Outcome::Done => Phase::Init,
            Outcome::Locked(_) => Phase::RecoverRefresh,
            _ => over,
        },
        Phase::RecoverRefresh => if done {
            Phase::RefreshAgain
        } else {
            over
        },
        Phase::RefreshAgain => if done {
            Phase::Init
        } else {
            over
        },
        Phase::Init => match o {
            Outcome::Done => phase_after_init(plan),
            Outcome::Locked(_) => Phase::RecoverInit,
            _ => over,
        },
        Phase::RecoverInit => if done {
            Phase::InitAgain
        } else {
            over
        },
        Phase::InitAgain => if done {
            phase_after_init(plan)
        } else {
            over
        },
        Phase::SystemUpgrade => if done {
            phase_of_target(plan, 0)
        } else {
            Phase::ReleaseUncommitted
        },
        Phase::AddTarget(i) => if done {
            phase_of_target(plan, i + 1)
        } else {
            Phase::ReleaseUncommitted
        },
        Phase::Inspect => match o {
            Outcome::Empty(empty) => if *empty {
                Phase::ReleaseEmpty
            } else {
                Phase::Prepare
            },
            _ => Phase::ReleaseEmpty,
        },
        Phase::Prepare => if !done || plan.print_only() {
            Phase::ReleaseUncommitted
        } else {
            Phase::WatchSignals
        },
        Phase::WatchSignals => if guarded {
            Phase::Critical
        } else {
            Phase::Boot
        },
        Phase::Critical => match o {
            Outcome::Critical(list) => {
                assert(texts(list@).len() == list@.len());
                if list.len() == 0 {
                    Phase::Boot
                } else {
                    Phase::ReleaseUncommitted
                }
            },
            _ => Phase::ReleaseUncommitted,
        },
        Phase::Boot => if done {
            Phase::ResetHooks
        } else {
            Phase::ReleaseUncommitted
        },
        Phase::ResetHooks => Phase::Commit,
        Phase::Commit => Phase::Release,
        Phase::Release => Phase::Unlock,
        Phase::ReleaseEmpty | Phase::ReleaseUncommitted | Phase::Unlock | Phase::Finished => over,
    }
}

fn report(plan: &TransactionPlan, phase: Phase, o: &Outcome, guarded: bool) -> (r: Option<String>)
    requires
        fits_plan(*plan, phase),
    ensures
        opt_text(r) == failure(*plan, guarded, phase, *o),
{
    let done = is_done(o);
    match phase {
        Phase::Open => {
            if !done {
                return Some(failure_of(o));
            }
            if is_reason_known(plan) {
                return None;
            }
            match plan {
                TransactionPlan::SetInstallReason { reason, .. } => {
                    let mut out = "unsupported install reason '".to_owned();
                    put(&mut out, reason.as_str());
                    put(&mut out, "'");
                    Some(out)
                },
                _ => None,
            }
        },
        Phase::SetReason(_) | Phase::RecoverRefresh | Phase::RefreshAgain | Phase::RecoverInit
        | Phase::InitAgain | Phase::SystemUpgrade | Phase::Boot => if done {
            None
        } else {
            Some(failure_of(o))
        },
        Phase::Refresh | Phase::Init => match o {
            Outcome::Done | Outcome::Locked(_) => None,
            _ => Some(failure_of(o)),
        },
        Phase::AddTarget(i) => {
            if done {
                return None;
            }
            match (plan, o) {
                (TransactionPlan::Upgrade { .. }, Outcome::Rejected(text)) => {
                    let mut out = "failed to add package file '".to_owned();
                    put(&mut out, plan.targets()[i].as_str());
                    put(&mut out, "': ");
                    put(&mut out, text.as_str());
                    Some(out)
                },
                _ => Some(failure_of(o)),
            }
        },
        Phase::ReleaseEmpty => {
            let allowed = match plan {
                TransactionPlan::Sync { refresh_count, sysupgrade_count, .. } =>
                    sync_allows_empty_transaction(*refresh_count, *sysupgrade_count),
                _ => false,
            };
            if allowed {
                None
            } else {
                Some(
                    "refusing empty ALPM transaction: nothing to install, upgrade, or remove".to_owned(),
                )
            }
        },
        Phase::Prepare => {
            if done {
                return None;
            }
            let mut out = match plan {
                TransactionPlan::Remove { .. } => "failed to prepare ALPM remove transaction: ".to_owned(),
                TransactionPlan::Upgrade { .. } => "failed to prepare ALPM upgrade transaction: ".to_owned(),
                _ => "failed to prepare ALPM transaction: ".to_owned(),
            };
            put(&mut out, failure_of(o).as_str());
            Some(out)
        },
        Phase::Critical => match o {
            Outcome::Critical(list) => {
                assert(texts(list@).len() == list@.len());
                if list.len() == 0 {
                    None
                } else {
                    Some(noscriptlet_refusal(list))
                }
            },
            _ => {
                let nobody: Vec<String> = Vec::new();
                assert(texts(nobody@) =~= seq![]);
                Some(noscriptlet_refusal(&nobody))
            },
        },
        Phase::Commit => {
            let context = match plan {
                TransactionPlan::Remove { .. } => "failed to commit ALPM remove transaction",
                TransactionPlan::Upgrade { .. } => "failed to commit ALPM upgrade (local pkg) transaction",
                _ => "failed to commit ALPM sync transaction",
            };
            match o {
                Outcome::Done => None,
                Outcome::CommitFailed(kind, text, hook) => {
                    let hook = match hook {
                        Some(h) => Some(h.as_str()),
                        None => None,
                    };
                    Some(map_commit_error(*kind, text.as_str(), context, hook))
                },
                _ => Some(
                    map_commit_error(CommitFailure::Other, failure_of(o).as_str(), context, None),
                ),
            }
        },
        _ => None,
    }
}

impl PlanRun {
    /// A run that can belong to `plan`.
    pub open spec fn wf(&self, plan: TransactionPlan) -> bool {
        fits_plan(plan, self.phase)
    }

    pub fn new(plan: &TransactionPlan) -> (r: PlanRun)
        ensures
            r.wf(*plan),
            r.phase == Phase::Open,
            r.error is None,
    {
        PlanRun { phase: Phase::Open, error: None }
    }

    /// What is to be done now.
    pub fn action(&self, plan: &TransactionPlan) -> (r: Action)
        requires
            self.wf(*plan),
        ensures
            r == action_in(*plan, self.phase),
    {
        match self.phase {
            Phase::Open => Action::Open { no_confirm: plan.no_confirm() },
            Phase::SetReason(i) => {
                let dependency = match plan {
                    TransactionPlan::SetInstallReason { reason, .. } => same(
                        reason.as_str(),
                        "asdeps",
                    ),
                    _ => false,
                };
                Action::SetReason { package: i, dependency }
            },
            Phase::Refresh | Phase::RefreshAgain => {
                let force = match plan {
                    TransactionPlan::Sync { refresh_count, .. } => *refresh_count > 1,
                    _ => false,
                };
                Action::Update { force }
            },
            Phase::RecoverRefresh | Phase::RecoverInit => Action::Recover,
            Phase::Init | Phase::InitAgain => Action::Init(flags_for_plan(plan)),
            Phase::SystemUpgrade => {
                let downgrade = match plan {
                    TransactionPlan::Sync { sysupgrade_count, .. } => *sysupgrade_count > 1,
                    _ => false,
                };
                Action::SystemUpgrade { downgrade }
            },
            Phase::AddTarget(i) => match plan {
                TransactionPlan::Remove { .. } => Action::RemoveLocal(i),
                TransactionPlan::Upgrade { .. } => Action::AddFile(i),
                _ => Action::AddSync(i),
            },
            Phase::Inspect => Action::Inspect,
            Phase::ReleaseEmpty | Phase::ReleaseUncommitted | Phase::Release => Action::Release,
            Phase::Prepare => Action::Prepare,
            Phase::WatchSignals => Action::WatchSignals,
            Phase::Critical => Action::ListCritical,
            Phase::Boot => Action::CheckBoot,
            Phase::ResetHooks => Action::ResetHooks,
            Phase::Commit => Action::Commit,
            Phase::Unlock => Action::Unlock,
            Phase::Finished => Action::Finish,
        }
    }

    /// Goes on with the outcome of the action.
    pub fn advance(&mut self, plan: &TransactionPlan, config: &Config, o: &Outcome)
        requires
            old(self).wf(*plan),
        ensures
            final(self).wf(*plan),
            final(self).phase == next(*plan, scriptlet_guard(*config), old(self).phase, *o),
            opt_text(final(self).error) == (match failure(
                *plan,
                scriptlet_guard(*config),
                old(self).phase,
                *o,
            ) {
                Some(text) => Some(text),
                None => opt_text(old(self).error),
            }),
    {
        let guarded = config.args.has_arg("noscriptlet", "noscriptlet") && !config.force_noscriptlet;
        let failed = report(plan, self.phase, o, guarded);
        self.phase = step(plan, guarded, self.phase, o);
        if failed.is_some() {
            self.error = failed;
        }
    }

    /// The end of the run: exit code zero, or the failure.
    pub fn result(self) -> (r: Result<i32, String>)
        ensures
            match r {
                Ok(code) => self.error is None && code == 0,
                Err(e) => opt_text(self.error) == Some(e@),
            },
    {
        match self.error {
            None => Ok(0),
            Some(e) => Err(e),
        }
    }
}

/// The phase of a run after the first `n` outcomes.
pub open spec fn phase_after(
    plan: TransactionPlan,
    guarded: bool,
    outcomes: Seq<Outcome>,
    n: int,
) -> Phase
    decreases n,
{
    if n <= 0 {
        Phase::Open
    } else {
        next(plan, guarded, phase_after(plan, guarded, outcomes, n - 1), outcomes[n - 1])
    }
}

/// What an outcome has to be for a check to be passed.
pub open spec fn passes(check: Phase, o: Outcome) -> bool {
    match check {
        Phase::Inspect => o == Outcome::Empty(false),
        Phase::Critical => o is Critical && critical_names(o).len() == 0,
        _ => o is Done,
    }
}

/// Whether a check was passed within the first `n` outcomes.
pub open spec fn passed(
    plan: TransactionPlan,
    guarded: bool,
    outcomes: Seq<Outcome>,
    n: int,
    check: Phase,
) -> bool {
    exists|i: int|
        0 <= i < n && #[trigger] phase_after(plan, guarded, outcomes, i) == check && passes(
            check,
            outcomes[i],
        )
}

/// The phases that only a transaction with packages reaches.
pub open spec fn beyond_inspect(p: Phase) -> bool {
    p is Prepare || beyond_prepare(p)
}

/// The phases that only a prepared transaction reaches.
pub open spec fn beyond_prepare(p: Phase) -> bool {
    p is WatchSignals || p is Critical || beyond_critical(p)
}

/// The phases that come after the check for critical packages.
pub open spec fn beyond_critical(p: Phase) -> bool {
    p is Boot || beyond_boot(p)
}

/// The phases that come after the check of the boot partition.
pub open spec fn beyond_boot(p: Phase) -> bool {
    p is ResetHooks || p is Commit || p is Release || p is Unlock
}

proof fn lemma_trail(plan: TransactionPlan, guarded: bool, outcomes: Seq<Outcome>, n: int)
    requires
        0 <= n,
    ensures
        ({
            let p = phase_after(plan, guarded, outcomes, n);
            &&& beyond_inspect(p) ==> passed(plan, guarded, outcomes, n, Phase::Inspect)
            &&& beyond_prepare(p) ==> passed(plan, guarded, outcomes, n, Phase::Prepare)
                && !plan.only_shows()
            &&& beyond_critical(p) && guarded ==> passed(
                plan,
                guarded,
                outcomes,
                n,
                Phase::Critical,
            )
            &&& beyond_boot(p) ==> passed(plan, guarded, outcomes, n, Phase::Boot)
        }),
    decreases n,
{
    if n > 0 {
        lemma_trail(plan, guarded, outcomes, n - 1);
        let before = phase_after(plan, guarded, outcomes, n - 1);
        let p = phase_after(plan, guarded, outcomes, n);
        let o = outcomes[n - 1];
        assert(p == next(plan, guarded, before, o));
        assert(before is Inspect && p is Prepare ==> passes(Phase::Inspect, o));
        assert(before is Prepare && p is WatchSignals ==> passes(Phase::Prepare, o));
        assert(before is Critical && p is Boot ==> passes(Phase::Critical, o));
        assert(before is Boot && p is ResetHooks ==> passes(Phase::Boot, o));
        assert(forall|check: Phase| passed(plan, guarded, outcomes, n - 1, check) ==> passed(
            plan,
            guarded,
            outcomes,
            n,
            check,
        ));
        assert(forall|check: Phase| before == check && passes(check, o) ==> #[trigger] passed(
            plan,
            guarded,
            outcomes,
            n,
            check,
        ));
    }
}

/// Nothing is committed unless the transaction has packages, was prepared, and the boot
/// partition was found writable; where critical packages are guarded, unless there are none.
/// A plan that only shows what it would do is never committed.
pub proof fn commit_is_checked(
    plan: TransactionPlan,
    guarded: bool,
    outcomes: Seq<Outcome>,
    n: int,
)
    requires
        0 <= n <= outcomes.len(),
        action_in(plan, phase_after(plan, guarded, outcomes, n)) is Commit,
    ensures
        !plan.only_shows(),
        passed(plan, guarded, outcomes, n, Phase::Inspect),
        passed(plan, guarded, outcomes, n, Phase::Prepare),
        passed(plan, guarded, outcomes, n, Phase::Boot),
        guarded ==> passed(plan, guarded, outcomes, n, Phase::Critical),
{
    lemma_trail(plan, guarded, outcomes, n);
}

/// Whatever comes of a commit, the transaction is released, then the lock is given back, and
/// then the run is over.
pub proof fn commit_is_followed_by_cleanup(
    plan: TransactionPlan,
    guarded: bool,
    outcomes: Seq<Outcome>,
    n: int,
)
    requires
        0 <= n,
        n + 3 <= outcomes.len(),
        action_in(plan, phase_after(plan, guarded, outcomes, n)) is Commit,
    ensures
        action_in(plan, phase_after(plan, guarded, outcomes, n + 1)) is Release,
        action_in(plan, phase_after(plan, guarded, outcomes, n + 2)) is Unlock,
        action_in(plan, phase_after(plan, guarded, outcomes, n + 3)) is Finish,
{
    reveal_with_fuel(phase_after, 4);
}

/// The phases in which a transaction is held that is still to be released.
pub open spec fn holds_transaction(p: Phase) -> bool {
    p is SystemUpgrade || p is AddTarget || p is Inspect || beyond_inspect(p) && !(p is Unlock)
        || p is ReleaseEmpty || p is ReleaseUncommitted
}

/// A transaction that was started is released before the run ends, on every path: whatever fails,
/// whether there is nothing to do, and where the plan is only shown.
pub proof fn transaction_is_always_released(
    plan: TransactionPlan,
    guarded: bool,
    outcomes: Seq<Outcome>,
    i: int,
    n: int,
) -> (j: int)
    requires
        0 <= i < n <= outcomes.len(),
        action_in(plan, phase_after(plan, guarded, outcomes, i)) is Init,
        outcomes[i] is Done,
        phase_after(plan, guarded, outcomes, n) is Finished,
    ensures
        i < j < n,
        action_in(plan, phase_after(plan, guarded, outcomes, j)) is Release,
{
    lemma_held_until_released(plan, guarded, outcomes, i + 1, n)
}

proof fn lemma_held_until_released(
    plan: TransactionPlan,
    guarded: bool,
    outcomes: Seq<Outcome>,
    i: int,
    n: int,
) -> (j: int)
    requires
        0 <= i <= n,
        holds_transaction(phase_after(plan, guarded, outcomes, i)),
        phase_after(plan, guarded, outcomes, n) is Finished,
    ensures
        i <= j < n,
        action_in(plan, phase_after(plan, guarded, outcomes, j)) is Release,
    decreases n - i,
{
    let p = phase_after(plan, guarded, outcomes, i);
    if action_in(plan, p) is Release {
        i
    } else {
        assert(phase_after(plan, guarded, outcomes, i + 1) == next(plan, guarded, p, outcomes[i]));
        lemma_held_until_released(plan, guarded, outcomes, i + 1, n)
    }
}

/// The phases in which nothing more is attempted.
pub open spec fn winds_up(p: Phase) -> bool {
    p is ReleaseUncommitted || p is Release || p is Unlock || p is Finished
}

/// After a failure nothing more is attempted: the run at most releases the transaction, gives
/// the lock back and ends.
pub proof fn failure_stops_the_run(
    plan: TransactionPlan,
    guarded: bool,
    outcomes: Seq<Outcome>,
    i: int,
    n: int,
)
    requires
        0 <= i < n <= outcomes.len(),
        failure(plan, guarded, phase_after(plan, guarded, outcomes, i), outcomes[i]) is Some,
    ensures
        winds_up(phase_after(plan, guarded, outcomes, n)),
    decreases n,
{
    if i < n - 1 {
        failure_stops_the_run(plan, guarded, outcomes, i, n - 1);
    }
}

/// A run fails at most once, so that the failure it reports is the one that stopped it.
pub proof fn run_fails_once(
    plan: TransactionPlan,
    guarded: bool,
    outcomes: Seq<Outcome>,
    i: int,
    n: int,
)
    requires
        0 <= i < n < outcomes.len(),
        failure(plan, guarded, phase_after(plan, guarded, outcomes, i), outcomes[i]) is Some,
    ensures
        failure(plan, guarded, phase_after(plan, guarded, outcomes, n), outcomes[n]) is None,
{
    failure_stops_the_run(plan, guarded, outcomes, i, n);
}

/// The phases of a plan that sets install reasons: it opens the database, sets reasons and ends,
/// and starts no transaction.
pub proof fn reasons_need_no_transaction(
    plan: TransactionPlan,
    guarded: bool,
    outcomes: Seq<Outcome>,
    n: int,
)
    requires
        plan is SetInstallReason,
        0 <= n <= outcomes.len(),
    ensures
        ({
            let p = phase_after(plan, guarded, outcomes, n);
            p is Open || p is SetReason || p is Finished
        }),
    decreases n,
{
    if n > 0 {
        reasons_need_no_transaction(plan, guarded, outcomes, n - 1);
    }
}

/// An upper bound for the steps that are left in a phase.
pub open spec fn steps_left(plan: TransactionPlan, p: Phase) -> int {
    let n = plan.subjects().len() as int;
    match p {
        Phase::Open => n + 20,
        Phase::SetReason(i) => n - i,
        Phase::Refresh => n + 19,
        Phase::RecoverRefresh => n + 18,
        Phase::RefreshAgain => n + 17,
        Phase::Init => n + 16,
        Phase::RecoverInit => n + 15,
        Phase::InitAgain => n + 14,
        Phase::SystemUpgrade => n + 13,
        Phase::AddTarget(i) => n - i + 11,
        Phase::Inspect => 11,
        Phase::Prepare => 10,
        Phase::WatchSignals => 9,
        Phase::Critical => 8,
        Phase::Boot => 7,
        Phase::ResetHooks => 6,
        Phase::Commit => 5,
        Phase::Release => 4,
        Phase::Unlock => 3,
        Phase::ReleaseEmpty => 2,
        Phase::ReleaseUncommitted => 1,
        Phase::Finished => 0,
    }
}

/// A run ends: within its targets and twenty steps more it is over, whatever the outcomes.
pub proof fn run_ends(plan: TransactionPlan, guarded: bool, outcomes: Seq<Outcome>, n: int)
    requires
        plan.subjects().len() <= usize::MAX,
        plan.subjects().len() + 20 <= n <= outcomes.len(),
    ensures
        phase_after(plan, guarded, outcomes, n) is Finished,
{
    lemma_steps(plan, guarded, outcomes, n);
}

proof fn lemma_steps(plan: TransactionPlan, guarded: bool, outcomes: Seq<Outcome>, n: int)
    requires
        plan.subjects().len() <= usize::MAX,
        0 <= n,
    ensures
        ({
            let p = phase_after(plan, guarded, outcomes, n);
            &&& fits_plan(plan, p)
            &&& p is Finished || steps_left(plan, p) <= plan.subjects().len() + 20 - n
        }),
    decreases n,
{
    if n > 0 {
        lemma_steps(plan, guarded, outcomes, n - 1);
    }
}

/// A stale lock is recovered from at most once for each of the two steps that need the lock: a
/// second lock ends the run with its error.
pub proof fn lock_is_recovered_once(plan: TransactionPlan, guarded: bool, o: Outcome)
    requires
        o is Locked,
    ensures
        next(plan, guarded, Phase::RefreshAgain, o) is Finished,
        next(plan, guarded, Phase::InitAgain, o) is Finished,
        failure(plan, guarded, Phase::RefreshAgain, o) == Some(failure_text(o)),
        failure(plan, guarded, Phase::InitAgain, o) == Some(failure_text(o)),
{
}

} // verus!
