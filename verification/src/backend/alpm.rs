//! The backend that changes the package database itself.

use crate::config::{Args, Config};
use crate::flags::TransFlags;
#[allow(unused_imports)]
use crate::flags::no_flags;
use crate::style::{heading_text, paint, Colors};
#[allow(unused_imports)]
use crate::style::{heading, painted};
use crate::text::{copy_list, cut_once, put, same};
#[allow(unused_imports)]
use crate::text::{opt_text, split_once, texts};
use crate::tx_helper::events::{words_for_event, HelperEvent};
#[allow(unused_imports)]
use crate::tx_helper::events::event_words;
use crate::tx_helper::plan::TransactionPlan;
use crate::tx_helper::transaction::{map_commit_error, noscriptlet_refusal, CommitFailure};
#[allow(unused_imports)]
use crate::tx_helper::transaction::{
    commit_error, noscriptlet_error, plan_flags, scriptlet_guard,
};
use vstd::prelude::*;

verus! {

/// The backend that changes the package database itself.
#[derive(Debug, Clone, Copy, Default)]
pub struct AlpmBackend;

/// The operations of the backend.
#[derive(Debug, Clone, Copy, PartialEq, Eq, Structural)]
pub enum Operation {
    Sync,
    Remove,
    Upgrade,
}

/// The operation that a command line names.
pub open spec fn operation_of(op: Seq<char>) -> Option<Operation> {
    if op == "sync"@ {
        Some(Operation::Sync)
    } else if op == "remove"@ {
        Some(Operation::Remove)
    } else if op == "upgrade"@ {
        Some(Operation::Upgrade)
    } else {
        None
    }
}

fn operation(op: &str) -> (r: Option<Operation>)
    ensures
        r == operation_of(op@),
{
    if same(op, "sync") {
        Some(Operation::Sync)
    } else if same(op, "remove") {
        Some(Operation::Remove)
    } else if same(op, "upgrade") {
        Some(Operation::Upgrade)
    } else {
        None
    }
}

/// How an operation is carried out.
#[derive(Debug)]
pub enum Route {
    /// By the helper, with this plan.
    Helper(TransactionPlan),
    /// In this process.
    Here(Operation),
    /// By pacman.
    Legacy,
}

/// Whether a command line asks for the package cache to be cleaned.
pub open spec fn cleans_cache(args: Args) -> bool {
    args.op@ == "sync"@ && args.given("c"@, "clean"@)
}

/// Whether a command line asks for the package cache to be cleaned.
pub fn is_cache_cleaning(args: &Args) -> (r: bool)
    ensures
        r == cleans_cache(*args),
{
    same(args.op.as_str(), "sync") && args.has_arg("c", "clean")
}

/// The count of an option as the plan holds it.
pub open spec fn small_count(args: Args, a: Seq<char>, b: Seq<char>) -> int {
    args.times(a, b) as int % 256
}

fn count_small(args: &Args, a: &str, b: &str) -> (r: u8)
    ensures
        r == small_count(*args, a@, b@),
{
    (args.count(a, b) % 256) as u8
}

/// Whether a plan is the one for a command line. A plan never leaves scriptlets out.
pub open spec fn plans(args: Args, unattended: bool, plan: TransactionPlan) -> bool {
    match plan {
        TransactionPlan::Sync {
            targets,
            refresh_count,
            sysupgrade_count,
            download_only,
            nodeps_count,
            needed,
            db_only,
            no_scriptlet,
            overwrite,
            print_only,
            no_confirm,
        } => {
            &&& args.op@ == "sync"@
            &&& texts(targets@) == texts(args.targets@)
            &&& refresh_count == small_count(args, "y"@, "refresh"@)
            &&& sysupgrade_count == small_count(args, "u"@, "sysupgrade"@)
            &&& download_only == args.given("w"@, "downloadonly"@)
            &&& nodeps_count == small_count(args, "d"@, "nodeps"@)
            &&& needed == args.given("needed"@, "needed"@)
            &&& db_only == args.given("dbonly"@, "dbonly"@)
            &&& !no_scriptlet
            &&& overwrite == args.given("overwrite"@, "overwrite"@)
            &&& print_only == args.given("p"@, "print"@)
            &&& no_confirm == unattended
        },
        TransactionPlan::Remove {
            targets,
            nodeps,
            cascade,
            no_save,
            db_only,
            no_scriptlet,
            recursive_count,
            unneeded,
            print_only,
            no_confirm,
        } => {
            &&& args.op@ == "remove"@
            &&& texts(targets@) == texts(args.targets@)
            &&& nodeps == args.given("d"@, "nodeps"@)
            &&& cascade == args.given("cascade"@, "cascade"@)
            &&& no_save == args.given("nosave"@, "nosave"@)
            &&& db_only == args.given("dbonly"@, "dbonly"@)
            &&& !no_scriptlet
            &&& recursive_count == small_count(args, "recursive"@, "recursive"@)
            &&& unneeded == args.given("unneeded"@, "unneeded"@)
            &&& print_only == args.given("p"@, "print"@)
            &&& no_confirm == unattended
        },
        TransactionPlan::Upgrade {
            targets,
            nodeps_count,
            db_only,
            download_only,
            needed,
            overwrite,
            print_only,
            no_confirm,
        } => {
            &&& args.op@ == "upgrade"@
            &&& texts(targets@) == texts(args.targets@)
            &&& nodeps_count == small_count(args, "d"@, "nodeps"@)
            &&& db_only == args.given("dbonly"@, "dbonly"@)
            &&& download_only == args.given("w"@, "downloadonly"@)
            &&& needed == args.given("needed"@, "needed"@)
            &&& overwrite == args.given("overwrite"@, "overwrite"@)
            &&& print_only == args.given("p"@, "print"@)
            &&& no_confirm == unattended
        },
        TransactionPlan::SetInstallReason { .. } => false,
    }
}

/// The plan of a command line for the helper.
pub fn plan_from_args(args: &Args, no_confirm: bool) -> (r: Result<TransactionPlan, String>)
    ensures
        match r {
            Ok(plan) => operation_of(args.op@) is Some && plans(*args, no_confirm, plan),
            Err(e) => operation_of(args.op@) is None && e@ == "ALPM helper plan unsupported op '"@
                + args.op@ + "'"@,
        },
{
    let targets = copy_list(&args.targets);
    match operation(args.op.as_str()) {
        Some(Operation::Sync) => Ok(
            TransactionPlan::Sync {
                targets,
                refresh_count: count_small(args, "y", "refresh"),
                sysupgrade_count: count_small(args, "u", "sysupgrade"),
                download_only: args.has_arg("w", "downloadonly"),
                nodeps_count: count_small(args, "d", "nodeps"),
                needed: args.has_arg("needed", "needed"),
                db_only: args.has_arg("dbonly", "dbonly"),
                no_scriptlet: false,
                overwrite: args.has_arg("overwrite", "overwrite"),
                print_only: args.has_arg("p", "print"),
                no_confirm,
            },
        ),
        Some(Operation::Remove) => Ok(
            TransactionPlan::Remove {
                targets,
                nodeps: args.has_arg("d", "nodeps"),
                cascade: args.has_arg("cascade", "cascade"),
                no_save: args.has_arg("nosave", "nosave"),
                db_only: args.has_arg("dbonly", "dbonly"),
                no_scriptlet: false,
                recursive_count: count_small(args, "recursive", "recursive"),
                unneeded: args.has_arg("unneeded", "unneeded"),
                print_only: args.has_arg("p", "print"),
                no_confirm,
            },
        ),
        Some(Operation::Upgrade) => Ok(
            TransactionPlan::Upgrade {
                targets,
                nodeps_count: count_small(args, "d", "nodeps"),
                db_only: args.has_arg("dbonly", "dbonly"),
                download_only: args.has_arg("w", "downloadonly"),
                needed: args.has_arg("needed", "needed"),
                overwrite: args.has_arg("overwrite", "overwrite"),
                print_only: args.has_arg("p", "print"),
                no_confirm,
            },
        ),
        None => {
            let mut text = "ALPM helper plan unsupported op '".to_owned();
            put(&mut text, args.op.as_str());
            put(&mut text, "'");
            Err(text)
        },
    }
}

impl AlpmBackend {
    /// How an operation is carried out: the cleaning of the package cache by pacman; anything else
    /// by the helper where it needs rights that this process does not have, otherwise here.
    pub fn pacman(&self, config: &Config, args: &Args, is_root: bool) -> (r: Result<Route, String>)
        ensures
            cleans_cache(*args) ==> (r matches Ok(Route::Legacy)),
            !cleans_cache(*args) && config.need_root && !is_root ==> match r {
                Ok(route) => route matches Route::Helper(plan) && plans(
                    *args,
                    config.no_confirm,
                    plan,
                ),
                Err(e) => operation_of(args.op@) is None && e@
                    == "ALPM helper plan unsupported op '"@ + args.op@ + "'"@,
            },
            !cleans_cache(*args) && !(config.need_root && !is_root) ==> match r {
                Ok(route) => route matches Route::Here(op) && operation_of(args.op@) == Some(op),
                Err(e) => operation_of(args.op@) is None && e@
                    == "ALPM backend currently supports sync/remove/upgrade operations"@,
            },
    {
        if is_cache_cleaning(args) {
            return Ok(Route::Legacy);
        }
        if config.need_root && !is_root {
            return match plan_from_args(args, config.no_confirm) {
                Ok(plan) => Ok(Route::Helper(plan)),
                Err(e) => Err(e),
            };
        }
        match operation(args.op.as_str()) {
            Some(op) => Ok(Route::Here(op)),
            None => Err(
                "ALPM backend currently supports sync/remove/upgrade operations".to_owned(),
            ),
        }
    }
}

/// The switches of an operation.
pub open spec fn flags_of(op: Operation, args: Args) -> TransFlags {
    match op {
        Operation::Sync => TransFlags {
            download_only: args.given("w"@, "downloadonly"@),
            no_deps: args.given("d"@, "nodeps"@),
            no_dep_version: args.times("d"@, "nodeps"@) > 1,
            needed: args.given("needed"@, "needed"@),
            db_only: args.given("dbonly"@, "dbonly"@),
            no_scriptlet: args.given("noscriptlet"@, "noscriptlet"@),
            no_conflicts: args.given("overwrite"@, "overwrite"@),
            ..no_flags()
        },
        Operation::Remove => TransFlags {
            no_deps: args.given("d"@, "nodeps"@),
            cascade: args.given("cascade"@, "cascade"@),
            no_save: args.given("nosave"@, "nosave"@),
            db_only: args.given("dbonly"@, "dbonly"@),
            no_scriptlet: args.given("noscriptlet"@, "noscriptlet"@),
            recurse: args.given("recursive"@, "recursive"@),
            recurse_all: args.times("recursive"@, "recursive"@) > 1,
            unneeded: args.given("unneeded"@, "unneeded"@),
            ..no_flags()
        },
        Operation::Upgrade => TransFlags {
            no_deps: args.given("d"@, "nodeps"@),
            no_dep_version: args.times("d"@, "nodeps"@) > 1,
            db_only: args.given("dbonly"@, "dbonly"@),
            download_only: args.given("w"@, "downloadonly"@),
            needed: args.given("needed"@, "needed"@),
            no_conflicts: args.given("overwrite"@, "overwrite"@),
            ..no_flags()
        },
    }
}

/// The switches of an installation.
pub fn trans_flags_for_sync(args: &Args) -> (r: TransFlags)
    ensures
        r == flags_of(Operation::Sync, *args),
{
    let mut flags = TransFlags::none();
    flags.download_only = args.has_arg("w", "downloadonly");
    flags.no_deps = args.has_arg("d", "nodeps");
    flags.no_dep_version = args.count("d", "nodeps") > 1;
    flags.needed = args.has_arg("needed", "needed");
    flags.db_only = args.has_arg("dbonly", "dbonly");
    flags.no_scriptlet = args.has_arg("noscriptlet", "noscriptlet");
    flags.no_conflicts = args.has_arg("overwrite", "overwrite");
    flags
}

/// The switches of a removal.
pub fn trans_flags_for_remove(args: &Args) -> (r: TransFlags)
    ensures
        r == flags_of(Operation::Remove, *args),
{
    let mut flags = TransFlags::none();
    flags.no_deps = args.has_arg("d", "nodeps");
    flags.cascade = args.has_arg("cascade", "cascade");
    flags.no_save = args.has_arg("nosave", "nosave");
    flags.db_only = args.has_arg("dbonly", "dbonly");
    flags.no_scriptlet = args.has_arg("noscriptlet", "noscriptlet");
    flags.recurse = args.has_arg("recursive", "recursive");
    flags.recurse_all = args.count("recursive", "recursive") > 1;
    flags.unneeded = args.has_arg("unneeded", "unneeded");
    flags
}

/// The switches of an installation of package files.
pub fn trans_flags_for_upgrade(args: &Args) -> (r: TransFlags)
    ensures
        r == flags_of(Operation::Upgrade, *args),
{
    let mut flags = TransFlags::none();
    flags.no_deps = args.has_arg("d", "nodeps");
    flags.no_dep_version = args.count("d", "nodeps") > 1;
    flags.db_only = args.has_arg("dbonly", "dbonly");
    flags.download_only = args.has_arg("w", "downloadonly");
    flags.needed = args.has_arg("needed", "needed");
    flags.no_conflicts = args.has_arg("overwrite", "overwrite");
    flags
}

/// The helper starts its transaction with the same switches as this process would, but that it
/// never leaves scriptlets out, as long as no option is given so often that its count does not fit
/// into the plan.
pub proof fn helper_uses_the_same_switches(args: Args, unattended: bool, plan: TransactionPlan, op: Operation)
    requires
        plans(args, unattended, plan),
        operation_of(args.op@) == Some(op),
        args.times("d"@, "nodeps"@) < 256,
        args.times("recursive"@, "recursive"@) < 256,
    ensures
        plan_flags(plan) == (TransFlags { no_scriptlet: false, ..flags_of(op, args) }),
{
    reveal_strlit("sync");
    reveal_strlit("remove");
    reveal_strlit("upgrade");
    assert("sync"@.len() != "remove"@.len());
    assert("sync"@.len() != "upgrade"@.len());
    assert("remove"@.len() != "upgrade"@.len());
}

/// Where a target is looked for.
#[derive(Debug)]
pub enum TargetLookup {
    /// In this repository, under this name.
    InRepo(String, String),
    /// In all repositories, by its name and then as something that a package provides.
    Anywhere,
}

/// Where a target is looked for: a slash separates a repository from a name.
pub fn target_lookup(target: &str) -> (r: TargetLookup)
    ensures
        match r {
            TargetLookup::InRepo(repo, name) => split_once(target@, '/') == Some((repo@, name@)),
            TargetLookup::Anywhere => split_once(target@, '/') is None,
        },
{
    match cut_once(target, '/') {
        Some((repo, name)) => TargetLookup::InRepo(repo, name),
        None => TargetLookup::Anywhere,
    }
}

/// What was found for a target.
#[derive(Debug, Clone)]
pub enum TargetFound {
    /// There is no such repository.
    NoRepo,
    /// There is no such package.
    NoPackage,
    /// A package was found and added.
    Added,
    /// A package was found, and the transaction refused it with this error.
    Refused(String),
}

/// The report on a target, where it could not be added.
pub open spec fn target_error(target: Seq<char>, found: TargetFound) -> Option<Seq<char>> {
    match (found, split_once(target, '/')) {
        (TargetFound::Added, _) => None,
        (TargetFound::Refused(e), _) => Some("failed to add target '"@ + target + "': "@ + e@),
        (TargetFound::NoRepo, Some(parts)) => Some(
            "repository '"@ + parts.0 + "' was not found"@,
        ),
        (TargetFound::NoPackage, Some(parts)) => Some(
            "target not found in repo '"@ + parts.0 + "': "@ + parts.1,
        ),
        (_, None) => Some("target not found: "@ + target),
    }
}

/// What comes of adding a target.
pub fn add_target(target: &str, found: &TargetFound) -> (r: Result<(), String>)
    ensures
        match r {
            Ok(_) => target_error(target@, *found) is None,
            Err(e) => target_error(target@, *found) == Some(e@),
        },
{
    match found {
        TargetFound::Added => Ok(()),
        TargetFound::Refused(e) => {
            let mut text = "failed to add target '".to_owned();
            put(&mut text, target);
            put(&mut text, "': ");
            put(&mut text, e.as_str());
            Err(text)
        },
        _ => match cut_once(target, '/') {
            None => {
                let mut text = "target not found: ".to_owned();
                put(&mut text, target);
                Err(text)
            },
            Some((repo, name)) => match found {
                TargetFound::NoRepo => {
                    let mut text = "repository '".to_owned();
                    put(&mut text, repo.as_str());
                    put(&mut text, "' was not found");
                    Err(text)
                },
                _ => {
                    let mut text = "target not found in repo '".to_owned();
                    put(&mut text, repo.as_str());
                    put(&mut text, "': ");
                    put(&mut text, name.as_str());
                    Err(text)
                },
            },
        },
    }
}

/// What an operation in this process waits for.
#[derive(Debug, Clone, Copy, PartialEq, Eq, Structural)]
pub enum Stage {
    /// Update the sync databases.
    Refresh,
    /// Start a transaction.
    Init,
    /// Add all upgrades.
    SystemUpgrade,
    /// Add or mark the target at this place.
    Target(usize),
    Prepare,
    /// List the critical packages of the transaction.
    Critical,
    /// Check that the boot partition can be written.
    Boot,
    Commit,
    /// Release the transaction.
    Release,
    Finished,
}

/// What came of a stage.
#[derive(Debug)]
pub enum StageResult {
    Done,
    /// The target was not found, or its file could not be read, with this error.
    Missing(String),
    Failed(String),
    /// The critical packages of the transaction.
    Critical(Vec<String>),
    /// The commit failed: how, with which error, and the hook that ran last.
    CommitFailed(CommitFailure, String, Option<String>),
}

/// The critical packages that a result names.
pub open spec fn critical_in(r: StageResult) -> Seq<Seq<char>> {
    match r {
        StageResult::Critical(list) => texts(list@),
        _ => seq![],
    }
}

/// Whether a result says that there is no critical package.
pub open spec fn is_uncritical(r: StageResult) -> bool {
    r is Critical && critical_in(r).len() == 0
}

/// Whether critical packages stop an operation: scriptlets are switched off, on the command line
/// of the program or of the operation, and nobody insisted.
pub open spec fn is_guarded(config: Config, args: Args) -> bool {
    scriptlet_guard(config) || (args.given("noscriptlet"@, "noscriptlet"@)
        && !config.force_noscriptlet)
}

/// The stage for the target at `i`, or the one after all targets.
pub open spec fn target_stage(args: Args, i: int) -> Stage {
    if i < args.targets@.len() {
        Stage::Target(i as usize)
    } else {
        Stage::Prepare
    }
}

/// The first stage.
pub open spec fn first_stage(op: Operation, args: Args) -> Stage {
    if op == Operation::Sync && args.given("y"@, "refresh"@) {
        Stage::Refresh
    } else {
        Stage::Init
    }
}

/// What comes after a stage. `guarded` tells whether critical packages stop the operation.
pub open spec fn next_stage(
    op: Operation,
    args: Args,
    guarded: bool,
    stage: Stage,
    r: StageResult,
) -> Stage {
    match stage {
        Stage::Refresh => if r is Done && (args.given("u"@, "sysupgrade"@) || args.targets@.len()
            > 0) {
            Stage::Init
        } else {
            Stage::Finished
        },
        Stage::Init => if r !is Done {
            Stage::Finished
        } else if op == Operation::Sync && args.given("u"@, "sysupgrade"@) {
            Stage::SystemUpgrade
        } else {
            target_stage(args, 0)
        },
        Stage::SystemUpgrade => if r is Done {
            target_stage(args, 0)
        } else {
            Stage::Release
        },
        Stage::Target(i) => if r is Done {
            target_stage(args, i + 1)
        } else {
            Stage::Release
        },
        Stage::Prepare => if r !is Done || args.given("p"@, "print"@) {
            Stage::Release
        } else if guarded {
            Stage::Critical
        } else {
            Stage::Boot
        },
        Stage::Critical => if is_uncritical(r) {
            Stage::Boot
        } else {
            Stage::Release
        },
        Stage::Boot => if r is Done {
            Stage::Commit
        } else {
            Stage::Release
        },
        Stage::Commit => Stage::Release,
        Stage::Release => Stage::Finished,
        Stage::Finished => Stage::Finished,
    }
}

/// The name of the transaction of an operation.
pub open spec fn transaction_name(op: Operation) -> Seq<char> {
    match op {
        Operation::Sync => "ALPM transaction"@,
        Operation::Remove => "ALPM remove transaction"@,
        Operation::Upgrade => "ALPM upgrade transaction"@,
    }
}

/// The error of a result.
pub open spec fn result_text(r: StageResult) -> Seq<char> {
    match r {
        StageResult::Done => seq![],
        StageResult::Missing(e) => e@,
        StageResult::Failed(e) => e@,
        StageResult::Critical(_) => seq![],
        StageResult::CommitFailed(_, e, _) => e@,
    }
}

/// The failure of a stage.
pub open spec fn stage_failure(op: Operation, args: Args, stage: Stage, r: StageResult) -> Option<
    Seq<char>,
> {
    if stage is Critical {
        if is_uncritical(r) {
            None
        } else {
            Some(noscriptlet_error(critical_in(r)))
        }
    } else if r is Done {
        None
    } else {
        match stage {
            Stage::Refresh | Stage::Init | Stage::SystemUpgrade | Stage::Boot => Some(
                result_text(r),
            ),
            Stage::Target(i) => {
                let target = args.targets@[i as int]@;
                match (op, r) {
                    (Operation::Remove, StageResult::Missing(_)) => Some(
                        "target not found in local db: "@ + target,
                    ),
                    (Operation::Upgrade, StageResult::Missing(_)) => Some(
                        "failed to load local package file '"@ + target + "'"@,
                    ),
                    (Operation::Upgrade, _) => Some(
                        "failed to add package file '"@ + target + "': "@ + result_text(r),
                    ),
                    _ => Some(result_text(r)),
                }
            },
            Stage::Prepare => Some(
                "failed to prepare "@ + transaction_name(op) + ": "@ + result_text(r),
            ),
            Stage::Commit => {
                let context = "failed to commit "@ + transaction_name(op);
                match r {
                    StageResult::CommitFailed(kind, e, hook) => Some(
                        commit_error(kind, e@, context, opt_text(hook)),
                    ),
                    _ => Some(context + ": "@ + result_text(r)),
                }
            },
            Stage::Critical | Stage::Release | Stage::Finished => None,
        }
    }
}

/// An operation that is carried out in this process.
#[derive(Debug)]
pub struct LocalRun {
    pub op: Operation,
    pub stage: Stage,
    pub error: Option<String>,
}

fn stage_of_target(args: &Args, i: usize) -> (r: Stage)
    ensures
        r == target_stage(*args, i as int),
{
    if i < args.targets.len() {
        Stage::Target(i)
    } else {
        Stage::Prepare
    }
}

fn text_of_result(r: &StageResult) -> (text: String)
    ensures
        text@ == result_text(*r),
{
    match r {
        StageResult::Done | StageResult::Critical(_) => {
            let none = String::new();
            assert(none@ =~= seq![]);
            none
        },
        StageResult::Missing(e) => e.clone(),
        StageResult::Failed(e) => e.clone(),
        StageResult::CommitFailed(_, e, _) => e.clone(),
    }
}

fn name_of_transaction(op: Operation) -> (r: &'static str)
    ensures
        r@ == transaction_name(op),
{
    match op {
        Operation::Sync => "ALPM transaction",
        Operation::Remove => "ALPM remove transaction",
        Operation::Upgrade => "ALPM upgrade transaction",
    }
}

fn no_critical(r: &StageResult) -> (none: bool)
    ensures
        none == is_uncritical(*r),
{
    match r {
        StageResult::Critical(list) => {
            assert(texts(list@).len() == list@.len());
            list.len() == 0
        },
        _ => false,
    }
}

fn refusal_of(r: &StageResult) -> (f: Option<String>)
    ensures
        opt_text(f) == (if is_uncritical(*r) {
            None
        } else {
            Some(noscriptlet_error(critical_in(*r)))
        }),
{
    if no_critical(r) {
        return None;
    }
    match r {
        StageResult::Critical(list) => Some(noscriptlet_refusal(list)),
        _ => {
            let nobody: Vec<String> = Vec::new();
            assert(texts(nobody@) =~= seq![]);
            Some(noscriptlet_refusal(&nobody))
        },
    }
}

fn failure_of_stage(op: Operation, args: &Args, stage: Stage, r: &StageResult) -> (f: Option<String>)
    requires
        stage matches Stage::Target(i) ==> i < args.targets@.len(),
    ensures
        opt_text(f) == stage_failure(op, *args, stage, *r),
{
    if stage == Stage::Critical {
        return refusal_of(r);
    }
    let missing = match r {
        StageResult::Done => {
            return None;
        },
        StageResult::Missing(_) => true,
        _ => false,
    };
    match stage {
        Stage::Refresh | Stage::Init | Stage::SystemUpgrade | Stage::Boot => Some(
            text_of_result(r),
        ),
        Stage::Target(i) => {
            let target = args.targets[i].as_str();
            match op {
                Operation::Sync => Some(text_of_result(r)),
                Operation::Remove => {
                    if !missing {
                        return Some(text_of_result(r));
                    }
                    let mut text = "target not found in local db: ".to_owned();
                    put(&mut text, target);
                    Some(text)
                },
                Operation::Upgrade => {
                    if missing {
                        let mut text = "failed to load local package file '".to_owned();
                        put(&mut text, target);
                        put(&mut text, "'");
                        return Some(text);
                    }
                    let mut text = "failed to add package file '".to_owned();
                    put(&mut text, target);
                    put(&mut text, "': ");
                    put(&mut text, text_of_result(r).as_str());
                    Some(text)
                },
            }
        },
        Stage::Prepare => {
            let mut text = "failed to prepare ".to_owned();
            put(&mut text, name_of_transaction(op));
            put(&mut text, ": ");
            put(&mut text, text_of_result(r).as_str());
            Some(text)
        },
        Stage::Commit => {
            let mut context = "failed to commit ".to_owned();
            put(&mut context, name_of_transaction(op));
            match r {
                StageResult::CommitFailed(kind, e, hook) => {
                    let hook = match hook {
                        Some(h) => Some(h.as_str()),
                        None => None,
                    };
                    Some(map_commit_error(*kind, e.as_str(), context.as_str(), hook))
                },
                _ => {
                    put(&mut context, ": ");
                    put(&mut context, text_of_result(r).as_str());
                    Some(context)
                },
            }
        },
        Stage::Critical | Stage::Release | Stage::Finished => None,
    }
}

impl LocalRun {
    pub open spec fn wf(&self, args: Args) -> bool {
        self.stage matches Stage::Target(i) ==> i < args.targets@.len()
    }

    fn start(op: Operation, args: &Args) -> (r: LocalRun)
        ensures
            r.wf(*args),
            r.op == op,
            r.stage == first_stage(op, *args),
            r.error is None,
    {
        let stage = if op == Operation::Sync && args.has_arg("y", "refresh") {
            Stage::Refresh
        } else {
            Stage::Init
        };
        LocalRun { op, stage, error: None }
    }

    /// An installation from the sync databases.
    pub fn run_sync(args: &Args) -> (r: LocalRun)
        ensures
            r.wf(*args),
            r.op == Operation::Sync,
            r.stage == first_stage(Operation::Sync, *args),
            r.error is None,
    {
        LocalRun::start(Operation::Sync, args)
    }

    /// A removal.
    pub fn run_remove(args: &Args) -> (r: LocalRun)
        ensures
            r.wf(*args),
            r.op == Operation::Remove,
            r.stage == first_stage(Operation::Remove, *args),
            r.error is None,
    {
        LocalRun::start(Operation::Remove, args)
    }

    /// An installation of package files.
    pub fn run_upgrade(args: &Args) -> (r: LocalRun)
        ensures
            r.wf(*args),
            r.op == Operation::Upgrade,
            r.stage == first_stage(Operation::Upgrade, *args),
            r.error is None,
    {
        LocalRun::start(Operation::Upgrade, args)
    }

    /// The switches of the transaction.
    pub fn flags(&self, args: &Args) -> (r: TransFlags)
        ensures
            r == flags_of(self.op, *args),
    {
        match self.op {
            Operation::Sync => trans_flags_for_sync(args),
            Operation::Remove => trans_flags_for_remove(args),
            Operation::Upgrade => trans_flags_for_upgrade(args),
        }
    }

    /// Whether a refresh is forced, or a system upgrade may go back to older versions: the option
    /// for the stage is given more than once.
    pub fn insists(&self, args: &Args) -> (r: bool)
        ensures
            r == (match self.stage {
                Stage::Refresh => args.times("y"@, "refresh"@) > 1,
                Stage::SystemUpgrade => args.times("u"@, "sysupgrade"@) > 1,
                _ => false,
            }),
    {
        match self.stage {
            Stage::Refresh => args.count("y", "refresh") > 1,
            Stage::SystemUpgrade => args.count("u", "sysupgrade") > 1,
            _ => false,
        }
    }

    /// Goes on with what came of the stage. A run that ends without a failure has exit code zero.
    pub fn advance(&mut self, config: &Config, args: &Args, result: &StageResult)
        requires
            old(self).wf(*args),
        ensures
            final(self).wf(*args),
            final(self).op == old(self).op,
            final(self).stage == next_stage(
                old(self).op,
                *args,
                is_guarded(*config, *args),
                old(self).stage,
                *result,
            ),
            opt_text(final(self).error) == (match stage_failure(
                old(self).op,
                *args,
                old(self).stage,
                *result,
            ) {
                Some(text) => Some(text),
                None => opt_text(old(self).error),
            }),
    {
        let failed = failure_of_stage(self.op, args, self.stage, result);
        let done = match result {
            StageResult::Done => true,
            _ => false,
        };
        let count: usize = args.targets.len();
        self.stage = match self.stage {
            Stage::Refresh => if done && (args.has_arg("u", "sysupgrade") || count > 0) {
                Stage::Init
            } else {
                Stage::Finished
            },
            Stage::Init => if !done {
                Stage::Finished
            } else if self.op == Operation::Sync && args.has_arg("u", "sysupgrade") {
                Stage::SystemUpgrade
            } else {
                stage_of_target(args, 0)
            },
            Stage::SystemUpgrade => if done {
                stage_of_target(args, 0)
            } else {
                Stage::Release
            },
            Stage::Target(i) => if done {
                stage_of_target(args, i + 1)
            } else {
                Stage::Release
            },
            Stage::Prepare => if !done || args.has_arg("p", "print") {
                Stage::Release
            } else if (config.args.has_arg("noscriptlet", "noscriptlet") || args.has_arg(
                "noscriptlet",
                "noscriptlet",
            )) && !config.force_noscriptlet {
                Stage::Critical
            } else {
                Stage::Boot
            },
            Stage::Critical => if no_critical(result) {
                Stage::Boot
            } else {
                Stage::Release
            },
            Stage::Boot => if done {
                Stage::Commit
            } else {
                Stage::Release
            },
            Stage::Commit => Stage::Release,
            Stage::Release => Stage::Finished,
            Stage::Finished => Stage::Finished,
        };
        if failed.is_some() {
            self.error = failed;
        }
    }
}

/// The stage of an operation after the first `n` results.
pub open spec fn stage_after(
    op: Operation,
    args: Args,
    guarded: bool,
    results: Seq<StageResult>,
    n: int,
) -> Stage
    decreases n,
{
    if n <= 0 {
        first_stage(op, args)
    } else {
        next_stage(op, args, guarded, stage_after(op, args, guarded, results, n - 1), results[n - 1])
    }
}

/// Only what was prepared and checked is committed: the boot partition was found writable and,
/// where critical packages are guarded, there are none. Nothing is committed that is only to be
/// shown.
pub proof fn commit_follows_checks(
    op: Operation,
    args: Args,
    guarded: bool,
    results: Seq<StageResult>,
    n: int,
)
    requires
        0 <= n <= results.len(),
        stage_after(op, args, guarded, results, n) is Commit,
    ensures
        ({
            let prepared = if guarded {
                n - 3
            } else {
                n - 2
            };
            &&& prepared >= 0
            &&& stage_after(op, args, guarded, results, prepared) is Prepare
            &&& results[prepared] is Done
            &&& guarded ==> stage_after(op, args, guarded, results, n - 2) is Critical
                && is_uncritical(results[n - 2])
            &&& stage_after(op, args, guarded, results, n - 1) is Boot
            &&& results[n - 1] is Done
        }),
        !args.given("p"@, "print"@),
{
    reveal_with_fuel(stage_after, 4);
}

/// A transaction that was started is released before the operation ends.
pub proof fn transaction_is_released(
    op: Operation,
    args: Args,
    guarded: bool,
    stage: Stage,
    r: StageResult,
)
    requires
        next_stage(op, args, guarded, stage, r) is Finished,
        !(stage is Finished),
    ensures
        stage is Release || stage is Refresh || (stage is Init && r !is Done),
{
}

/// A critical package stops an operation whose scriptlets are switched off: nothing is committed,
/// the transaction is released, and the refusal is the error.
pub proof fn critical_packages_stop_the_operation(
    op: Operation,
    args: Args,
    config: Config,
    list: Vec<String>,
)
    requires
        args.given("noscriptlet"@, "noscriptlet"@),
        !args.given("p"@, "print"@),
        !config.force_noscriptlet,
        list@.len() > 0,
    ensures
        ({
            let guarded = is_guarded(config, args);
            let found = StageResult::Critical(list);
            &&& next_stage(op, args, guarded, Stage::Prepare, StageResult::Done) is Critical
            &&& next_stage(op, args, guarded, Stage::Critical, found) is Release
            &&& stage_failure(op, args, Stage::Critical, found) == Some(
                noscriptlet_error(texts(list@)),
            )
        }),
{
    assert(texts(list@).len() == list@.len());
}

/// The line for an event.
pub open spec fn event_line(c: Colors, e: HelperEvent) -> Option<Seq<char>> {
    let ok = painted(c.tx_install, "[OK]"@) + " "@;
    match (e, event_words(e)) {
        (HelperEvent::HookStart { .. }, _) => Some(heading(c, "Running hooks..."@) + "\n"@),
        (HelperEvent::Installed { .. }, Some(words)) => Some(heading(c, ok + words) + "\n"@),
        (HelperEvent::Upgraded { .. }, Some(words)) => Some(heading(c, ok + words) + "\n"@),
        (HelperEvent::Removed { .. }, Some(words)) => Some(heading(c, ok + words) + "\n"@),
        (_, Some(words)) => Some(heading(c, words) + "\n"@),
        (_, None) => None,
    }
}

/// The line for an event of an operation in this process.
pub fn event_cb(e: &HelperEvent, c: &Colors) -> (r: Option<String>)
    ensures
        opt_text(r) == event_line(*c, *e),
{
    let words = match e {
        HelperEvent::HookStart { .. } => Some("Running hooks...".to_owned()),
        HelperEvent::Installed { .. } | HelperEvent::Upgraded { .. } | HelperEvent::Removed { .. } => {
            let mut text = paint(c.tx_install, "[OK]");
            put(&mut text, " ");
            match words_for_event(e) {
                Some(words) => {
                    put(&mut text, words.as_str());
                    Some(text)
                },
                None => None,
            }
        },
        _ => words_for_event(e),
    };
    match words {
        Some(words) => {
            let mut out = heading_text(c, words.as_str());
            put(&mut out, "\n");
            Some(out)
        },
        None => None,
    }
}

} // verus!
