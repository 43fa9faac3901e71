//! What a run of a plan asks for, from its start to its end.

#[allow(unused_imports)]
use crate::backend::alpm::{transaction_name, Operation};
#[allow(unused_imports)]
use crate::text::{joined, mentions, occurs_at, texts};
#[allow(unused_imports)]
use crate::tx_helper::plan::TransactionPlan;
#[allow(unused_imports)]
use crate::tx_helper::transaction::{
    action_in, beyond_inspect, commit_context, commit_error, commit_is_checked, failure,
    failure_text, next, noscriptlet_error, passed, passes, phase_after, prepare_context, run_ends,
    Action, CommitFailure, Outcome, Phase,
};
use vstd::prelude::*;

verus! {

/// The action that a run asks for after the first `n` outcomes.
pub open spec fn asked(plan: TransactionPlan, guarded: bool, outcomes: Seq<Outcome>, n: int) -> Action {
    action_in(plan, phase_after(plan, guarded, outcomes, n))
}

/// The actions on targets that a run asked for before the outcome `n`.
pub open spec fn target_actions(
    plan: TransactionPlan,
    guarded: bool,
    outcomes: Seq<Outcome>,
    n: int,
) -> Seq<Action>
    decreases n,
{
    if n <= 0 {
        seq![]
    } else {
        let before = target_actions(plan, guarded, outcomes, n - 1);
        let a = asked(plan, guarded, outcomes, n - 1);
        if a is AddSync || a is RemoveLocal || a is AddFile {
            before.push(a)
        } else {
            before
        }
    }
}

/// A removal marks installed packages and adds nothing; an upgrade adds package files alone; an
/// installation adds packages of the sync databases alone; and a plan that sets reasons touches no
/// target.
pub proof fn each_kind_of_plan_touches_its_own_targets(plan: TransactionPlan, phase: Phase)
    ensures
        plan is Remove ==> !(action_in(plan, phase) is AddSync) && !(action_in(plan, phase) is AddFile),
        plan is Upgrade ==> !(action_in(plan, phase) is AddSync) && !(action_in(
            plan,
            phase,
        ) is RemoveLocal),
        plan is Sync ==> !(action_in(plan, phase) is RemoveLocal) && !(action_in(
            plan,
            phase,
        ) is AddFile),
        forall|i: usize|
            plan is Remove && phase == Phase::AddTarget(i) ==> action_in(plan, phase)
                == Action::RemoveLocal(i),
        forall|i: usize|
            plan is Upgrade && phase == Phase::AddTarget(i) ==> action_in(plan, phase)
                == Action::AddFile(i),
        forall|i: usize|
            plan is Sync && phase == Phase::AddTarget(i) ==> action_in(plan, phase)
                == Action::AddSync(i),
{
}

/// Whether an action is the one for the target at a place.
pub open spec fn is_action_for(plan: TransactionPlan, a: Action, i: int) -> bool {
    &&& plan is Remove ==> a == Action::RemoveLocal(i as usize)
    &&& plan is Upgrade ==> a == Action::AddFile(i as usize)
    &&& plan is Sync ==> a == Action::AddSync(i as usize)
    &&& !(plan is SetInstallReason)
}

/// The phases before any target is touched.
spec fn before_targets(p: Phase) -> bool {
    p is Open || p is SetReason || p is Refresh || p is RecoverRefresh || p is RefreshAgain
        || p is Init || p is RecoverInit || p is InitAgain || p is SystemUpgrade
}

proof fn lemma_targets(plan: TransactionPlan, guarded: bool, outcomes: Seq<Outcome>, n: int)
    requires
        0 <= n,
        plan.subjects().len() <= usize::MAX,
    ensures
        ({
            let p = phase_after(plan, guarded, outcomes, n);
            let acts = target_actions(plan, guarded, outcomes, n);
            &&& forall|i: int| 0 <= i < acts.len() ==> is_action_for(plan, #[trigger] acts[i], i)
            &&& plan is SetInstallReason ==> p is Open || p is SetReason || p is Finished
            &&& before_targets(p) ==> acts.len() == 0
            &&& p matches Phase::AddTarget(i) ==> acts.len() == i && i < plan.subjects().len()
            &&& p is Inspect || p is ReleaseEmpty || beyond_inspect(p) ==> acts.len()
                == plan.subjects().len()
        }),
    decreases n,
{
    if n > 0 {
        lemma_targets(plan, guarded, outcomes, n - 1);
        let q = phase_after(plan, guarded, outcomes, n - 1);
        assert(phase_after(plan, guarded, outcomes, n) == next(plan, guarded, q, outcomes[n - 1]));
        each_kind_of_plan_touches_its_own_targets(plan, q);
        let before = target_actions(plan, guarded, outcomes, n - 1);
        let acts = target_actions(plan, guarded, outcomes, n);
        let a = action_in(plan, q);
        if q is AddTarget {
            assert(acts == before.push(a));
            assert(is_action_for(plan, a, before.len() as int));
        } else {
            assert(acts == before);
        }
        assert forall|i: int| 0 <= i < acts.len() implies is_action_for(plan, #[trigger] acts[i], i) by {
            if i < before.len() {
                assert(acts[i] == before[i]);
            }
        }
    }
}

/// A run that comes to its commit has asked for exactly one action on each target, from the first
/// to the last: to mark it for removal, to add its file, or to add it from the sync databases, as
/// the plan is.
pub proof fn every_target_is_handled_once_and_in_order(
    plan: TransactionPlan,
    guarded: bool,
    outcomes: Seq<Outcome>,
    n: int,
)
    requires
        0 <= n <= outcomes.len(),
        plan.subjects().len() <= usize::MAX,
        asked(plan, guarded, outcomes, n) is Commit,
    ensures
        target_actions(plan, guarded, outcomes, n).len() == plan.subjects().len(),
        forall|i: int|
            0 <= i < plan.subjects().len() ==> is_action_for(
                plan,
                #[trigger] target_actions(plan, guarded, outcomes, n)[i],
                i,
            ),
{
    lemma_targets(plan, guarded, outcomes, n);
}

/// How often a plan asks for a refresh.
pub open spec fn refreshes(plan: TransactionPlan) -> int {
    match plan {
        TransactionPlan::Sync { refresh_count, .. } => refresh_count as int,
        _ => 0,
    }
}

/// How often a plan asks for a system upgrade.
pub open spec fn upgrades(plan: TransactionPlan) -> int {
    match plan {
        TransactionPlan::Sync { sysupgrade_count, .. } => sysupgrade_count as int,
        _ => 0,
    }
}

/// Whether the sync databases were updated before the outcome `n`.
pub open spec fn was_refreshed(
    plan: TransactionPlan,
    guarded: bool,
    outcomes: Seq<Outcome>,
    n: int,
) -> bool {
    exists|i: int|
        0 <= i < n && (#[trigger] asked(plan, guarded, outcomes, i)) is Update && outcomes[i] is Done
}

/// Whether all upgrades were added before the outcome `n`.
pub open spec fn was_upgraded(
    plan: TransactionPlan,
    guarded: bool,
    outcomes: Seq<Outcome>,
    n: int,
) -> bool {
    exists|i: int|
        0 <= i < n && (#[trigger] asked(plan, guarded, outcomes, i)) is SystemUpgrade
            && outcomes[i] is Done
}

proof fn lemma_refresh(plan: TransactionPlan, guarded: bool, outcomes: Seq<Outcome>, n: int)
    requires
        0 <= n,
    ensures
        ({
            let p = phase_after(plan, guarded, outcomes, n);
            &&& p is Refresh || p is RecoverRefresh || p is RefreshAgain ==> refreshes(plan) > 0
            &&& p is SystemUpgrade ==> upgrades(plan) > 0
            &&& was_refreshed(plan, guarded, outcomes, n) ==> refreshes(plan) > 0
            &&& was_upgraded(plan, guarded, outcomes, n) ==> upgrades(plan) > 0
            &&& (p is Init || p is RecoverInit || p is InitAgain || p is SystemUpgrade
                || p is AddTarget || p is Inspect || beyond_inspect(p)) && refreshes(plan) > 0
                ==> was_refreshed(plan, guarded, outcomes, n)
            &&& (p is AddTarget || p is Inspect || beyond_inspect(p)) && upgrades(plan) > 0
                ==> was_upgraded(plan, guarded, outcomes, n)
        }),
    decreases n,
{
    if n > 0 {
        lemma_refresh(plan, guarded, outcomes, n - 1);
        let q = phase_after(plan, guarded, outcomes, n - 1);
        let a = asked(plan, guarded, outcomes, n - 1);
        assert(phase_after(plan, guarded, outcomes, n) == next(plan, guarded, q, outcomes[n - 1]));
        if was_refreshed(plan, guarded, outcomes, n - 1) {
            let i = choose|i: int|
                0 <= i < n - 1 && (#[trigger] asked(plan, guarded, outcomes, i)) is Update
                    && outcomes[i] is Done;
            assert(asked(plan, guarded, outcomes, i) is Update && outcomes[i] is Done);
            assert(was_refreshed(plan, guarded, outcomes, n));
        }
        if was_upgraded(plan, guarded, outcomes, n - 1) {
            let i = choose|i: int|
                0 <= i < n - 1 && (#[trigger] asked(plan, guarded, outcomes, i)) is SystemUpgrade
                    && outcomes[i] is Done;
            assert(asked(plan, guarded, outcomes, i) is SystemUpgrade && outcomes[i] is Done);
            assert(was_upgraded(plan, guarded, outcomes, n));
        }
        if was_refreshed(plan, guarded, outcomes, n) {
            let i = choose|i: int|
                0 <= i < n && (#[trigger] asked(plan, guarded, outcomes, i)) is Update
                    && outcomes[i] is Done;
            if i < n - 1 {
                assert(was_refreshed(plan, guarded, outcomes, n - 1));
            } else {
                assert(q is Refresh || q is RefreshAgain);
            }
        }
        if was_upgraded(plan, guarded, outcomes, n) {
            let i = choose|i: int|
                0 <= i < n && (#[trigger] asked(plan, guarded, outcomes, i)) is SystemUpgrade
                    && outcomes[i] is Done;
            if i < n - 1 {
                assert(was_upgraded(plan, guarded, outcomes, n - 1));
            } else {
                assert(q is SystemUpgrade);
            }
        }
        if a is Update && outcomes[n - 1] is Done {
            assert(was_refreshed(plan, guarded, outcomes, n));
        }
        if a is SystemUpgrade && outcomes[n - 1] is Done {
            assert(was_upgraded(plan, guarded, outcomes, n));
        }
    }
}

/// A run that comes to its commit has updated the sync databases if and only if its plan asks for
/// a refresh, and added all upgrades if and only if its plan asks for a system upgrade.
pub proof fn databases_are_refreshed_as_asked(
    plan: TransactionPlan,
    guarded: bool,
    outcomes: Seq<Outcome>,
    n: int,
)
    requires
        0 <= n <= outcomes.len(),
        asked(plan, guarded, outcomes, n) is Commit,
    ensures
        was_refreshed(plan, guarded, outcomes, n) <==> refreshes(plan) > 0,
        was_upgraded(plan, guarded, outcomes, n) <==> upgrades(plan) > 0,
{
    lemma_refresh(plan, guarded, outcomes, n);
}

/// A refresh is forced if and only if it is asked for more than once, a system upgrade goes back to
/// older versions if and only if it is asked for more than once, and the database is opened
/// without questions if and only if the plan says so.
pub proof fn insistence_is_passed_on(plan: TransactionPlan, phase: Phase)
    ensures
        forall|force: bool|
            action_in(plan, phase) == (Action::Update { force }) && plan is Sync ==> (force <==> refreshes(
                plan,
            ) > 1),
        forall|downgrade: bool|
            action_in(plan, phase) == (Action::SystemUpgrade { downgrade }) && plan is Sync ==> (
            downgrade <==> upgrades(plan) > 1),
        forall|no_confirm: bool|
            action_in(plan, phase) == (Action::Open { no_confirm }) ==> (no_confirm <==> (match plan {
                TransactionPlan::Sync { no_confirm, .. } => no_confirm,
                TransactionPlan::Remove { no_confirm, .. } => no_confirm,
                TransactionPlan::Upgrade { no_confirm, .. } => no_confirm,
                TransactionPlan::SetInstallReason { no_confirm, .. } => no_confirm,
            })),
        forall|package: usize, dependency: bool|
            action_in(plan, phase) == (Action::SetReason { package, dependency }) ==> (match plan {
                TransactionPlan::SetInstallReason { reason, .. } => dependency <==> reason@
                    == "asdeps"@,
                _ => !dependency,
            }),
{
}

/// Whether an outcome is the one that a run hopes for in a phase.
pub open spec fn is_good(phase: Phase, o: Outcome) -> bool {
    match phase {
        Phase::Inspect => o == Outcome::Empty(false),
        Phase::Critical => o matches Outcome::Critical(list) && list@.len() == 0,
        _ => o is Done,
    }
}

/// Whether all outcomes before `n` are those that a run hopes for.
pub open spec fn all_good(
    plan: TransactionPlan,
    guarded: bool,
    outcomes: Seq<Outcome>,
    n: int,
) -> bool {
    forall|i: int|
        0 <= i < n ==> is_good(#[trigger] phase_after(plan, guarded, outcomes, i), outcomes[i])
}

/// Whether a commit was asked for before the outcome `n`.
pub open spec fn was_committed(
    plan: TransactionPlan,
    guarded: bool,
    outcomes: Seq<Outcome>,
    n: int,
) -> bool {
    exists|i: int| 0 <= i < n && (#[trigger] asked(plan, guarded, outcomes, i)) is Commit
}

proof fn lemma_good(plan: TransactionPlan, guarded: bool, outcomes: Seq<Outcome>, n: int)
    requires
        0 <= n,
        all_good(plan, guarded, outcomes, n),
        !plan.only_shows(),
        !(plan is SetInstallReason),
    ensures
        ({
            let p = phase_after(plan, guarded, outcomes, n);
            &&& p is Release || p is Unlock || p is Finished ==> was_committed(
                plan,
                guarded,
                outcomes,
                n,
            )
            &&& !(p is ReleaseEmpty) && !(p is ReleaseUncommitted) && !(p is SetReason)
            &&& forall|i: int|
                0 <= i < n ==> failure(
                    plan,
                    guarded,
                    #[trigger] phase_after(plan, guarded, outcomes, i),
                    outcomes[i],
                ) is None
        }),
    decreases n,
{
    if n > 0 {
        lemma_good(plan, guarded, outcomes, n - 1);
        let q = phase_after(plan, guarded, outcomes, n - 1);
        assert(phase_after(plan, guarded, outcomes, n) == next(plan, guarded, q, outcomes[n - 1]));
        assert(is_good(q, outcomes[n - 1]));
        if outcomes[n - 1] is Critical {
            assert(crate::tx_helper::transaction::critical_names(outcomes[n - 1]).len() == 0);
        }
        if was_committed(plan, guarded, outcomes, n - 1) {
            let i = choose|i: int|
                0 <= i < n - 1 && (#[trigger] asked(plan, guarded, outcomes, i)) is Commit;
            assert(asked(plan, guarded, outcomes, i) is Commit);
        }
        if q is Commit {
            assert(asked(plan, guarded, outcomes, n - 1) is Commit);
        }
        assert forall|i: int| 0 <= i < n implies failure(
            plan,
            guarded,
            #[trigger] phase_after(plan, guarded, outcomes, i),
            outcomes[i],
        ) is None by {
            if i == n - 1 {
                assert(failure(plan, guarded, q, outcomes[n - 1]) is None);
            }
        }
    }
}

/// A run in which nothing goes wrong, of a plan that is not only to be shown, commits its
/// transaction and reports no failure.
pub proof fn a_run_without_trouble_commits(
    plan: TransactionPlan,
    guarded: bool,
    outcomes: Seq<Outcome>,
)
    requires
        plan.subjects().len() <= usize::MAX,
        outcomes.len() >= plan.subjects().len() + 20,
        all_good(plan, guarded, outcomes, outcomes.len() as int),
        !(plan is SetInstallReason),
        match plan {
            TransactionPlan::Sync { print_only, .. } => !print_only,
            TransactionPlan::Remove { print_only, .. } => !print_only,
            TransactionPlan::Upgrade { print_only, .. } => !print_only,
            _ => true,
        },
    ensures
        was_committed(plan, guarded, outcomes, outcomes.len() as int),
        forall|i: int|
            0 <= i < outcomes.len() ==> failure(
                plan,
                guarded,
                #[trigger] phase_after(plan, guarded, outcomes, i),
                outcomes[i],
            ) is None,
{
    run_ends(plan, guarded, outcomes, outcomes.len() as int);
    lemma_good(plan, guarded, outcomes, outcomes.len() as int);
}

/// Whatever fails, the report ends with the error: at the opening of the database, at a refresh,
/// at a recovery, at the start, at an upgrade, at a target, at the preparation, at the check of
/// the boot partition and at the commit.
pub proof fn errors_are_reported(
    plan: TransactionPlan,
    guarded: bool,
    phase: Phase,
    error: String,
)
    requires
        phase is Open || phase is SetReason || phase is Refresh || phase is RecoverRefresh
            || phase is RefreshAgain || phase is Init || phase is RecoverInit || phase is InitAgain
            || phase is SystemUpgrade || phase is AddTarget || phase is Prepare || phase is Boot
            || phase is Commit,
    ensures
        failure(plan, guarded, phase, Outcome::Failed(error)) matches Some(text)
            && error@.is_suffix_of(text),
        !(next(plan, guarded, phase, Outcome::Failed(error)) is Commit),
{
    let o = Outcome::Failed(error);
    let text = failure(plan, guarded, phase, o)->0;
    assert(failure_text(o) == error@);
    assert(text.subrange(text.len() - error@.len(), text.len() as int) =~= error@);
}

/// A lock is no failure at once: the run recovers from it. Recovered from, what was locked is tried
/// again.
pub proof fn locks_are_recovered_from(plan: TransactionPlan, guarded: bool, o: Outcome, done: Outcome)
    requires
        o is Locked,
        done is Done,
    ensures
        failure(plan, guarded, Phase::Refresh, o) is None,
        failure(plan, guarded, Phase::Init, o) is None,
        action_in(plan, next(plan, guarded, Phase::Refresh, o)) is Recover,
        action_in(plan, next(plan, guarded, Phase::Init, o)) is Recover,
        action_in(
            plan,
            next(plan, guarded, next(plan, guarded, Phase::Refresh, o), done),
        ) == action_in(plan, Phase::Refresh),
        action_in(plan, next(plan, guarded, next(plan, guarded, Phase::Init, o), done))
            == action_in(plan, Phase::Init),
{
}

/// An empty transaction is a failure unless the plan refreshes or upgrades the system; a transaction
/// with packages is none.
pub proof fn empty_transactions_fail_unless_refreshed(
    plan: TransactionPlan,
    guarded: bool,
    o: Outcome,
)
    ensures
        next(plan, guarded, Phase::Inspect, Outcome::Empty(true)) is ReleaseEmpty,
        next(plan, guarded, Phase::Inspect, Outcome::Empty(false)) is Prepare,
        failure(plan, guarded, Phase::ReleaseEmpty, o) is None <==> plan is Sync && (refreshes(plan)
            > 0 || upgrades(plan) > 0),
{
}

/// A hook that failed is named in the report on the commit, beside the error itself.
pub proof fn failed_hooks_are_named(
    plan: TransactionPlan,
    guarded: bool,
    error: String,
    hook: String,
)
    ensures
        failure(
            plan,
            guarded,
            Phase::Commit,
            Outcome::CommitFailed(CommitFailure::HookFailed, error, Some(hook)),
        ) matches Some(text) && mentions(text, error@) && mentions(text, hook@),
{
    let o = Outcome::CommitFailed(CommitFailure::HookFailed, error, Some(hook));
    let text = failure(plan, guarded, Phase::Commit, o)->0;
    let context = crate::tx_helper::transaction::commit_context(plan);
    let head = context + ": "@;
    let to_hook = head + error@ + " (transaction hook failed"@ + ": last running hook was '"@;
    assert(text == commit_error(CommitFailure::HookFailed, error@, context, Some(hook@)));
    let (i, j) = (head.len() as int, to_hook.len() as int);
    assert(text.subrange(i, i + error@.len()) =~= error@);
    assert(text.subrange(j, j + hook@.len()) =~= hook@);
    assert(occurs_at(text, error@, i));
    assert(occurs_at(text, hook@, j));
}

/// Whether an action was asked for before the outcome `n` and came out as hoped for.
pub open spec fn was_passed(
    plan: TransactionPlan,
    guarded: bool,
    outcomes: Seq<Outcome>,
    n: int,
    action: Action,
) -> bool {
    exists|i: int|
        0 <= i < n && #[trigger] asked(plan, guarded, outcomes, i) == action && (match action {
            Action::Inspect => outcomes[i] == Outcome::Empty(false),
            Action::ListCritical => outcomes[i] matches Outcome::Critical(list) && list@.len() == 0,
            _ => outcomes[i] is Done,
        })
}

proof fn lemma_passed(
    plan: TransactionPlan,
    guarded: bool,
    outcomes: Seq<Outcome>,
    n: int,
    check: Phase,
)
    requires
        passed(plan, guarded, outcomes, n, check),
        check is Inspect || check is Prepare || check is Critical || check is Boot,
    ensures
        check is Inspect ==> was_passed(plan, guarded, outcomes, n, Action::Inspect),
        check is Prepare ==> was_passed(plan, guarded, outcomes, n, Action::Prepare),
        check is Critical ==> was_passed(plan, guarded, outcomes, n, Action::ListCritical),
        check is Boot ==> was_passed(plan, guarded, outcomes, n, Action::CheckBoot),
{
    let i = choose|i: int|
        0 <= i < n && #[trigger] phase_after(plan, guarded, outcomes, i) == check && passes(
            check,
            outcomes[i],
        );
    let a = asked(plan, guarded, outcomes, i);
    if check is Critical {
        match outcomes[i] {
            Outcome::Critical(list) => {
                assert(texts(list@).len() == list@.len());
            },
            _ => {},
        }
    }
    assert(a == action_in(plan, check));
}

/// Before a commit, the transaction was found to have packages, it was prepared, the boot partition
/// was checked, and, where critical packages are guarded, none was found; right before it, the
/// last hook was forgotten.
pub proof fn commit_comes_after_what_it_needs(
    plan: TransactionPlan,
    guarded: bool,
    outcomes: Seq<Outcome>,
    n: int,
)
    requires
        0 <= n <= outcomes.len(),
        asked(plan, guarded, outcomes, n) is Commit,
    ensures
        was_passed(plan, guarded, outcomes, n, Action::Inspect),
        was_passed(plan, guarded, outcomes, n, Action::Prepare),
        was_passed(plan, guarded, outcomes, n, Action::CheckBoot),
        guarded ==> was_passed(plan, guarded, outcomes, n, Action::ListCritical),
        n > 0 && asked(plan, guarded, outcomes, n - 1) is ResetHooks,
{
    commit_is_checked(plan, guarded, outcomes, n);
    lemma_passed(plan, guarded, outcomes, n, Phase::Inspect);
    lemma_passed(plan, guarded, outcomes, n, Phase::Prepare);
    lemma_passed(plan, guarded, outcomes, n, Phase::Boot);
    if guarded {
        lemma_passed(plan, guarded, outcomes, n, Phase::Critical);
    }
}

proof fn lemma_refusal_names(names: Seq<Seq<char>>, i: int)
    requires
        0 <= i < names.len(),
    ensures
        mentions(noscriptlet_error(names), names[i]),
{
    lemma_joined_mentions(names, ", "@, i);
    let all = joined(names, ", "@);
    let text = noscriptlet_error(names);
    let head = "--noscriptlet cannot be used with critical system packages ("@;
    let k = choose|k: int| occurs_at(all, names[i], k);
    let at = head.len() + k;
    assert(text.subrange(at, at + names[i].len()) =~= all.subrange(k, k + names[i].len()));
    assert(occurs_at(text, names[i], at));
}

/// Critical packages stop a guarded run: nothing more is attempted, and each of them is named in the
/// report. Without a guard they are not asked for.
pub proof fn critical_packages_are_refused(
    plan: TransactionPlan,
    list: Vec<String>,
    o: Outcome,
    i: int,
)
    requires
        0 <= i < list@.len(),
    ensures
        asked_after(plan, true, Phase::WatchSignals, o) is ListCritical,
        asked_after(plan, false, Phase::WatchSignals, o) is CheckBoot,
        asked_after(plan, true, Phase::Critical, Outcome::Critical(list)) is Release,
        failure(plan, true, Phase::Critical, Outcome::Critical(list)) matches Some(text)
            && mentions(text, list@[i]@),
{
    let names = texts(list@);
    assert(names[i] == list@[i]@);
    lemma_refusal_names(names, i);
}

/// The action that is asked for after an outcome in a phase.
pub open spec fn asked_after(plan: TransactionPlan, guarded: bool, phase: Phase, o: Outcome) -> Action {
    action_in(plan, next(plan, guarded, phase, o))
}

/// Each of the texts that are joined occurs in what they are joined to.
pub proof fn lemma_joined_mentions(parts: Seq<Seq<char>>, sep: Seq<char>, i: int)
    requires
        0 <= i < parts.len(),
    ensures
        mentions(joined(parts, sep), parts[i]),
    decreases parts.len(),
{
    let all = joined(parts, sep);
    if parts.len() == 1 {
        assert(all.subrange(0, parts[i].len() as int) =~= parts[i]);
        assert(occurs_at(all, parts[i], 0));
    } else {
        let front = joined(parts.drop_last(), sep);
        if i == parts.len() - 1 {
            let at = (front + sep).len() as int;
            assert(all.subrange(at, at + parts[i].len()) =~= parts[i]);
            assert(occurs_at(all, parts[i], at));
        } else {
            lemma_joined_mentions(parts.drop_last(), sep, i);
            let k = choose|k: int| occurs_at(front, parts[i], k);
            assert(all.subrange(k, k + parts[i].len()) =~= front.subrange(k, k + parts[i].len()));
            assert(occurs_at(all, parts[i], k));
        }
    }
}

/// A transaction that fails says of which kind it is: that of a removal, of an upgrade from files,
/// or of an installation.
pub proof fn failures_tell_the_kind_of_transaction(plan: TransactionPlan, op: Operation)
    ensures
        plan is Remove ==> mentions(commit_context(plan), "remove"@) && mentions(
            prepare_context(plan),
            "remove"@,
        ),
        plan is Upgrade ==> mentions(commit_context(plan), "upgrade"@) && mentions(
            prepare_context(plan),
            "upgrade"@,
        ),
        plan is Sync ==> mentions(commit_context(plan), "sync"@),
        mentions(commit_context(plan), "commit"@),
        mentions(prepare_context(plan), "prepare"@),
        op == Operation::Remove ==> mentions(transaction_name(op), "remove"@),
        op == Operation::Upgrade ==> mentions(transaction_name(op), "upgrade"@),
        mentions(transaction_name(op), "transaction"@),
{
    reveal_strlit("remove");
    reveal_strlit("upgrade");
    reveal_strlit("sync");
    reveal_strlit("commit");
    reveal_strlit("prepare");
    reveal_strlit("transaction");
    let c = commit_context(plan);
    let p = prepare_context(plan);
    let t = transaction_name(op);
    reveal_strlit("failed to commit ALPM remove transaction");
    reveal_strlit("failed to commit ALPM upgrade (local pkg) transaction");
    reveal_strlit("failed to commit ALPM sync transaction");
    reveal_strlit("failed to prepare ALPM remove transaction: ");
    reveal_strlit("failed to prepare ALPM upgrade transaction: ");
    reveal_strlit("failed to prepare ALPM transaction: ");
    reveal_strlit("ALPM transaction");
    reveal_strlit("ALPM remove transaction");
    reveal_strlit("ALPM upgrade transaction");
    assert(c.subrange(10, 16) =~= "commit"@);
    assert(occurs_at(c, "commit"@, 10));
    assert(p.subrange(10, 17) =~= "prepare"@);
    assert(occurs_at(p, "prepare"@, 10));
    if plan is Remove {
        assert(c.subrange(22, 28) =~= "remove"@);
        assert(occurs_at(c, "remove"@, 22));
        assert(p.subrange(23, 29) =~= "remove"@);
        assert(occurs_at(p, "remove"@, 23));
    }
    if plan is Upgrade {
        assert(c.subrange(22, 29) =~= "upgrade"@);
        assert(occurs_at(c, "upgrade"@, 22));
        assert(p.subrange(23, 30) =~= "upgrade"@);
        assert(occurs_at(p, "upgrade"@, 23));
    }
    if plan is Sync {
        assert(c.subrange(22, 26) =~= "sync"@);
        assert(occurs_at(c, "sync"@, 22));
    }
    if op == Operation::Remove {
        assert(t.subrange(5, 11) =~= "remove"@);
        assert(occurs_at(t, "remove"@, 5));
        assert(t.subrange(12, 23) =~= "transaction"@);
        assert(occurs_at(t, "transaction"@, 12));
    } else if op == Operation::Upgrade {
        assert(t.subrange(5, 12) =~= "upgrade"@);
        assert(occurs_at(t, "upgrade"@, 5));
        assert(t.subrange(13, 24) =~= "transaction"@);
        assert(occurs_at(t, "transaction"@, 13));
    } else {
        assert(t.subrange(5, 16) =~= "transaction"@);
        assert(occurs_at(t, "transaction"@, 5));
    }
}

} // verus!
