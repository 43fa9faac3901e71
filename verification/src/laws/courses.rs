//! The whole course of a run in which nothing goes wrong.

#[allow(unused_imports)]
use crate::backend::alpm::{
    is_guarded, next_stage, stage_after, stage_failure, Operation, Stage, StageResult,
};
#[allow(unused_imports)]
use crate::config::{Args, Config};
#[allow(unused_imports)]
use crate::laws::transactions::{all_good, asked, is_action_for, is_good, refreshes, upgrades};
#[allow(unused_imports)]
use crate::text::texts;
#[allow(unused_imports)]
use crate::tx_helper::plan::TransactionPlan;
#[allow(unused_imports)]
use crate::tx_helper::transaction::{
    action_in, failure, next, phase_after, plan_flags, scriptlet_guard, Action, Outcome, Phase,
};
use vstd::prelude::*;

verus! {

/// One where something holds, otherwise nothing.
pub open spec fn one_if(holds: bool) -> int {
    if holds {
        1
    } else {
        0
    }
}

/// How many steps of a run come before its targets.
pub open spec fn steps_before_targets(plan: TransactionPlan) -> int {
    2 + one_if(refreshes(plan) > 0) + one_if(upgrades(plan) > 0)
}

/// Whether an action is the right one at step `k` of a run in which nothing goes wrong: the database
/// is opened; it is refreshed, where that is asked for; a transaction is started with the
/// switches of the plan; all upgrades are added, where that is asked for; then each target is
/// handled; the transaction is inspected and prepared; where it is not only shown, signals are
/// watched, critical packages are listed, where they are guarded, the boot partition is checked,
/// the last hook is forgotten and the transaction is committed; it is released; and, where it was
/// committed, the lock is given back.
pub open spec fn is_next_action(plan: TransactionPlan, guarded: bool, a: Action, k: int) -> bool {
    let t = steps_before_targets(plan);
    let e = t + plan.subjects().len();
    let r = one_if(refreshes(plan) > 0);
    let shown = plan.only_shows();
    let g = one_if(guarded);
    if k == 0 {
        a == (Action::Open { no_confirm: plan.unattended() })
    } else if k <= r {
        a == (Action::Update { force: refreshes(plan) > 1 })
    } else if k == r + 1 {
        a == Action::Init(plan_flags(plan))
    } else if k < t {
        a == (Action::SystemUpgrade { downgrade: upgrades(plan) > 1 })
    } else if k < e {
        is_action_for(plan, a, k - t)
    } else if k == e {
        a is Inspect
    } else if k == e + 1 {
        a is Prepare
    } else if shown {
        if k == e + 2 {
            a is Release
        } else {
            a is Finish
        }
    } else if k == e + 2 {
        a is WatchSignals
    } else if k < e + 3 + g {
        a is ListCritical
    } else if k == e + 3 + g {
        a is CheckBoot
    } else if k == e + 4 + g {
        a is ResetHooks
    } else if k == e + 5 + g {
        a is Commit
    } else if k == e + 6 + g {
        a is Release
    } else if k == e + 7 + g {
        a is Unlock
    } else {
        a is Finish
    }
}

/// The phase at step `k` of a run in which nothing goes wrong.
spec fn good_phase(plan: TransactionPlan, guarded: bool, k: int) -> Phase {
    let t = steps_before_targets(plan);
    let e = t + plan.subjects().len();
    let r = one_if(refreshes(plan) > 0);
    let g = one_if(guarded);
    if k <= 0 {
        Phase::Open
    } else if k <= r {
        Phase::Refresh
    } else if k == r + 1 {
        Phase::Init
    } else if k < t {
        Phase::SystemUpgrade
    } else if k < e {
        Phase::AddTarget((k - t) as usize)
    } else if k == e {
        Phase::Inspect
    } else if k == e + 1 {
        Phase::Prepare
    } else if plan.only_shows() {
        if k == e + 2 {
            Phase::ReleaseUncommitted
        } else {
            Phase::Finished
        }
    } else if k == e + 2 {
        Phase::WatchSignals
    } else if k < e + 3 + g {
        Phase::Critical
    } else if k == e + 3 + g {
        Phase::Boot
    } else if k == e + 4 + g {
        Phase::ResetHooks
    } else if k == e + 5 + g {
        Phase::Commit
    } else if k == e + 6 + g {
        Phase::Release
    } else if k == e + 7 + g {
        Phase::Unlock
    } else {
        Phase::Finished
    }
}

proof fn lemma_good_phase(plan: TransactionPlan, guarded: bool, outcomes: Seq<Outcome>, k: int)
    requires
        0 <= k <= outcomes.len(),
        !(plan is SetInstallReason),
        plan.subjects().len() <= usize::MAX,
        all_good(plan, guarded, outcomes, outcomes.len() as int),
    ensures
        phase_after(plan, guarded, outcomes, k) == good_phase(plan, guarded, k),
    decreases k,
{
    if k > 0 {
        lemma_good_phase(plan, guarded, outcomes, k - 1);
        let q = phase_after(plan, guarded, outcomes, k - 1);
        let o = outcomes[k - 1];
        assert(is_good(q, o));
        if q is Critical {
            match o {
                Outcome::Critical(list) => {
                    assert(texts(list@).len() == list@.len());
                },
                _ => {},
            }
        }
        assert(phase_after(plan, guarded, outcomes, k) == next(plan, guarded, q, o));
    }
}

/// A run in which nothing goes wrong asks for the right action at every step, and reports no failure
/// at any.
pub proof fn a_good_run_asks_for_the_right_actions(
    plan: TransactionPlan,
    guarded: bool,
    outcomes: Seq<Outcome>,
    k: int,
)
    requires
        0 <= k < outcomes.len(),
        !(plan is SetInstallReason),
        plan.subjects().len() <= usize::MAX,
        all_good(plan, guarded, outcomes, outcomes.len() as int),
    ensures
        is_next_action(plan, guarded, asked(plan, guarded, outcomes, k), k),
        failure(plan, guarded, phase_after(plan, guarded, outcomes, k), outcomes[k]) is None,
{
    lemma_good_phase(plan, guarded, outcomes, k);
    let q = phase_after(plan, guarded, outcomes, k);
    assert(is_good(q, outcomes[k]));
    if q is Critical {
        match outcomes[k] {
            Outcome::Critical(list) => {
                assert(texts(list@).len() == list@.len());
            },
            _ => {},
        }
    }
}

/// A plan that sets install reasons opens the database and sets the reason of each package in turn,
/// as dependencies or as asked for; a reason that is neither is a failure before any package.
pub proof fn every_reason_is_set(
    plan: TransactionPlan,
    guarded: bool,
    outcomes: Seq<Outcome>,
    k: int,
)
    requires
        plan is SetInstallReason,
        plan.subjects().len() <= usize::MAX,
        0 <= k < plan.subjects().len(),
        k + 1 < outcomes.len(),
        forall|i: int| 0 <= i < outcomes.len() ==> #[trigger] outcomes[i] is Done,
    ensures
        match plan {
            TransactionPlan::SetInstallReason { reason, packages, .. } => if reason@ == "asdeps"@ {
                asked(plan, guarded, outcomes, k + 1) == (Action::SetReason {
                    package: k as usize,
                    dependency: true,
                }) && failure(plan, guarded, phase_after(plan, guarded, outcomes, k + 1), outcomes[k + 1]) is None
            } else if reason@ == "asexplicit"@ {
                asked(plan, guarded, outcomes, k + 1) == (Action::SetReason {
                    package: k as usize,
                    dependency: false,
                }) && failure(plan, guarded, phase_after(plan, guarded, outcomes, k + 1), outcomes[k + 1]) is None
            } else {
                asked(plan, guarded, outcomes, 1) is Finish && failure(
                    plan,
                    guarded,
                    Phase::Open,
                    outcomes[0],
                ) is Some
            },
            _ => false,
        },
    decreases k,
{
    reveal_with_fuel(phase_after, 2);
    if k > 0 {
        every_reason_is_set(plan, guarded, outcomes, k - 1);
        let q = phase_after(plan, guarded, outcomes, k);
        assert(phase_after(plan, guarded, outcomes, k + 1) == next(plan, guarded, q, outcomes[k]));
        assert(asked(plan, guarded, outcomes, k) == action_in(plan, q));
    } else {
        assert(phase_after(plan, guarded, outcomes, 1) == next(
            plan,
            guarded,
            Phase::Open,
            outcomes[0],
        ));
    }
}

/// Whether a result is the one that an operation in this process hopes for.
pub open spec fn is_good_result(stage: Stage, r: StageResult) -> bool {
    if stage is Critical {
        r matches StageResult::Critical(list) && list@.len() == 0
    } else {
        r is Done
    }
}

/// The stage at step `k` of an operation in this process in which nothing goes wrong: an
/// installation refreshes, where that is asked for; a transaction is started; an installation adds
/// all upgrades, where that is asked for; each target is handled; the transaction is prepared;
/// where it is not only shown, critical packages are listed, where they are guarded, the boot
/// partition is checked and the transaction is committed; and it is released.
pub open spec fn good_stage(op: Operation, args: Args, guarded: bool, k: int) -> Stage {
    let installs = op == Operation::Sync;
    let r = one_if(installs && args.given("y"@, "refresh"@));
    let t = r + 1 + one_if(installs && args.given("u"@, "sysupgrade"@));
    let e = t + args.targets@.len();
    let g = one_if(guarded);
    if k < r {
        Stage::Refresh
    } else if k == r {
        Stage::Init
    } else if k < t {
        Stage::SystemUpgrade
    } else if k < e {
        Stage::Target((k - t) as usize)
    } else if k == e {
        Stage::Prepare
    } else if args.given("p"@, "print"@) {
        if k == e + 1 {
            Stage::Release
        } else {
            Stage::Finished
        }
    } else if k < e + 1 + g {
        Stage::Critical
    } else if k == e + 1 + g {
        Stage::Boot
    } else if k == e + 2 + g {
        Stage::Commit
    } else if k == e + 3 + g {
        Stage::Release
    } else {
        Stage::Finished
    }
}

/// An operation in this process in which nothing goes wrong goes through its stages in their order
/// and reports no failure; a refresh with nothing to install or upgrade ends there.
pub proof fn a_good_operation_goes_through_its_stages(
    op: Operation,
    args: Args,
    guarded: bool,
    results: Seq<StageResult>,
    k: int,
)
    requires
        0 <= k <= results.len(),
        args.targets@.len() <= usize::MAX,
        forall|i: int|
            0 <= i < results.len() ==> is_good_result(
                #[trigger] stage_after(op, args, guarded, results, i),
                results[i],
            ),
    ensures
        op == Operation::Sync && args.given("y"@, "refresh"@) && !args.given("u"@, "sysupgrade"@)
            && args.targets@.len() == 0 && k >= 1 ==> stage_after(op, args, guarded, results, k)
            is Finished,
        !(op == Operation::Sync && args.given("y"@, "refresh"@) && !args.given("u"@, "sysupgrade"@)
            && args.targets@.len() == 0) ==> stage_after(op, args, guarded, results, k)
            == good_stage(op, args, guarded, k),
        k < results.len() ==> stage_failure(
            op,
            args,
            stage_after(op, args, guarded, results, k),
            results[k],
        ) is None,
    decreases k,
{
    if k < results.len() {
        assert(is_good_result(stage_after(op, args, guarded, results, k), results[k]));
        match results[k] {
            StageResult::Critical(list) => {
                assert(texts(list@).len() == list@.len());
            },
            _ => {},
        }
    }
    if k > 0 {
        a_good_operation_goes_through_its_stages(op, args, guarded, results, k - 1);
        let q = stage_after(op, args, guarded, results, k - 1);
        assert(stage_after(op, args, guarded, results, k) == next_stage(
            op,
            args,
            guarded,
            q,
            results[k - 1],
        ));
        assert(is_good_result(q, results[k - 1]));
        match results[k - 1] {
            StageResult::Critical(list) => {
                assert(texts(list@).len() == list@.len());
            },
            _ => {},
        }
    }
}

/// Whatever fails in an operation in this process, the report ends with the error, but for a file or
/// an installed package that is missing, which is named instead; and nothing is committed then.
pub proof fn failed_stages_are_reported(
    op: Operation,
    args: Args,
    guarded: bool,
    stage: Stage,
    error: String,
)
    requires
        stage is Refresh || stage is Init || stage is SystemUpgrade || stage is Target || stage
            is Prepare || stage is Boot || stage is Commit,
    ensures
        stage_failure(op, args, stage, StageResult::Failed(error)) matches Some(text)
            && error@.is_suffix_of(text),
        stage_failure(op, args, stage, StageResult::Missing(error)) is Some,
        !(next_stage(op, args, guarded, stage, StageResult::Failed(error)) is Commit),
        !(next_stage(op, args, guarded, stage, StageResult::Missing(error)) is Commit),
        forall|i: usize|
            stage == Stage::Target(i) && op != Operation::Sync ==> (stage_failure(
                op,
                args,
                stage,
                StageResult::Missing(error),
            ) matches Some(text) && crate::text::mentions(text, (#[trigger] args.targets@[i as int])@)),
{
    let text = stage_failure(op, args, stage, StageResult::Failed(error))->0;
    assert(text.subrange(text.len() - error@.len(), text.len() as int) =~= error@);
    match stage {
        Stage::Target(i) => {
            let t = args.targets@[i as int]@;
            let m = stage_failure(op, args, stage, StageResult::Missing(error))->0;
            let at = match op {
                Operation::Remove => "target not found in local db: "@.len() as int,
                _ => "failed to load local package file '"@.len() as int,
            };
            if op != Operation::Sync {
                assert(m.subrange(at, at + t.len()) =~= t);
                assert(crate::text::occurs_at(m, t, at));
            }
        },
        _ => {},
    }
}

/// Critical packages are guarded if and only if scriptlets are switched off on the command line of
/// the program or of the operation, and nobody insisted.
pub proof fn guards_are_lifted_by_force(config: Config, args: Args)
    ensures
        is_guarded(config, args) <==> !config.force_noscriptlet && (args.given(
            "noscriptlet"@,
            "noscriptlet"@,
        ) || config.args.given("noscriptlet"@, "noscriptlet"@)),
        scriptlet_guard(config) <==> !config.force_noscriptlet && config.args.given(
            "noscriptlet"@,
            "noscriptlet"@,
        ),
{
}

} // verus!
