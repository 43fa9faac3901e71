//! What the options of a command line do.

#[allow(unused_imports)]
use crate::backend::alpm::{flags_of, operation_of, plans, Operation};
#[allow(unused_imports)]
use crate::config::{occurrences, Arg, Args};
#[allow(unused_imports)]
use crate::flags::TransFlags;
#[allow(unused_imports)]
use crate::laws::transactions::{refreshes, upgrades};
#[allow(unused_imports)]
use crate::text::texts;
#[allow(unused_imports)]
use crate::tx_helper::plan::TransactionPlan;
#[allow(unused_imports)]
use crate::tx_helper::transaction::plan_flags;
use vstd::prelude::*;

verus! {

/// Whether a command line is another one with one option more at its end.
pub open spec fn has_one_more(a: Args, b: Args, x: Arg) -> bool {
    &&& b.op@ == a.op@
    &&& b.targets@ == a.targets@
    &&& b.args@ == a.args@.push(x)
}

/// Whether an option goes by one of two names.
pub open spec fn is_named(x: Arg, short: Seq<char>, long: Seq<char>) -> bool {
    x.key@ == short || x.key@ == long
}

proof fn lemma_one_more(a: Args, b: Args, x: Arg)
    requires
        has_one_more(a, b, x),
    ensures
        forall|s: Seq<char>, l: Seq<char>|
            #![trigger b.times(s, l)]
            b.times(s, l) == a.times(s, l) + (if is_named(x, s, l) {
                1nat
            } else {
                0nat
            }),
{
    assert(b.args@.drop_last() =~= a.args@);
}

/// An option is given if and only if one of the options goes by one of its two names.
pub proof fn options_are_found_by_either_name(args: Args, short: Seq<char>, long: Seq<char>)
    ensures
        args.given(short, long) <==> exists|i: int|
            0 <= i < args.args@.len() && is_named(#[trigger] args.args@[i], short, long),
{
    lemma_occurrences(args.args@, short, long);
}

proof fn lemma_occurrences(args: Seq<Arg>, short: Seq<char>, long: Seq<char>)
    ensures
        occurrences(args, short, long) > 0 <==> exists|i: int|
            0 <= i < args.len() && is_named(#[trigger] args[i], short, long),
    decreases args.len(),
{
    if args.len() > 0 {
        let front = args.drop_last();
        lemma_occurrences(front, short, long);
        if occurrences(front, short, long) > 0 {
            let i = choose|i: int| 0 <= i < front.len() && is_named(#[trigger] front[i], short, long);
            assert(is_named(args[i], short, long));
        }
        if is_named(args.last(), short, long) {
            assert(is_named(args[args.len() - 1], short, long));
        }
        if exists|i: int| 0 <= i < args.len() && is_named(#[trigger] args[i], short, long) {
            let i = choose|i: int| 0 <= i < args.len() && is_named(#[trigger] args[i], short, long);
            if i < front.len() {
                assert(is_named(front[i], short, long));
            }
        }
    }
}

/// Whether no switch of a transaction is on.
pub open spec fn is_unswitched(f: TransFlags) -> bool {
    &&& !f.download_only && !f.no_deps && !f.no_dep_version && !f.needed && !f.db_only
    &&& !f.no_scriptlet && !f.no_conflicts && !f.cascade && !f.no_save && !f.recurse
    &&& !f.recurse_all && !f.unneeded
}

/// Whether the switches of a transaction differ as one option more makes them differ: each switch
/// is turned on by its own option alone, where the operation knows it, and a second option of the
/// same kind turns on the stronger switch. `scriptlets` tells whether the option that leaves out
/// scriptlets counts.
pub open spec fn switches_differ_by(
    op: Operation,
    f: TransFlags,
    g: TransFlags,
    x: Arg,
    scriptlets: bool,
) -> bool {
    let removes = op == Operation::Remove;
    let no_deps = is_named(x, "d"@, "nodeps"@);
    let recursive = removes && x.key@ == "recursive"@;
    &&& g.download_only == (f.download_only || (!removes && is_named(x, "w"@, "downloadonly"@)))
    &&& g.no_deps == (f.no_deps || no_deps)
    &&& g.no_dep_version == (f.no_dep_version || (!removes && f.no_deps && no_deps))
    &&& g.needed == (f.needed || (!removes && x.key@ == "needed"@))
    &&& g.db_only == (f.db_only || x.key@ == "dbonly"@)
    &&& g.no_scriptlet == (f.no_scriptlet || (scriptlets && op != Operation::Upgrade && x.key@
        == "noscriptlet"@))
    &&& g.no_conflicts == (f.no_conflicts || (!removes && x.key@ == "overwrite"@))
    &&& g.cascade == (f.cascade || (removes && x.key@ == "cascade"@))
    &&& g.no_save == (f.no_save || (removes && x.key@ == "nosave"@))
    &&& g.recurse == (f.recurse || recursive)
    &&& g.recurse_all == (f.recurse_all || (f.recurse && recursive))
    &&& g.unneeded == (f.unneeded || (removes && x.key@ == "unneeded"@))
}

/// Without options no switch is on, and each further option turns on its own switch alone.
pub proof fn each_option_turns_on_its_own_switch(op: Operation, a: Args, b: Args, x: Arg)
    ensures
        a.args@.len() == 0 ==> is_unswitched(flags_of(op, a)),
        has_one_more(a, b, x) ==> switches_differ_by(op, flags_of(op, a), flags_of(op, b), x, true),
{
    if has_one_more(a, b, x) {
        lemma_one_more(a, b, x);
    }
}

/// What a plan holds beside its switches and counts.
pub open spec fn is_only_shown(plan: TransactionPlan) -> bool {
    match plan {
        TransactionPlan::Sync { print_only, .. } => print_only,
        TransactionPlan::Remove { print_only, .. } => print_only,
        TransactionPlan::Upgrade { print_only, .. } => print_only,
        TransactionPlan::SetInstallReason { .. } => false,
    }
}

/// Whether a plan is carried out without questions.
pub open spec fn asks_nothing(plan: TransactionPlan) -> bool {
    match plan {
        TransactionPlan::Sync { no_confirm, .. } => no_confirm,
        TransactionPlan::Remove { no_confirm, .. } => no_confirm,
        TransactionPlan::Upgrade { no_confirm, .. } => no_confirm,
        TransactionPlan::SetInstallReason { no_confirm, .. } => no_confirm,
    }
}

/// The targets of a plan.
pub open spec fn named_in(plan: TransactionPlan) -> Seq<Seq<char>> {
    match plan {
        TransactionPlan::Sync { targets, .. } => texts(targets@),
        TransactionPlan::Remove { targets, .. } => texts(targets@),
        TransactionPlan::Upgrade { targets, .. } => texts(targets@),
        TransactionPlan::SetInstallReason { packages, .. } => texts(packages@),
    }
}

/// The plan of a command line is of the kind of its operation, names its targets as they stand,
/// and asks questions unless it was told not to. Without options nothing is refreshed, upgraded or
/// only shown, and no switch is on.
pub proof fn plans_say_what_was_asked(a: Args, unattended: bool, plan: TransactionPlan)
    requires
        plans(a, unattended, plan),
    ensures
        a.op@ == "sync"@ ==> plan is Sync,
        a.op@ == "remove"@ ==> plan is Remove,
        a.op@ == "upgrade"@ ==> plan is Upgrade,
        named_in(plan) == texts(a.targets@),
        asks_nothing(plan) == unattended,
        a.args@.len() == 0 ==> refreshes(plan) == 0 && upgrades(plan) == 0 && !is_only_shown(plan)
            && is_unswitched(plan_flags(plan)),
{
    reveal_strlit("sync");
    reveal_strlit("remove");
    reveal_strlit("upgrade");
    assert("sync"@.len() != "remove"@.len());
    assert("sync"@.len() != "upgrade"@.len());
    assert("remove"@.len() != "upgrade"@.len());
}

/// Each further option of a command line turns on its own switch of the plan alone, and counts one
/// refresh or upgrade more where it asks for one; scriptlets are never left out. No option is given
/// so often that its count does not fit into a plan.
pub proof fn each_option_changes_its_own_part_of_the_plan(
    a: Args,
    b: Args,
    x: Arg,
    unattended: bool,
    p: TransactionPlan,
    q: TransactionPlan,
    op: Operation,
)
    requires
        has_one_more(a, b, x),
        b.args@.len() < 256,
        plans(a, unattended, p),
        plans(b, unattended, q),
        op == Operation::Sync ==> a.op@ == "sync"@,
        op == Operation::Remove ==> a.op@ == "remove"@,
        op == Operation::Upgrade ==> a.op@ == "upgrade"@,
    ensures
        switches_differ_by(op, plan_flags(p), plan_flags(q), x, false),
        refreshes(q) == refreshes(p) + (if op == Operation::Sync && is_named(x, "y"@, "refresh"@) {
            1int
        } else {
            0int
        }),
        upgrades(q) == upgrades(p) + (if op == Operation::Sync && is_named(
            x,
            "u"@,
            "sysupgrade"@,
        ) {
            1int
        } else {
            0int
        }),
        is_only_shown(q) == (is_only_shown(p) || is_named(x, "p"@, "print"@)),
{
    plans_say_what_was_asked(a, unattended, p);
    plans_say_what_was_asked(b, unattended, q);
    lemma_one_more(a, b, x);
    assert forall|s: Seq<char>, l: Seq<char>| #[trigger] b.times(s, l) < 256 by {
        lemma_few(b.args@, s, l);
    }
    assert(a.times("d"@, "nodeps"@) <= b.times("d"@, "nodeps"@) < 256);
    assert(a.times("y"@, "refresh"@) <= b.times("y"@, "refresh"@) < 256);
    assert(a.times("u"@, "sysupgrade"@) <= b.times("u"@, "sysupgrade"@) < 256);
    assert(a.times("recursive"@, "recursive"@) <= b.times("recursive"@, "recursive"@) < 256);
}

proof fn lemma_few(args: Seq<Arg>, short: Seq<char>, long: Seq<char>)
    ensures
        occurrences(args, short, long) <= args.len(),
    decreases args.len(),
{
    if args.len() > 0 {
        lemma_few(args.drop_last(), short, long);
    }
}

/// The operations that the backend knows are those of their names, and no others.
pub proof fn operations_go_by_their_names(name: Seq<char>)
    ensures
        operation_of(name) == Some(Operation::Sync) <==> name == "sync"@,
        operation_of(name) == Some(Operation::Remove) <==> name == "remove"@,
        operation_of(name) == Some(Operation::Upgrade) <==> name == "upgrade"@,
{
    reveal_strlit("sync");
    reveal_strlit("remove");
    reveal_strlit("upgrade");
    assert("sync"@.len() != "remove"@.len());
    assert("sync"@.len() != "upgrade"@.len());
    assert("remove"@.len() != "upgrade"@.len());
}

} // verus!
