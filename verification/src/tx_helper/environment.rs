//! The environment of the helper and the signals that reach it.

use crate::text::{same, starts_with};
#[allow(unused_imports)]
use crate::text::texts;
use vstd::prelude::*;

verus! {

/// Whether a variable may make hooks run or load foreign code.
pub open spec fn is_unsafe_var(name: Seq<char>) -> bool {
    "LD_"@.is_prefix_of(name) || "DYLD_"@.is_prefix_of(name) || name == "PERL5LIB"@ || name
        == "PYTHONPATH"@ || name == "RUBYLIB"@ || name == "NODE_PATH"@
}

fn is_dangerous(name: &str) -> (r: bool)
    ensures
        r == is_unsafe_var(name@),
{
    starts_with(name, "LD_") || starts_with(name, "DYLD_") || same(name, "PERL5LIB") || same(
        name,
        "PYTHONPATH",
    ) || same(name, "RUBYLIB") || same(name, "NODE_PATH")
}

/// The variables of a list that are taken out.
pub open spec fn unsafe_vars(names: Seq<Seq<char>>) -> Seq<Seq<char>>
    decreases names.len(),
{
    if names.len() == 0 {
        seq![]
    } else if is_unsafe_var(names.last()) {
        unsafe_vars(names.drop_last()).push(names.last())
    } else {
        unsafe_vars(names.drop_last())
    }
}

/// How the environment of the helper is changed: these variables are taken out, and the search
/// path for programs is set.
#[derive(Debug)]
pub struct EnvironmentChange {
    pub remove: Vec<String>,
    pub path: &'static str,
}

/// How the environment of the helper is changed, so that hooks run no foreign code.
pub fn sanitize_helper_environment(names: &Vec<String>) -> (r: EnvironmentChange)
    ensures
        texts(r.remove@) == unsafe_vars(texts(names@)),
        r.path@ == "/usr/local/sbin:/usr/local/bin:/usr/sbin:/usr/bin:/sbin:/bin"@,
{
    let mut remove: Vec<String> = Vec::new();
    let mut i: usize = 0;
    let ghost all = texts(names@);
    assert(all.take(0) =~= seq![]);
    assert(texts(remove@) =~= seq![]);
    while i < names.len()
        invariant
            i <= names.len(),
            all == texts(names@),
            texts(remove@) == unsafe_vars(all.take(i as int)),
        decreases names.len() - i,
    {
        assert(all.take(i + 1).drop_last() =~= all.take(i as int));
        let ghost so_far = remove@;
        if is_dangerous(names[i].as_str()) {
            remove.push(names[i].clone());
            assert(texts(remove@) =~= texts(so_far).push(names@[i as int]@));
        }
        i += 1;
    }
    assert(all.take(i as int) =~= all);
    EnvironmentChange {
        remove,
        path: "/usr/local/sbin:/usr/local/bin:/usr/sbin:/usr/bin:/sbin:/bin",
    }
}

/// Every variable that may make hooks run foreign code is taken out, and no other.
pub proof fn exactly_the_unsafe_variables_go(names: Seq<Seq<char>>, name: Seq<char>)
    ensures
        unsafe_vars(names).contains(name) <==> names.contains(name) && is_unsafe_var(name),
    decreases names.len(),
{
    if names.len() > 0 {
        let front = names.drop_last();
        let last = names.last();
        exactly_the_unsafe_variables_go(front, name);
        assert(names.contains(name) <==> front.contains(name) || last == name) by {
            if names.contains(name) {
                let k = choose|k: int| 0 <= k < names.len() && names[k] == name;
                if k < front.len() {
                    assert(front[k] == name);
                }
            }
            if front.contains(name) {
                let k = choose|k: int| 0 <= k < front.len() && front[k] == name;
                assert(names[k] == name);
            }
            if last == name {
                assert(names[names.len() - 1] == name);
            }
        }
        if is_unsafe_var(last) {
            let less = unsafe_vars(front);
            let out = less.push(last);
            assert(out.contains(name) <==> less.contains(name) || last == name) by {
                if out.contains(name) {
                    let k = choose|k: int| 0 <= k < out.len() && out[k] == name;
                    if k < less.len() {
                        assert(less[k] == name);
                    }
                }
                if less.contains(name) {
                    let k = choose|k: int| 0 <= k < less.len() && less[k] == name;
                    assert(out[k] == name);
                }
                if last == name {
                    assert(out[less.len() as int] == name);
                }
            }
        }
    }
}

/// What the helper does about a signal.
#[derive(Debug, Clone, Copy, PartialEq, Eq, Structural)]
pub enum SignalStep {
    /// Nothing: hooks have to finish.
    Ignore,
    /// Ask the transaction to stop.
    InterruptTransaction,
    /// Nothing: the helper is already leaving.
    AlreadyLeaving,
    /// Tell the parent and leave.
    Leave,
}

/// What the helper does about a signal.
pub open spec fn signal_step(interrupt_allowed: bool, transaction: bool, leaving: bool) -> SignalStep {
    if !interrupt_allowed {
        SignalStep::Ignore
    } else if transaction {
        SignalStep::InterruptTransaction
    } else if leaving {
        SignalStep::AlreadyLeaving
    } else {
        SignalStep::Leave
    }
}

/// What the helper does about a signal. While a transaction is committed, interrupts are not
/// allowed; before, they stop the transaction, or, where there is none, the helper.
pub fn on_signal(interrupt_allowed: bool, transaction: bool, leaving: bool) -> (r: SignalStep)
    ensures
        r == signal_step(interrupt_allowed, transaction, leaving),
{
    if !interrupt_allowed {
        SignalStep::Ignore
    } else if transaction {
        SignalStep::InterruptTransaction
    } else if leaving {
        SignalStep::AlreadyLeaving
    } else {
        SignalStep::Leave
    }
}

} // verus!
