//! What the menu of search results shows, and what a choice from it gives.

#[allow(unused_imports)]
use crate::config::{Config, SortMode};
#[allow(unused_imports)]
use crate::laws::boot::lemma_push_contains;
#[allow(unused_imports)]
use crate::number::decimal;
#[allow(unused_imports)]
use crate::search::menu::{
    chosen_upto, menu_holds_every_result, menu_order, menu_rows, named, pkg_name, pkg_target,
    right_number, shown_at,
};
#[allow(unused_imports)]
use crate::search::rows::{any_row, AnyPkg};
#[allow(unused_imports)]
use crate::text::{lemma_leading_is, split_once, texts, Run};
use vstd::prelude::*;

verus! {

/// Where a result comes from: the database of a package of a repository, the namespace of the AUR,
/// or the repository of a build script.
pub open spec fn source_of(config: Config, p: AnyPkg) -> Seq<char> {
    match p {
        AnyPkg::RepoPkg(r) => r.db@,
        AnyPkg::AurPkg(_) => config.aur_namespace@,
        AnyPkg::Custom(c) => c.repo@,
    }
}

/// The target of a result is where it comes from, a slash and its name. What stands before the
/// first slash of the target gives back the source, and what stands after it the name.
pub proof fn targets_lead_back_to_their_results(config: Config, p: AnyPkg)
    ensures
        pkg_target(config, p) == source_of(config, p) + "/"@ + any_row(config, p).name,
        !source_of(config, p).contains('/') ==> split_once(pkg_target(config, p), '/') == Some(
            (source_of(config, p), any_row(config, p).name),
        ),
{
    reveal_strlit("/");
    let s = source_of(config, p);
    let n = any_row(config, p).name;
    let t = pkg_target(config, p);
    assert(t =~= s + "/"@ + n);
    if !s.contains('/') {
        assert forall|i: int| 0 <= i < s.len() implies crate::text::fits(
            Run::Except('/'),
            #[trigger] t[i],
        ) by {
            assert(t[i] == s[i]);
            assert(s.contains(s[i]));
        }
        assert(t[s.len() as int] == '/');
        lemma_leading_is(t, Run::Except('/'), s.len() as int);
        assert(t.take(s.len() as int) =~= s);
        assert(t.skip((s.len() + 1) as int) =~= n);
    }
}

/// The source in the target of a package of a repository or of a build script is the one that its
/// line shows.
pub proof fn targets_name_the_source_that_is_shown(config: Config, p: AnyPkg)
    ensures
        !(p is AurPkg) ==> pkg_target(config, p) == any_row(config, p).repo + "/"@ + any_row(
            config,
            p,
        ).name,
        p is AurPkg && config.aur_namespace@ == "aur"@ ==> pkg_target(config, p) == any_row(
            config,
            p,
        ).repo + "/"@ + any_row(config, p).name,
{
}

/// Results of different sources or of different names have different targets.
pub proof fn different_results_have_different_targets(config: Config, p: AnyPkg, q: AnyPkg)
    requires
        !source_of(config, p).contains('/'),
        !source_of(config, q).contains('/'),
        pkg_target(config, p) == pkg_target(config, q),
    ensures
        source_of(config, p) == source_of(config, q),
        any_row(config, p).name == any_row(config, q).name,
{
    targets_lead_back_to_their_results(config, p);
    targets_lead_back_to_their_results(config, q);
}

/// The result that the number `n + 1` of the menu stands for.
pub open spec fn result_at(config: Config, pkgs: Seq<AnyPkg>, n: int) -> AnyPkg {
    pkgs[menu_order(pkgs, texts(config.targets@))[n]]
}

/// The line with a number shows the result that the number chooses.
pub proof fn numbers_choose_what_their_lines_show(config: Config, pkgs: Seq<AnyPkg>, n: int)
    requires
        0 <= n < pkgs.len(),
    ensures
        menu_rows(config, pkgs).len() == pkgs.len(),
        menu_rows(config, pkgs)[n] == any_row(config, result_at(config, pkgs, n)),
{
    menu_holds_every_result(pkgs, texts(config.targets@), 0);
}

proof fn lemma_chosen(
    config: Config,
    pkgs: Seq<AnyPkg>,
    chosen: Seq<bool>,
    k: int,
    t: Seq<char>,
)
    requires
        0 <= k <= pkgs.len(),
        chosen.len() == pkgs.len(),
    ensures
        chosen_upto(config, pkgs, chosen, k).contains(t) <==> exists|j: int|
            0 <= j < k && chosen[#[trigger] shown_at(config, pkgs.len() as int, j)] && t
                == pkg_target(
                config,
                result_at(config, pkgs, shown_at(config, pkgs.len() as int, j)),
            ),
    decreases k,
{
    let len = pkgs.len() as int;
    if k > 0 {
        lemma_chosen(config, pkgs, chosen, k - 1, t);
        let at = shown_at(config, len, k - 1);
        let less = chosen_upto(config, pkgs, chosen, k - 1);
        lemma_push_contains(less, pkg_target(config, result_at(config, pkgs, at)), t);
        if exists|j: int|
            0 <= j < k && chosen[#[trigger] shown_at(config, len, j)] && t == pkg_target(
                config,
                result_at(config, pkgs, shown_at(config, len, j)),
            ) {
            let j = choose|j: int|
                0 <= j < k && chosen[#[trigger] shown_at(config, len, j)] && t == pkg_target(
                    config,
                    result_at(config, pkgs, shown_at(config, len, j)),
                );
            if j < k - 1 {
                assert(chosen[shown_at(config, len, j)]);
            }
        }
        if chosen[at] && t == pkg_target(config, result_at(config, pkgs, at)) {
            assert(chosen[shown_at(config, len, k - 1)]);
        }
        if less.contains(t) {
            let j = choose|j: int|
                0 <= j < k - 1 && chosen[#[trigger] shown_at(config, len, j)] && t == pkg_target(
                    config,
                    result_at(config, pkgs, shown_at(config, len, j)),
                );
            assert(chosen[shown_at(config, len, j)]);
        }
    }
}

/// What is chosen are the targets of the results whose numbers were named, and no others.
pub proof fn exactly_the_named_numbers_are_chosen(
    config: Config,
    pkgs: Seq<AnyPkg>,
    chosen: Seq<bool>,
    t: Seq<char>,
)
    requires
        chosen.len() == pkgs.len(),
    ensures
        chosen_upto(config, pkgs, chosen, pkgs.len() as int).contains(t) <==> exists|n: int|
            0 <= n < pkgs.len() && #[trigger] chosen[n] && t == pkg_target(
                config,
                result_at(config, pkgs, n),
            ),
{
    let len = pkgs.len() as int;
    lemma_chosen(config, pkgs, chosen, len, t);
    if exists|n: int|
        0 <= n < len && #[trigger] chosen[n] && t == pkg_target(config, result_at(config, pkgs, n)) {
        let n = choose|n: int|
            0 <= n < len && #[trigger] chosen[n] && t == pkg_target(
                config,
                result_at(config, pkgs, n),
            );
        let j = shown_at(config, len, n);
        assert(shown_at(config, len, j) == n);
        assert(chosen[shown_at(config, len, j)]);
    }
    if chosen_upto(config, pkgs, chosen, len).contains(t) {
        let j = choose|j: int|
            0 <= j < len && chosen[#[trigger] shown_at(config, len, j)] && t == pkg_target(
                config,
                result_at(config, pkgs, shown_at(config, len, j)),
            );
        let n = shown_at(config, len, j);
        assert(chosen[n]);
    }
}

/// One number that is named gives one target.
pub proof fn one_number_gives_one_target(
    config: Config,
    pkgs: Seq<AnyPkg>,
    chosen: Seq<bool>,
    n: int,
)
    requires
        chosen.len() == pkgs.len(),
        0 <= n < pkgs.len(),
        forall|k: int| 0 <= k < pkgs.len() ==> (#[trigger] chosen[k] <==> k == n),
    ensures
        chosen_upto(config, pkgs, chosen, pkgs.len() as int) == seq![
            pkg_target(config, result_at(config, pkgs, n)),
        ],
{
    lemma_one_number(config, pkgs, chosen, n, pkgs.len() as int);
}

proof fn lemma_one_number(
    config: Config,
    pkgs: Seq<AnyPkg>,
    chosen: Seq<bool>,
    n: int,
    k: int,
)
    requires
        chosen.len() == pkgs.len(),
        0 <= n < pkgs.len(),
        0 <= k <= pkgs.len(),
        forall|i: int| 0 <= i < pkgs.len() ==> (#[trigger] chosen[i] <==> i == n),
    ensures
        chosen_upto(config, pkgs, chosen, k) =~= (if shown_at(config, pkgs.len() as int, n) < k {
            seq![pkg_target(config, result_at(config, pkgs, n))]
        } else {
            seq![]
        }),
    decreases k,
{
    if k > 0 {
        lemma_one_number(config, pkgs, chosen, n, k - 1);
        let at = shown_at(config, pkgs.len() as int, k - 1);
        assert(chosen[at] <==> at == n);
    }
}

/// From the top down, the first result of the menu is shown first; from the bottom up, the last is.
pub proof fn the_menu_is_shown_either_way(config: Config, len: int, k: int)
    requires
        0 <= k < len,
    ensures
        config.sort_mode == SortMode::TopDown ==> shown_at(config, len, k) == k,
        config.sort_mode == SortMode::BottomUp ==> shown_at(config, len, k) + k == len - 1,
{
}

proof fn lemma_named_ascend(pkgs: Seq<AnyPkg>, targets: Seq<Seq<char>>, wanted: bool, i: int, j: int)
    requires
        0 <= i < j < named(pkgs, targets, wanted).len(),
    ensures
        0 <= named(pkgs, targets, wanted)[i] < named(pkgs, targets, wanted)[j] < pkgs.len(),
    decreases pkgs.len(),
{
    let front = pkgs.drop_last();
    let less = named(front, targets, wanted);
    let all = named(pkgs, targets, wanted);
    if j < less.len() {
        lemma_named_ascend(front, targets, wanted, i, j);
        assert(all[i] == less[i] && all[j] == less[j]);
    } else {
        lemma_named_places(front, targets, wanted, i);
        assert(all[i] == less[i]);
    }
}

proof fn lemma_named_places(pkgs: Seq<AnyPkg>, targets: Seq<Seq<char>>, wanted: bool, i: int)
    requires
        0 <= i < named(pkgs, targets, wanted).len(),
    ensures
        0 <= named(pkgs, targets, wanted)[i] < pkgs.len(),
        targets.contains(pkg_name(pkgs[named(pkgs, targets, wanted)[i]])) == wanted,
    decreases pkgs.len(),
{
    let front = pkgs.drop_last();
    let less = named(front, targets, wanted);
    if i < less.len() {
        lemma_named_places(front, targets, wanted, i);
        assert(named(pkgs, targets, wanted)[i] == less[i]);
        assert(front[less[i]] == pkgs[less[i]]);
    }
}

/// Results whose name is searched for stand before all others in the menu; apart from that, results
/// stand as they were found.
pub proof fn exact_names_come_first(pkgs: Seq<AnyPkg>, targets: Seq<Seq<char>>, i: int, j: int)
    requires
        0 <= i < j < menu_order(pkgs, targets).len(),
    ensures
        ({
            let (a, b) = (menu_order(pkgs, targets)[i], menu_order(pkgs, targets)[j]);
            let (x, y) = (targets.contains(pkg_name(pkgs[a])), targets.contains(pkg_name(pkgs[b])));
            &&& y ==> x
            &&& x == y ==> a < b
        }),
{
    let first = named(pkgs, targets, true);
    let second = named(pkgs, targets, false);
    let n = first.len() as int;
    if j < n {
        lemma_named_ascend(pkgs, targets, true, i, j);
        lemma_named_places(pkgs, targets, true, i);
        lemma_named_places(pkgs, targets, true, j);
    } else if i >= n {
        lemma_named_ascend(pkgs, targets, false, i - n, j - n);
        lemma_named_places(pkgs, targets, false, i - n);
        lemma_named_places(pkgs, targets, false, j - n);
    } else {
        lemma_named_places(pkgs, targets, true, i);
        lemma_named_places(pkgs, targets, false, j - n);
    }
}

/// The name of a result is the one that its line shows.
pub proof fn names_are_those_that_are_shown(config: Config, p: AnyPkg)
    ensures
        pkg_name(p) == any_row(config, p).name,
{
}

/// Numbers are moved to the right: blanks, and then the number.
pub proof fn numbers_stand_to_the_right(n: nat, pad: int)
    ensures
        decimal(n).is_suffix_of(right_number(n, pad)),
        forall|i: int|
            0 <= i < right_number(n, pad).len() - decimal(n).len() ==> #[trigger] right_number(
                n,
                pad,
            )[i] == ' ',
        decimal(n).len() <= pad ==> right_number(n, pad).len() == pad,
{
    let r = right_number(n, pad);
    let d = decimal(n);
    assert(r.subrange(r.len() - d.len(), r.len() as int) =~= d);
}

} // verus!
