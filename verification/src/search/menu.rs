//! The menu of search results.

#[allow(unused_imports)]
use crate::config::Args;
use crate::config::{Config, SortMode};
#[allow(unused_imports)]
use crate::fmt::minus;
use crate::number::decimal_text;
#[allow(unused_imports)]
use crate::number::decimal;
#[allow(unused_imports)]
use crate::order::places;
use crate::search::find::SearchLine;
use crate::search::rows::{
    compute_search_columns, print_search_row, print_search_verbose, search_row_from_any_pkg,
    search_term_width, AnyPkg, SearchColumns, SearchRow,
};
#[allow(unused_imports)]
use crate::search::rows::{
    any_row, columns_for, field_views, row_views, search_line, search_terminal, showable,
    verbose_fields, widest_left, widest_mid, RowView,
};
use crate::style::paint;
#[allow(unused_imports)]
use crate::style::painted;
use crate::text::{chars_of, copy_list, is_blank, is_one_of, put, repeat, trim};
#[allow(unused_imports)]
use crate::text::{opt_text, repeated, texts, trimmed};
use vstd::prelude::*;

verus! {

/// The name of a result.
pub open spec fn pkg_name(p: AnyPkg) -> Seq<char> {
    match p {
        AnyPkg::RepoPkg(p) => p.name@,
        AnyPkg::AurPkg(p) => p.name@,
        AnyPkg::Custom(p) => p.name@,
    }
}

fn name_of(p: &AnyPkg) -> (r: &String)
    ensures
        r@ == pkg_name(*p),
{
    match p {
        AnyPkg::RepoPkg(p) => &p.name,
        AnyPkg::AurPkg(p) => &p.name,
        AnyPkg::Custom(p) => &p.name,
    }
}

/// The target that stands for a result: where it comes from, and its name.
pub open spec fn pkg_target(config: Config, p: AnyPkg) -> Seq<char> {
    match p {
        AnyPkg::RepoPkg(p) => p.db@ + "/"@ + p.name@,
        AnyPkg::AurPkg(p) => config.aur_namespace@ + "/"@ + p.name@,
        AnyPkg::Custom(p) => p.repo@ + "/"@ + p.name@,
    }
}

fn target_of(config: &Config, p: &AnyPkg) -> (r: String)
    ensures
        r@ == pkg_target(*config, *p),
{
    let (mut out, name) = match p {
        AnyPkg::RepoPkg(p) => (p.db.clone(), p.name.as_str()),
        AnyPkg::AurPkg(p) => (config.aur_namespace.clone(), p.name.as_str()),
        AnyPkg::Custom(p) => (p.repo.clone(), p.name.as_str()),
    };
    put(&mut out, "/");
    put(&mut out, name);
    out
}

/// The places of the results whose name is searched for, or of the others.
pub open spec fn named(pkgs: Seq<AnyPkg>, targets: Seq<Seq<char>>, wanted: bool) -> Seq<int>
    decreases pkgs.len(),
{
    if pkgs.len() == 0 {
        seq![]
    } else if targets.contains(pkg_name(pkgs.last())) == wanted {
        named(pkgs.drop_last(), targets, wanted).push(pkgs.len() - 1)
    } else {
        named(pkgs.drop_last(), targets, wanted)
    }
}

/// The order of the menu: results whose name is searched for come first.
pub open spec fn menu_order(pkgs: Seq<AnyPkg>, targets: Seq<Seq<char>>) -> Seq<int> {
    named(pkgs, targets, true) + named(pkgs, targets, false)
}

fn named_places(pkgs: &Vec<AnyPkg>, targets: &Vec<String>, wanted: bool) -> (r: Vec<usize>)
    ensures
        places(r@) == named(pkgs@, texts(targets@), wanted),
        forall|k: int| 0 <= k < r@.len() ==> #[trigger] r@[k] < pkgs@.len(),
{
    let mut out: Vec<usize> = Vec::new();
    let mut i: usize = 0;
    assert(pkgs@.take(0) =~= seq![]);
    assert(places(out@) =~= seq![]);
    while i < pkgs.len()
        invariant
            i <= pkgs@.len(),
            places(out@) == named(pkgs@.take(i as int), texts(targets@), wanted),
            forall|k: int| 0 <= k < out@.len() ==> #[trigger] out@[k] < pkgs@.len(),
        decreases pkgs.len() - i,
    {
        assert(pkgs@.take(i + 1).drop_last() =~= pkgs@.take(i as int));
        let ghost so_far = out@;
        if is_one_of(name_of(&pkgs[i]).as_str(), targets) == wanted {
            out.push(i);
            assert(places(out@) =~= places(so_far).push(i as int));
        }
        i += 1;
    }
    assert(pkgs@.take(i as int) =~= pkgs@);
    out
}

/// The order of the menu, as places of results.
pub fn order_menu(pkgs: &Vec<AnyPkg>, targets: &Vec<String>) -> (r: Vec<usize>)
    ensures
        places(r@) == menu_order(pkgs@, texts(targets@)),
        r@.len() == pkgs@.len(),
        forall|k: int| 0 <= k < r@.len() ==> #[trigger] r@[k] < pkgs@.len(),
{
    let mut first = named_places(pkgs, targets, true);
    let mut second = named_places(pkgs, targets, false);
    let ghost (a, b) = (first@, second@);
    first.append(&mut second);
    proof {
        assert(places(first@) =~= places(a) + places(b));
        lemma_menu_len(pkgs@, texts(targets@));
        assert(places(first@).len() == first@.len());
        assert forall|k: int| 0 <= k < first@.len() implies #[trigger] first@[k] < pkgs@.len() by {
            if k < a.len() {
                assert(first@[k] == a[k]);
            } else {
                assert(first@[k] == b[k - a.len()]);
            }
        }
    }
    first
}

proof fn lemma_menu_len(pkgs: Seq<AnyPkg>, targets: Seq<Seq<char>>)
    ensures
        named(pkgs, targets, true).len() + named(pkgs, targets, false).len() == pkgs.len(),
    decreases pkgs.len(),
{
    if pkgs.len() > 0 {
        lemma_menu_len(pkgs.drop_last(), targets);
    }
}

proof fn lemma_named(pkgs: Seq<AnyPkg>, targets: Seq<Seq<char>>, wanted: bool, i: int)
    ensures
        named(pkgs, targets, wanted).contains(i) <==> 0 <= i < pkgs.len() && targets.contains(
            pkg_name(pkgs[i]),
        ) == wanted,
    decreases pkgs.len(),
{
    if pkgs.len() > 0 {
        let front = pkgs.drop_last();
        lemma_named(front, targets, wanted, i);
        let less = named(front, targets, wanted);
        if targets.contains(pkg_name(pkgs.last())) == wanted {
            let out = less.push(pkgs.len() - 1);
            assert(out.contains(i) <==> less.contains(i) || i == pkgs.len() - 1) by {
                if out.contains(i) {
                    let k = choose|k: int| 0 <= k < out.len() && out[k] == i;
                    if k < less.len() {
                        assert(less[k] == i);
                    }
                }
                if less.contains(i) {
                    let k = choose|k: int| 0 <= k < less.len() && less[k] == i;
                    assert(out[k] == i);
                }
                assert(out[less.len() as int] == pkgs.len() - 1);
            }
        }
        if 0 <= i < front.len() {
            assert(front[i] == pkgs[i]);
        }
    }
}

/// The menu holds every result: none is lost when those whose name is searched for come first.
pub proof fn menu_holds_every_result(pkgs: Seq<AnyPkg>, targets: Seq<Seq<char>>, i: int)
    ensures
        menu_order(pkgs, targets).contains(i) <==> 0 <= i < pkgs.len(),
        menu_order(pkgs, targets).len() == pkgs.len(),
{
    let a = named(pkgs, targets, true);
    let b = named(pkgs, targets, false);
    lemma_named(pkgs, targets, true, i);
    lemma_named(pkgs, targets, false, i);
    lemma_menu_len(pkgs, targets);
    assert((a + b).contains(i) <==> a.contains(i) || b.contains(i)) by {
        if (a + b).contains(i) {
            let k = choose|k: int| 0 <= k < (a + b).len() && (a + b)[k] == i;
            if k < a.len() {
                assert(a[k] == i);
            } else {
                assert(b[k - a.len()] == i);
            }
        }
        if a.contains(i) {
            let k = choose|k: int| 0 <= k < a.len() && a[k] == i;
            assert((a + b)[k] == i);
        }
        if b.contains(i) {
            let k = choose|k: int| 0 <= k < b.len() && b[k] == i;
            assert((a + b)[a.len() + k] == i);
        }
    }
}

/// A number moved to the right end of a width.
pub open spec fn right_number(n: nat, pad: int) -> Seq<char> {
    repeated(' ', minus(pad, decimal(n).len() as int) as nat) + decimal(n)
}

/// The rows of the menu.
pub open spec fn menu_rows(config: Config, pkgs: Seq<AnyPkg>) -> Seq<RowView> {
    menu_order(pkgs, texts(config.targets@)).map_values(|i: int| any_row(config, pkgs[i]))
}

/// The line of the menu for the row at `n`.
pub open spec fn menu_line(config: Config, rows: Seq<RowView>, n: int) -> Seq<char> {
    let pad = decimal(rows.len()).len() as int;
    let w = columns_for(
        widest_left(rows),
        widest_mid(rows),
        search_terminal(config, pad + 1),
    );
    painted(config.color.number_menu, right_number((n + 1) as nat, pad)) + " "@ + search_line(
        config.color,
        rows[n],
        w.0,
        w.1,
        w.2,
        texts(config.targets@),
    )
}

/// The place in the menu of the line that is shown as number `k`: from the top down or from the
/// bottom up.
pub open spec fn shown_at(config: Config, len: int, k: int) -> int {
    if config.sort_mode == SortMode::TopDown {
        k
    } else {
        len - 1 - k
    }
}

/// What the menu shows.
#[derive(Debug)]
pub struct MenuView {
    pub lines: Vec<SearchLine>,
    pub prompt: String,
}

proof fn lemma_decimal_short(n: nat, k: nat)
    requires
        n < vstd::arithmetic::power::pow(10, k),
        k > 0,
    ensures
        decimal(n).len() <= k,
    decreases k,
{
    vstd::arithmetic::power::lemma_pow1(10);
    if n >= 10 {
        vstd::arithmetic::power::lemma_pow_adds(10, 1, (k - 1) as nat);
        assert(k > 1);
        lemma_decimal_short(n / 10, (k - 1) as nat);
    }
}

fn digits(n: usize) -> (r: usize)
    ensures
        r == decimal(n as nat).len(),
{
    chars_of(decimal_text(n as u128).as_str()).len()
}

fn pad_number(n: usize, pad: usize) -> (r: String)
    ensures
        r@ == right_number(n as nat, pad as int),
{
    let text = decimal_text(n as u128);
    let own = digits(n);
    let blanks: usize = if pad > own {
        pad - own
    } else {
        0
    };
    let mut out = repeat(' ', blanks);
    put(&mut out, text.as_str());
    out
}

fn print_any_pkg(
    config: &Config,
    n: usize,
    pad: usize,
    row: &SearchRow,
    w: SearchColumns,
) -> (r: SearchLine)
    requires
        n < usize::MAX,
    ensures
        r.text@ == painted(config.color.number_menu, right_number((n + 1) as nat, pad as int)) + " "@
            + search_line(
            config.color,
            row@,
            w.left as int,
            w.mid as int,
            w.description as int,
            texts(config.targets@),
        ),
        field_views(r.fields@) == verbose_fields(*config, row@),
{
    let num = pad_number(n + 1, pad);
    let mut text = paint(config.color.number_menu, num.as_str());
    put(&mut text, " ");
    put(&mut text, print_search_row(config, row, w, &config.targets).as_str());
    SearchLine { text, fields: print_search_verbose(config, row) }
}

fn rows_of_menu(config: &Config, pkgs: &Vec<AnyPkg>, order: &Vec<usize>) -> (r: Vec<SearchRow>)
    requires
        forall|k: int| 0 <= k < pkgs@.len() ==> showable(#[trigger] pkgs@[k]),
        forall|k: int| 0 <= k < order@.len() ==> #[trigger] order@[k] < pkgs@.len(),
        places(order@) == menu_order(pkgs@, texts(config.targets@)),
    ensures
        row_views(r@) == menu_rows(*config, pkgs@),
        r@.len() == order@.len(),
{
    let ghost all = menu_rows(*config, pkgs@);
    let mut out: Vec<SearchRow> = Vec::new();
    let mut i: usize = 0;
    assert(all.len() == places(order@).len());
    while i < order.len()
        invariant
            i <= order@.len(),
            out@.len() == i,
            all.len() == order@.len(),
            all == menu_rows(*config, pkgs@),
            places(order@) == menu_order(pkgs@, texts(config.targets@)),
            forall|k: int| 0 <= k < pkgs@.len() ==> showable(#[trigger] pkgs@[k]),
            forall|k: int| 0 <= k < order@.len() ==> #[trigger] order@[k] < pkgs@.len(),
            row_views(out@) =~= all.take(i as int),
        decreases order.len() - i,
    {
        let ghost so_far = out@;
        let at = order[i];
        out.push(search_row_from_any_pkg(config, &pkgs[at]));
        assert(places(order@)[i as int] == at);
        assert(row_views(out@) =~= row_views(so_far).push(all[i as int]));
        i += 1;
    }
    assert(all.take(i as int) =~= all);
    out
}

/// The menu of search results and its prompt; there is none for no results.
pub fn interactive_menu(config: &Config, pkgs: &Vec<AnyPkg>, install: bool) -> (r: Option<MenuView>)
    requires
        forall|k: int| 0 <= k < pkgs@.len() ==> showable(#[trigger] pkgs@[k]),
        pkgs@.len() < usize::MAX,
    ensures
        r is None <==> pkgs@.len() == 0,
        r matches Some(view) ==> {
            let rows = menu_rows(*config, pkgs@);
            &&& view.prompt@ == if install {
                config.messages.ask_install@
            } else {
                config.messages.ask_select@
            }
            &&& view.lines@.len() == pkgs@.len()
            &&& forall|k: int|
                0 <= k < view.lines@.len() ==> (#[trigger] view.lines@[k]).text@ == menu_line(
                    *config,
                    rows,
                    shown_at(*config, rows.len() as int, k),
                ) && field_views(view.lines@[k].fields@) == verbose_fields(
                    *config,
                    rows[shown_at(*config, rows.len() as int, k)],
                )
        },
{
    if pkgs.len() == 0 {
        return None;
    }
    let pad = digits(pkgs.len());
    let order = order_menu(pkgs, &config.targets);
    let rows = rows_of_menu(config, pkgs, &order);
    let ghost views = menu_rows(*config, pkgs@);
    assert(views.len() == rows@.len());
    proof {
        vstd::arithmetic::power::lemma_pow_adds(10, 10, 10);
        assert(vstd::arithmetic::power::pow(10, 10) == 10_000_000_000) by {
            reveal_with_fuel(vstd::arithmetic::power::pow, 11);
        }
        lemma_decimal_short(pkgs@.len(), 20);
    }
    let w = compute_search_columns(&rows, search_term_width(config, pad + 1));
    let mut out: Vec<SearchLine> = Vec::new();
    let mut k: usize = 0;
    while k < rows.len()
        invariant
            k <= rows@.len(),
            rows@.len() == pkgs@.len(),
            rows@.len() == views.len(),
            rows@.len() < usize::MAX,
            out@.len() == k,
            views == row_views(rows@),
            pad == decimal(views.len()).len(),
            (w.left as int, w.mid as int, w.description as int) == columns_for(
                widest_left(views),
                widest_mid(views),
                search_terminal(*config, pad + 1),
            ),
            forall|j: int|
                0 <= j < k ==> (#[trigger] out@[j]).text@ == menu_line(
                    *config,
                    views,
                    shown_at(*config, views.len() as int, j),
                ) && field_views(out@[j].fields@) == verbose_fields(
                    *config,
                    views[shown_at(*config, views.len() as int, j)],
                ),
        decreases rows.len() - k,
    {
        let n = if config.sort_mode == SortMode::TopDown {
            k
        } else {
            rows.len() - 1 - k
        };
        assert(views[n as int] == rows@[n as int]@);
        out.push(print_any_pkg(config, n, pad, &rows[n], w));
        k += 1;
    }
    let prompt = if install {
        config.messages.ask_install.clone()
    } else {
        config.messages.ask_select.clone()
    };
    Some(MenuView { lines: out, prompt })
}

/// The targets of the results of the menu that are chosen, from the first `n` that are shown.
pub open spec fn chosen_upto(
    config: Config,
    pkgs: Seq<AnyPkg>,
    chosen: Seq<bool>,
    n: int,
) -> Seq<Seq<char>>
    decreases n,
{
    if n <= 0 {
        seq![]
    } else {
        let at = shown_at(config, pkgs.len() as int, n - 1);
        let before = chosen_upto(config, pkgs, chosen, n - 1);
        if chosen[at] {
            before.push(
                pkg_target(config, pkgs[menu_order(pkgs, texts(config.targets@))[at]]),
            )
        } else {
            before
        }
    }
}

/// The targets that the user chose, in the order in which they were shown. `chosen` tells of each
/// number of the menu whether the reply names it; a blank reply chooses nothing.
pub fn menu_choice(config: &Config, pkgs: &Vec<AnyPkg>, reply: &str, chosen: &Vec<bool>) -> (r: Vec<
    String,
>)
    requires
        chosen@.len() == pkgs@.len(),
    ensures
        texts(r@) == (if trimmed(reply@).len() == 0 {
            seq![]
        } else {
            chosen_upto(*config, pkgs@, chosen@, pkgs@.len() as int)
        }),
{
    let mut out: Vec<String> = Vec::new();
    assert(texts(out@) =~= seq![]);
    if is_blank(trim(reply).as_str()) {
        return out;
    }
    let order = order_menu(pkgs, &config.targets);
    let mut k: usize = 0;
    while k < pkgs.len()
        invariant
            k <= pkgs@.len(),
            chosen@.len() == pkgs@.len(),
            order@.len() == pkgs@.len(),
            places(order@) == menu_order(pkgs@, texts(config.targets@)),
            forall|j: int| 0 <= j < order@.len() ==> #[trigger] order@[j] < pkgs@.len(),
            texts(out@) == chosen_upto(*config, pkgs@, chosen@, k as int),
        decreases pkgs.len() - k,
    {
        let at = if config.sort_mode == SortMode::TopDown {
            k
        } else {
            pkgs.len() - 1 - k
        };
        let ghost so_far = out@;
        if chosen[at] {
            let place = order[at];
            let target = target_of(config, &pkgs[place]);
            let ghost text = target@;
            out.push(target);
            assert(places(order@)[at as int] == place);
            assert(texts(out@) =~= texts(so_far).push(text));
        }
        k += 1;
    }
    out
}

/// Whether two configurations differ in nothing but their targets.
pub open spec fn same_but_targets(a: Config, b: Config) -> bool {
    b == Config {
        targets: b.targets,
        args: Args { targets: b.args.targets, ..a.args },
        ..a
    }
}

/// Takes the choice of a search as the targets of the operation. A notice where there were results
/// and none was chosen.
pub fn take_choice(config: &mut Config, had_results: bool, chosen: Vec<String>) -> (r: Option<String>)
    ensures
        texts(final(config).targets@) == texts(chosen@),
        texts(final(config).args.targets@) == texts(chosen@),
        same_but_targets(*old(config), *final(config)),
        opt_text(r) == (if chosen@.len() == 0 && had_results {
            Some(old(config).messages.nothing_to_do@)
        } else {
            None
        }),
{
    let notice = if chosen.len() == 0 && had_results {
        Some(config.messages.nothing_to_do.clone())
    } else {
        None
    };
    config.targets = copy_list(&chosen);
    config.args.targets = chosen;
    notice
}

/// Takes the choice of a search in the local database as the targets of the operation.
pub fn interactive_search_local(config: &mut Config, results: usize, chosen: Vec<String>) -> (r:
    Option<String>)
    ensures
        texts(final(config).targets@) == texts(chosen@),
        texts(final(config).args.targets@) == texts(chosen@),
        same_but_targets(*old(config), *final(config)),
        opt_text(r) == (if chosen@.len() == 0 && results > 0 {
            Some(old(config).messages.nothing_to_do@)
        } else {
            None
        }),
{
    take_choice(config, results > 0, chosen)
}

/// Takes the choice of a search in all sources as the targets of the operation.
pub fn interactive_search(config: &mut Config, results: usize, chosen: Vec<String>) -> (r: Option<
    String,
>)
    ensures
        texts(final(config).targets@) == texts(chosen@),
        texts(final(config).args.targets@) == texts(chosen@),
        same_but_targets(*old(config), *final(config)),
        opt_text(r) == (if chosen@.len() == 0 && results > 0 {
            Some(old(config).messages.nothing_to_do@)
        } else {
            None
        }),
{
    take_choice(config, results > 0, chosen)
}

} // verus!
