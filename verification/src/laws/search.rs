//! What a search finds, in which order, and what its lines show.

#[allow(unused_imports)]
use crate::config::{Config, SearchBy, SortBy, SortMode};
#[allow(unused_imports)]
use crate::fmt::text_width;
#[allow(unused_imports)]
use crate::laws::boot::lemma_push_contains;
#[allow(unused_imports)]
use crate::number::{scaled, scaled_parts_are_near};
#[allow(unused_imports)]
use crate::order::{lex_le, order_is_of_places, order_is_stable_and_complete, order_of, text_key};
#[allow(unused_imports)]
use crate::search::find::{
    after_attempt, any_matches, aur_hits, by_length, concatenated, custom_hits, gunzipped, keys_at,
    length_keys, limited, local_results, matching, repo_results, results_match_and_are_ordered,
    rows_in_order, sort_key, sorted_hits, terms_left, terms_to_check, unpacked_list, Attempt,
};
#[allow(unused_imports)]
use crate::search::highlight::{
    any_pattern, escaped, marked_match, marked_text, term_patterns, Marking,
};
#[allow(unused_imports)]
use crate::search::rows::{
    any_row, aur_row, aur_status, columns_for, description_reserve, installed_status, left_width,
    mid_width, one_line, search_line, search_terminal, verbose_fields, widest_left, widest_mid,
    AnyPkg, AurHit, CustomHit, RepoHit, RowView, VerboseView,
};
#[allow(unused_imports)]
use crate::style::{painted, Colors, Style};
#[allow(unused_imports)]
use crate::text::{joined, lowercase, mentions, opt_text, repeated, texts};
use vstd::prelude::*;
#[allow(unused_imports)]
use vstd::utf8::encode_utf8;

verus! {

/// Whether a text in lower case holds a term.
pub open spec fn holds(text: Seq<char>, term: Seq<char>) -> bool {
    exists|i: int|
        0 <= i && i + term.len() <= lowercase(text).len() && #[trigger] lowercase(text).subrange(
            i,
            i + term.len(),
        ) == term
}

/// Whether a package of the AUR has a term in what is searched.
pub open spec fn has_term(p: AurHit, term: Seq<char>, by: SearchBy) -> bool {
    match by {
        SearchBy::NameDesc => holds(p.name@, term) || (match p.description {
            Some(d) => holds(d@, term),
            None => term.len() == 0,
        }),
        SearchBy::Name => holds(p.name@, term),
        SearchBy::Other => true,
    }
}

pub proof fn lemma_holds(text: Seq<char>, term: Seq<char>)
    ensures
        holds(text, term) <==> mentions(lowercase(text), term),
{
    let s = lowercase(text);
    if mentions(s, term) {
        let i = choose|i: int| crate::text::occurs_at(s, term, i);
        assert(s.subrange(i, i + term.len()) == term);
    }
    if holds(text, term) {
        let i = choose|i: int|
            0 <= i && i + term.len() <= s.len() && #[trigger] s.subrange(i, i + term.len()) == term;
        assert(crate::text::occurs_at(s, term, i));
    }
}

proof fn lemma_no_description(term: Seq<char>)
    ensures
        mentions(seq![], term) <==> term.len() == 0,
{
    let s = Seq::<char>::empty();
    if term.len() == 0 {
        assert(s.subrange(0, 0) =~= term);
        assert(crate::text::occurs_at(s, term, 0));
    }
}

proof fn lemma_matches(p: AurHit, terms: Seq<Seq<char>>, by: SearchBy)
    ensures
        crate::search::find::aur_matches(p, terms, by) <==> forall|k: int|
            0 <= k < terms.len() ==> has_term(p, #[trigger] terms[k], by),
{
    assert forall|k: int| 0 <= k < terms.len() implies ({
        &&& holds(p.name@, #[trigger] terms[k]) <==> mentions(lowercase(p.name@), terms[k])
        &&& p.description matches Some(d) ==> (holds(d@, terms[k]) <==> mentions(
            lowercase(d@),
            terms[k],
        ))
        &&& mentions(seq![], terms[k]) <==> terms[k].len() == 0
    }) by {
        lemma_holds(p.name@, terms[k]);
        lemma_no_description(terms[k]);
        match p.description {
            Some(d) => {
                lemma_holds(d@, terms[k]);
            },
            None => {},
        }
    }
}

proof fn lemma_hits(pkgs: Seq<AurHit>, terms: Seq<Seq<char>>, by: SearchBy, i: int)
    ensures
        aur_hits(pkgs, terms, by).contains(i) <==> 0 <= i < pkgs.len() && forall|k: int|
            0 <= k < terms.len() ==> has_term(pkgs[i], #[trigger] terms[k], by),
    decreases pkgs.len(),
{
    if pkgs.len() > 0 {
        let front = pkgs.drop_last();
        lemma_hits(front, terms, by, i);
        lemma_matches(pkgs.last(), terms, by);
        let less = aur_hits(front, terms, by);
        lemma_push_contains(less, pkgs.len() - 1, i);
        if 0 <= i < front.len() {
            assert(front[i] == pkgs[i]);
        }
    }
}

proof fn lemma_sorted_contains(pkgs: Seq<AurHit>, at: Seq<int>, sort: SortBy, i: int)
    ensures
        sorted_hits(pkgs, at, sort, 0).contains(i) <==> at.contains(i),
        sorted_hits(pkgs, at, sort, 0).len() == at.len(),
{
    let keys = keys_at(pkgs, at, sort);
    let order = order_of(keys);
    let all = Seq::new(keys.len(), |k: int| k);
    let r = sorted_hits(pkgs, at, sort, 0);
    order_is_stable_and_complete(keys);
    order_is_of_places(keys);
    if at.contains(i) {
        let j = choose|j: int| 0 <= j < at.len() && at[j] == i;
        assert(all[j] == j);
        assert(all.contains(j));
        vstd::seq_lib::to_multiset_contains(all, j);
        vstd::seq_lib::to_multiset_contains(order, j);
        assert(order.contains(j));
        let k = choose|k: int| 0 <= k < order.len() && order[k] == j;
        assert(r[k] == at[order[k]]);
        assert(r[k] == i);
    }
    if r.contains(i) {
        let k = choose|k: int| 0 <= k < r.len() && r[k] == i;
        assert(r[k] == at[order[k]]);
        assert(0 <= order[k] < keys.len());
    }
}

/// A package that the AUR sent is among the results, where there is no limit, if and only if each
/// remaining term occurs in its name or, where descriptions are searched, in its description, both
/// in lower case. A package whose name has all terms is found whatever its description is.
pub proof fn packages_are_found_by_their_terms(
    pkgs: Seq<AurHit>,
    terms: Seq<Seq<char>>,
    by: SearchBy,
    sort: SortBy,
    i: int,
)
    requires
        0 <= i < pkgs.len(),
    ensures
        sorted_hits(pkgs, aur_hits(pkgs, terms, by), sort, 0).contains(i) <==> forall|k: int|
            0 <= k < terms.len() ==> has_term(pkgs[i], #[trigger] terms[k], by),
        (forall|k: int| 0 <= k < terms.len() ==> holds(pkgs[i].name@, #[trigger] terms[k]))
            ==> sorted_hits(pkgs, aur_hits(pkgs, terms, by), sort, 0).contains(i),
{
    lemma_hits(pkgs, terms, by, i);
    lemma_sorted_contains(pkgs, aur_hits(pkgs, terms, by), sort, i);
}

/// A limit keeps the first results, and as many as it says; none keeps all.
pub proof fn a_limit_keeps_the_first_results<T>(list: Seq<T>, limit: usize)
    ensures
        limit == 0 ==> limited(list, limit) == list,
        limit > 0 ==> limited(list, limit).len() == (if list.len() < limit {
            list.len() as int
        } else {
            limit as int
        }),
        forall|i: int| 0 <= i < limited(list, limit).len() ==> #[trigger] limited(list, limit)[i] == list[i],
{
}

/// The results of a search are in the order that was asked for: by most votes, by greatest
/// popularity, by smallest number, by name, by the name of the base, by the earliest submission, by
/// the earliest change, or as the AUR sent them.
pub proof fn results_come_in_the_order_asked_for(
    pkgs: Seq<AurHit>,
    terms: Seq<Seq<char>>,
    by: SearchBy,
    sort: SortBy,
    limit: usize,
    i: int,
    j: int,
)
    requires
        0 <= i < j < sorted_hits(pkgs, aur_hits(pkgs, terms, by), sort, limit).len(),
    ensures
        ({
            let r = sorted_hits(pkgs, aur_hits(pkgs, terms, by), sort, limit);
            let (a, b) = (pkgs[r[i]], pkgs[r[j]]);
            match sort {
                SortBy::Votes => a.num_votes >= b.num_votes,
                SortBy::Popularity => a.popularity >= b.popularity,
                SortBy::Id => a.id <= b.id,
                SortBy::Name => is_before(a.name@, b.name@),
                SortBy::Base => is_before(a.package_base@, b.package_base@),
                SortBy::Submitted => a.first_submitted <= b.first_submitted,
                SortBy::Modified => a.last_modified <= b.last_modified,
                SortBy::Relevance => r[i] < r[j],
            }
        }),
{
    results_match_and_are_ordered(pkgs, terms, by, sort, limit);
    let r = sorted_hits(pkgs, aur_hits(pkgs, terms, by), sort, limit);
    let (a, b) = (pkgs[r[i]], pkgs[r[j]]);
    assert(lex_le(sort_key(a, sort), sort_key(b, sort)));
    assert(sort_key(a, sort) == sort_key(b, sort) ==> r[i] < r[j]);
    reveal_with_fuel(lex_le, 2);
    texts_are_ordered_by_their_first_difference(a.name@, b.name@);
    texts_are_ordered_by_their_first_difference(a.package_base@, b.package_base@);
}

/// Whether a text comes before another, or is the same: it is the start of the other, or it has the
/// smaller character where they first differ.
pub open spec fn is_before(a: Seq<char>, b: Seq<char>) -> bool {
    a.is_prefix_of(b) || exists|i: int|
        0 <= i < a.len() && i < b.len() && a.take(i) == b.take(i) && #[trigger] a[i] < b[i]
}

/// The order of texts is that of their first difference.
pub proof fn texts_are_ordered_by_their_first_difference(a: Seq<char>, b: Seq<char>)
    ensures
        lex_le(text_key(a), text_key(b)) <==> is_before(a, b),
    decreases a.len(),
{
    let (p, q) = (text_key(a), text_key(b));
    if a.len() == 0 {
        assert(b.subrange(0, 0) =~= a);
    } else if b.len() == 0 {
    } else if a[0] != b[0] {
        lemma_char_order(a[0], b[0]);
        assert(a.take(0) =~= b.take(0));
        if a.is_prefix_of(b) {
            assert(b.subrange(0, a.len() as int)[0] == a[0]);
        }
        if is_before(a, b) {
            let i = choose|i: int|
                0 <= i < a.len() && i < b.len() && a.take(i) == b.take(i) && #[trigger] a[i] < b[i];
            if i > 0 {
                assert(a.take(i)[0] == b.take(i)[0]);
            }
        }
    } else {
        let (c, d) = (a.skip(1), b.skip(1));
        texts_are_ordered_by_their_first_difference(c, d);
        assert(p.skip(1) =~= text_key(c));
        assert(q.skip(1) =~= text_key(d));
        if c.is_prefix_of(d) {
            assert(d.subrange(0, c.len() as int) == c);
            assert(b.subrange(0, a.len() as int) =~= a) by {
                assert forall|k: int| 0 <= k < a.len() implies b[k] == a[k] by {
                    if k > 0 {
                        assert(d.subrange(0, c.len() as int)[k - 1] == c[k - 1]);
                    }
                }
            }
        }
        if a.is_prefix_of(b) {
            assert(b.subrange(0, a.len() as int) == a);
            assert(d.subrange(0, c.len() as int) =~= c) by {
                assert forall|k: int| 0 <= k < c.len() implies d[k] == c[k] by {
                    assert(b.subrange(0, a.len() as int)[k + 1] == a[k + 1]);
                }
            }
        }
        if exists|i: int|
            0 <= i < c.len() && i < d.len() && c.take(i) == d.take(i) && #[trigger] c[i] < d[i] {
            let i = choose|i: int|
                0 <= i < c.len() && i < d.len() && c.take(i) == d.take(i) && #[trigger] c[i] < d[i];
            assert(a.take(i + 1) =~= seq![a[0]] + c.take(i));
            assert(b.take(i + 1) =~= seq![b[0]] + d.take(i));
            assert(a[i + 1] < b[i + 1]);
        }
        if exists|i: int|
            0 <= i < a.len() && i < b.len() && a.take(i) == b.take(i) && #[trigger] a[i] < b[i] {
            let i = choose|i: int|
                0 <= i < a.len() && i < b.len() && a.take(i) == b.take(i) && #[trigger] a[i] < b[i];
            assert(i > 0);
            assert(c.take(i - 1) =~= a.take(i).skip(1));
            assert(d.take(i - 1) =~= b.take(i).skip(1));
            assert(c[i - 1] < d[i - 1]);
        }
    }
}

proof fn lemma_char_order(a: char, b: char)
    requires
        a != b,
    ensures
        a as u32 as i128 != b as u32 as i128,
        (a as u32 as i128) < (b as u32 as i128) <==> a < b,
{
}

/// A search by patterns checks its results by no term: the AUR has sent what matches.
pub proof fn patterns_are_not_checked_again(config: Config, terms: Seq<Seq<char>>)
    ensures
        config.args.given("x"@, "regex"@) ==> terms_to_check(config, terms).len() == 0,
        !config.args.given("x"@, "regex"@) ==> terms_to_check(config, terms) == terms,
{
}

/// The results of the repositories are all that each of them found, those of earlier repositories
/// first.
pub proof fn repositories_are_searched_in_their_order(found: Seq<Vec<RepoHit>>, last: Vec<RepoHit>)
    ensures
        concatenated(seq![]) == Seq::<RepoHit>::empty(),
        concatenated(found.push(last)) == concatenated(found) + last@,
{
    assert(found.push(last).drop_last() =~= found);
}

/// A build script is found if and only if a pattern matches its base, its name, its description, or
/// something that it provides or a group of it; without patterns every one is.
pub proof fn build_scripts_are_found_by_what_they_hold(
    pkgs: Seq<CustomHit>,
    targets: Seq<Seq<char>>,
    i: int,
)
    ensures
        custom_hits(pkgs, targets).contains(i) <==> 0 <= i < pkgs.len() && (targets.len() == 0
            || any_matches(targets, pkgs[i].base@) || any_matches(targets, pkgs[i].name@) || (
        pkgs[i].desc matches Some(d) && any_matches(targets, d@)) || (exists|k: int|
            0 <= k < pkgs[i].provides@.len() && any_matches(
                targets,
                (#[trigger] pkgs[i].provides@[k])@,
            )) || (exists|k: int|
            0 <= k < pkgs[i].groups@.len() && any_matches(
                targets,
                (#[trigger] pkgs[i].groups@[k])@,
            ))),
    decreases pkgs.len(),
{
    if pkgs.len() > 0 {
        let front = pkgs.drop_last();
        build_scripts_are_found_by_what_they_hold(front, targets, i);
        lemma_push_contains(custom_hits(front, targets), pkgs.len() - 1, i);
        if 0 <= i < front.len() {
            assert(front[i] == pkgs[i]);
        } else if i == front.len() {
            lemma_custom_found(pkgs.last(), targets);
        }
    }
}

proof fn lemma_custom_found(p: CustomHit, targets: Seq<Seq<char>>)
    ensures
        crate::search::find::custom_found(p, targets) <==> targets.len() == 0 || any_matches(
            targets,
            p.base@,
        ) || any_matches(targets, p.name@) || (p.desc matches Some(d) && any_matches(targets, d@)) || (
        exists|k: int|
            0 <= k < p.provides@.len() && any_matches(targets, (#[trigger] p.provides@[k])@)) || (
        exists|k: int|
            0 <= k < p.groups@.len() && any_matches(targets, (#[trigger] p.groups@[k])@)),
{
    let all = crate::search::find::custom_texts(p);
    let d = match p.desc {
        Some(_) => 1int,
        None => 0int,
    };
    let (a, b) = (2 + d, 2 + d + p.provides@.len());
    assert(all[0] == p.base@ && all[1] == p.name@);
    match p.desc {
        Some(t) => {
            assert(all[2] == t@);
        },
        None => {},
    }
    assert(texts(p.provides@).len() == p.provides@.len());
    assert(texts(p.groups@).len() == p.groups@.len());
    assert forall|k: int| 0 <= k < p.provides@.len() implies all[a + k] == (
    #[trigger] p.provides@[k])@ by {}
    assert forall|k: int| 0 <= k < p.groups@.len() implies all[b + k] == (#[trigger] p.groups@[k])@ by {}
    if exists|k: int| 0 <= k < all.len() && any_matches(targets, #[trigger] all[k]) {
        let k = choose|k: int| 0 <= k < all.len() && any_matches(targets, #[trigger] all[k]);
        if a <= k < b {
            assert(all[k] == p.provides@[k - a]@);
        } else if b <= k {
            assert(all[k] == p.groups@[k - b]@);
        }
    }
    if any_matches(targets, p.base@) {
        assert(any_matches(targets, all[0]));
    }
    if any_matches(targets, p.name@) {
        assert(any_matches(targets, all[1]));
    }
    if p.desc matches Some(t) && any_matches(targets, t@) {
        assert(any_matches(targets, all[2]));
    }
    if exists|k: int| 0 <= k < p.provides@.len() && any_matches(targets, (#[trigger] p.provides@[k])@) {
        let k = choose|k: int|
            0 <= k < p.provides@.len() && any_matches(targets, (#[trigger] p.provides@[k])@);
        assert(any_matches(targets, all[a + k]));
    }
    if exists|k: int| 0 <= k < p.groups@.len() && any_matches(targets, (#[trigger] p.groups@[k])@) {
        let k = choose|k: int|
            0 <= k < p.groups@.len() && any_matches(targets, (#[trigger] p.groups@[k])@);
        assert(any_matches(targets, all[b + k]));
    }
}

/// A search by patterns finds the names that a pattern matches, in the order of the list, and no
/// others.
pub proof fn names_are_found_by_patterns(
    names: Seq<Seq<char>>,
    patterns: Seq<Seq<char>>,
    name: Seq<char>,
)
    ensures
        matching(seq![], patterns) == Seq::<Seq<char>>::empty(),
        matching(names.push(name), patterns) == (if any_matches(patterns, name) {
            matching(names, patterns).push(name)
        } else {
            matching(names, patterns)
        }),
        matching(names, patterns).contains(name) <==> names.contains(name) && any_matches(
            patterns,
            name,
        ),
    decreases names.len(),
{
    assert(names.push(name).drop_last() =~= names);
    if names.len() > 0 {
        let front = names.drop_last();
        names_are_found_by_patterns(front, patterns, name);
        lemma_push_contains(matching(front, patterns), names.last(), name);
        lemma_push_contains(front, names.last(), name);
        assert(front.push(names.last()) =~= names);
    }
}

/// From the top down, the results of repositories come first, then build scripts, then the AUR; from
/// the bottom up, the AUR comes first and repositories last, each the other way round. Every result
/// is shown.
pub proof fn results_are_shown_by_source(
    config: Config,
    repo: Seq<RepoHit>,
    custom: Seq<CustomHit>,
    aur: Seq<AurHit>,
    k: int,
)
    ensures
        ({
            let rows = rows_in_order(config, repo, custom, aur);
            let (r, c, a) = (repo.len() as int, custom.len() as int, aur.len() as int);
            let down = config.sort_mode == SortMode::TopDown;
            &&& rows.len() == r + c + a
            &&& 0 <= k < r ==> rows[if down {
                k
            } else {
                a + c + r - 1 - k
            }].name == repo[k].name@
            &&& 0 <= k < c ==> rows[if down {
                r + k
            } else {
                a + k
            }].name == custom[k].name@
            &&& 0 <= k < a ==> rows[if down {
                r + c + k
            } else {
                a - 1 - k
            }].name == aur[k].name@
        }),
{
}

/// The row of a result shows its name, its version, where it comes from and what it is.
pub proof fn rows_show_their_results(config: Config, p: AnyPkg)
    ensures
        match p {
            AnyPkg::RepoPkg(r) => {
                let row = any_row(config, p);
                &&& row.name == r.name@ && row.version == r.version@ && row.repo == r.db@
                &&& r.desc matches Some(d) ==> d@.is_prefix_of(row.description)
                &&& forall|i: int|
                    0 <= i < r.groups@.len() ==> mentions(
                        row.description,
                        (#[trigger] r.groups@[i])@,
                    )
                &&& row.verbose == VerboseView::Alpm(opt_text(r.url))
                &&& row.status.len() > 0 ==> r.installed is Some
            },
            AnyPkg::AurPkg(a) => {
                let row = any_row(config, p);
                &&& row.name == a.name@ && row.version == a.version@ && row.repo == "aur"@
                &&& a.description matches Some(d) ==> row.description == d@
                &&& row.verbose == VerboseView::Aur(opt_text(a.url), a.package_base@)
                &&& row.status.len() > 0 ==> a.installed is Some || a.out_of_date is Some
                    || a.maintainer is None
                &&& a.maintainer is None ==> config.messages.status_orphaned@.is_suffix_of(
                    row.status,
                )
            },
            AnyPkg::Custom(c) => {
                let row = any_row(config, p);
                &&& row.name == c.name@ && row.version == c.version@ && row.repo == c.repo@
                &&& c.desc matches Some(d) ==> row.description == d@
                &&& row.verbose == VerboseView::Pkgbuild(c.path@)
                &&& row.status.len() > 0 ==> c.installed is Some
            },
        },
{
    let row = any_row(config, p);
    match p {
        AnyPkg::RepoPkg(r) => {
            match r.desc {
                Some(d) => {
                    assert(row.description.subrange(0, d@.len() as int) =~= d@);
                },
                None => {},
            }
            let desc = match r.desc {
                Some(d) => d@,
                None => seq![],
            };
            let names = texts(r.groups@);
            let all = crate::text::joined(names, ","@);
            assert forall|i: int| 0 <= i < r.groups@.len() implies mentions(
                row.description,
                (#[trigger] r.groups@[i])@,
            ) by {
                assert(names[i] == r.groups@[i]@);
                crate::laws::transactions::lemma_joined_mentions(names, ","@, i);
                let k = choose|k: int| crate::text::occurs_at(all, names[i], k);
                let at = desc.len() + " ("@.len() + k;
                assert(row.description.subrange(at, at + names[i].len()) =~= all.subrange(
                    k,
                    k + names[i].len(),
                ));
                assert(crate::text::occurs_at(row.description, names[i], at));
            }
        },
        AnyPkg::AurPkg(a) => {
            if a.maintainer is None {
                let o = config.messages.status_orphaned@;
                assert(row.status.subrange(row.status.len() - o.len(), row.status.len() as int) =~= o);
            }
        },
        _ => {},
    }
}

/// A package that is installed in the version that was found is marked as installed; one that is
/// installed in another version is marked with that version; one that is not installed is not
/// marked.
pub proof fn installed_packages_are_marked(config: Config, version: Seq<char>)
    ensures
        installed_status(config, None, true).len() == 0,
        installed_status(config, None, false).len() == 0,
        installed_status(config, Some(version), true) == config.messages.status_installed@,
        config.messages.status_installed_as@ == "[installed: {}]"@ ==> installed_status(
            config,
            Some(version),
            false,
        ) == "[installed: "@ + version + "]"@,
{
    reveal_strlit("[installed: {}]");
    reveal_strlit("[installed: ");
    reveal_strlit("]");
    reveal_strlit("{}");
    let t = "[installed: {}]"@;
    let a = "[installed: "@;
    let b = "]"@;
    assert(t =~= a + "{}"@ + b);
    lemma_filled(a, b, version);
}

/// A value takes the place of the mark in a template.
pub proof fn lemma_filled(a: Seq<char>, b: Seq<char>, value: Seq<char>)
    requires
        !a.contains('{'),
        !b.contains('{'),
    ensures
        crate::messages::filled(a + "{}"@ + b, value) == a + value + b,
    decreases a.len(),
{
    reveal_strlit("{}");
    let from = "{}"@;
    let s = a + from + b;
    if a.len() == 0 {
        assert(s.subrange(0, 2) =~= from);
        assert(s.skip(2) =~= b);
        lemma_unfilled(b, value);
        assert(a + value + b =~= value + b);
    } else {
        let rest = a.skip(1);
        assert(a.contains(a[0]));
        assert(s[0] == a[0]);
        if crate::text::occurs_at(s, from, 0) {
            assert(s.subrange(0, 2)[0] == s[0]);
            assert(from[0] == '{');
        }
        assert(!rest.contains('{')) by {
            if rest.contains('{') {
                let k = choose|k: int| 0 <= k < rest.len() && rest[k] == '{';
                assert(a[k + 1] == '{');
            }
        }
        lemma_filled(rest, b, value);
        assert(s.skip(1) =~= rest + from + b);
        assert(seq![a[0]] + (rest + value + b) =~= a + value + b);
    }
}

proof fn lemma_unfilled(s: Seq<char>, value: Seq<char>)
    requires
        !s.contains('{'),
    ensures
        crate::messages::filled(s, value) == s,
    decreases s.len(),
{
    reveal_strlit("{}");
    if s.len() >= 2 {
        assert(s.contains(s[0]));
        if crate::text::occurs_at(s, "{}"@, 0) {
            assert(s.subrange(0, 2)[0] == s[0]);
        }
        let rest = s.skip(1);
        assert(!rest.contains('{')) by {
            if rest.contains('{') {
                let k = choose|k: int| 0 <= k < rest.len() && rest[k] == '{';
                assert(s[k + 1] == '{');
            }
        }
        lemma_unfilled(rest, value);
        assert(seq![s[0]] + rest =~= s);
    }
}

/// A line without colours and without terms to mark is plain text: name and status, source and
/// version, and the description, in their columns.
pub proof fn plain_lines_show_their_rows(
    c: Colors,
    r: RowView,
    left: int,
    mid: int,
    description: int,
)
    requires
        !c.enabled,
        left_width(r) <= left,
        mid_width(r) <= mid,
        text_width(one_line(r.description)) <= description,
        description > 0,
    ensures
        search_line(c, r, left, mid, description, seq![]) == (if r.status.len() == 0 {
            r.name
        } else {
            r.name + " "@ + r.status
        }) + repeated(' ', (left - left_width(r)) as nat) + " "@ + (r.repo + " "@ + r.version)
            + repeated(' ', (mid - mid_width(r)) as nat) + " "@ + one_line(r.description) + "\n"@,
{
    assert(term_patterns(seq![]).len() == 0);
    let line = search_line(c, r, left, mid, description, seq![]);
    assert(line =~= (if r.status.len() == 0 {
        r.name
    } else {
        r.name + " "@ + r.status
    }) + repeated(' ', (left - left_width(r)) as nat) + " "@ + (r.repo + " "@ + r.version)
        + repeated(' ', (mid - mid_width(r)) as nat) + " "@ + one_line(r.description) + "\n"@);
}

/// The columns of all lines are those of the widest rows, so that every row that is not cut fits.
pub proof fn columns_are_those_of_the_widest_rows(rows: Seq<RowView>, i: int)
    requires
        0 <= i < rows.len(),
    ensures
        left_width(rows[i]) <= widest_left(rows),
        mid_width(rows[i]) <= widest_mid(rows),
        exists|k: int| 0 <= k < rows.len() && left_width(#[trigger] rows[k]) == widest_left(rows),
        exists|k: int| 0 <= k < rows.len() && mid_width(#[trigger] rows[k]) == widest_mid(rows),
    decreases rows.len(),
{
    let front = rows.drop_last();
    let n = rows.len() - 1;
    if i < n {
        columns_are_those_of_the_widest_rows(front, i);
        assert(front[i] == rows[i]);
        let k = choose|k: int| 0 <= k < front.len() && left_width(#[trigger] front[k]) == widest_left(front);
        let m = choose|m: int| 0 <= m < front.len() && mid_width(#[trigger] front[m]) == widest_mid(front);
        assert(rows[k] == front[k] && rows[m] == front[m]);
        if left_width(rows[n]) >= widest_left(front) {
            assert(left_width(rows[n]) == widest_left(rows));
        }
        if mid_width(rows[n]) >= widest_mid(front) {
            assert(mid_width(rows[n]) == widest_mid(rows));
        }
    } else if n > 0 {
        columns_are_those_of_the_widest_rows(front, 0);
        let k = choose|k: int| 0 <= k < front.len() && left_width(#[trigger] front[k]) == widest_left(front);
        let m = choose|m: int| 0 <= m < front.len() && mid_width(#[trigger] front[m]) == widest_mid(front);
        assert(rows[k] == front[k] && rows[m] == front[m]);
        if left_width(rows[n]) >= widest_left(front) {
            assert(left_width(rows[n]) == widest_left(rows));
        }
        if mid_width(rows[n]) >= widest_mid(front) {
            assert(mid_width(rows[n]) == widest_mid(rows));
        }
    } else {
        reveal_with_fuel(widest_left, 2);
        reveal_with_fuel(widest_mid, 2);
        assert(front.len() == 0);
        assert(left_width(rows[n]) == widest_left(rows));
        assert(mid_width(rows[n]) == widest_mid(rows));
    }
}

/// More is told of a result only where the search is asked for twice, and then where it is to be
/// found: its address, its page in the AUR, or its path.
pub proof fn a_second_search_option_tells_where_to_look(config: Config, r: RowView)
    ensures
        config.args.times("s"@, "search"@) <= 1 ==> verbose_fields(config, r).len() == 0,
        config.args.times("s"@, "search"@) >= 2 ==> match r.verbose {
            VerboseView::Alpm(Some(url)) => verbose_fields(config, r).len() == 1 && verbose_fields(
                config,
                r,
            )[0].1 == url,
            VerboseView::Alpm(None) => verbose_fields(config, r).len() == 0,
            VerboseView::Aur(home, base) => {
                let f = verbose_fields(config, r);
                &&& f.len() > 0 && f.last().1 == config.aur_url@ + "packages/"@ + base
                &&& home matches Some(url) ==> f.len() == 2 && f[0].1 == url
                &&& home is None ==> f.len() == 1
            },
            VerboseView::Pkgbuild(path) => verbose_fields(config, r).len() == 1 && verbose_fields(
                config,
                r,
            )[0].1 == path,
        },
{
}

/// Without a term all installed packages are results, and otherwise those that were found; a limit
/// keeps the first of them.
pub proof fn installed_packages_are_searched(
    config: Config,
    targets: Seq<Seq<char>>,
    all: Seq<RepoHit>,
    found: Seq<RepoHit>,
)
    ensures
        config.limit == 0 && targets.len() == 0 ==> local_results(config, targets, all, found) == all,
        config.limit == 0 && targets.len() > 0 ==> local_results(config, targets, all, found) == found,
        targets.len() == 0 ==> local_results(config, targets, all, found).is_prefix_of(all),
        targets.len() > 0 ==> local_results(config, targets, all, found).is_prefix_of(found),
        config.limit > 0 ==> local_results(config, targets, all, found).len() <= config.limit,
        config.limit > 0 && targets.len() == 0 && all.len() >= config.limit ==> local_results(
            config,
            targets,
            all,
            found,
        ).len() == config.limit,
        config.limit > 0 && targets.len() > 0 && found.len() >= config.limit ==> local_results(
            config,
            targets,
            all,
            found,
        ).len() == config.limit,
{
    let r = local_results(config, targets, all, found);
    if targets.len() == 0 {
        assert(all.subrange(0, r.len() as int) =~= r);
    } else {
        assert(found.subrange(0, r.len() as int) =~= r);
    }
}

/// Repositories are searched only where they are in use and there is a term; then their results
/// come one after the other, and a limit keeps the first of them.
pub proof fn repositories_are_searched_where_in_use(
    config: Config,
    targets: Seq<Seq<char>>,
    found: Seq<Vec<RepoHit>>,
)
    ensures
        !config.mode.repo || targets.len() == 0 ==> repo_results(config, targets, found).len() == 0,
        config.mode.repo && targets.len() > 0 && config.limit == 0 ==> repo_results(
            config,
            targets,
            found,
        ) == concatenated(found),
        config.mode.repo && targets.len() > 0 ==> repo_results(config, targets, found).is_prefix_of(
            concatenated(found),
        ),
        config.limit > 0 ==> repo_results(config, targets, found).len() <= config.limit,
        config.mode.repo && targets.len() > 0 && concatenated(found).len() >= config.limit
            && config.limit > 0 ==> repo_results(config, targets, found).len() == config.limit,
{
    let r = repo_results(config, targets, found);
    let all = concatenated(found);
    if config.mode.repo && targets.len() > 0 {
        assert(all.subrange(0, r.len() as int) =~= r);
    }
}

/// A term that is refused is passed over as long as there is another; the first whose results come
/// is used and left out of those still to be checked, which stay as they were. Any other failure
/// ends the search.
pub proof fn refused_terms_are_passed_over<T>(attempt: Attempt, index: int, terms: Seq<T>, k: int)
    requires
        0 <= index < terms.len(),
        0 <= k < terms.len(),
        k != index,
    ensures
        after_attempt(attempt, index, terms.len() as int) is Use <==> attempt is Found,
        after_attempt(attempt, index, terms.len() as int) is Next <==> attempt is Refused && index
            < terms.len() - 1,
        attempt is Found ==> terms_left(attempt, index, terms).len() == terms.len() - 1,
        attempt is Found && k < index ==> terms_left(attempt, index, terms)[k] == terms[k],
        attempt is Found && k > index ==> terms_left(attempt, index, terms)[k - 1] == terms[k],
        !(attempt is Found) ==> terms_left(attempt, index, terms) == terms,
{
}

/// The terms of a search are tried from the shortest to the longest, and as they came where they
/// are of one length; none is left out.
pub proof fn shorter_terms_come_first(terms: Seq<Seq<char>>, i: int, j: int)
    requires
        0 <= i < j < terms.len(),
        forall|k: int| 0 <= k < terms.len() ==> encode_utf8(#[trigger] terms[k]).len() <= i128::MAX,
    ensures
        by_length(terms).len() == terms.len(),
        encode_utf8(by_length(terms)[i]).len() <= encode_utf8(by_length(terms)[j]).len(),
        by_length(terms).contains(terms[i]),
        by_length(terms).contains(terms[j]),
{
    let keys = length_keys(terms);
    let order = order_of(keys);
    order_is_stable_and_complete(keys);
    order_is_of_places(keys);
    reveal_with_fuel(lex_le, 2);
    assert(lex_le(keys[order[i]], keys[order[j]]));
    assert(by_length(terms)[i] == terms[order[i]]);
    assert(by_length(terms)[j] == terms[order[j]]);
    lemma_in_order(keys, i);
    lemma_in_order(keys, j);
    let a = choose|a: int| 0 <= a < order.len() && order[a] == i;
    let b = choose|b: int| 0 <= b < order.len() && order[b] == j;
    assert(by_length(terms)[a] == terms[i]);
    assert(by_length(terms)[b] == terms[j]);
}

proof fn lemma_in_order(keys: Seq<Seq<i128>>, i: int)
    requires
        0 <= i < keys.len(),
    ensures
        order_of(keys).contains(i),
{
    order_is_stable_and_complete(keys);
    let all = Seq::new(keys.len(), |i: int| i);
    assert(all[i] == i);
    vstd::seq_lib::to_multiset_contains(all, i);
    vstd::seq_lib::to_multiset_contains(order_of(keys), i);
}

/// In a pattern every character of a text stands for itself: one that would mean something else has
/// a backslash before it.
pub proof fn terms_stand_for_themselves(s: Seq<char>, c: char)
    ensures
        escaped(seq![]).len() == 0,
        "\\.+*?()|[]{}^$#&-~"@.contains(c) ==> escaped(s.push(c)) == escaped(s) + seq!['\\', c],
        !"\\.+*?()|[]{}^$#&-~"@.contains(c) ==> escaped(s.push(c)) == escaped(s) + seq![c],
{
    reveal_strlit("\\.+*?()|[]{}^$#&-~");
    let all = "\\.+*?()|[]{}^$#&-~"@;
    assert(s.push(c).drop_last() =~= s);
    assert(all[0] == '\\' && all[1] == '.' && all[2] == '+' && all[3] == '*' && all[4] == '?' && all[5]
        == '(' && all[6] == ')' && all[7] == '|' && all[8] == '[' && all[9] == ']' && all[10] == '{'
        && all[11] == '}' && all[12] == '^' && all[13] == '$' && all[14] == '#' && all[15] == '&'
        && all[16] == '-' && all[17] == '~');
    assert(escaped(s).push('\\').push(c) =~= escaped(s) + seq!['\\', c]);
    assert(escaped(s).push(c) =~= escaped(s) + seq![c]);
}

/// A package of the AUR without a maintainer is marked, and one with a maintainer that is not out of
/// date is marked no more than any other.
pub proof fn abandoned_packages_are_marked(config: Config, p: AurHit)
    ensures
        p.maintainer is None ==> config.messages.status_orphaned@.is_suffix_of(aur_status(config, p)),
        p.maintainer is Some && p.out_of_date is None ==> aur_status(config, p) == installed_status(
            config,
            opt_text(p.installed),
            opt_text(p.installed) == Some(p.version@),
        ),
        aur_row(config, p).status == aur_status(config, p),
{
    let s = aur_status(config, p);
    let mark = config.messages.status_orphaned@;
    if p.maintainer is None {
        assert(s.subrange(s.len() - mark.len(), s.len() as int) =~= mark);
    } else if p.out_of_date is None {
        assert(s =~= installed_status(
            config,
            opt_text(p.installed),
            opt_text(p.installed) == Some(p.version@),
        ));
    }
}

proof fn lemma_joined_front(first: Seq<char>, parts: Seq<Seq<char>>, sep: Seq<char>)
    requires
        parts.len() > 0,
    ensures
        joined(seq![first] + parts, sep) == first + sep + joined(parts, sep),
    decreases parts.len(),
{
    let all = seq![first] + parts;
    assert(all.last() == parts.last());
    assert(all.drop_last() =~= seq![first] + parts.drop_last());
    if parts.len() == 1 {
        reveal_with_fuel(joined, 2);
        assert(all.drop_last() =~= seq![first]);
        assert(joined(seq![first], sep) == first);
        assert(joined(all, sep) =~= first + sep + parts[0]);
    } else {
        lemma_joined_front(first, parts.drop_last(), sep);
        assert(joined(all, sep) =~= first + sep + joined(parts, sep));
    }
}

/// A description comes on one line: its words with one blank between them.
pub proof fn descriptions_come_on_one_line(word: Seq<char>, blank: char, rest: Seq<char>)
    requires
        crate::text::is_space(blank),
        word.len() > 0,
        forall|k: int| 0 <= k < word.len() ==> !crate::text::is_space(#[trigger] word[k]),
    ensures
        one_line(word) == word,
        one_line(seq![blank] + rest) == one_line(rest),
        crate::text::words(rest).len() > 0 ==> one_line(word + seq![blank] + rest) == word + " "@
            + one_line(rest),
        crate::text::words(rest).len() == 0 ==> one_line(word + seq![blank] + rest) == word,
{
    crate::laws::texts::words_stand_between_blanks(word, blank, rest);
    let more = crate::text::words(rest);
    if more.len() > 0 {
        lemma_joined_front(word, more, " "@);
    } else {
        assert(seq![word] + more =~= seq![word]);
    }
}

/// A search has the columns of the terminal but for what stands before its lines, and never fewer
/// than its least width.
pub proof fn searches_use_the_terminal(config: Config, prefix: int)
    requires
        prefix >= 0,
    ensures
        search_terminal(config, prefix) >= 48,
        config.cols matches Some(c) && c >= prefix + 48 ==> search_terminal(config, prefix) + prefix
            == config.cols->0,
        config.cols matches Some(c) && c < prefix + 48 ==> search_terminal(config, prefix) == 48,
        config.cols is None && prefix <= 32 ==> search_terminal(config, prefix) + prefix == 80,
        config.cols is None && prefix > 32 ==> search_terminal(config, prefix) == 48,
{
}

/// What is looked for in a text is any of the patterns.
pub proof fn any_of_the_patterns_is_looked_for(patterns: Seq<Seq<char>>, p: Seq<char>)
    ensures
        any_pattern(seq![p]) == "("@ + p + ")"@,
        patterns.len() > 0 ==> any_pattern(patterns.push(p)) == any_pattern(patterns).drop_last()
            + "|"@ + p + ")"@,
{
    reveal_strlit(")");
    let all = patterns.push(p);
    assert(all.drop_last() =~= patterns);
    if patterns.len() > 0 {
        assert(any_pattern(patterns).drop_last() =~= "("@ + joined(patterns, "|"@));
        assert(any_pattern(all) =~= any_pattern(patterns).drop_last() + "|"@ + p + ")"@);
    }
}

/// Where a search is too wide for the terminal, the columns of names and versions share what the
/// descriptions leave, each by its width.
pub proof fn columns_share_the_terminal(l: int, m: int, term: int)
    requires
        0 <= l,
        0 <= m,
        48 <= term,
        term < l + m < 0x10_0000_0000_0000,
    ensures
        ({
            let (left, mid, description) = columns_for(l, m, term);
            let budget = term - description_reserve();
            &&& l * budget < (left + 2) * (l + m)
            &&& m * budget < (mid + 2) * (l + m)
        }),
{
    let budget = term - description_reserve();
    let whole = (l + m) as nat;
    scaled_parts_are_near(l as nat, budget as nat, whole);
    scaled_parts_are_near(m as nat, budget as nat, whole);
    let (left, mid, description) = columns_for(l, m, term);
    let a = scaled(l as nat, budget as nat, whole) as int;
    let b = scaled(m as nat, budget as nat, whole) as int;
    assert((a + 2) * whole <= (left + 2) * whole) by (nonlinear_arith)
        requires
            a <= left,
            0 <= whole,
    ;
    assert((b + 2) * whole <= (mid + 2) * whole) by (nonlinear_arith)
        requires
            b <= mid,
            0 <= whole,
    ;
}

/// A match stands out: with colours in the style of matches, the rest in its own; without colours it
/// is bold, and the rest is as it is.
pub proof fn matches_stand_out(m: Marking, s: Seq<char>)
    ensures
        m.color_on ==> marked_match(m, s) == painted(m.hi, s) && marked_text(m, s) == painted(m.base, s),
        !m.color_on ==> marked_match(m, s) == "\x1b["@ + "1"@ + "m"@ + s + "\x1b[0m"@ && marked_text(m, s)
            == s,
{
    let bold = Style { foreground: None, bold: true, dimmed: false };
    assert(crate::style::codes(bold) =~= seq!["1"@]);
}

/// A packed list of names can be read where it can be unpacked and is text, and gives that text.
pub proof fn packed_lists_are_read(data: Seq<u8>, text: Seq<char>)
    ensures
        gunzipped(data) is None ==> unpacked_list(data) is None,
        gunzipped(data) == Some(encode_utf8(text)) ==> unpacked_list(data) == Some(text),
        gunzipped(data) matches Some(bytes) && !vstd::utf8::valid_utf8(bytes) ==> unpacked_list(data)
            is None,
{
    vstd::utf8::encode_utf8_valid_utf8(text);
    vstd::utf8::encode_utf8_decode_utf8(text);
}

} // verus!
