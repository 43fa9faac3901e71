//! What a search finds, in which order, and what it prints.

use crate::config::{Config, SearchBy, SortBy, SortMode};
use crate::order::{key_of_text, stable_order};
#[allow(unused_imports)]
use crate::order::{
    key_views, lex_le, order_is_of_places, order_is_stable_and_complete, order_of, places, text_key,
};
use crate::search::rows::{
    compute_search_columns, print_search_row, print_search_verbose, search_row_from_alpm,
    search_row_from_aur, search_row_from_pkgbuild, search_term_width, AurHit, CustomHit, Field,
    RepoHit, SearchRow,
};
#[allow(unused_imports)]
use crate::search::rows::{
    alpm_row, aur_row, columns_for, custom_row, field_views, row_views, search_line,
    search_terminal, verbose_fields, widest_left, widest_mid, zoned, RowView,
};
use crate::text::{contains, lines_of, put, put_texts, text_of_utf8};
#[allow(unused_imports)]
use crate::text::{lines, lowercase, mentions, texts};
use std::io::Read;
use vstd::prelude::*;
#[allow(unused_imports)]
use vstd::utf8::{decode_utf8, encode_utf8, valid_utf8};

verus! {

/// Why a set of patterns is not valid, as the crate regex tells it; there is no reason where it
/// is.
pub uninterp spec fn pattern_error(patterns: Seq<Seq<char>>) -> Option<Seq<char>>;

/// Whether one of a set of patterns matches somewhere in a text, as the crate regex matches.
pub uninterp spec fn any_matches(patterns: Seq<Seq<char>>, text: Seq<char>) -> bool;

/// `RegexSet::new` and `RegexSet::is_match` of the crate regex, for each of the texts. The result
/// depends on the patterns and the texts alone.
#[verifier::external_body]
fn match_each(patterns: &Vec<String>, list: &Vec<String>) -> (r: Result<Vec<bool>, String>)
    ensures
        match r {
            Ok(found) => pattern_error(texts(patterns@)) is None && found@ == texts(
                list@,
            ).map_values(|t: Seq<char>| any_matches(texts(patterns@), t)),
            Err(e) => pattern_error(texts(patterns@)) == Some(e@),
        },
{
    let set = regex::RegexSet::new(patterns).map_err(|e| e.to_string())?;
    Ok(list.iter().map(|t| set.is_match(t)).collect())
}

/// The content of a gzip file, as the crate flate2 unpacks it; none where it is damaged.
pub uninterp spec fn gunzipped(data: Seq<u8>) -> Option<Seq<u8>>;

/// `GzDecoder` of the crate flate2, read to its end. The result depends on the data alone.
#[verifier::external_body]
pub(crate) fn gunzip(data: &[u8]) -> (r: Option<Vec<u8>>)
    ensures
        match r {
            Some(bytes) => gunzipped(data@) == Some(bytes@),
            None => gunzipped(data@) is None,
        },
{
    let mut out = Vec::new();
    flate2::read::GzDecoder::new(data).read_to_end(&mut out).ok()?;
    Some(out)
}

/// The first results of a list, up to the limit; all where there is no limit.
pub open spec fn limited<T>(list: Seq<T>, limit: usize) -> Seq<T> {
    if limit != 0 && list.len() > limit {
        list.take(limit as int)
    } else {
        list
    }
}

fn limit_results<T>(list: &mut Vec<T>, limit: usize)
    ensures
        final(list)@ == limited(old(list)@, limit),
{
    if limit != 0 && list.len() > limit {
        list.truncate(limit);
        assert(list@ =~= old(list)@.take(limit as int));
    }
}

/// The results of a search in the local database.
pub open spec fn local_results(
    config: Config,
    targets: Seq<Seq<char>>,
    all: Seq<RepoHit>,
    found: Seq<RepoHit>,
) -> Seq<RepoHit> {
    limited(
        if targets.len() == 0 {
            all
        } else {
            found
        },
        config.limit,
    )
}

/// The results of a search in the local database: all packages where nothing is searched for,
/// otherwise those that were found, up to the limit.
pub fn search_local(config: &Config, targets: &Vec<String>, all: Vec<RepoHit>, found: Vec<RepoHit>) -> (r:
    Vec<RepoHit>)
    ensures
        r@ == local_results(*config, texts(targets@), all@, found@),
{
    assert(texts(targets@).len() == targets@.len());
    let mut out = if targets.len() == 0 {
        all
    } else {
        found
    };
    limit_results(&mut out, config.limit);
    out
}

/// The results of all repositories, one after the other.
pub open spec fn concatenated(found: Seq<Vec<RepoHit>>) -> Seq<RepoHit>
    decreases found.len(),
{
    if found.len() == 0 {
        seq![]
    } else {
        concatenated(found.drop_last()) + found.last()@
    }
}

/// The results of a search in the repositories.
pub open spec fn repo_results(
    config: Config,
    targets: Seq<Seq<char>>,
    found: Seq<Vec<RepoHit>>,
) -> Seq<RepoHit> {
    if targets.len() == 0 || !config.mode.repo {
        seq![]
    } else {
        limited(concatenated(found), config.limit)
    }
}

/// The results of a search in the repositories: none where nothing is searched for, or where
/// repositories are not searched; otherwise those of all repositories in their order, up to the
/// limit.
pub fn search_repos(config: &Config, targets: &Vec<String>, found: Vec<Vec<RepoHit>>) -> (r: Vec<
    RepoHit,
>)
    ensures
        r@ == repo_results(*config, texts(targets@), found@),
{
    assert(texts(targets@).len() == targets@.len());
    let mut out: Vec<RepoHit> = Vec::new();
    if targets.len() == 0 || !config.mode.repo {
        return out;
    }
    let ghost all = concatenated(found@);
    let mut rest = found;
    assert(concatenated(rest@) + out@ =~= all);
    while rest.len() > 0
        invariant
            concatenated(rest@) + out@ == all,
        decreases rest.len(),
    {
        let ghost before = rest@;
        let ghost so_far = out@;
        match rest.pop() {
            Some(mut list) => {
                let ghost last = list@;
                list.append(&mut out);
                out = list;
                assert(concatenated(rest@) + out@ =~= concatenated(before) + so_far);
            },
            None => {},
        }
    }
    assert(concatenated(rest@) + out@ =~= out@);
    limit_results(&mut out, config.limit);
    out
}

/// What a package of a repository of build scripts is matched by.
pub open spec fn custom_texts(p: CustomHit) -> Seq<Seq<char>> {
    seq![p.base@, p.name@] + (match p.desc {
        Some(d) => seq![d@],
        None => seq![],
    }) + texts(p.provides@) + texts(p.groups@)
}

/// Whether a package is among the results.
pub open spec fn custom_found(p: CustomHit, targets: Seq<Seq<char>>) -> bool {
    targets.len() == 0 || exists|k: int|
        0 <= k < custom_texts(p).len() && any_matches(targets, #[trigger] custom_texts(p)[k])
}

/// The places of the packages that are among the results.
pub open spec fn custom_hits(pkgs: Seq<CustomHit>, targets: Seq<Seq<char>>) -> Seq<int>
    decreases pkgs.len(),
{
    if pkgs.len() == 0 {
        seq![]
    } else if custom_found(pkgs.last(), targets) {
        custom_hits(pkgs.drop_last(), targets).push(pkgs.len() - 1)
    } else {
        custom_hits(pkgs.drop_last(), targets)
    }
}

fn texts_of_custom(p: &CustomHit) -> (r: Vec<String>)
    ensures
        texts(r@) == custom_texts(*p),
{
    let mut out: Vec<String> = Vec::new();
    out.push(p.base.clone());
    out.push(p.name.clone());
    match &p.desc {
        Some(d) => {
            out.push(d.clone());
        },
        None => {},
    }
    assert(texts(out@) =~= seq![p.base@, p.name@] + (match p.desc {
        Some(d) => seq![d@],
        None => seq![],
    }));
    put_texts(&mut out, &p.provides);
    put_texts(&mut out, &p.groups);
    out
}

/// The texts of the first `n` packages, one after the other.
pub open spec fn all_texts(pkgs: Seq<CustomHit>, n: int) -> Seq<Seq<char>>
    decreases n,
{
    if n <= 0 {
        seq![]
    } else {
        all_texts(pkgs, n - 1) + custom_texts(pkgs[n - 1])
    }
}

proof fn lemma_all_texts(pkgs: Seq<CustomHit>, k: int, n: int)
    requires
        0 <= k < n <= pkgs.len(),
    ensures
        all_texts(pkgs, k).len() + custom_texts(pkgs[k]).len() <= all_texts(pkgs, n).len(),
        forall|j: int|
            0 <= j < custom_texts(pkgs[k]).len() ==> #[trigger] custom_texts(pkgs[k])[j]
                == all_texts(pkgs, n)[all_texts(pkgs, k).len() + j],
    decreases n,
{
    if k < n - 1 {
        lemma_all_texts(pkgs, k, n - 1);
    }
}

/// The places of the packages of build script repositories that match: all where nothing is
/// searched for, none where such repositories are not searched.
pub fn search_pkgbuilds(config: &Config, targets: &Vec<String>, pkgs: &Vec<CustomHit>) -> (r: Result<
    Vec<usize>,
    String,
>)
    ensures
        !config.mode.pkgbuild ==> (r matches Ok(list) && list@.len() == 0),
        config.mode.pkgbuild ==> match r {
            Ok(list) => pattern_error(texts(targets@)) is None && places(list@) == custom_hits(
                pkgs@,
                texts(targets@),
            ),
            Err(e) => pattern_error(texts(targets@)) == Some(e@),
        },
{
    let mut out: Vec<usize> = Vec::new();
    if !config.mode.pkgbuild {
        return Ok(out);
    }
    let ghost wanted = texts(targets@);
    assert(wanted.len() == targets@.len());
    let mut all: Vec<String> = Vec::new();
    let mut starts: Vec<usize> = Vec::new();
    let mut i: usize = 0;
    assert(texts(all@) =~= seq![]);
    while i < pkgs.len()
        invariant
            i <= pkgs@.len(),
            texts(all@) == all_texts(pkgs@, i as int),
            starts@.len() == i,
            forall|k: int| 0 <= k < i ==> #[trigger] starts@[k] == all_texts(pkgs@, k).len(),
        decreases pkgs.len() - i,
    {
        assert(texts(all@).len() == all@.len());
        starts.push(all.len());
        put_texts(&mut all, &texts_of_custom(&pkgs[i]));
        i += 1;
    }
    let found = match match_each(targets, &all) {
        Ok(found) => found,
        Err(e) => {
            return Err(e);
        },
    };
    assert(texts(all@).len() == all@.len());
    assert(found@.len() == all@.len());
    let mut k: usize = 0;
    assert(places(out@) =~= seq![]);
    assert(pkgs@.take(0) =~= seq![]);
    while k < pkgs.len()
        invariant
            k <= pkgs@.len(),
            wanted == texts(targets@),
            wanted.len() == targets@.len(),
            texts(all@) == all_texts(pkgs@, pkgs@.len() as int),
            all@.len() == texts(all@).len(),
            found@ == texts(all@).map_values(|t: Seq<char>| any_matches(wanted, t)),
            starts@.len() == pkgs@.len(),
            forall|j: int|
                0 <= j < pkgs@.len() ==> #[trigger] starts@[j] == all_texts(pkgs@, j).len(),
            places(out@) == custom_hits(pkgs@.take(k as int), wanted),
        decreases pkgs.len() - k,
    {
        proof {
            assert(pkgs@.take(k + 1).drop_last() =~= pkgs@.take(k as int));
            lemma_all_texts(pkgs@, k as int, pkgs@.len() as int);
            if k + 1 < pkgs@.len() {
                assert(starts@[k + 1] == all_texts(pkgs@, k + 1).len());
            }
        }
        let from = starts[k];
        let to = if k + 1 < pkgs.len() {
            starts[k + 1]
        } else {
            found.len()
        };
        let ghost own = custom_texts(pkgs@[k as int]);
        assert(to - from == own.len());
        let mut hit = targets.len() == 0;
        let mut j: usize = from;
        while j < to
            invariant
                from <= j <= to <= found@.len(),
                found@.len() == texts(all@).len(),
                found@ == texts(all@).map_values(|t: Seq<char>| any_matches(wanted, t)),
                to - from == own.len(),
                forall|m: int|
                    0 <= m < own.len() ==> #[trigger] own[m] == texts(all@)[from + m],
                hit <==> targets@.len() == 0 || exists|m: int|
                    0 <= m < j - from && any_matches(wanted, #[trigger] own[m]),
            decreases to - j,
        {
            assert(own[j - from] == texts(all@)[j as int]);
            assert(found@[j as int] == any_matches(wanted, own[j - from]));
            if found[j] {
                hit = true;
            }
            j += 1;
        }
        let ghost so_far = out@;
        if hit {
            out.push(k);
            assert(places(out@) =~= places(so_far).push(k as int));
        }
        assert(custom_found(pkgs@[k as int], wanted) == hit);
        k += 1;
    }
    assert(pkgs@.take(k as int) =~= pkgs@);
    Ok(out)
}

/// What came of a search for one term in the AUR.
#[derive(Debug, Clone, Copy, PartialEq, Eq, Structural)]
pub enum Attempt {
    Found,
    /// The AUR refused the search, for instance because it finds too much.
    Refused,
    Failed,
}

/// What is done after a search for one term.
#[derive(Debug, Clone, Copy, PartialEq, Eq, Structural)]
pub enum AfterAttempt {
    /// The results are used, and the term has done its part.
    Use,
    /// The next term is searched for.
    Next,
    /// The search fails with the last error.
    Fail,
}

/// What is done after a search for the term at `index` of `count` terms.
pub open spec fn after_attempt(attempt: Attempt, index: int, count: int) -> AfterAttempt {
    match attempt {
        Attempt::Found => AfterAttempt::Use,
        Attempt::Refused => if index + 1 < count {
            AfterAttempt::Next
        } else {
            AfterAttempt::Fail
        },
        Attempt::Failed => AfterAttempt::Fail,
    }
}

/// The terms that are left after a search for the term at `index`.
pub open spec fn terms_left<T>(attempt: Attempt, index: int, terms: Seq<T>) -> Seq<T> {
    if attempt == Attempt::Found {
        terms.remove(index)
    } else {
        terms
    }
}

/// What is done after a search for the term at `index` of `terms`: a refused term is passed over
/// as long as there is another. A term whose results are used leaves the list, so that the terms
/// are left by which the results are still to be checked.
pub fn search_target(attempt: Attempt, index: usize, terms: &mut Vec<String>) -> (r: AfterAttempt)
    requires
        index < old(terms)@.len(),
    ensures
        r == after_attempt(attempt, index as int, old(terms)@.len() as int),
        final(terms)@ == terms_left(attempt, index as int, old(terms)@),
{
    match attempt {
        Attempt::Found => {
            terms.remove(index);
            AfterAttempt::Use
        },
        Attempt::Refused => if terms.len() - index > 1 {
            AfterAttempt::Next
        } else {
            AfterAttempt::Fail
        },
        Attempt::Failed => AfterAttempt::Fail,
    }
}

/// The keys by which terms are ordered: their lengths in bytes.
pub open spec fn length_keys(terms: Seq<Seq<char>>) -> Seq<Seq<i128>> {
    terms.map_values(|t: Seq<char>| seq![encode_utf8(t).len() as i128])
}

/// The terms in lower case.
pub open spec fn lowered(terms: Seq<Seq<char>>) -> Seq<Seq<char>> {
    terms.map_values(|t: Seq<char>| lowercase(t))
}

/// The terms in lower case.
pub fn lower_terms(terms: &Vec<String>) -> (r: Vec<String>)
    ensures
        texts(r@) == lowered(texts(terms@)),
{
    let mut out: Vec<String> = Vec::new();
    let mut i: usize = 0;
    while i < terms.len()
        invariant
            i <= terms@.len(),
            texts(out@) =~= lowered(texts(terms@)).take(i as int),
        decreases terms.len() - i,
    {
        let ghost so_far = out@;
        out.push(terms[i].as_str().to_lowercase());
        assert(texts(out@) =~= texts(so_far).push(lowercase(terms@[i as int]@)));
        i += 1;
    }
    assert(lowered(texts(terms@)).take(i as int) =~= lowered(texts(terms@)));
    out
}

/// The terms from the shortest to the longest.
pub open spec fn by_length(terms: Seq<Seq<char>>) -> Seq<Seq<char>> {
    order_of(length_keys(terms)).map_values(|i: int| terms[i])
}

/// The terms from the shortest to the longest, those of equal length as they came.
pub fn sort_terms(terms: &Vec<String>) -> (r: Vec<String>)
    ensures
        texts(r@) == by_length(texts(terms@)),
{
    let ghost all = texts(terms@);
    let mut keys: Vec<Vec<i128>> = Vec::new();
    let mut i: usize = 0;
    while i < terms.len()
        invariant
            i <= terms@.len(),
            all == texts(terms@),
            keys@.len() == i,
            key_views(keys@) =~= length_keys(all).take(i as int),
        decreases terms.len() - i,
    {
        let ghost before = keys@;
        let mut key: Vec<i128> = Vec::new();
        key.push(terms[i].as_str().as_bytes().len() as i128);
        assert(key@ =~= seq![encode_utf8(all[i as int]).len() as i128]);
        let ghost own = key@;
        keys.push(key);
        assert(key_views(keys@) =~= key_views(before).push(own));
        i += 1;
    }
    assert(length_keys(all).take(i as int) =~= length_keys(all));
    let order = stable_order(&keys);
    let ghost sorted = by_length(all);
    let mut out: Vec<String> = Vec::new();
    let mut k: usize = 0;
    assert(sorted.len() == places(order@).len());
    while k < order.len()
        invariant
            k <= order@.len(),
            all == texts(terms@),
            sorted == by_length(all),
            sorted.len() == order@.len(),
            places(order@) == order_of(length_keys(all)),
            forall|j: int| 0 <= j < order@.len() ==> #[trigger] order@[j] < terms@.len(),
            texts(out@) =~= sorted.take(k as int),
        decreases order.len() - k,
    {
        let ghost so_far = out@;
        let at = order[k];
        out.push(terms[at].clone());
        assert(places(order@)[k as int] == at);
        assert(texts(out@) =~= texts(so_far).push(sorted[k as int]));
        k += 1;
    }
    assert(sorted.take(k as int) =~= sorted);
    out
}

/// Whether all terms occur in a text, or in another.
pub open spec fn all_occur(terms: Seq<Seq<char>>, a: Seq<char>, b: Seq<char>) -> bool {
    forall|k: int|
        0 <= k < terms.len() ==> mentions(a, #[trigger] terms[k]) || mentions(b, terms[k])
}

/// Whether a package of the AUR has all terms in its name, or, where descriptions are searched,
/// in its description.
pub open spec fn aur_matches(p: AurHit, terms: Seq<Seq<char>>, by: SearchBy) -> bool {
    let name = lowercase(p.name@);
    let description = match p.description {
        Some(d) => lowercase(d@),
        None => seq![],
    };
    match by {
        SearchBy::NameDesc => all_occur(terms, name, description),
        SearchBy::Name => all_occur(terms, name, name),
        SearchBy::Other => true,
    }
}

fn do_all_occur(terms: &Vec<String>, a: &str, b: &str) -> (r: bool)
    ensures
        r == all_occur(texts(terms@), a@, b@),
{
    let ghost all = texts(terms@);
    let mut i: usize = 0;
    while i < terms.len()
        invariant
            i <= terms@.len(),
            all == texts(terms@),
            forall|k: int|
                0 <= k < i ==> mentions(a@, #[trigger] all[k]) || mentions(b@, all[k]),
        decreases terms.len() - i,
    {
        assert(all[i as int] == terms@[i as int]@);
        if !contains(a, terms[i].as_str()) && !contains(b, terms[i].as_str()) {
            return false;
        }
        i += 1;
    }
    true
}

fn has_all_terms(p: &AurHit, terms: &Vec<String>, by: SearchBy) -> (r: bool)
    ensures
        r == aur_matches(*p, texts(terms@), by),
{
    match by {
        SearchBy::NameDesc => {
            let name = p.name.as_str().to_lowercase();
            let description = match &p.description {
                Some(d) => d.as_str().to_lowercase(),
                None => {
                    let none = String::new();
                    assert(none@ =~= seq![]);
                    none
                },
            };
            do_all_occur(terms, name.as_str(), description.as_str())
        },
        SearchBy::Name => {
            let name = p.name.as_str().to_lowercase();
            do_all_occur(terms, name.as_str(), name.as_str())
        },
        SearchBy::Other => true,
    }
}

/// The places of the packages that have all terms.
pub open spec fn aur_hits(pkgs: Seq<AurHit>, terms: Seq<Seq<char>>, by: SearchBy) -> Seq<int>
    decreases pkgs.len(),
{
    if pkgs.len() == 0 {
        seq![]
    } else if aur_matches(pkgs.last(), terms, by) {
        aur_hits(pkgs.drop_last(), terms, by).push(pkgs.len() - 1)
    } else {
        aur_hits(pkgs.drop_last(), terms, by)
    }
}

/// The key by which a package is ordered.
pub open spec fn sort_key(p: AurHit, by: SortBy) -> Seq<i128> {
    match by {
        SortBy::Votes => seq![(-p.num_votes) as i128],
        SortBy::Popularity => seq![(-p.popularity) as i128],
        SortBy::Id => seq![p.id as i128],
        SortBy::Name => text_key(p.name@),
        SortBy::Base => text_key(p.package_base@),
        SortBy::Submitted => seq![p.first_submitted as i128],
        SortBy::Modified => seq![p.last_modified as i128],
        SortBy::Relevance => seq![],
    }
}

fn one_key(n: i128) -> (r: Vec<i128>)
    ensures
        r@ == seq![n],
{
    let mut key: Vec<i128> = Vec::new();
    key.push(n);
    assert(key@ =~= seq![n]);
    key
}

fn key_of(p: &AurHit, by: SortBy) -> (r: Vec<i128>)
    ensures
        r@ == sort_key(*p, by),
{
    match by {
        SortBy::Votes => one_key(-(p.num_votes as i128)),
        SortBy::Popularity => one_key(-(p.popularity as i128)),
        SortBy::Id => one_key(p.id as i128),
        SortBy::Name => key_of_text(p.name.as_str()),
        SortBy::Base => key_of_text(p.package_base.as_str()),
        SortBy::Submitted => one_key(p.first_submitted as i128),
        SortBy::Modified => one_key(p.last_modified as i128),
        SortBy::Relevance => {
            let none: Vec<i128> = Vec::new();
            assert(none@ =~= seq![]);
            none
        },
    }
}

/// The keys of the packages at these places.
pub open spec fn keys_at(pkgs: Seq<AurHit>, at: Seq<int>, by: SortBy) -> Seq<Seq<i128>> {
    at.map_values(|i: int| sort_key(pkgs[i], by))
}

/// The packages at these places, in order, up to the limit.
pub open spec fn sorted_hits(pkgs: Seq<AurHit>, at: Seq<int>, by: SortBy, limit: usize) -> Seq<int> {
    limited(order_of(keys_at(pkgs, at, by)).map_values(|k: int| at[k]), limit)
}

/// The terms by which the results of a search are checked: none where patterns were searched for.
pub open spec fn terms_to_check(config: Config, terms: Seq<Seq<char>>) -> Seq<Seq<char>> {
    if config.args.given("x"@, "regex"@) {
        seq![]
    } else {
        terms
    }
}

/// The results of a search in the AUR, as places in what the AUR sent: those that have all
/// `terms` left to check, ordered, up to the limit. Nothing is found where nothing is searched
/// for or the AUR is not searched.
pub fn search_aur(
    config: &Config,
    targets: &Vec<String>,
    pkgs: &Vec<AurHit>,
    terms: &Vec<String>,
) -> (r: Vec<usize>)
    ensures
        targets@.len() == 0 || !config.mode.aur ==> r@.len() == 0,
        targets@.len() > 0 && config.mode.aur ==> places(r@) == sorted_hits(
            pkgs@,
            aur_hits(pkgs@, terms_to_check(*config, texts(terms@)), config.search_by),
            config.sort_by,
            config.limit,
        ),
{
    let mut kept: Vec<usize> = Vec::new();
    if targets.len() == 0 || !config.mode.aur {
        return kept;
    }
    let by = config.search_by;
    let nothing: Vec<String> = Vec::new();
    assert(texts(nothing@) =~= seq![]);
    let terms = if config.args.has_arg("x", "regex") {
        &nothing
    } else {
        terms
    };
    let ghost wanted = texts(terms@);
    let mut i: usize = 0;
    assert(places(kept@) =~= seq![]);
    assert(pkgs@.take(0) =~= seq![]);
    while i < pkgs.len()
        invariant
            i <= pkgs@.len(),
            wanted == texts(terms@),
            places(kept@) == aur_hits(pkgs@.take(i as int), wanted, by),
            forall|k: int| 0 <= k < kept@.len() ==> #[trigger] kept@[k] < pkgs@.len(),
        decreases pkgs.len() - i,
    {
        assert(pkgs@.take(i + 1).drop_last() =~= pkgs@.take(i as int));
        let ghost so_far = kept@;
        if has_all_terms(&pkgs[i], terms, by) {
            kept.push(i);
            assert(places(kept@) =~= places(so_far).push(i as int));
        }
        i += 1;
    }
    assert(pkgs@.take(i as int) =~= pkgs@);
    let ghost at = places(kept@);
    let mut keys: Vec<Vec<i128>> = Vec::new();
    let mut k: usize = 0;
    while k < kept.len()
        invariant
            k <= kept@.len(),
            at == places(kept@),
            keys@.len() == k,
            forall|j: int| 0 <= j < kept@.len() ==> #[trigger] kept@[j] < pkgs@.len(),
            key_views(keys@) =~= keys_at(pkgs@, at, config.sort_by).take(k as int),
        decreases kept.len() - k,
    {
        let ghost before = keys@;
        let key = key_of(&pkgs[kept[k]], config.sort_by);
        let ghost own = key@;
        keys.push(key);
        assert(key_views(keys@) =~= key_views(before).push(own));
        assert(at[k as int] == kept@[k as int]);
        k += 1;
    }
    assert(keys_at(pkgs@, at, config.sort_by).take(k as int) =~= keys_at(
        pkgs@,
        at,
        config.sort_by,
    ));
    let order = stable_order(&keys);
    let ghost full = order_of(keys_at(pkgs@, at, config.sort_by)).map_values(|k: int| at[k]);
    let mut out: Vec<usize> = Vec::new();
    let mut m: usize = 0;
    assert(full.len() == places(order@).len());
    while m < order.len()
        invariant
            m <= order@.len(),
            at == places(kept@),
            full == order_of(keys_at(pkgs@, at, config.sort_by)).map_values(|k: int| at[k]),
            full.len() == order@.len(),
            places(order@) == order_of(keys_at(pkgs@, at, config.sort_by)),
            forall|j: int| 0 <= j < order@.len() ==> #[trigger] order@[j] < kept@.len(),
            places(out@) =~= full.take(m as int),
        decreases order.len() - m,
    {
        let ghost so_far = out@;
        let slot = order[m];
        out.push(kept[slot]);
        assert(places(order@)[m as int] == slot);
        assert(at[slot as int] == kept@[slot as int]);
        assert(places(out@) =~= places(so_far).push(full[m as int]));
        m += 1;
    }
    assert(full.take(m as int) =~= full);
    let ghost whole = out@;
    limit_results(&mut out, config.limit);
    assert(places(out@) =~= limited(places(whole), config.limit));
    out
}

proof fn lemma_hits(pkgs: Seq<AurHit>, terms: Seq<Seq<char>>, by: SearchBy)
    ensures
        forall|k: int|
            0 <= k < aur_hits(pkgs, terms, by).len() ==> 0 <= #[trigger] aur_hits(pkgs, terms, by)[k]
                < pkgs.len() && aur_matches(pkgs[aur_hits(pkgs, terms, by)[k]], terms, by),
    decreases pkgs.len(),
{
    if pkgs.len() > 0 {
        let front = pkgs.drop_last();
        lemma_hits(front, terms, by);
        let less = aur_hits(front, terms, by);
        let all = aur_hits(pkgs, terms, by);
        assert forall|k: int| 0 <= k < all.len() implies 0 <= #[trigger] all[k] < pkgs.len()
            && aur_matches(pkgs[all[k]], terms, by) by {
            if k < less.len() {
                assert(all[k] == less[k]);
                assert(front[less[k]] == pkgs[less[k]]);
            }
        }
    }
}

/// The results of a search have all terms, come in the order that was asked for, those that it
/// does not tell apart as the AUR sent them, and are not more than the limit.
pub proof fn results_match_and_are_ordered(
    pkgs: Seq<AurHit>,
    terms: Seq<Seq<char>>,
    by: SearchBy,
    sort: SortBy,
    limit: usize,
)
    ensures
        ({
            let r = sorted_hits(pkgs, aur_hits(pkgs, terms, by), sort, limit);
            &&& limit != 0 ==> r.len() <= limit
            &&& forall|i: int|
                0 <= i < r.len() ==> 0 <= #[trigger] r[i] < pkgs.len() && aur_matches(
                    pkgs[r[i]],
                    terms,
                    by,
                )
            &&& forall|i: int, j: int|
                0 <= i < j < r.len() ==> lex_le(
                    sort_key(pkgs[#[trigger] r[i]], sort),
                    sort_key(pkgs[#[trigger] r[j]], sort),
                ) && (sort_key(pkgs[r[i]], sort) == sort_key(pkgs[r[j]], sort) ==> r[i] < r[j])
        }),
{
    let at = aur_hits(pkgs, terms, by);
    let keys = keys_at(pkgs, at, sort);
    let order = order_of(keys);
    let r = sorted_hits(pkgs, at, sort, limit);
    lemma_hits(pkgs, terms, by);
    lemma_hits_ascend(pkgs, terms, by);
    order_is_stable_and_complete(keys);
    order_is_of_places(keys);
    assert forall|i: int| 0 <= i < r.len() implies 0 <= #[trigger] r[i] < pkgs.len() && aur_matches(
        pkgs[r[i]],
        terms,
        by,
    ) && r[i] == at[order[i]] && 0 <= order[i] < at.len() by {
        assert(0 <= order[i] < keys.len());
        assert(r[i] == at[order[i]]);
    }
    assert forall|i: int, j: int| 0 <= i < j < r.len() implies lex_le(
        sort_key(pkgs[#[trigger] r[i]], sort),
        sort_key(pkgs[#[trigger] r[j]], sort),
    ) && (sort_key(pkgs[r[i]], sort) == sort_key(pkgs[r[j]], sort) ==> r[i] < r[j]) by {
        assert(r[i] == at[order[i]] && r[j] == at[order[j]]);
        assert(keys[order[i]] == sort_key(pkgs[r[i]], sort));
        assert(keys[order[j]] == sort_key(pkgs[r[j]], sort));
        if keys[order[i]] == keys[order[j]] {
            assert(order[i] < order[j]);
            assert(at[order[i]] < at[order[j]]);
        }
    }
}

proof fn lemma_hits_ascend(pkgs: Seq<AurHit>, terms: Seq<Seq<char>>, by: SearchBy)
    ensures
        forall|a: int, b: int|
            0 <= a < b < aur_hits(pkgs, terms, by).len() ==> #[trigger] aur_hits(pkgs, terms, by)[a]
                < #[trigger] aur_hits(pkgs, terms, by)[b],
    decreases pkgs.len(),
{
    if pkgs.len() > 0 {
        let front = pkgs.drop_last();
        lemma_hits_ascend(front, terms, by);
        lemma_hits(front, terms, by);
        let less = aur_hits(front, terms, by);
        let all = aur_hits(pkgs, terms, by);
        assert forall|a: int, b: int| 0 <= a < b < all.len() implies #[trigger] all[a]
            < #[trigger] all[b] by {
            assert(all[a] == less[a]);
            if b < less.len() {
                assert(all[b] == less[b]);
            }
        }
    }
}

/// The most packages that a search by patterns may find.
pub const MAX_REGEX_HITS: usize = 2000;

/// Why a search by patterns finds nothing.
#[derive(Debug)]
pub enum RegexSearchError {
    /// The list of packages is damaged.
    NotDecoded,
    /// The patterns are not valid.
    BadPattern(String),
    TooMany,
}

/// The names that one of the patterns matches.
pub open spec fn matching(names: Seq<Seq<char>>, patterns: Seq<Seq<char>>) -> Seq<Seq<char>>
    decreases names.len(),
{
    if names.len() == 0 {
        seq![]
    } else if any_matches(patterns, names.last()) {
        matching(names.drop_last(), patterns).push(names.last())
    } else {
        matching(names.drop_last(), patterns)
    }
}

/// The text of a packed list of names.
pub open spec fn unpacked_list(data: Seq<u8>) -> Option<Seq<char>> {
    match gunzipped(data) {
        Some(bytes) => if valid_utf8(bytes) {
            Some(decode_utf8(bytes))
        } else {
            None
        },
        None => None,
    }
}

/// The names that are flagged.
pub open spec fn flagged(names: Seq<Seq<char>>, flags: Seq<bool>) -> Seq<Seq<char>>
    decreases names.len(),
{
    if names.len() == 0 {
        seq![]
    } else if flags[names.len() - 1] {
        flagged(names.drop_last(), flags).push(names.last())
    } else {
        flagged(names.drop_last(), flags)
    }
}

proof fn lemma_flagged(names: Seq<Seq<char>>, patterns: Seq<Seq<char>>, flags: Seq<bool>)
    requires
        flags.len() >= names.len(),
        forall|k: int| 0 <= k < names.len() ==> #[trigger] flags[k] == any_matches(patterns, names[k]),
    ensures
        flagged(names, flags) == matching(names, patterns),
    decreases names.len(),
{
    if names.len() > 0 {
        assert(flags[names.len() - 1] == any_matches(patterns, names.last()));
        assert forall|k: int| 0 <= k < names.len() - 1 implies #[trigger] flags[k] == any_matches(
            patterns,
            names.drop_last()[k],
        ) by {
            assert(names.drop_last()[k] == names[k]);
        }
        lemma_flagged(names.drop_last(), patterns, flags);
    }
}

/// The names that are flagged.
pub fn pick_names(names: &Vec<String>, flags: &Vec<bool>) -> (r: Vec<String>)
    requires
        flags@.len() == names@.len(),
    ensures
        texts(r@) == flagged(texts(names@), flags@),
{
    let ghost all = texts(names@);
    let mut out: Vec<String> = Vec::new();
    let mut i: usize = 0;
    assert(texts(out@) =~= seq![]);
    assert(all.take(0) =~= seq![]);
    while i < names.len()
        invariant
            i <= names@.len(),
            all == texts(names@),
            flags@.len() == names@.len(),
            texts(out@) == flagged(all.take(i as int), flags@),
        decreases names.len() - i,
    {
        let ghost so_far = out@;
        assert(all.take(i + 1).drop_last() =~= all.take(i as int));
        if flags[i] {
            out.push(names[i].clone());
            assert(texts(out@) =~= texts(so_far).push(all[i as int]));
        }
        i += 1;
    }
    assert(all.take(i as int) =~= all);
    out
}

/// The names of the packages of the AUR that one of the patterns matches, from the packed list of
/// all names. Too many are an error.
pub fn search_aur_regex(data: &[u8], targets: &Vec<String>) -> (r: Result<
    Vec<String>,
    RegexSearchError,
>)
    ensures
        match unpacked_list(data@) {
            None => r matches Err(e) && e is NotDecoded,
            Some(text) => match pattern_error(texts(targets@)) {
                Some(reason) => r matches Err(RegexSearchError::BadPattern(e)) && e@ == reason,
                None => {
                    let names = matching(lines(text), texts(targets@));
                    if names.len() < MAX_REGEX_HITS {
                        r matches Ok(list) && texts(list@) == names
                    } else {
                        r matches Err(e) && e is TooMany
                    }
                },
            },
        },
{
    let bytes = match gunzip(data) {
        Some(b) => b,
        None => {
            return Err(RegexSearchError::NotDecoded);
        },
    };
    let text = match text_of_utf8(bytes) {
        Some(t) => t,
        None => {
            return Err(RegexSearchError::NotDecoded);
        },
    };
    let names = lines_of(text.as_str());
    let found = match match_each(targets, &names) {
        Ok(f) => f,
        Err(e) => {
            return Err(RegexSearchError::BadPattern(e));
        },
    };
    assert(found@.len() == texts(names@).len());
    let list = pick_names(&names, &found);
    proof {
        lemma_flagged(texts(names@), texts(targets@), found@);
    }
    assert(texts(list@).len() == list@.len());
    if list.len() < MAX_REGEX_HITS {
        Ok(list)
    } else {
        Err(RegexSearchError::TooMany)
    }
}

impl RegexSearchError {
    pub fn message(&self, config: &Config) -> (r: String)
        ensures
            r@ == (match *self {
                RegexSearchError::NotDecoded => config.messages.list_not_decoded@,
                RegexSearchError::BadPattern(e) => e@,
                RegexSearchError::TooMany => "too many packages"@,
            }),
    {
        match self {
            RegexSearchError::NotDecoded => config.messages.list_not_decoded.clone(),
            RegexSearchError::BadPattern(e) => e.clone(),
            RegexSearchError::TooMany => "too many packages".to_owned(),
        }
    }
}

/// The rows of a search in the order in which they are shown.
pub open spec fn rows_in_order(
    config: Config,
    repo: Seq<RepoHit>,
    custom: Seq<CustomHit>,
    aur: Seq<AurHit>,
) -> Seq<RowView> {
    let repo_rows = repo.map_values(|p: RepoHit| alpm_row(config, p));
    let custom_rows = custom.map_values(|p: CustomHit| custom_row(config, p));
    let aur_rows = aur.map_values(|p: AurHit| aur_row(config, p));
    if config.sort_mode == SortMode::TopDown {
        repo_rows + custom_rows + aur_rows
    } else {
        aur_rows.reverse() + custom_rows + repo_rows.reverse()
    }
}

/// A line of output and the fields below it.
#[derive(Debug)]
pub struct SearchLine {
    pub text: String,
    pub fields: Vec<Field>,
}

/// What a search prints, and its exit code.
#[derive(Debug)]
pub struct SearchOutput {
    pub lines: Vec<SearchLine>,
    pub code: i32,
}

/// Whether a line shows a row.
pub open spec fn shows_row(config: Config, line: SearchLine, row: RowView, rows: Seq<RowView>, quiet: bool) -> bool {
    if quiet {
        line.text@ == row.name + "\n"@ && line.fields@.len() == 0
    } else {
        let w = columns_for(widest_left(rows), widest_mid(rows), search_terminal(config, 0));
        &&& line.text@ == search_line(config.color, row, w.0, w.1, w.2, texts(config.targets@))
        &&& field_views(line.fields@) == verbose_fields(config, row)
    }
}

fn repo_rows_of(config: &Config, pkgs: &Vec<RepoHit>) -> (r: Vec<SearchRow>)
    ensures
        row_views(r@) == pkgs@.map_values(|p: RepoHit| alpm_row(*config, p)),
{
    let ghost all = pkgs@.map_values(|p: RepoHit| alpm_row(*config, p));
    let mut out: Vec<SearchRow> = Vec::new();
    let mut i: usize = 0;
    while i < pkgs.len()
        invariant
            i <= pkgs@.len(),
            all == pkgs@.map_values(|p: RepoHit| alpm_row(*config, p)),
            row_views(out@) =~= all.take(i as int),
        decreases pkgs.len() - i,
    {
        let ghost so_far = out@;
        out.push(search_row_from_alpm(config, &pkgs[i]));
        assert(row_views(out@) =~= row_views(so_far).push(all[i as int]));
        i += 1;
    }
    assert(all.take(i as int) =~= all);
    out
}

fn custom_rows_of(config: &Config, pkgs: &Vec<CustomHit>) -> (r: Vec<SearchRow>)
    ensures
        row_views(r@) == pkgs@.map_values(|p: CustomHit| custom_row(*config, p)),
{
    let ghost all = pkgs@.map_values(|p: CustomHit| custom_row(*config, p));
    let mut out: Vec<SearchRow> = Vec::new();
    let mut i: usize = 0;
    while i < pkgs.len()
        invariant
            i <= pkgs@.len(),
            all == pkgs@.map_values(|p: CustomHit| custom_row(*config, p)),
            row_views(out@) =~= all.take(i as int),
        decreases pkgs.len() - i,
    {
        let ghost so_far = out@;
        out.push(search_row_from_pkgbuild(config, &pkgs[i]));
        assert(row_views(out@) =~= row_views(so_far).push(all[i as int]));
        i += 1;
    }
    assert(all.take(i as int) =~= all);
    out
}

fn aur_rows_of(config: &Config, pkgs: &Vec<AurHit>) -> (r: Vec<SearchRow>)
    requires
        forall|k: int| 0 <= k < pkgs@.len() ==> zoned(#[trigger] pkgs@[k]),
    ensures
        row_views(r@) == pkgs@.map_values(|p: AurHit| aur_row(*config, p)),
{
    let ghost all = pkgs@.map_values(|p: AurHit| aur_row(*config, p));
    let mut out: Vec<SearchRow> = Vec::new();
    let mut i: usize = 0;
    while i < pkgs.len()
        invariant
            i <= pkgs@.len(),
            forall|k: int| 0 <= k < pkgs@.len() ==> zoned(#[trigger] pkgs@[k]),
            all == pkgs@.map_values(|p: AurHit| aur_row(*config, p)),
            row_views(out@) =~= all.take(i as int),
        decreases pkgs.len() - i,
    {
        let ghost so_far = out@;
        out.push(search_row_from_aur(config, &pkgs[i]));
        assert(row_views(out@) =~= row_views(so_far).push(all[i as int]));
        i += 1;
    }
    assert(all.take(i as int) =~= all);
    out
}

fn reversed(list: Vec<SearchRow>) -> (r: Vec<SearchRow>)
    ensures
        row_views(r@) == row_views(list@).reverse(),
{
    let ghost all = row_views(list@);
    let mut rest = list;
    let mut out: Vec<SearchRow> = Vec::new();
    assert(all.reverse() =~= row_views(out@) + row_views(rest@).reverse());
    while rest.len() > 0
        invariant
            all.reverse() == row_views(out@) + row_views(rest@).reverse(),
        decreases rest.len(),
    {
        let ghost before = rest@;
        let ghost so_far = out@;
        match rest.pop() {
            Some(row) => {
                let ghost v = row@;
                out.push(row);
                assert(row_views(out@) =~= row_views(so_far).push(v));
                assert(row_views(before) =~= row_views(rest@).push(v));
                assert(row_views(out@) + row_views(rest@).reverse() =~= row_views(so_far)
                    + row_views(before).reverse());
            },
            None => {},
        }
    }
    assert(row_views(out@) + row_views(rest@).reverse() =~= row_views(out@));
    out
}

fn rows_for(config: &Config, repo: &Vec<RepoHit>, custom: &Vec<CustomHit>, aur: &Vec<AurHit>) -> (r:
    Vec<SearchRow>)
    requires
        forall|k: int| 0 <= k < aur@.len() ==> zoned(#[trigger] aur@[k]),
    ensures
        row_views(r@) == rows_in_order(*config, repo@, custom@, aur@),
{
    let mut first = repo_rows_of(config, repo);
    let mut second = custom_rows_of(config, custom);
    let mut third = aur_rows_of(config, aur);
    if config.sort_mode != SortMode::TopDown {
        let a = reversed(third);
        let b = reversed(first);
        first = a;
        third = b;
    }
    let ghost (x, y, z) = (first@, second@, third@);
    first.append(&mut second);
    first.append(&mut third);
    assert(row_views(first@) =~= row_views(x) + row_views(y) + row_views(z));
    first
}

/// What a search prints: the names alone where it is quiet, otherwise a line for each result.
/// Results of repositories come first and those of the AUR last, or, from the bottom up, the
/// other way round. The exit code is one where neither has any.
pub fn search(
    config: &Config,
    repo_pkgs: &Vec<RepoHit>,
    custom_pkgs: &Vec<CustomHit>,
    aur_pkgs: &Vec<AurHit>,
) -> (r: SearchOutput)
    requires
        forall|k: int| 0 <= k < aur_pkgs@.len() ==> zoned(#[trigger] aur_pkgs@[k]),
    ensures
        r.code == (if repo_pkgs@.len() == 0 && aur_pkgs@.len() == 0 {
            1int
        } else {
            0int
        }),
        ({
            let rows = rows_in_order(*config, repo_pkgs@, custom_pkgs@, aur_pkgs@);
            let quiet = config.args.given("q"@, "quiet"@);
            &&& r.lines@.len() == rows.len()
            &&& forall|k: int|
                0 <= k < rows.len() ==> shows_row(
                    *config,
                    #[trigger] r.lines@[k],
                    rows[k],
                    rows,
                    quiet,
                )
        }),
{
    let quiet = config.args.has_arg("q", "quiet");
    let code = if repo_pkgs.len() == 0 && aur_pkgs.len() == 0 {
        1
    } else {
        0
    };
    let rows = rows_for(config, repo_pkgs, custom_pkgs, aur_pkgs);
    let ghost views = row_views(rows@);
    let term_w = search_term_width(config, 0);
    let w = compute_search_columns(&rows, term_w);
    let mut out: Vec<SearchLine> = Vec::new();
    let mut i: usize = 0;
    while i < rows.len()
        invariant
            i <= rows@.len(),
            out@.len() == i,
            views == row_views(rows@),
            (w.left as int, w.mid as int, w.description as int) == columns_for(
                widest_left(views),
                widest_mid(views),
                search_terminal(*config, 0),
            ),
            forall|k: int|
                0 <= k < i ==> shows_row(*config, #[trigger] out@[k], views[k], views, quiet),
        decreases rows.len() - i,
    {
        let row = &rows[i];
        assert(views[i as int] == row@);
        if quiet {
            let mut text = row.name.clone();
            put(&mut text, "\n");
            out.push(SearchLine { text, fields: Vec::new() });
        } else {
            let text = print_search_row(config, row, w, &config.targets);
            let fields = print_search_verbose(config, row);
            out.push(SearchLine { text, fields });
        }
        i += 1;
    }
    SearchOutput { lines: out, code }
}

} // verus!
