//! What is shown before a transaction, and how a removal goes on.

#[allow(unused_imports)]
use crate::config::Config;
#[allow(unused_imports)]
use crate::fmt::{all_narrow, minus, narrow_text_takes_up_the_width, text_width, truncated};
#[allow(unused_imports)]
use crate::laws::lists::lemma_widest_of;
#[allow(unused_imports)]
use crate::laws::search::{is_before, lemma_filled, texts_are_ordered_by_their_first_difference};
#[allow(unused_imports)]
use crate::number::decimal;
#[allow(unused_imports)]
use crate::order::{
    lex_le, order_is_of_places, order_is_stable_and_complete, order_of,
    pairs_are_ordered_by_first_then_second,
};
#[allow(unused_imports)]
use crate::remove::{bases_of, remove_next, starts_removal, Removal, RemoveEvent, RemovePhase};
#[allow(unused_imports)]
use crate::style::{heading, painted, Colors};
#[allow(unused_imports)]
use crate::text::{mentions, opt_text, repeated, texts, trimmed};
#[allow(unused_imports)]
use crate::tx_helper::transaction::scriptlet_guard;
#[allow(unused_imports)]
use crate::ui::bundle::{
    build_model, build_models, cached_size, disk_sum, download_sum, first_line, install_keys,
    is_change_table, is_install_bundle, is_removal_bundle, package_prefix, remove_models,
    removed_size, repo_model, repo_models, scanned, Actions, BuildBase, BuildPkg, CacheDir,
    CacheEntry, LocalPkg, RepoPkg, RowModel,
};
#[allow(unused_imports)]
use crate::ui::preview::{
    action_style, confirm_words, detail_style, group_title, painted_version, preview,
    preview_details, preview_line, preview_widths, right_padded, separator, size_text, source_title,
    summary, summary_size, table_title, version_cell, version_label, PreviewWidths,
};
#[allow(unused_imports)]
use crate::ui::progress::{lemma_seen_painted, lemma_seen_plain, seen, unescaped};
#[allow(unused_imports)]
use crate::ui::table::{
    column, padded, presentable, ConfirmationRow, ConfirmationTable, InstallConfirmTotals,
    TxActionKind, TxConfirmOp, TxRowGroup, TxRowPaint, TxSourceKind,
};
use vstd::prelude::*;

verus! {

/// Whether a row is the one of a package that is brought from a version, if any, to another.
pub open spec fn is_row_for(
    m: RowModel,
    name: Seq<char>,
    old: Option<Seq<char>>,
    new: Seq<char>,
    source: TxSourceKind,
    target: bool,
) -> bool {
    let before = match old {
        Some(v) => v,
        None => seq![],
    };
    &&& m.cells.len() == 4
    &&& m.cells[0] == name
    &&& m.source == source
    &&& m.old == before && m.new == new
    &&& m.action == TxActionKind::Upgrade <==> before.len() > 0 && before != new
    &&& m.action != TxActionKind::Remove
    &&& m.group == TxRowGroup::Target <==> target
    &&& m.action == TxActionKind::Install ==> m.cells[1] == version_label(new)
    &&& m.action == TxActionKind::Upgrade ==> m.cells[1] == version_label(before) + " -> "@
        + version_label(new)
}

/// The row of a package that is built shows its name, what is installed and what comes, that it is
/// built, whether it was asked for, and its description. A package under development comes in its
/// latest state.
pub proof fn rows_of_builds_show_their_packages(
    config: Config,
    p: BuildPkg,
    devel: Seq<Seq<char>>,
    caches: Seq<CacheDir>,
)
    ensures
        is_row_for(
            build_model(config, p, devel, caches),
            p.name@,
            opt_text(p.installed),
            if devel.contains(p.name@) {
                "latest-commit"@
            } else {
                p.version@
            },
            TxSourceKind::Aur,
            p.target,
        ),
        p.description matches Some(d) ==> build_model(config, p, devel, caches).cells[3] == d@,
{
}

/// Everything that is built has a row: the packages of each base in their order, one base after the
/// other.
pub proof fn every_build_has_a_row(
    config: Config,
    bases: Seq<BuildBase>,
    base: BuildBase,
    devel: Seq<Seq<char>>,
    caches: Seq<CacheDir>,
    k: int,
)
    requires
        0 <= k < base.pkgs@.len(),
    ensures
        build_models(config, seq![], devel, caches).len() == 0,
        ({
            let before = build_models(config, bases, devel, caches);
            let after = build_models(config, bases.push(base), devel, caches);
            &&& after.len() == before.len() + base.pkgs@.len()
            &&& after.take(before.len() as int) == before
            &&& after[before.len() + k] == build_model(config, base.pkgs@[k], devel, caches)
        }),
{
    assert(bases.push(base).drop_last() =~= bases);
    let before = build_models(config, bases, devel, caches);
    let after = build_models(config, bases.push(base), devel, caches);
    assert(after.take(before.len() as int) =~= before);
}

/// The row of a package from a repository shows its name, what is installed and what comes, where it
/// comes from, whether it was asked for, and the size of its download.
pub proof fn rows_of_repositories_show_their_packages(config: Config, p: RepoPkg)
    ensures
        is_row_for(
            repo_model(config, p),
            p.name@,
            match p.local {
                Some(l) => Some(l.version@),
                None => None,
            },
            p.version@,
            TxSourceKind::Repo,
            p.target,
        ),
        p.download_size > 0 ==> repo_model(config, p).cells[2] == size_text(p.download_size as nat),
        p.changelog is None ==> (p.desc matches Some(d) ==> repo_model(config, p).cells[3] == d@),
{
}

/// Every package from a repository has one row, and the rows are in the order of their names.
pub proof fn every_repository_package_has_a_row(config: Config, pkgs: Seq<RepoPkg>, i: int)
    requires
        0 <= i < pkgs.len(),
    ensures
        repo_models(config, pkgs).len() == pkgs.len(),
        exists|k: int|
            0 <= k < pkgs.len() && #[trigger] repo_models(config, pkgs)[k] == repo_model(
                config,
                pkgs[i],
            ),
        forall|a: int, b: int|
            0 <= a < b < pkgs.len() ==> is_before(
                (#[trigger] repo_models(config, pkgs)[a]).cells[0],
                (#[trigger] repo_models(config, pkgs)[b]).cells[0],
            ),
{
    let keys = install_keys(pkgs);
    let order = order_of(keys);
    let rows = repo_models(config, pkgs);
    let all = Seq::new(keys.len(), |k: int| k);
    order_is_stable_and_complete(keys);
    order_is_of_places(keys);
    assert(all[i] == i);
    assert(all.contains(i));
    vstd::seq_lib::to_multiset_contains(all, i);
    vstd::seq_lib::to_multiset_contains(order, i);
    let k = choose|k: int| 0 <= k < order.len() && order[k] == i;
    assert(rows[k] == repo_model(config, pkgs[order[k]]));
    assert forall|a: int, b: int| 0 <= a < b < pkgs.len() implies is_before(
        (#[trigger] rows[a]).cells[0],
        (#[trigger] rows[b]).cells[0],
    ) by {
        let (x, y) = (pkgs[order[a]], pkgs[order[b]]);
        assert(0 <= order[a] < keys.len() && 0 <= order[b] < keys.len());
        assert(lex_le(keys[order[a]], keys[order[b]]));
        pairs_are_ordered_by_first_then_second(x.name@, x.db@, y.name@, y.db@);
        texts_are_ordered_by_their_first_difference(x.name@, y.name@);
        if x.name@ == y.name@ {
            assert(y.name@.subrange(0, x.name@.len() as int) =~= x.name@);
        }
    }
}

/// A version is shown with a `v` before it, unless it has one.
pub proof fn versions_are_labelled(v: Seq<char>)
    requires
        v.len() > 0,
        trimmed(v) == v,
    ensures
        v[0] != 'v' ==> version_label(v) == "v"@ + v,
        v[0] == 'v' ==> version_label(v) == v,
{
    reveal_strlit("v");
    if "v"@.is_prefix_of(v) {
        assert(v.subrange(0, 1)[0] == v[0]);
    }
    if v[0] == 'v' {
        assert(v.subrange(0, 1) =~= "v"@);
    }
}

/// The sums of an installation: each package adds the size of its download, and the difference
/// between what it takes up and what its installed version takes up.
pub proof fn sums_add_up(pkgs: Seq<RepoPkg>, p: RepoPkg)
    ensures
        download_sum(seq![]) == 0,
        disk_sum(seq![]) == 0,
        p.download_size >= 0 ==> download_sum(pkgs.push(p)) == download_sum(pkgs) + p.download_size,
        p.download_size < 0 ==> download_sum(pkgs.push(p)) == download_sum(pkgs),
        p.local is None ==> disk_sum(pkgs.push(p)) == disk_sum(pkgs) + p.isize,
        p.local matches Some(l) ==> disk_sum(pkgs.push(p)) == disk_sum(pkgs) + p.isize - l.isize,
{
    assert(pkgs.push(p).drop_last() =~= pkgs);
}

/// The preview of an installation is there wherever something is built or installed, has as many
/// rows as packages, and tells whether something is built, whose size is not known.
pub proof fn previews_of_installations_are_complete(
    config: Config,
    actions: Actions,
    devel: Seq<Seq<char>>,
    caches: Seq<CacheDir>,
    r: Option<(ConfirmationTable, InstallConfirmTotals)>,
)
    requires
        is_install_bundle(config, actions, devel, caches, r),
    ensures
        r is Some <==> actions.build@.len() > 0 || actions.install@.len() > 0,
        r matches Some(p) ==> {
            let built = build_models(config, actions.build@, devel, caches);
            &&& p.0.rows@.len() == built.len() + actions.install@.len()
            &&& p.1.download_excludes_aur <==> actions.build@.len() > 0
            &&& p.1.disk_partial <==> actions.build@.len() > 0
            &&& p.1.had_repo_pkg <==> actions.install@.len() > 0
            &&& p.1.disk_delta_bytes == disk_sum(actions.install@)
            &&& download_sum(actions.install@) <= u64::MAX ==> p.1.download_bytes == download_sum(
                actions.install@,
            )
            &&& forall|k: int|
                0 <= k < p.0.rows@.len() ==> (#[trigger] p.0.rows@[k]).cells@.len() == 4
                    && p.0.rows@[k].cells@[0]@ == (if k < built.len() {
                    built[k].cells[0]
                } else {
                    repo_models(config, actions.install@)[k - built.len()].cells[0]
                })
        },
{
    match r {
        Some(p) => {
            let built = build_models(config, actions.build@, devel, caches);
            let repo = repo_models(config, actions.install@);
            let all = built + repo;
            order_is_of_places(install_keys(actions.install@));
            assert(repo.len() == actions.install@.len());
            lemma_build_cells(config, actions.build@, devel, caches);
            assert forall|k: int| 0 <= k < p.0.rows@.len() implies (#[trigger] p.0.rows@[k]).cells@.len()
                == 4 && p.0.rows@[k].cells@[0]@ == (if k < built.len() {
                built[k].cells[0]
            } else {
                repo[k - built.len()].cells[0]
            }) by {
                let row = p.0.rows@[k];
                assert(crate::ui::bundle::shows(row, all[k]));
                assert(texts(row.cells@).len() == row.cells@.len());
                assert(all[k].cells.len() == 4);
                assert(texts(row.cells@)[0] == row.cells@[0]@);
            }
        },
        None => {},
    }
}

proof fn lemma_build_cells(
    config: Config,
    bases: Seq<BuildBase>,
    devel: Seq<Seq<char>>,
    caches: Seq<CacheDir>,
)
    ensures
        forall|k: int|
            0 <= k < build_models(config, bases, devel, caches).len() ==> (#[trigger] build_models(
                config,
                bases,
                devel,
                caches,
            )[k]).cells.len() == 4,
    decreases bases.len(),
{
    if bases.len() > 0 {
        lemma_build_cells(config, bases.drop_last(), devel, caches);
    }
}

/// The preview of a removal has a row for each target that is installed, in their order, with its
/// name, its version and its description, and for no other; what they take up is added up and
/// becomes free.
pub proof fn previews_of_removals_are_complete(
    config: Config,
    found: Seq<Option<LocalPkg>>,
    p: LocalPkg,
    r: Option<(ConfirmationTable, InstallConfirmTotals)>,
)
    ensures
        remove_models(seq![]).len() == 0,
        removed_size(seq![]) == 0,
        remove_models(found.push(None)) == remove_models(found),
        removed_size(found.push(None)) == removed_size(found),
        removed_size(found.push(Some(p))) == removed_size(found) + p.isize,
        ({
            let before = remove_models(found);
            let after = remove_models(found.push(Some(p)));
            &&& after.len() == before.len() + 1 && after.drop_last() == before
            &&& after.last().cells.len() == 3
            &&& after.last().cells[0] == p.name@ && after.last().cells[1] == version_label(p.version@)
            &&& p.desc matches Some(d) ==> after.last().cells[2] == d@
            &&& after.last().action == TxActionKind::Remove && after.last().old == p.version@
        }),
        is_removal_bundle(config, found, r) ==> (r matches Some(b) ==> b.1.disk_delta_bytes
            + removed_size(found) == 0 && b.1.download_bytes == 0 && b.0.rows@.len() == remove_models(
            found,
        ).len()),
{
    assert(found.push(None).drop_last() =~= found);
    assert(found.push(Some(p)).drop_last() =~= found);
    assert(remove_models(found.push(Some(p))).drop_last() =~= remove_models(found));
}

/// A removal with a critical package is refused where that is guarded. Otherwise the user is asked
/// where a target is installed, and the backend goes ahead where none is.
pub proof fn removals_start_with_a_question(
    config: Config,
    terminal: Option<usize>,
    critical: Seq<Seq<char>>,
    found: Seq<Option<LocalPkg>>,
    r: Removal,
)
    requires
        starts_removal(config, terminal, critical, found, r),
    ensures
        scriptlet_guard(config) && critical.len() > 0 <==> r.error is Some,
        r.error is Some ==> (r.phase matches RemovePhase::Finished(code) && code != 0),
        r.error is None ==> (r.phase is Confirm <==> exists|i: int|
            0 <= i < found.len() && #[trigger] found[i] is Some),
        r.phase is Confirm <==> r.confirmation is Some,
        r.error is None ==> r.phase is Confirm || r.phase is Backend,
        critical.len() == 0 ==> r.warning@.len() == 0,
{
    lemma_any_installed(found);
}

proof fn lemma_any_installed(found: Seq<Option<LocalPkg>>)
    ensures
        remove_models(found).len() > 0 <==> exists|i: int|
            0 <= i < found.len() && #[trigger] found[i] is Some,
    decreases found.len(),
{
    if found.len() > 0 {
        let front = found.drop_last();
        lemma_any_installed(front);
        if found.last() is Some {
            assert(found[found.len() - 1] is Some);
        }
        if exists|i: int| 0 <= i < front.len() && #[trigger] front[i] is Some {
            let i = choose|i: int| 0 <= i < front.len() && #[trigger] front[i] is Some;
            assert(found[i] is Some);
        }
        if exists|i: int| 0 <= i < found.len() && #[trigger] found[i] is Some {
            let i = choose|i: int| 0 <= i < found.len() && #[trigger] found[i] is Some;
            if i < front.len() {
                assert(front[i] is Some);
            }
        }
    }
}

/// A yes leads to the backend, a no ends with a failure; the backend's failure is that of the
/// removal, its success is followed by the record, and the removal succeeds with the record.
pub proof fn removals_end_as_they_went(code: i32)
    ensures
        remove_next(RemovePhase::Confirm, RemoveEvent::Answer(true)) is Backend,
        remove_next(RemovePhase::Confirm, RemoveEvent::Answer(false)) matches RemovePhase::Finished(c)
            && c != 0,
        code != 0 ==> remove_next(RemovePhase::Backend, RemoveEvent::BackendCode(code))
            == RemovePhase::Finished(code),
        remove_next(RemovePhase::Backend, RemoveEvent::BackendCode(0)) is Save,
        remove_next(RemovePhase::Save, RemoveEvent::Saved(true)) == RemovePhase::Finished(0),
        remove_next(RemovePhase::Save, RemoveEvent::Saved(false)) matches RemovePhase::Finished(c)
            && c != 0,
{
}

/// The title of a preview says what is done with how many packages.
pub proof fn titles_count_the_packages(config: Config, n: nat)
    ensures
        config.messages.to_install@ == "Packages to install ({}):"@ ==> table_title(
            config,
            TxConfirmOp::Install,
            n,
        ) == "Packages to install ("@ + decimal(n) + "):"@,
        config.messages.to_update@ == "Packages to update ({}):"@ ==> table_title(
            config,
            TxConfirmOp::Update,
            n,
        ) == "Packages to update ("@ + decimal(n) + "):"@,
        config.messages.to_remove@ == "Packages to remove ({}):"@ ==> table_title(
            config,
            TxConfirmOp::Remove,
            n,
        ) == "Packages to remove ("@ + decimal(n) + "):"@,
{
    reveal_strlit("Packages to install ({}):");
    reveal_strlit("Packages to install (");
    reveal_strlit("Packages to update ({}):");
    reveal_strlit("Packages to update (");
    reveal_strlit("Packages to remove ({}):");
    reveal_strlit("Packages to remove (");
    reveal_strlit("):");
    reveal_strlit("{}");
    assert("Packages to install ({}):"@ =~= "Packages to install ("@ + "{}"@ + "):"@);
    assert("Packages to update ({}):"@ =~= "Packages to update ("@ + "{}"@ + "):"@);
    assert("Packages to remove ({}):"@ =~= "Packages to remove ("@ + "{}"@ + "):"@);
    lemma_filled("Packages to install ("@, "):"@, decimal(n));
    lemma_filled("Packages to update ("@, "):"@, decimal(n));
    lemma_filled("Packages to remove ("@, "):"@, decimal(n));
}

/// The prompt of an operation asks about that operation.
pub proof fn prompts_ask_about_the_operation()
    ensures
        confirm_words(TxConfirmOp::Install) == "Proceed with installation?"@,
        confirm_words(TxConfirmOp::Update) == "Proceed with update?"@,
        confirm_words(TxConfirmOp::Remove) == "Proceed with removal?"@,
{
}

/// The size in a summary is that of all downloads, with a star where something is built beside
/// them; without downloads it says so.
pub proof fn summaries_give_the_size(config: Config, t: InstallConfirmTotals)
    ensures
        t.download_bytes > 0 && !t.download_excludes_aur ==> summary_size(config, t) == size_text(
            t.download_bytes as nat,
        ),
        t.download_bytes > 0 && t.download_excludes_aur ==> summary_size(config, t) == size_text(
            t.download_bytes as nat,
        ) + "*"@,
        t.download_bytes == 0 ==> summary_size(config, t) == (if t.download_excludes_aur {
            config.messages.size_of_aur@
        } else {
            config.messages.zero_bytes@
        }),
{
    assert(size_text(t.download_bytes as nat) + seq![] =~= size_text(t.download_bytes as nat));
}

/// Targets and dependencies stand under their own titles, and so do sources.
pub proof fn sections_have_their_own_titles(config: Config)
    ensures
        group_title(config, TxRowGroup::Target) == config.messages.target_packages@,
        group_title(config, TxRowGroup::Dependency) == config.messages.dependencies@,
        source_title(config, TxSourceKind::Aur) == config.messages.aur_packages@,
        source_title(config, TxSourceKind::Repo) == config.messages.repo_packages@,
{
}

/// The versions that a row shows: the one that goes, the one that comes, or both with an arrow.
pub open spec fn versions_shown(p: TxRowPaint) -> Seq<char> {
    match p.action {
        TxActionKind::Remove => version_label(p.old_ver@),
        TxActionKind::Install => version_label(p.new_ver@),
        TxActionKind::Upgrade => version_label(p.old_ver@) + " -> "@ + version_label(p.new_ver@),
    }
}

proof fn lemma_seen_version(c: Colors, p: TxRowPaint, rest: Seq<char>)
    requires
        unescaped(version_label(p.old_ver@)),
        unescaped(version_label(p.new_ver@)),
    ensures
        seen(painted_version(c, p) + rest) == versions_shown(p) + seen(rest),
{
    let (o, n) = (version_label(p.old_ver@), version_label(p.new_ver@));
    lemma_seen_painted(c.old_version, o, rest);
    lemma_seen_painted(c.new_version, n, rest);
    if p.action == TxActionKind::Upgrade {
        reveal_strlit(" -> ");
        let tail = painted(c.new_version, n) + rest;
        lemma_seen_painted(c.tx_arrow, " -> "@, tail);
        lemma_seen_painted(c.old_version, o, painted(c.tx_arrow, " -> "@) + tail);
        assert(painted_version(c, p) + rest =~= painted(c.old_version, o) + (painted(
            c.tx_arrow,
            " -> "@,
        ) + tail));
        assert(o + (" -> "@ + (n + seen(rest))) =~= versions_shown(p) + seen(rest));
    }
}

/// What is seen of the line of a package are its name, its versions, the size of its download, where
/// there is one, and its details, each in its column, where the versions fit into theirs.
pub proof fn lines_show_their_packages(
    config: Config,
    w: PreviewWidths,
    row: ConfirmationRow,
    p: TxRowPaint,
)
    requires
        truncated(versions_shown(p), w.version as nat) == versions_shown(p),
        unescaped(padded(row.cells@[0]@, w.package as nat)),
        unescaped(version_label(p.old_ver@)),
        unescaped(version_label(p.new_ver@)),
        w.download matches Some(d) ==> unescaped(right_padded(row.cells@[2]@, d)) && unescaped(
            padded(row.cells@[3]@, w.detail as nat),
        ),
        w.download is None ==> unescaped(padded(row.cells@[2]@, w.detail as nat)),
    ensures
        seen(preview_line(config, w, row, p)) == padded(row.cells@[0]@, w.package as nat) + "  "@
            + versions_shown(p) + repeated(
            ' ',
            minus(w.version, text_width(versions_shown(p)) as int) as nat,
        ) + "  "@ + (match w.download {
            Some(d) => right_padded(row.cells@[2]@, d) + "  "@ + padded(
                row.cells@[3]@,
                w.detail as nat,
            ),
            None => padded(row.cells@[2]@, w.detail as nat),
        }) + "\n"@,
{
    let c = config.color;
    let name = padded(row.cells@[0]@, w.package as nat);
    let blanks = repeated(' ', minus(w.version, text_width(versions_shown(p)) as int) as nat);
    let details = match w.download {
        Some(d) => right_padded(row.cells@[2]@, d) + "  "@ + padded(
            row.cells@[3]@,
            w.detail as nat,
        ),
        None => padded(row.cells@[2]@, w.detail as nat),
    };
    let shown_details = preview_details(c, w, row);
    lemma_seen_details(c, w, row);
    assert(version_cell(c, p, w.version) == painted_version(c, p) + blanks);
    lemma_seen_line(c, p, name, blanks, shown_details + "\n"@, details + "\n"@);
    let style = action_style(c, p.action);
    assert(preview_line(config, w, row, p) =~= painted(style, name) + "  "@ + (painted_version(c, p)
        + blanks) + "  "@ + (shown_details + "\n"@));
    assert(name + "  "@ + versions_shown(p) + blanks + "  "@ + (details + "\n"@) =~= name + "  "@
        + versions_shown(p) + blanks + "  "@ + details + "\n"@);
}

proof fn lemma_seen_details(c: Colors, w: PreviewWidths, row: ConfirmationRow)
    requires
        w.download matches Some(d) ==> unescaped(right_padded(row.cells@[2]@, d)) && unescaped(
            padded(row.cells@[3]@, w.detail as nat),
        ),
        w.download is None ==> unescaped(padded(row.cells@[2]@, w.detail as nat)),
    ensures
        seen(preview_details(c, w, row) + "\n"@) == (match w.download {
            Some(d) => right_padded(row.cells@[2]@, d) + "  "@ + padded(
                row.cells@[3]@,
                w.detail as nat,
            ),
            None => padded(row.cells@[2]@, w.detail as nat),
        }) + "\n"@,
{
    let gap = "  "@;
    let end = "\n"@;
    let nothing = Seq::<char>::empty();
    reveal_strlit("  ");
    reveal_strlit("\n");
    lemma_seen_plain(end, nothing);
    assert(end + nothing =~= end);
    assert(end + seen(nothing) =~= end);
    match w.download {
        Some(d) => {
            lemma_seen_two(
                c,
                right_padded(row.cells@[2]@, d),
                padded(row.cells@[3]@, w.detail as nat),
            );
        },
        None => {
            lemma_seen_painted(detail_style(), padded(row.cells@[2]@, w.detail as nat), end);
        },
    }
}

proof fn lemma_seen_two(c: Colors, size: Seq<char>, text: Seq<char>)
    requires
        unescaped(size),
        unescaped(text),
        seen("\n"@) == "\n"@,
    ensures
        seen(painted(c.number_menu, size) + "  "@ + painted(detail_style(), text) + "\n"@) == size
            + "  "@ + text + "\n"@,
{
    let gap = "  "@;
    let end = "\n"@;
    reveal_strlit("  ");
    let last = painted(detail_style(), text) + end;
    lemma_seen_painted(detail_style(), text, end);
    lemma_seen_plain(gap, last);
    lemma_seen_painted(c.number_menu, size, gap + last);
    assert(painted(c.number_menu, size) + gap + painted(detail_style(), text) + end =~= painted(
        c.number_menu,
        size,
    ) + (gap + last));
    assert(size + (gap + (text + end)) =~= size + gap + text + end);
}

proof fn lemma_seen_line(
    c: Colors,
    p: TxRowPaint,
    name: Seq<char>,
    blanks: Seq<char>,
    tail: Seq<char>,
    shown: Seq<char>,
)
    requires
        unescaped(name),
        unescaped(blanks),
        unescaped(version_label(p.old_ver@)),
        unescaped(version_label(p.new_ver@)),
        seen(tail) == shown,
    ensures
        seen(
            painted(action_style(c, p.action), name) + "  "@ + (painted_version(c, p) + blanks)
                + "  "@ + tail,
        ) == name + "  "@ + versions_shown(p) + blanks + "  "@ + shown,
{
    let style = action_style(c, p.action);
    assert forall|rest: Seq<char>| #[trigger] seen(painted(style, name) + rest) == name + seen(
        rest,
    ) by {
        lemma_seen_painted(style, name, rest);
    }
    assert forall|rest: Seq<char>| #[trigger] seen(painted_version(c, p) + rest) == versions_shown(p)
        + seen(rest) by {
        lemma_seen_version(c, p, rest);
    }
    lemma_seen_chain(
        painted(style, name),
        name,
        painted_version(c, p),
        versions_shown(p),
        blanks,
        tail,
        shown,
    );
}

proof fn lemma_seen_chain(
    a: Seq<char>,
    x: Seq<char>,
    b: Seq<char>,
    y: Seq<char>,
    blanks: Seq<char>,
    tail: Seq<char>,
    shown: Seq<char>,
)
    requires
        forall|rest: Seq<char>| #[trigger] seen(a + rest) == x + seen(rest),
        forall|rest: Seq<char>| #[trigger] seen(b + rest) == y + seen(rest),
        unescaped(blanks),
        seen(tail) == shown,
    ensures
        seen(a + "  "@ + (b + blanks) + "  "@ + tail) == x + "  "@ + y + blanks + "  "@ + shown,
{
    let gap = "  "@;
    reveal_strlit("  ");
    let t1 = gap + tail;
    let t2 = blanks + t1;
    let t3 = b + t2;
    let t4 = gap + t3;
    lemma_seen_plain(gap, tail);
    lemma_seen_plain(blanks, t1);
    lemma_seen_plain(gap, t3);
    assert(seen(t3) == y + seen(t2));
    assert(seen(a + t4) == x + seen(t4));
    assert(a + gap + (b + blanks) + gap + tail =~= a + t4);
    assert(x + (gap + (y + (blanks + (gap + shown)))) =~= x + gap + y + blanks + gap + shown);
}

/// The packages that are removed and have been built from a base are those whose bases are named,
/// in their order.
pub proof fn bases_of_removed_packages_are_named(found: Seq<Option<String>>, base: String)
    ensures
        bases_of(seq![]).len() == 0,
        bases_of(found.push(Some(base))) == bases_of(found).push(base@),
        bases_of(found.push(None)) == bases_of(found),
{
    assert(found.push(Some(base)).drop_last() =~= found);
    assert(found.push(None).drop_last() =~= found);
}

/// Whether an entry of a cache is readable.
pub open spec fn is_readable(e: CacheEntry) -> bool {
    e.name is Some && e.size is Some
}

/// Whether an entry is a package file of a version.
pub open spec fn is_file_of(e: CacheEntry, prefix: Seq<char>) -> bool {
    &&& e.name matches Some(name) && prefix.is_prefix_of(name@) && mentions(name@, ".pkg.tar"@)
}

proof fn lemma_scanned(entries: Seq<CacheEntry>, prefix: Seq<char>, best: Option<i64>)
    requires
        forall|k: int| 0 <= k < entries.len() ==> is_readable(#[trigger] entries[k]),
    ensures
        ({
            let r = scanned(entries, prefix, best);
            &&& r is None ==> best is None
            &&& r is None <==> best is None && forall|k: int|
                0 <= k < entries.len() ==> !is_file_of(#[trigger] entries[k], prefix)
            &&& forall|k: int|
                0 <= k < entries.len() && is_file_of(#[trigger] entries[k], prefix)
                    ==> entries[k].size->0 <= r->0
            &&& best matches Some(b) ==> b <= r->0
            &&& r matches Some(n) ==> n == 0 || best == Some(n) || exists|k: int|
                0 <= k < entries.len() && is_file_of(#[trigger] entries[k], prefix)
                    && entries[k].size == Some(n)
        }),
    decreases entries.len(),
{
    if entries.len() > 0 {
        let rest = entries.skip(1);
        assert forall|k: int| 0 <= k < rest.len() implies is_readable(#[trigger] rest[k]) by {
            assert(rest[k] == entries[k + 1]);
        }
        assert(is_readable(entries[0]));
        let next = if is_file_of(entries[0], prefix) {
            Some(
                crate::fmt::max(
                    match best {
                        Some(b) => b as int,
                        None => 0,
                    },
                    entries[0].size->0 as int,
                ) as i64,
            )
        } else {
            best
        };
        assert(scanned(entries, prefix, best) == scanned(rest, prefix, next));
        lemma_scanned(rest, prefix, next);
        let r = scanned(rest, prefix, next);
        assert forall|k: int|
            0 <= k < entries.len() && is_file_of(#[trigger] entries[k], prefix) implies r is Some
            && entries[k].size->0 <= r->0 by {
            if k > 0 {
                assert(rest[k - 1] == entries[k]);
            }
        }
        if r is None {
            assert forall|k: int| 0 <= k < entries.len() implies !is_file_of(
                #[trigger] entries[k],
                prefix,
            ) by {
                if k > 0 {
                    assert(rest[k - 1] == entries[k]);
                }
            }
        } else if best is None && (forall|k: int|
            0 <= k < entries.len() ==> !is_file_of(#[trigger] entries[k], prefix)) {
            assert forall|k: int| 0 <= k < rest.len() implies !is_file_of(#[trigger] rest[k], prefix) by {
                assert(rest[k] == entries[k + 1]);
            }
        }
        if r is Some && r != Some(0i64) && r != best {
            let n = r->0;
            if next == Some(n) {
                assert(is_file_of(entries[0], prefix) && entries[0].size == Some(n));
            } else {
                let k = choose|k: int|
                    0 <= k < rest.len() && is_file_of(#[trigger] rest[k], prefix) && rest[k].size
                        == Some(n);
                assert(entries[k + 1] == rest[k]);
            }
        }
    }
}

/// The size of a package in a cache that can be read is that of its largest file: one whose name
/// starts as those of the version do, and tells of a package.
pub proof fn cached_packages_have_the_size_of_their_file(
    entries: Seq<CacheEntry>,
    name: Seq<char>,
    version: Seq<char>,
    k: int,
)
    requires
        forall|i: int| 0 <= i < entries.len() ==> is_readable(#[trigger] entries[i]),
        0 <= k < entries.len(),
        is_file_of(entries[k], name + "-"@ + version + "-"@),
        entries[k].size->0 > 0,
    ensures
        ({
            let r = scanned(entries, package_prefix(name, version), None);
            &&& r is Some
            &&& r->0 >= entries[k].size->0
            &&& exists|i: int|
                0 <= i < entries.len() && is_file_of(
                    #[trigger] entries[i],
                    name + "-"@ + version + "-"@,
                ) && entries[i].size == r
        }),
{
    lemma_scanned(entries, package_prefix(name, version), None);
}

/// The first cache that has a package tells its size; one that cannot be read tells nothing.
pub proof fn the_first_cache_tells_the_size(
    dir: CacheDir,
    entries: Vec<CacheEntry>,
    dirs: Seq<CacheDir>,
    prefix: Seq<char>,
)
    ensures
        cached_size(seq![], prefix) is None,
        dir.entries is None ==> cached_size(seq![dir] + dirs, prefix) == cached_size(dirs, prefix),
        dir.entries == Some(entries) && scanned(entries@, prefix, None) is Some ==> cached_size(
            seq![dir] + dirs,
            prefix,
        ) == scanned(entries@, prefix, None),
        dir.entries == Some(entries) && scanned(entries@, prefix, None) is None ==> cached_size(
            seq![dir] + dirs,
            prefix,
        ) == cached_size(dirs, prefix),
{
    let all = seq![dir] + dirs;
    assert(all[0] == dir);
    assert(all.skip(1) =~= dirs);
}

/// The detail of a package is the first line of its changelog that is not blank.
pub proof fn blank_lines_are_passed_over(line: Seq<char>, list: Seq<Seq<char>>)
    ensures
        first_line(seq![]) is None,
        trimmed(line).len() > 0 ==> first_line(seq![line] + list) == Some(trimmed(line)),
        trimmed(line).len() == 0 ==> first_line(seq![line] + list) == first_line(list),
{
    let all = seq![line] + list;
    assert(all[0] == line);
    assert(all.skip(1) =~= list);
}

/// What is shown before an installation or an update ends with the summary of its size; what is
/// shown before a removal has no such summary. Nothing is shown of a table that is none.
pub proof fn previews_end_with_their_summary(
    config: Config,
    terminal: Option<usize>,
    t: ConfirmationTable,
    a: InstallConfirmTotals,
    b: InstallConfirmTotals,
    op: TxConfirmOp,
)
    ensures
        presentable(t) && op != TxConfirmOp::Remove ==> summary(config, a).is_suffix_of(
            preview(config, terminal, t, a, op),
        ),
        op == TxConfirmOp::Remove ==> preview(config, terminal, t, a, op) == preview(
            config,
            terminal,
            t,
            b,
            op,
        ),
        presentable(t) ==> ("\n"@ + heading(config.color, table_title(config, op, t.rows@.len()))
            + "\n"@).is_prefix_of(preview(config, terminal, t, a, op)),
        t.rows@.len() == 0 || t.headers@.len() == 0 ==> preview(config, terminal, t, a, op).len() == 0,
{
    if presentable(t) {
        let text = preview(config, terminal, t, a, op);
        let tail = summary(config, a);
        if op != TxConfirmOp::Remove {
            assert(text.subrange(text.len() - tail.len(), text.len() as int) =~= tail);
        }
        let head = "\n"@ + heading(config.color, table_title(config, op, t.rows@.len())) + "\n"@;
        assert(text.subrange(0, head.len() as int) =~= head);
    }
}

/// A version that comes is in the style of new versions, one that goes in that of old ones; where
/// one replaces the other, the old one stands first.
pub proof fn versions_are_in_their_styles(c: Colors, p: TxRowPaint)
    ensures
        p.action != TxActionKind::Remove ==> painted(c.new_version, version_label(p.new_ver@)).is_suffix_of(
            painted_version(c, p),
        ),
        p.action != TxActionKind::Install ==> painted(
            c.old_version,
            version_label(p.old_ver@),
        ).is_prefix_of(painted_version(c, p)),
        p.action == TxActionKind::Install ==> painted_version(c, p).len() == painted(
            c.new_version,
            version_label(p.new_ver@),
        ).len(),
        p.action == TxActionKind::Remove ==> painted_version(c, p).len() == painted(
            c.old_version,
            version_label(p.old_ver@),
        ).len(),
{
    let text = painted_version(c, p);
    let new = painted(c.new_version, version_label(p.new_ver@));
    let old_one = painted(c.old_version, version_label(p.old_ver@));
    if p.action != TxActionKind::Remove {
        assert(text.subrange(text.len() - new.len(), text.len() as int) =~= new);
    }
    if p.action != TxActionKind::Install {
        assert(text.subrange(0, old_one.len() as int) =~= old_one);
    }
}

/// The line above a section takes up the terminal and starts with the title, where that fits.
pub proof fn separators_take_up_the_line(term: int, title: Seq<char>)
    requires
        all_narrow(title),
        title.len() + 3 <= usize::MAX,
        term >= 1,
    ensures
        separator(term, title).len() == term,
        title.len() + 3 <= term ==> (" --"@ + title).is_prefix_of(separator(term, title)),
        title.len() + 3 < term ==> separator(term, title).last() == '-',
{
    reveal_strlit(" --");
    let label = " --"@ + title;
    assert(all_narrow(label)) by {
        assert forall|i: int| 0 <= i < label.len() implies crate::fmt::is_narrow(
            #[trigger] label[i],
        ) by {
            if i >= 3 {
                assert(label[i] == title[i - 3]);
            }
        }
    }
    narrow_text_takes_up_the_width(label, term as nat);
    let s = separator(term, title);
    if title.len() + 3 <= term {
        assert(s.subrange(0, label.len() as int) =~= label);
    }
}

/// A removal warns of every critical package, and of nothing where there is none.
pub proof fn removals_warn_of_critical_packages(
    config: Config,
    terminal: Option<usize>,
    critical: Seq<Seq<char>>,
    found: Seq<Option<LocalPkg>>,
    r: Removal,
    i: int,
)
    requires
        starts_removal(config, terminal, critical, found, r),
    ensures
        critical.len() == 0 ==> r.warning@.len() == 0,
        0 <= i < critical.len() ==> mentions(r.warning@, critical[i]),
{
    if 0 <= i < critical.len() {
        crate::laws::lists::critical_packages_are_warned_of(critical, i);
    }
}

/// The columns of a preview have room for their names, and for their cells up to a limit; the
/// details take what is left of the terminal, and have their least width in any case.
pub proof fn preview_columns_fit_the_terminal(
    config: Config,
    terminal: Option<usize>,
    t: ConfirmationTable,
    k: int,
)
    requires
        presentable(t),
        t.headers@.len() >= 3,
        0 <= k < t.rows@.len(),
    ensures
        ({
            let w = preview_widths(config, terminal, t);
            let term = match (config.cols, terminal) {
                (Some(c), _) => c as int,
                (None, Some(c)) => c as int,
                (None, None) => 120int,
            };
            let used = w.package + 2 + w.version + 2 + (match w.download {
                Some(d) => d + 2,
                None => 0,
            });
            &&& w.download is Some <==> t.headers@.len() >= 4
            &&& w.package <= 40
            &&& w.package == 40 || w.package >= text_width(t.rows@[k].cells@[0]@)
            &&& w.package == 40 || w.package >= text_width(t.headers@[0]@)
            &&& w.version >= text_width(t.headers@[1]@)
            &&& w.detail >= 12
            &&& w.detail > 12 ==> used + w.detail == (if term < 72 {
                71
            } else {
                term - 1
            })
            &&& w.download matches Some(d) ==> d <= 14 && (d == 14 || d >= text_width(
                t.rows@[k].cells@[2]@,
            ))
        }),
{
    lemma_widest_of(column(t.rows@, 0), k);
    if t.headers@.len() >= 4 {
        lemma_widest_of(column(t.rows@, 2), k);
    }
}

/// The table of changes has its title and its columns.
pub proof fn changes_have_their_title(
    config: Config,
    t: ConfirmationTable,
    headers: Seq<Seq<char>>,
    models: Seq<RowModel>,
)
    requires
        is_change_table(config, t, headers, models),
    ensures
        t.title@ == config.messages.package_changes@,
        t.headers@.len() == headers.len(),
        t.rows@.len() == models.len(),
        forall|i: int| 0 <= i < headers.len() ==> (#[trigger] t.headers@[i])@ == headers[i],
{
    assert forall|i: int| 0 <= i < headers.len() implies (#[trigger] t.headers@[i])@ == headers[i] by {
        assert(texts(t.headers@)[i] == t.headers@[i]@);
    }
}

} // verus!
