//! What lists of packages show, and what is warned of.

#[allow(unused_imports)]
use crate::config::Config;
#[allow(unused_imports)]
use crate::fmt::{
    column_after, indented, installed_version, list_header, list_line, list_lines, list_widths,
    name_hash, painted_all, parted, repo_colour, row_names, row_states, row_versions, set_column,
    target_line, text_width, widest, word_length, wrapped, Layout, ListRow, ListWidths,
};
#[allow(unused_imports)]
use crate::laws::search::{holds, lemma_holds};
#[allow(unused_imports)]
use crate::laws::transactions::lemma_joined_mentions;
#[allow(unused_imports)]
use crate::style::{heading, is_plain, Colour, Style};
#[allow(unused_imports)]
use crate::sync::{
    all_names, are_rows_of, aur_lines, byte_lines, filter_code, found_lines, is_row_of, line_end,
    list_code, list_status, list_steps, listed_pkgs, lists_repos, name_lines, pkg_line,
    pkgbuild_lines, repo_line, repo_lines, table_of, without_file, DbPkg, ListStep, ListedPkg,
    RepoDb,
};
#[allow(unused_imports)]
use crate::text::{joined, mentions, occurs_at, repeated};
#[allow(unused_imports)]
use crate::ui::notice::{critical_warning, failure_alarm, hook_alarm};
use vstd::prelude::*;
#[allow(unused_imports)]
use vstd::utf8::encode_utf8;

verus! {

/// Each target that is known adds its line, and no other adds anything.
pub proof fn known_targets_are_printed(targets: Seq<String>, found: Seq<bool>, n: int)
    requires
        0 <= n < targets.len(),
        found.len() == targets.len(),
    ensures
        found_lines(targets, found, 0).len() == 0,
        found[n] ==> found_lines(targets, found, n + 1) == found_lines(targets, found, n) + targets[n]@
            + "\n"@,
        !found[n] ==> found_lines(targets, found, n + 1) == found_lines(targets, found, n),
{
}

/// A filter succeeds if and only if all that was asked for is known.
pub proof fn a_filter_succeeds_where_all_is_known(targets: nat, known: usize)
    ensures
        filter_code(targets, known) == 0 <==> known == targets,
{
}

/// Without a target every source that is in use is listed: repositories, each repository of build
/// scripts, and the AUR, in this order.
pub proof fn everything_in_use_is_listed(
    config: Config,
    repos: Seq<Seq<char>>,
    pkgbuilds: Seq<Seq<char>>,
    i: int,
)
    requires
        pkgbuilds.len() <= usize::MAX,
    ensures
        ({
            let steps = list_steps(config, seq![], repos, pkgbuilds);
            &&& steps.contains(ListStep::Repos) <==> config.mode.repo
            &&& config.mode.repo ==> steps.len() > 0 && steps[0] == ListStep::Repos
            &&& steps.contains(ListStep::Aur) <==> config.mode.aur
            &&& config.mode.aur ==> steps.len() > 0 && steps.last() == ListStep::Aur
            &&& 0 <= i < pkgbuilds.len() ==> (steps.contains(ListStep::Pkgbuilds(i as usize))
                <==> config.mode.pkgbuild)
        }),
{
    let steps = list_steps(config, seq![], repos, pkgbuilds);
    let a = if config.mode.repo {
        1int
    } else {
        0int
    };
    let b = if config.mode.pkgbuild {
        pkgbuilds.len() as int
    } else {
        0int
    };
    assert forall|k: int| 0 <= k < steps.len() implies (if k < a {
        #[trigger] steps[k] == ListStep::Repos
    } else if k < a + b {
        steps[k] == ListStep::Pkgbuilds((k - a) as usize)
    } else {
        steps[k] == ListStep::Aur
    }) by {}
    if config.mode.repo {
        assert(steps[0] == ListStep::Repos);
    }
    if config.mode.aur {
        assert(steps[a + b] == ListStep::Aur);
    }
    if config.mode.pkgbuild && 0 <= i < pkgbuilds.len() {
        assert(steps[a + i] == ListStep::Pkgbuilds(i as usize));
    }
}

/// A target lists the repository of its name, or else the repository of build scripts of its name,
/// or else the AUR, where such a source is in use; otherwise it is not found. Every target has its
/// own part of the list.
pub proof fn targets_are_listed_by_their_names(
    config: Config,
    targets: Seq<Seq<char>>,
    repos: Seq<Seq<char>>,
    pkgbuilds: Seq<Seq<char>>,
    i: int,
)
    requires
        0 <= i < targets.len() <= usize::MAX,
    ensures
        ({
            let steps = list_steps(config, targets, repos, pkgbuilds);
            let t = targets[i];
            let in_repos = config.mode.repo && repos.contains(t);
            let in_scripts = config.mode.pkgbuild && pkgbuilds.contains(t);
            let is_aur = config.mode.aur && t == config.aur_namespace@;
            &&& steps.len() == targets.len()
            &&& steps[i] == ListStep::Repo(i as usize) <==> in_repos
            &&& steps[i] == ListStep::PkgbuildsNamed(i as usize) <==> !in_repos && in_scripts
            &&& steps[i] is Aur <==> !in_repos && !in_scripts && is_aur
            &&& steps[i] is NotFound <==> !in_repos && !in_scripts && !is_aur
        }),
{
}

/// A list fails if and only if a target was not found, or the AUR could not be listed.
pub proof fn lists_fail_where_something_is_missing(steps: Seq<ListStep>, aur_failed: bool)
    ensures
        list_code(steps, aur_failed) != 0 <==> (exists|k: int|
            0 <= k < steps.len() && #[trigger] steps[k] is NotFound) || (aur_failed && steps.contains(
            ListStep::Aur,
        )),
{
    if aur_failed && steps.contains(ListStep::Aur) {
        let k = choose|k: int| 0 <= k < steps.len() && steps[k] == ListStep::Aur;
        assert(steps[k] is Aur);
    }
    if exists|k: int| 0 <= k < steps.len() && #[trigger] steps[k] is NotFound {
        let k = choose|k: int| 0 <= k < steps.len() && #[trigger] steps[k] is NotFound;
        assert(steps[k] is NotFound || (aur_failed && steps[k] is Aur));
    }
    if list_code(steps, aur_failed) != 0 {
        let k = choose|k: int|
            0 <= k < steps.len() && ((#[trigger] steps[k]) is NotFound || (aur_failed
                && steps[k] is Aur));
        if steps[k] is Aur {
            assert(steps[k] == ListStep::Aur);
        }
    }
}

/// Each repository that is listed adds its own line or its packages; without a name all are listed,
/// with one only the repository of that name.
pub proof fn repositories_are_listed_by_name(
    config: Config,
    dbs: Seq<RepoDb>,
    db: RepoDb,
    only: Option<Seq<char>>,
)
    ensures
        ({
            let listed = match only {
                Some(name) => db.name@ == name,
                None => true,
            };
            &&& repo_lines(config, seq![], only).len() == 0
            &&& repo_lines(config, dbs.push(db), only) == (if listed {
                repo_lines(config, dbs, only) + repo_line(config, db)
            } else {
                repo_lines(config, dbs, only)
            })
            &&& all_names(seq![], only).len() == 0
            &&& all_names(dbs.push(db), only) == (if listed {
                all_names(dbs, only) + name_lines(db.pkgs@)
            } else {
                all_names(dbs, only)
            })
            &&& listed_pkgs(seq![], only).len() == 0
            &&& !listed ==> listed_pkgs(dbs.push(db), only) == listed_pkgs(dbs, only)
            &&& listed ==> {
                let before = listed_pkgs(dbs, only);
                let after = listed_pkgs(dbs.push(db), only);
                &&& after.len() == before.len() + db.pkgs@.len()
                &&& after.take(before.len() as int) == before
                &&& forall|k: int|
                    0 <= k < db.pkgs@.len() ==> after[before.len() + k].0 == db.name@ && after[before.len()
                        + k].1 == #[trigger] db.pkgs@[k]
            }
        }),
{
    assert(dbs.push(db).drop_last() =~= dbs);
    let before = listed_pkgs(dbs, only);
    let after = listed_pkgs(dbs.push(db), only);
    if after.len() >= before.len() {
        assert(after.take(before.len() as int) =~= before);
    }
}

/// A repository's line starts with its name; unless it is to be quiet, its server follows.
pub proof fn repository_lines_name_the_server(config: Config, db: RepoDb)
    ensures
        db.name@.is_prefix_of(repo_line(config, db)),
        config.quiet ==> repo_line(config, db) == db.name@ + "\n"@,
        !config.quiet ==> (db.server matches Some(s) ==> repo_line(config, db) == db.name@ + " "@
            + without_file(s@) + "\n"@),
{
    assert(repo_line(config, db).subrange(0, db.name@.len() as int) =~= db.name@);
}

/// The mark of a local file at the start of a server is left out; any other server stays.
pub proof fn local_files_lose_their_mark(s: Seq<char>)
    ensures
        without_file("file://"@ + s) == without_file(s),
        !"file://"@.is_prefix_of(s) ==> without_file(s) == s,
{
    reveal_strlit("file://");
    assert(("file://"@ + s).subrange(0, 7) =~= "file://"@);
    assert(("file://"@ + s).skip(7) =~= s);
}

/// The names of the packages of a repository come one on each line, in their order.
pub proof fn names_come_one_on_each_line(pkgs: Seq<DbPkg>, p: DbPkg)
    ensures
        name_lines(seq![]).len() == 0,
        name_lines(pkgs.push(p)) == name_lines(pkgs) + p.name@ + "\n"@,
{
    assert(pkgs.push(p).drop_last() =~= pkgs);
}

/// A package in a list is marked if and only if it is installed, with its version where that is
/// another one.
pub proof fn listed_packages_are_marked(config: Config, p: DbPkg)
    ensures
        p.installed is None ==> list_status(config, p).len() == 0,
        p.installed is Some && p.same_version ==> list_status(config, p) == config.messages.installed@,
        !p.same_version && config.messages.installed_as@ == "installed: {}"@ ==> (
        p.installed matches Some(v) ==> list_status(config, p) == "installed: "@ + v@),
{
    reveal_strlit("installed: {}");
    reveal_strlit("installed: ");
    reveal_strlit("{}");
    let a = "installed: "@;
    let nothing = Seq::<char>::empty();
    assert("installed: {}"@ =~= a + "{}"@ + nothing);
    match p.installed {
        Some(v) => {
            crate::laws::search::lemma_filled(a, nothing, v@);
            assert(a + v@ + nothing =~= a + v@);
        },
        None => {},
    }
}

/// The line of a package of build scripts or of the AUR: its name alone where it is to be quiet;
/// without colours its source, its name and its version, and a mark where it is installed.
pub proof fn package_lines_show_source_name_and_version(
    config: Config,
    name: Seq<u8>,
    repo: Seq<char>,
    version: Seq<char>,
    installed: bool,
)
    ensures
        config.args.given("q"@, "quiet"@) ==> pkg_line(config, name, repo, version, installed) == name
            + seq![10u8],
        !config.args.given("q"@, "quiet"@) && is_plain(config.color.sl_repo) && is_plain(
            config.color.sl_pkg,
        ) && is_plain(config.color.sl_version) && is_plain(config.color.sl_installed) ==> pkg_line(
            config,
            name,
            repo,
            version,
            installed,
        ) == encode_utf8(repo) + seq![32u8] + name + seq![32u8] + encode_utf8(version) + (if installed {
            encode_utf8(config.messages.line_installed@)
        } else {
            seq![]
        }) + seq![10u8],
{
    let nothing = Seq::<char>::empty();
    assert(encode_utf8(nothing) =~= seq![]);
    assert(pkg_line(config, name, repo, version, installed) =~= pkg_line(
        config,
        name,
        repo,
        version,
        installed,
    ));
    if !config.args.given("q"@, "quiet"@) && is_plain(config.color.sl_repo) && is_plain(
        config.color.sl_pkg,
    ) && is_plain(config.color.sl_version) && is_plain(config.color.sl_installed) {
        assert(pkg_line(config, name, repo, version, installed) =~= encode_utf8(repo) + seq![32u8]
            + name + seq![32u8] + encode_utf8(version) + (if installed {
            encode_utf8(config.messages.line_installed@)
        } else {
            seq![]
        }) + seq![10u8]);
    }
}

/// Every build script and every name of the AUR has its line, in their order.
pub proof fn every_listed_package_has_a_line(
    config: Config,
    repo: Seq<char>,
    pkgs: Seq<ListedPkg>,
    p: ListedPkg,
    names: Seq<Vec<u8>>,
    installed: Seq<bool>,
    n: int,
)
    requires
        0 <= n < names.len(),
        installed.len() == names.len(),
    ensures
        pkgbuild_lines(config, repo, seq![]).len() == 0,
        pkgbuild_lines(config, repo, pkgs.push(p)) == pkgbuild_lines(config, repo, pkgs) + pkg_line(
            config,
            encode_utf8(p.name@),
            repo,
            p.version@,
            p.installed,
        ),
        aur_lines(config, names, installed, 0).len() == 0,
        aur_lines(config, names, installed, n + 1) == aur_lines(config, names, installed, n)
            + pkg_line(config, names[n]@, "aur"@, "unknown-version"@, installed[n]),
{
    assert(pkgs.push(p).drop_last() =~= pkgs);
}

/// The names in a list of bytes are what stands on its lines; an empty line is no name.
pub proof fn lines_of_bytes_are_names(line: Seq<u8>, rest: Seq<u8>)
    requires
        !line.contains(10u8),
    ensures
        byte_lines(seq![]).len() == 0,
        line.len() > 0 ==> byte_lines(line + seq![10u8] + rest) == seq![line] + byte_lines(rest),
        line.len() == 0 ==> byte_lines(line + seq![10u8] + rest) == byte_lines(rest),
        line.len() > 0 ==> byte_lines(line) == seq![line],
{
    let s = line + seq![10u8] + rest;
    assert(s.take(line.len() as int) =~= line);
    lemma_line_end_at(s, line);
    lemma_line_end_whole(line);
    assert(s.skip(line.len() as int + 1) =~= rest);
    if line.len() > 0 {
        assert(line.take(line.len() as int) =~= line);
        assert(seq![line] + Seq::<Seq<u8>>::empty() =~= seq![line]);
    }
}

proof fn lemma_line_end_at(s: Seq<u8>, line: Seq<u8>)
    requires
        s.len() > line.len(),
        s.take(line.len() as int) == line,
        s[line.len() as int] == 10,
        !line.contains(10u8),
    ensures
        line_end(s) == line.len(),
    decreases line.len(),
{
    if line.len() > 0 {
        assert(s.take(line.len() as int)[0] == line[0]);
        assert(line.contains(line[0]));
        let rest = line.skip(1);
        assert(s.skip(1).take(rest.len() as int) =~= rest) by {
            assert(s.take(line.len() as int).skip(1) =~= s.skip(1).take(rest.len() as int));
        }
        assert(!rest.contains(10u8)) by {
            if rest.contains(10u8) {
                let k = choose|k: int| 0 <= k < rest.len() && rest[k] == 10;
                assert(line[k + 1] == 10);
            }
        }
        lemma_line_end_at(s.skip(1), rest);
    }
}

proof fn lemma_line_end_whole(line: Seq<u8>)
    requires
        !line.contains(10u8),
    ensures
        line_end(line) == line.len(),
    decreases line.len(),
{
    if line.len() > 0 {
        assert(line.contains(line[0]));
        let rest = line.skip(1);
        assert(!rest.contains(10u8)) by {
            if rest.contains(10u8) {
                let k = choose|k: int| 0 <= k < rest.len() && rest[k] == 10;
                assert(line[k + 1] == 10);
            }
        }
        lemma_line_end_whole(rest);
    }
}

/// Where there are local build repositories, the first of them that has a package tells its version;
/// otherwise the local database does.
pub proof fn build_repositories_take_precedence(
    local: Option<Seq<char>>,
    dbs: Seq<Option<String>>,
    v: String,
)
    ensures
        installed_version(local, seq![]) == local,
        installed_version(local, seq![Some(v)] + dbs) == Some(v@),
        dbs.len() > 0 ==> installed_version(local, seq![None] + dbs) == installed_version(local, dbs),
{
    let a = seq![Some(v)] + dbs;
    let b = seq![None::<String>] + dbs;
    assert(a[0] == Some(v));
    assert(b[0] is None);
    assert(b.skip(1) =~= dbs);
}

/// A target is printed as it is; where it is to be quiet, without its repository.
pub proof fn quiet_targets_lose_their_repository(repo: Seq<char>, name: Seq<char>, targ: Seq<char>)
    ensures
        target_line(targ, false) == targ + "\n"@,
        !repo.contains('/') ==> target_line(repo + "/"@ + name, true) == name + "\n"@,
{
    reveal_strlit("/");
    let t = repo + "/"@ + name;
    if !repo.contains('/') {
        assert forall|i: int| 0 <= i < repo.len() implies crate::text::fits(
            crate::text::Run::Except('/'),
            #[trigger] t[i],
        ) by {
            assert(t[i] == repo[i]);
            assert(repo.contains(repo[i]));
        }
        assert(t[repo.len() as int] == '/');
        crate::text::lemma_leading_is(t, crate::text::Run::Except('/'), repo.len() as int);
        assert(t.skip(repo.len() as int + 1) =~= name);
    }
}

/// Each row of a list has its line, after those before it.
pub proof fn every_row_has_a_line(config: Config, rows: Seq<ListRow>, row: ListRow, w: ListWidths)
    ensures
        list_lines(config, seq![], w).len() == 0,
        list_lines(config, rows.push(row), w) == list_lines(config, rows, w) + list_line(
            config,
            row,
            w,
        ),
{
    assert(rows.push(row).drop_last() =~= rows);
}

/// A line of a list without colours shows the name, the repository and version, the status and the
/// description, in their columns, where they fit.
pub proof fn plain_list_lines_show_their_rows(config: Config, row: ListRow, w: ListWidths)
    requires
        is_plain(config.color.sl_pkg),
        is_plain(config.color.sl_repo),
        is_plain(config.color.sl_installed),
        is_plain(config.color.install_version),
        0 < text_width(row.name@) <= w.name,
        0 < text_width(row.repository@ + " "@ + row.version@) <= w.version,
        0 < text_width(row.status@) <= w.status,
        0 < text_width(row.description@) <= w.description,
    ensures
        list_line(config, row, w) == row.name@ + repeated(
            ' ',
            (w.name - text_width(row.name@)) as nat,
        ) + "  "@ + (row.repository@ + " "@ + row.version@) + repeated(
            ' ',
            (w.version - text_width(row.repository@ + " "@ + row.version@)) as nat,
        ) + "  "@ + row.status@ + repeated(' ', (w.status - text_width(row.status@)) as nat) + "  "@
            + row.description@ + "\n"@,
{
    let nothing = Seq::<char>::empty();
    assert(list_line(config, row, w) =~= row.name@ + repeated(
        ' ',
        (w.name - text_width(row.name@)) as nat,
    ) + "  "@ + (row.repository@ + " "@ + row.version@) + repeated(
        ' ',
        (w.version - text_width(row.repository@ + " "@ + row.version@)) as nat,
    ) + "  "@ + row.status@ + repeated(' ', (w.status - text_width(row.status@)) as nat) + "  "@
        + row.description@ + "\n"@);
}

/// Each package of a listed repository has its row, which shows its repository, its name, its
/// version, whether it is installed, and its description.
pub proof fn rows_show_their_packages(config: Config, row: ListRow, db: Seq<char>, p: DbPkg)
    requires
        is_row_of(config, row, db, p),
    ensures
        row.repository@ == db,
        row.name@ == p.name@,
        row.version@ == p.version@,
        row.status@.len() > 0 ==> p.installed is Some,
        p.desc is Some ==> row.description@ == p.desc->0@,
        p.desc is None ==> row.description@.len() == 0,
{
}

/// Repositories are listed themselves unless their packages are asked for; these come by name alone
/// where it is to be quiet, and otherwise below a heading.
pub proof fn packages_are_listed_where_asked_for(
    config: Config,
    dbs: Seq<RepoDb>,
    only: Option<Seq<char>>,
    text: Seq<char>,
)
    requires
        lists_repos(config, dbs, only, text),
        is_plain(config.color.action),
        is_plain(config.color.bold),
    ensures
        !config.list ==> text == repo_lines(config, dbs, only),
        config.list && config.quiet ==> text == all_names(dbs, only),
        config.list && !config.quiet ==> mentions(text, config.messages.available@),
{
    if config.list && !config.quiet {
        let rows = choose|rows: Seq<ListRow>| #[trigger]
            are_rows_of(config, rows, listed_pkgs(dbs, only)) && text == heading(
                config.color,
                config.messages.available@,
            ) + "\n"@ + table_of(config, rows);
        let title = config.messages.available@;
        let head = heading(config.color, title);
        let at = head.len() - title.len();
        assert(text.subrange(at, at + title.len()) =~= title);
        assert(occurs_at(text, title, at));
    }
}

pub proof fn lemma_widest_of(list: Seq<Seq<char>>, i: int)
    requires
        0 <= i < list.len(),
    ensures
        text_width(list[i]) <= widest(list),
    decreases list.len(),
{
    if i < list.len() - 1 {
        lemma_widest_of(list.drop_last(), i);
    }
}

proof fn lemma_widest_is(list: Seq<Seq<char>>)
    ensures
        widest(list) <= 0 || exists|k: int| 0 <= k < list.len() && widest(list) == text_width(#[trigger] list[k]),
    decreases list.len(),
{
    if list.len() > 0 {
        let before = list.drop_last();
        lemma_widest_is(before);
        if widest(list) == text_width(list.last()) {
            assert(list[list.len() - 1] == list.last());
        } else if widest(before) > 0 {
            let k = choose|k: int| 0 <= k < before.len() && widest(before) == text_width(
                #[trigger] before[k],
            );
            assert(list[k] == before[k]);
        }
    }
}

/// In a list names have room up to their limit, and so have repositories and versions, and the
/// states; a column is no wider than its widest cell. The description takes what the terminal
/// leaves, and never less than its least width.
pub proof fn list_columns_fit_their_cells(config: Config, rows: Seq<ListRow>, i: int)
    requires
        0 <= i < rows.len(),
    ensures
        ({
            let w = list_widths(config, rows);
            let term = match config.cols {
                Some(c) => if c < 80 {
                    80int
                } else {
                    c as int
                },
                None => 120int,
            };
            &&& w.name <= 38 && w.version <= 34 && w.status <= 18
            &&& w.name == 38 || text_width(rows[i].name@) <= w.name
            &&& w.version == 34 || text_width(rows[i].repository@ + " "@ + rows[i].version@)
                <= w.version
            &&& w.status == 18 || text_width(rows[i].status@) <= w.status
            &&& w.name == 0 || exists|k: int|
                0 <= k < rows.len() && text_width((#[trigger] rows[k]).name@) >= w.name
            &&& w.version == 0 || exists|k: int|
                0 <= k < rows.len() && text_width(
                    (#[trigger] rows[k]).repository@ + " "@ + rows[k].version@,
                ) >= w.version
            &&& w.status == 0 || exists|k: int|
                0 <= k < rows.len() && text_width((#[trigger] rows[k]).status@) >= w.status
            &&& w.description >= 12
            &&& w.description > 12 ==> w.name + 2 + w.version + 2 + w.status + 2 + w.description == term
            &&& w.description == 12 ==> w.name + 2 + w.version + 2 + w.status + 2 + w.description >= term
        }),
{
    let names = row_names(rows);
    let versions = row_versions(rows);
    let states = row_states(rows);
    lemma_widest_of(names, i);
    lemma_widest_of(versions, i);
    lemma_widest_of(states, i);
    lemma_widest_is(names);
    lemma_widest_is(versions);
    lemma_widest_is(states);
    let w = list_widths(config, rows);
    if w.name > 0 {
        let k = choose|k: int| 0 <= k < names.len() && widest(names) == text_width(#[trigger] names[k]);
        assert(text_width(rows[k].name@) >= w.name);
    }
    if w.version > 0 {
        let k = choose|k: int|
            0 <= k < versions.len() && widest(versions) == text_width(#[trigger] versions[k]);
        assert(text_width(rows[k].repository@ + " "@ + rows[k].version@) >= w.version);
    }
    if w.status > 0 {
        let k = choose|k: int|
            0 <= k < states.len() && widest(states) == text_width(#[trigger] states[k]);
        assert(text_width(rows[k].status@) >= w.status);
    }
}

/// Without colours each word of a wrapped line is there, in its place: a word that still fits stands
/// behind the separator, and any other on a line of its own, behind the indent.
pub proof fn words_that_do_not_fit_go_to_the_next_line(
    l: Layout,
    word: Seq<char>,
    rest: Seq<Seq<char>>,
    pos: int,
    sep: Seq<char>,
)
    requires
        is_plain(l.color),
        pos >= 0,
    ensures
        ({
            let n = word_length(word);
            let wide = encode_utf8(sep).len();
            let fits = pos + n <= l.cols;
            let end = if fits {
                pos + n
            } else {
                l.indent + n
            };
            let lead = if fits {
                seq![]
            } else {
                "\n"@ + repeated(' ', l.indent as nat)
            };
            &&& wrapped(l, seq![], pos, false, sep).len() == 0
            &&& wrapped(l, seq![word], pos, false, sep) == lead + word
            &&& wrapped(l, seq![word], pos, true, sep) == word
            &&& rest.len() > 0 && end + wide < l.cols ==> wrapped(
                l,
                seq![word] + rest,
                pos,
                false,
                sep,
            ) == lead + word + sep + wrapped(l, rest, end + wide, false, sep)
            &&& rest.len() > 0 && end + wide >= l.cols ==> wrapped(
                l,
                seq![word] + rest,
                pos,
                false,
                sep,
            ) == lead + word + wrapped(l, rest, end, false, sep)
        }),
{
    let words = seq![word] + rest;
    assert(words[0] == word);
    assert(words.skip(1) =~= rest);
    assert(seq![word].skip(1) =~= seq![]);
    reveal_with_fuel(wrapped, 2);
    let one = wrapped(l, seq![word], pos, false, sep);
    let n = word_length(word);
    let lead = if pos + n <= l.cols {
        Seq::<char>::empty()
    } else {
        "\n"@ + repeated(' ', l.indent as nat)
    };
    assert(one =~= lead + word);
    assert(wrapped(l, seq![word], pos, true, sep) =~= word);
    if rest.len() > 0 {
        let after = wrapped(
            l,
            rest,
            set_column(l, word, pos, false, true, sep),
            false,
            sep,
        );
        assert(wrapped(l, words, pos, false, sep) =~= lead + word + (if parted(
            l,
            column_after(l, word, pos, false),
            true,
            sep,
        ) {
            sep
        } else {
            seq![]
        }) + after);
        assert(lead + word + Seq::<char>::empty() + after =~= lead + word + after);
    }
}

/// Where the width is not known, or leaves no room beside the indent, the words come on one line.
pub proof fn words_without_room_come_on_one_line(
    color: Style,
    start: int,
    indent: int,
    cols: Option<usize>,
    sep: Seq<char>,
    words: Seq<Seq<char>>,
)
    requires
        is_plain(color),
        cols is None || cols->0 <= indent + 2,
    ensures
        indented(color, start, indent, cols, sep, words) == joined(words, sep) + "\n"@,
{
    assert(painted_all(color, words) =~= words);
}

/// Characters count for a word unless they are in a colour sequence.
pub proof fn colours_take_no_room(c: char, code: Seq<char>, rest: Seq<char>)
    ensures
        word_length(seq![]) == 0,
        c != '\x1b' ==> word_length(seq![c] + rest) == 1 + word_length(rest),
        !code.contains('m') ==> word_length("\x1b["@ + code + "m"@ + rest) == word_length(rest),
{
    let s = seq![c] + rest;
    assert(s[0] == c);
    assert(s.skip(1) =~= rest);
    reveal_strlit("\x1b[");
    reveal_strlit("m");
    let t = "\x1b["@ + code + "m"@ + rest;
    if !code.contains('m') {
        let u = t.skip(1);
        let n = 1 + code.len() as int;
        assert forall|i: int| 0 <= i < n implies crate::text::fits(
            crate::text::Run::Except('m'),
            #[trigger] u[i],
        ) by {
            if i > 0 {
                assert(u[i] == code[i - 1]);
                assert(code.contains(code[i - 1]));
            }
        }
        assert(u[n] == 'm');
        crate::text::lemma_leading_is(u, crate::text::Run::Except('m'), n);
        assert(t.skip(n + 2) =~= rest);
    }
}

/// The warning about critical packages names each of them; without any there is none.
pub proof fn critical_packages_are_warned_of(pkgs: Seq<Seq<char>>, i: int)
    requires
        0 <= i < pkgs.len(),
    ensures
        mentions(critical_warning(pkgs), pkgs[i]),
        critical_warning(seq![]).len() == 0,
{
    let all = joined(pkgs, ", "@);
    lemma_joined_mentions(pkgs, ", "@, i);
    let k = choose|k: int| occurs_at(all, pkgs[i], k);
    let lines = crate::ui::notice::critical_lines(pkgs);
    let text = critical_warning(pkgs);
    reveal_with_fuel(crate::ui::notice::warning_lines, 5);
    let a = lines[0];
    assert(lines.drop_last().drop_last().drop_last() =~= seq![a]);
    assert(lines.drop_last().drop_last() =~= seq![a, lines[1]]);
    assert(lines.drop_last() =~= seq![a, lines[1], lines[2]]);
    let head = "\x1b[33m"@ + a + "\x1b[0m"@ + "\n"@ + "\x1b[33m"@ + "   "@;
    let at = head.len() + k;
    assert(seq![a].drop_last() =~= seq![]);
    assert(text.subrange(at, at + pkgs[i].len()) =~= all.subrange(k, k + pkgs[i].len()));
    assert(occurs_at(text, pkgs[i], at));
}

/// A failed hook raises the alarm, which names it, if and only if its name, in letters of any case,
/// tells of kernels, their images or boot loaders.
pub proof fn failed_boot_hooks_raise_the_alarm(hook: Seq<char>)
    ensures
        failure_alarm(None).len() == 0,
        failure_alarm(Some(hook)).len() > 0 <==> holds(hook, "mkinitcpio"@) || holds(
            hook,
            "initramfs"@,
        ) || holds(hook, "linux"@) || holds(hook, "kernel"@) || holds(hook, "grub"@) || holds(
            hook,
            "boot"@,
        ),
        failure_alarm(Some(hook)).len() > 0 ==> mentions(failure_alarm(Some(hook)), hook),
{
    lemma_holds(hook, "mkinitcpio"@);
    lemma_holds(hook, "initramfs"@);
    lemma_holds(hook, "linux"@);
    lemma_holds(hook, "kernel"@);
    lemma_holds(hook, "grub"@);
    lemma_holds(hook, "boot"@);
    lemma_alarm_names_hook(hook);
}

proof fn lemma_alarm_names_hook(hook: Seq<char>)
    ensures
        hook_alarm(hook).len() > 0,
        mentions(hook_alarm(hook), hook),
{
    let line = crate::ui::notice::alarm("Failed hook: "@ + hook);
    let bar = crate::ui::notice::alarm(repeated('=', 70));
    let head = "\n"@ + bar + crate::ui::notice::alarm("⚠️  CRITICAL HOOK FAILURE DETECTED ⚠️"@)
        + bar + "\n"@ + crate::ui::notice::alarm("SYSTEM MAY BE UNBOOTABLE. DO NOT REBOOT."@)
        + "\n"@;
    reveal_strlit("\n");
    let text = hook_alarm(hook);
    assert(text.len() >= head.len() + line.len());
    assert(text.subrange(head.len() as int, (head.len() + line.len()) as int) =~= line);
    let a = "\x1b[1;31m"@.len() as int + "Failed hook: "@.len();
    assert(line.subrange(a, a + hook.len()) =~= hook);
    let at = head.len() + a;
    assert(text.subrange(at, at + hook.len()) =~= hook) by {
        assert forall|k: int| 0 <= k < hook.len() implies text[at + k] == hook[k] by {
            assert(text.subrange(head.len() as int, (head.len() + line.len()) as int)[a + k] == line[a
                + k]);
            assert(line.subrange(a, a + hook.len())[k] == hook[k]);
        }
    }
    assert(occurs_at(text, hook, at));
}

/// A repository has one of six colours, by a number that each byte of its name changes.
pub proof fn repositories_are_coloured_by_their_names(name: Seq<char>, bytes: Seq<u8>, b: u8)
    ensures
        name_hash(seq![]) == 5,
        name_hash(bytes.push(b)) == (17 * name_hash(bytes) + b) % 0x1_0000_0000,
        repo_colour(name) == seq![
            Colour::Blue,
            Colour::Purple,
            Colour::Cyan,
            Colour::Green,
            Colour::Yellow,
            Colour::Red,
        ][name_hash(encode_utf8(name)) as int % 6],
{
    assert(bytes.push(b).drop_last() =~= bytes);
}

/// A list of packages has a line with the names of its columns and the lines of its rows; without a
/// row there is nothing.
pub proof fn lists_have_a_header(config: Config, rows: Seq<ListRow>)
    ensures
        rows.len() == 0 ==> table_of(config, rows).len() == 0,
        rows.len() > 0 ==> {
            let w = list_widths(config, rows);
            &&& list_header(config, w).is_prefix_of(table_of(config, rows))
            &&& list_lines(config, rows, w).is_suffix_of(table_of(config, rows))
            &&& table_of(config, rows).len() == list_header(config, w).len() + list_lines(
                config,
                rows,
                w,
            ).len()
        },
{
    if rows.len() > 0 {
        let w = list_widths(config, rows);
        let (a, b, t) = (list_header(config, w), list_lines(config, rows, w), table_of(config, rows));
        assert(t.subrange(0, a.len() as int) =~= a);
        assert(t.subrange(t.len() - b.len(), t.len() as int) =~= b);
    }
}

/// Without colours the line above a list names its columns, in their order, where they fit.
pub proof fn headers_name_the_columns(config: Config, w: ListWidths)
    requires
        is_plain(config.color.field),
        0 < text_width(config.messages.name@) <= w.name,
        0 < text_width(config.messages.repo_version@) <= w.version,
        0 < text_width(config.messages.status@) <= w.status,
        0 < text_width(config.messages.description@) <= w.description,
    ensures
        list_header(config, w) == config.messages.name@ + repeated(
            ' ',
            (w.name - text_width(config.messages.name@)) as nat,
        ) + "  "@ + config.messages.repo_version@ + repeated(
            ' ',
            (w.version - text_width(config.messages.repo_version@)) as nat,
        ) + "  "@ + config.messages.status@ + repeated(
            ' ',
            (w.status - text_width(config.messages.status@)) as nat,
        ) + "  "@ + config.messages.description@ + "\n"@,
{
    assert(list_header(config, w) =~= config.messages.name@ + repeated(
        ' ',
        (w.name - text_width(config.messages.name@)) as nat,
    ) + "  "@ + config.messages.repo_version@ + repeated(
        ' ',
        (w.version - text_width(config.messages.repo_version@)) as nat,
    ) + "  "@ + config.messages.status@ + repeated(
        ' ',
        (w.status - text_width(config.messages.status@)) as nat,
    ) + "  "@ + config.messages.description@ + "\n"@);
}

} // verus!
