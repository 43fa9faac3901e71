//! Lists of packages.

use crate::config::Config;
use crate::fmt::{print_dnf_like_rows, print_section_header, ListRow};
#[allow(unused_imports)]
use crate::fmt::{list_header, list_lines, list_widths};
use crate::messages::fill;
#[allow(unused_imports)]
use crate::messages::filled;
use crate::search::find::gunzip;
#[allow(unused_imports)]
use crate::search::find::gunzipped;
use crate::style::paint_bytes;
#[allow(unused_imports)]
use crate::style::{heading, painted_bytes};
use crate::text::{chars_of, is_one_of, put, same, starts_with, string_of};
#[allow(unused_imports)]
use crate::text::{opt_str, texts};
use vstd::prelude::*;
#[allow(unused_imports)]
use vstd::utf8::encode_utf8;

verus! {

/// What a filter prints, and its exit code.
#[derive(Debug)]
pub struct FilterOutput {
    pub text: String,
    pub code: i32,
}

/// The targets that were found, one on each line, from the first `n`.
pub open spec fn found_lines(targets: Seq<String>, found: Seq<bool>, n: int) -> Seq<char>
    decreases n,
{
    if n <= 0 {
        seq![]
    } else if found[n - 1] {
        found_lines(targets, found, n - 1) + targets[n - 1]@ + "\n"@
    } else {
        found_lines(targets, found, n - 1)
    }
}

/// The exit code of a filter: zero where as many packages are known as were asked for.
pub open spec fn filter_code(targets: nat, known: usize) -> int {
    if known == targets {
        0
    } else {
        127
    }
}

/// The targets that the AUR knows. `found` tells of each whether it does, `known` is the number of
/// packages that it knows; the exit code is zero where these are as many as the targets.
pub fn filter(targets: &Vec<String>, found: &Vec<bool>, known: usize) -> (r: FilterOutput)
    requires
        found@.len() == targets@.len(),
    ensures
        r.text@ == found_lines(targets@, found@, targets@.len() as int),
        r.code == filter_code(targets@.len(), known),
{
    let mut text = String::new();
    let mut i: usize = 0;
    assert(text@ =~= seq![]);
    while i < targets.len()
        invariant
            i <= targets@.len(),
            found@.len() == targets@.len(),
            text@ == found_lines(targets@, found@, i as int),
        decreases targets.len() - i,
    {
        if found[i] {
            put(&mut text, targets[i].as_str());
            put(&mut text, "\n");
        }
        i += 1;
    }
    let code = if known == targets.len() {
        0
    } else {
        127
    };
    FilterOutput { text, code }
}

/// A part of a list. A number is the place of a target, or of a repository of build scripts.
#[derive(Debug, Clone, Copy, PartialEq, Eq, Structural)]
pub enum ListStep {
    /// All repositories.
    Repos,
    /// The repository that a target names.
    Repo(usize),
    /// The repository of build scripts at this place.
    Pkgbuilds(usize),
    /// The repository of build scripts that a target names.
    PkgbuildsNamed(usize),
    Aur,
    /// A target that names no repository.
    NotFound(usize),
}

/// What a target lists: a repository, a repository of build scripts, or the AUR, as far as such
/// sources are in use.
pub open spec fn target_step(
    config: Config,
    target: Seq<char>,
    repos: Seq<Seq<char>>,
    pkgbuilds: Seq<Seq<char>>,
    i: int,
) -> ListStep {
    if repos.contains(target) && config.mode.repo {
        ListStep::Repo(i as usize)
    } else if pkgbuilds.contains(target) && config.mode.pkgbuild {
        ListStep::PkgbuildsNamed(i as usize)
    } else if target == config.aur_namespace@ && config.mode.aur {
        ListStep::Aur
    } else {
        ListStep::NotFound(i as usize)
    }
}

/// The parts of a list: those of the targets, or, without targets, all sources that are in use.
pub open spec fn list_steps(
    config: Config,
    targets: Seq<Seq<char>>,
    repos: Seq<Seq<char>>,
    pkgbuilds: Seq<Seq<char>>,
) -> Seq<ListStep> {
    if targets.len() == 0 {
        (if config.mode.repo {
            seq![ListStep::Repos]
        } else {
            seq![]
        }) + (if config.mode.pkgbuild {
            Seq::new(pkgbuilds.len(), |i: int| ListStep::Pkgbuilds(i as usize))
        } else {
            seq![]
        }) + (if config.mode.aur {
            seq![ListStep::Aur]
        } else {
            seq![]
        })
    } else {
        Seq::new(targets.len(), |i: int| target_step(config, targets[i], repos, pkgbuilds, i))
    }
}

fn step_of_target(
    config: &Config,
    target: &str,
    repos: &Vec<String>,
    pkgbuilds: &Vec<String>,
    i: usize,
) -> (r: ListStep)
    ensures
        r == target_step(*config, target@, texts(repos@), texts(pkgbuilds@), i as int),
{
    if is_one_of(target, repos) && config.mode.repo {
        ListStep::Repo(i)
    } else if is_one_of(target, pkgbuilds) && config.mode.pkgbuild {
        ListStep::PkgbuildsNamed(i)
    } else if same(target, config.aur_namespace.as_str()) && config.mode.aur {
        ListStep::Aur
    } else {
        ListStep::NotFound(i)
    }
}

/// The parts of a list.
pub fn list(
    config: &Config,
    targets: &Vec<String>,
    repos: &Vec<String>,
    pkgbuilds: &Vec<String>,
) -> (r: Vec<ListStep>)
    ensures
        r@ == list_steps(*config, texts(targets@), texts(repos@), texts(pkgbuilds@)),
{
    let ghost all = list_steps(*config, texts(targets@), texts(repos@), texts(pkgbuilds@));
    let mut out: Vec<ListStep> = Vec::new();
    assert(texts(targets@).len() == targets@.len());
    assert(texts(pkgbuilds@).len() == pkgbuilds@.len());
    if targets.len() == 0 {
        if config.mode.repo {
            out.push(ListStep::Repos);
        }
        let ghost first = out@;
        let mut i: usize = 0;
        if config.mode.pkgbuild {
            while i < pkgbuilds.len()
                invariant
                    i <= pkgbuilds@.len(),
                    out@ =~= first + Seq::new(i as nat, |k: int| ListStep::Pkgbuilds(k as usize)),
                decreases pkgbuilds.len() - i,
            {
                out.push(ListStep::Pkgbuilds(i));
                i += 1;
            }
        }
        if config.mode.aur {
            out.push(ListStep::Aur);
        }
        assert(out@ =~= all);
    } else {
        let mut i: usize = 0;
        while i < targets.len()
            invariant
                i <= targets@.len(),
                texts(targets@).len() == targets@.len(),
                targets@.len() > 0,
                all == list_steps(*config, texts(targets@), texts(repos@), texts(pkgbuilds@)),
                out@ =~= all.take(i as int),
            decreases targets.len() - i,
        {
            out.push(step_of_target(config, targets[i].as_str(), repos, pkgbuilds, i));
            i += 1;
        }
        assert(all.take(i as int) =~= all);
    }
    out
}

/// The exit code of a list: one where a target names no repository, or the AUR could not be
/// listed.
pub open spec fn list_code(steps: Seq<ListStep>, aur_failed: bool) -> int {
    if exists|k: int|
        0 <= k < steps.len() && ((#[trigger] steps[k]) is NotFound || (aur_failed && steps[k] is Aur)) {
        1
    } else {
        0
    }
}

/// The exit code of a list.
pub fn list_exit_code(steps: &Vec<ListStep>, aur_failed: bool) -> (r: i32)
    ensures
        r == list_code(steps@, aur_failed),
{
    let mut k: usize = 0;
    while k < steps.len()
        invariant
            k <= steps@.len(),
            forall|j: int|
                0 <= j < k ==> !((#[trigger] steps@[j]) is NotFound || (aur_failed && steps@[j] is Aur)),
        decreases steps.len() - k,
    {
        let bad = match steps[k] {
            ListStep::NotFound(_) => true,
            ListStep::Aur => aur_failed,
            _ => false,
        };
        if bad {
            assert(steps@[k as int] is NotFound || (aur_failed && steps@[k as int] is Aur));
            return 1;
        }
        k += 1;
    }
    0
}

/// The report on a target that names no repository.
pub fn repository_not_found(target: &str) -> (r: String)
    ensures
        r@ == "repository \""@ + target@ + "\" was not found"@,
{
    let mut out = "repository \"".to_owned();
    put(&mut out, target);
    put(&mut out, "\" was not found");
    out
}

/// A package of a repository. `installed` is the version of the local package of that name, and
/// `same_version` tells whether the two versions are equal as versions.
#[derive(Debug, Clone)]
pub struct DbPkg {
    pub name: String,
    pub version: String,
    pub desc: Option<String>,
    pub installed: Option<String>,
    pub same_version: bool,
}

/// A repository.
#[derive(Debug, Clone)]
pub struct RepoDb {
    pub name: String,
    /// The first of its servers.
    pub server: Option<String>,
    pub pkgs: Vec<DbPkg>,
}

/// A server without the marks of local files at its start.
pub open spec fn without_file(s: Seq<char>) -> Seq<char>
    decreases s.len(),
{
    if "file://"@.len() > 0 && "file://"@.is_prefix_of(s) {
        without_file(s.skip("file://"@.len() as int))
    } else {
        s
    }
}

fn strip_file(s: &str) -> (r: String)
    ensures
        r@ == without_file(s@),
{
    proof {
        reveal_strlit("file://");
    }
    let mut rest = s.to_owned();
    while starts_with(rest.as_str(), "file://")
        invariant
            "file://"@.len() == 7,
            without_file(rest@) == without_file(s@),
        decreases rest@.len(),
    {
        let v = chars_of(rest.as_str());
        assert(v@.subrange(7, v@.len() as int) =~= v@.skip(7));
        rest = string_of(&v, 7, v.len());
    }
    rest
}

/// Whether a repository is listed.
pub open spec fn is_listed(db: RepoDb, only: Option<Seq<char>>) -> bool {
    only matches Some(name) ==> name == db.name@
}

/// The line of a repository.
pub open spec fn repo_line(config: Config, db: RepoDb) -> Seq<char> {
    if config.quiet {
        db.name@ + "\n"@
    } else {
        db.name@ + " "@ + without_file(
            match db.server {
                Some(s) => s@,
                None => seq![],
            },
        ) + "\n"@
    }
}

/// The lines of the repositories that are listed.
pub open spec fn repo_lines(config: Config, dbs: Seq<RepoDb>, only: Option<Seq<char>>) -> Seq<char>
    decreases dbs.len(),
{
    if dbs.len() == 0 {
        seq![]
    } else if is_listed(dbs.last(), only) {
        repo_lines(config, dbs.drop_last(), only) + repo_line(config, dbs.last())
    } else {
        repo_lines(config, dbs.drop_last(), only)
    }
}

/// The names of packages, one on each line.
pub open spec fn name_lines(pkgs: Seq<DbPkg>) -> Seq<char>
    decreases pkgs.len(),
{
    if pkgs.len() == 0 {
        seq![]
    } else {
        name_lines(pkgs.drop_last()) + pkgs.last().name@ + "\n"@
    }
}

/// The names of the packages of the repositories that are listed.
pub open spec fn all_names(dbs: Seq<RepoDb>, only: Option<Seq<char>>) -> Seq<char>
    decreases dbs.len(),
{
    if dbs.len() == 0 {
        seq![]
    } else if is_listed(dbs.last(), only) {
        all_names(dbs.drop_last(), only) + name_lines(dbs.last().pkgs@)
    } else {
        all_names(dbs.drop_last(), only)
    }
}

/// The status of a package in a list.
pub open spec fn list_status(config: Config, p: DbPkg) -> Seq<char> {
    match p.installed {
        None => seq![],
        Some(v) => if p.same_version {
            config.messages.installed@
        } else {
            filled(config.messages.installed_as@, v@)
        },
    }
}

/// Whether a row is that of a package.
pub open spec fn is_row_of(config: Config, row: ListRow, db: Seq<char>, p: DbPkg) -> bool {
    &&& row.repository@ == db
    &&& row.name@ == p.name@
    &&& row.version@ == p.version@
    &&& row.status@ == list_status(config, p)
    &&& row.description@ == match p.desc {
        Some(d) => d@,
        None => seq![],
    }
}

/// The packages of the repositories that are listed, each with its repository.
pub open spec fn listed_pkgs(dbs: Seq<RepoDb>, only: Option<Seq<char>>) -> Seq<(Seq<char>, DbPkg)>
    decreases dbs.len(),
{
    if dbs.len() == 0 {
        seq![]
    } else if is_listed(dbs.last(), only) {
        listed_pkgs(dbs.drop_last(), only) + dbs.last().pkgs@.map_values(
            |p: DbPkg| (dbs.last().name@, p),
        )
    } else {
        listed_pkgs(dbs.drop_last(), only)
    }
}

/// Whether rows are those of packages.
pub open spec fn are_rows_of(config: Config, rows: Seq<ListRow>, pkgs: Seq<(Seq<char>, DbPkg)>) -> bool {
    &&& rows.len() == pkgs.len()
    &&& forall|k: int|
        0 <= k < rows.len() ==> is_row_of(config, #[trigger] rows[k], pkgs[k].0, pkgs[k].1)
}

/// The text of a table of packages.
pub open spec fn table_of(config: Config, rows: Seq<ListRow>) -> Seq<char> {
    if rows.len() == 0 {
        seq![]
    } else {
        list_header(config, list_widths(config, rows)) + list_lines(
            config,
            rows,
            list_widths(config, rows),
        )
    }
}

fn is_db_listed(db: &RepoDb, only: Option<&str>) -> (r: bool)
    ensures
        r == is_listed(*db, opt_str(only)),
{
    match only {
        Some(name) => same(name, db.name.as_str()),
        None => true,
    }
}

fn lines_of_repos(config: &Config, dbs: &Vec<RepoDb>, only: Option<&str>) -> (r: String)
    ensures
        r@ == repo_lines(*config, dbs@, opt_str(only)),
{
    let mut out = String::new();
    let mut i: usize = 0;
    assert(dbs@.take(0) =~= seq![]);
    assert(out@ =~= seq![]);
    while i < dbs.len()
        invariant
            i <= dbs@.len(),
            out@ == repo_lines(*config, dbs@.take(i as int), opt_str(only)),
        decreases dbs.len() - i,
    {
        assert(dbs@.take(i + 1).drop_last() =~= dbs@.take(i as int));
        let db = &dbs[i];
        if is_db_listed(db, only) {
            let mut line = db.name.clone();
            if !config.quiet {
                let server = match &db.server {
                    Some(s) => s.clone(),
                    None => {
                        let none = String::new();
                        assert(none@ =~= seq![]);
                        none
                    },
                };
                put(&mut line, " ");
                put(&mut line, strip_file(server.as_str()).as_str());
            }
            put(&mut line, "\n");
            put(&mut out, line.as_str());
        }
        i += 1;
    }
    assert(dbs@.take(i as int) =~= dbs@);
    out
}

fn names_of_db(pkgs: &Vec<DbPkg>) -> (r: String)
    ensures
        r@ == name_lines(pkgs@),
{
    let mut out = String::new();
    let mut i: usize = 0;
    assert(pkgs@.take(0) =~= seq![]);
    assert(out@ =~= seq![]);
    while i < pkgs.len()
        invariant
            i <= pkgs@.len(),
            out@ == name_lines(pkgs@.take(i as int)),
        decreases pkgs.len() - i,
    {
        assert(pkgs@.take(i + 1).drop_last() =~= pkgs@.take(i as int));
        put(&mut out, pkgs[i].name.as_str());
        put(&mut out, "\n");
        i += 1;
    }
    assert(pkgs@.take(i as int) =~= pkgs@);
    out
}

fn names_of_repos(dbs: &Vec<RepoDb>, only: Option<&str>) -> (r: String)
    ensures
        r@ == all_names(dbs@, opt_str(only)),
{
    let mut out = String::new();
    let mut i: usize = 0;
    assert(dbs@.take(0) =~= seq![]);
    assert(out@ =~= seq![]);
    while i < dbs.len()
        invariant
            i <= dbs@.len(),
            out@ == all_names(dbs@.take(i as int), opt_str(only)),
        decreases dbs.len() - i,
    {
        assert(dbs@.take(i + 1).drop_last() =~= dbs@.take(i as int));
        if is_db_listed(&dbs[i], only) {
            put(&mut out, names_of_db(&dbs[i].pkgs).as_str());
        }
        i += 1;
    }
    assert(dbs@.take(i as int) =~= dbs@);
    out
}

fn row_of_pkg(config: &Config, db: &str, p: &DbPkg) -> (r: ListRow)
    ensures
        is_row_of(*config, r, db@, *p),
{
    let status = match &p.installed {
        None => {
            let none = String::new();
            assert(none@ =~= seq![]);
            none
        },
        Some(v) => if p.same_version {
            config.messages.installed.clone()
        } else {
            fill(config.messages.installed_as.as_str(), v.as_str())
        },
    };
    let description = match &p.desc {
        Some(d) => d.clone(),
        None => {
            let none = String::new();
            assert(none@ =~= seq![]);
            none
        },
    };
    ListRow {
        repository: db.to_owned(),
        name: p.name.clone(),
        version: p.version.clone(),
        status,
        description,
    }
}

fn push_rows(rows: &mut Vec<ListRow>, config: &Config, db: &RepoDb, so_far: Ghost<Seq<(Seq<char>, DbPkg)>>)
    requires
        are_rows_of(*config, old(rows)@, so_far@),
    ensures
        are_rows_of(
            *config,
            final(rows)@,
            so_far@ + db.pkgs@.map_values(|p: DbPkg| (db.name@, p)),
        ),
{
    let ghost all = db.pkgs@.map_values(|p: DbPkg| (db.name@, p));
    let mut i: usize = 0;
    assert(so_far@ + all.take(0) =~= so_far@);
    while i < db.pkgs.len()
        invariant
            i <= db.pkgs@.len(),
            all == db.pkgs@.map_values(|p: DbPkg| (db.name@, p)),
            are_rows_of(*config, rows@, so_far@ + all.take(i as int)),
        decreases db.pkgs.len() - i,
    {
        let ghost before = rows@;
        rows.push(row_of_pkg(config, db.name.as_str(), &db.pkgs[i]));
        assert(so_far@ + all.take(i + 1) =~= (so_far@ + all.take(i as int)).push(all[i as int]));
        assert forall|k: int| 0 <= k < rows@.len() implies is_row_of(
            *config,
            #[trigger] rows@[k],
            (so_far@ + all.take(i + 1))[k].0,
            (so_far@ + all.take(i + 1))[k].1,
        ) by {
            if k < before.len() {
                assert(rows@[k] == before[k]);
            }
        }
        i += 1;
    }
    assert(all.take(i as int) =~= all);
}

/// The rows of the packages of the repositories that are listed.
pub fn list_rows(config: &Config, dbs: &Vec<RepoDb>, only: Option<&str>) -> (r: Vec<ListRow>)
    ensures
        are_rows_of(*config, r@, listed_pkgs(dbs@, opt_str(only))),
{
    let mut rows: Vec<ListRow> = Vec::new();
    let mut i: usize = 0;
    assert(dbs@.take(0) =~= seq![]);
    while i < dbs.len()
        invariant
            i <= dbs@.len(),
            are_rows_of(*config, rows@, listed_pkgs(dbs@.take(i as int), opt_str(only))),
        decreases dbs.len() - i,
    {
        assert(dbs@.take(i + 1).drop_last() =~= dbs@.take(i as int));
        let ghost so_far = listed_pkgs(dbs@.take(i as int), opt_str(only));
        if is_db_listed(&dbs[i], only) {
            push_rows(&mut rows, config, &dbs[i], Ghost(so_far));
        }
        i += 1;
    }
    assert(dbs@.take(i as int) =~= dbs@);
    rows
}

/// Whether this is printed of repositories.
pub open spec fn lists_repos(
    config: Config,
    dbs: Seq<RepoDb>,
    only: Option<Seq<char>>,
    text: Seq<char>,
) -> bool {
    &&& !config.list ==> text == repo_lines(config, dbs, only)
    &&& config.list && config.quiet ==> text == all_names(dbs, only)
    &&& config.list && !config.quiet ==> exists|rows: Seq<ListRow>| #[trigger]
        are_rows_of(config, rows, listed_pkgs(dbs, only)) && text == heading(
            config.color,
            config.messages.available@,
        ) + "\n"@ + table_of(config, rows)
}

/// What is printed of repositories: the repositories themselves, or, where packages are listed,
/// their packages. Only the repository `only`, where there is one.
pub fn list_repo_dbs(config: &Config, dbs: &Vec<RepoDb>, only: Option<&str>) -> (r: String)
    ensures
        lists_repos(*config, dbs@, opt_str(only), r@),
{
    if !config.list {
        return lines_of_repos(config, dbs, only);
    }
    if config.quiet {
        return names_of_repos(dbs, only);
    }
    let rows = list_rows(config, dbs, only);
    let mut out = print_section_header(config, config.messages.available.as_str());
    put(&mut out, print_dnf_like_rows(config, &rows).as_str());
    assert(rows@.len() == 0 ==> table_of(*config, rows@) =~= seq![]);
    out
}

/// The line of a package by its name, in bytes.
pub open spec fn pkg_line(
    config: Config,
    name: Seq<u8>,
    repo: Seq<char>,
    version: Seq<char>,
    installed: bool,
) -> Seq<u8> {
    let c = config.color;
    if config.args.given("q"@, "quiet"@) {
        name + seq![10u8]
    } else {
        painted_bytes(c.sl_repo, encode_utf8(repo)) + seq![32u8] + painted_bytes(c.sl_pkg, name)
            + seq![32u8] + painted_bytes(c.sl_version, encode_utf8(version)) + (if installed {
            painted_bytes(c.sl_installed, encode_utf8(config.messages.line_installed@))
        } else {
            seq![]
        }) + seq![10u8]
    }
}

fn put_bytes(out: &mut Vec<u8>, bytes: &[u8])
    ensures
        final(out)@ == old(out)@ + bytes@,
{
    out.extend_from_slice(bytes);
    assert(out@ =~= old(out)@ + bytes@);
}

fn put_byte(out: &mut Vec<u8>, byte: u8)
    ensures
        final(out)@ == old(out)@ + seq![byte],
{
    out.push(byte);
    assert(out@ =~= old(out)@ + seq![byte]);
}

/// The line of a package by its name, in bytes.
pub fn print_pkg(config: &Config, line: &[u8], repo: &str, version: &str, installed: bool) -> (r: Vec<u8>)
    ensures
        r@ == pkg_line(*config, line@, repo@, version@, installed),
{
    let c = &config.color;
    let mut out: Vec<u8> = Vec::new();
    if config.args.has_arg("q", "quiet") {
        put_bytes(&mut out, line);
        put_byte(&mut out, 10);
        assert(out@ =~= line@ + seq![10u8]);
        return out;
    }
    put_bytes(&mut out, paint_bytes(c.sl_repo, repo.as_bytes()).as_slice());
    assert(out@ =~= painted_bytes(c.sl_repo, encode_utf8(repo@)));
    put_byte(&mut out, 32);
    put_bytes(&mut out, paint_bytes(c.sl_pkg, line).as_slice());
    put_byte(&mut out, 32);
    put_bytes(&mut out, paint_bytes(c.sl_version, version.as_bytes()).as_slice());
    if installed {
        let mark = paint_bytes(c.sl_installed, config.messages.line_installed.as_str().as_bytes());
        put_bytes(&mut out, mark.as_slice());
    } else {
        assert(out@ + seq![] =~= out@);
    }
    put_byte(&mut out, 10);
    out
}

/// A package of a repository of build scripts, as it is listed.
#[derive(Debug, Clone)]
pub struct ListedPkg {
    pub name: String,
    pub version: String,
    pub installed: bool,
}

/// The lines of the packages of a repository of build scripts.
pub open spec fn pkgbuild_lines(config: Config, repo: Seq<char>, pkgs: Seq<ListedPkg>) -> Seq<u8>
    decreases pkgs.len(),
{
    if pkgs.len() == 0 {
        seq![]
    } else {
        pkgbuild_lines(config, repo, pkgs.drop_last()) + pkg_line(
            config,
            encode_utf8(pkgs.last().name@),
            repo,
            pkgs.last().version@,
            pkgs.last().installed,
        )
    }
}

/// What is printed of a repository of build scripts.
pub fn list_pkgbuilds(config: &Config, repo: &str, pkgs: &Vec<ListedPkg>) -> (r: Vec<u8>)
    ensures
        r@ == pkgbuild_lines(*config, repo@, pkgs@),
{
    let mut out: Vec<u8> = Vec::new();
    let mut i: usize = 0;
    assert(pkgs@.take(0) =~= seq![]);
    assert(out@ =~= seq![]);
    while i < pkgs.len()
        invariant
            i <= pkgs@.len(),
            out@ == pkgbuild_lines(*config, repo@, pkgs@.take(i as int)),
        decreases pkgs.len() - i,
    {
        assert(pkgs@.take(i + 1).drop_last() =~= pkgs@.take(i as int));
        let p = &pkgs[i];
        let line = print_pkg(
            config,
            p.name.as_str().as_bytes(),
            repo,
            p.version.as_str(),
            p.installed,
        );
        put_bytes(&mut out, line.as_slice());
        i += 1;
    }
    assert(pkgs@.take(i as int) =~= pkgs@);
    out
}

/// How many bytes come before the first end of a line.
pub open spec fn line_end(s: Seq<u8>) -> int
    decreases s.len(),
{
    if s.len() == 0 || s[0] == 10 {
        0
    } else {
        1 + line_end(s.skip(1))
    }
}

pub proof fn lemma_line_end(s: Seq<u8>)
    ensures
        0 <= line_end(s) <= s.len(),
        forall|i: int| 0 <= i < line_end(s) ==> #[trigger] s[i] != 10,
        line_end(s) < s.len() ==> s[line_end(s)] == 10,
    decreases s.len(),
{
    if s.len() > 0 && s[0] != 10 {
        lemma_line_end(s.skip(1));
        assert forall|i: int| 0 <= i < line_end(s) implies #[trigger] s[i] != 10 by {
            if i > 0 {
                assert(s[i] == s.skip(1)[i - 1]);
            }
        }
    }
}

/// The lines of bytes that are not empty.
pub open spec fn byte_lines(s: Seq<u8>) -> Seq<Seq<u8>>
    decreases s.len(),
{
    if s.len() == 0 {
        seq![]
    } else {
        let n = line_end(s);
        proof {
            lemma_line_end(s);
        }
        let rest = if n < s.len() {
            byte_lines(s.skip(n + 1))
        } else {
            seq![]
        };
        if n == 0 {
            rest
        } else {
            seq![s.take(n)] + rest
        }
    }
}

/// The bytes of a list of byte strings.
pub open spec fn byte_views(list: Seq<Vec<u8>>) -> Seq<Seq<u8>> {
    list.map_values(|v: Vec<u8>| v@)
}

fn copy_bytes(bytes: &Vec<u8>, from: usize, to: usize) -> (r: Vec<u8>)
    requires
        from <= to <= bytes@.len(),
    ensures
        r@ == bytes@.subrange(from as int, to as int),
{
    let mut out: Vec<u8> = Vec::new();
    let mut i: usize = from;
    while i < to
        invariant
            from <= i <= to <= bytes@.len(),
            out@ =~= bytes@.subrange(from as int, i as int),
        decreases to - i,
    {
        out.push(bytes[i]);
        i += 1;
    }
    out
}

fn find_line_end(bytes: &Vec<u8>, from: usize) -> (r: usize)
    requires
        from <= bytes@.len(),
    ensures
        from <= r <= bytes@.len(),
        r - from == line_end(bytes@.skip(from as int)),
{
    let ghost rest = bytes@.skip(from as int);
    let mut i: usize = from;
    while i < bytes.len() && bytes[i] != 10
        invariant
            from <= i <= bytes@.len(),
            rest == bytes@.skip(from as int),
            forall|k: int| 0 <= k < i - from ==> #[trigger] rest[k] != 10,
        decreases bytes.len() - i,
    {
        assert(rest[i - from] == bytes@[i as int]);
        i += 1;
    }
    proof {
        lemma_line_end(rest);
        let n = line_end(rest);
        if n < i - from {
            assert(rest[n] != 10);
        } else if i - from < n {
            assert(rest[i - from] == bytes@[i as int]);
        }
    }
    i
}

/// The lines of bytes that are not empty.
pub fn split_lines(bytes: &Vec<u8>) -> (r: Vec<Vec<u8>>)
    ensures
        byte_views(r@) == byte_lines(bytes@),
{
    let mut out: Vec<Vec<u8>> = Vec::new();
    let mut i: usize = 0;
    assert(bytes@.skip(0) =~= bytes@);
    assert(byte_views(out@) =~= seq![]);
    assert(byte_views(out@) + byte_lines(bytes@) =~= byte_lines(bytes@));
    while i < bytes.len()
        invariant
            i <= bytes@.len(),
            byte_views(out@) + byte_lines(bytes@.skip(i as int)) == byte_lines(bytes@),
        decreases bytes.len() - i,
    {
        let ghost rest = bytes@.skip(i as int);
        let ghost so_far = out@;
        let end = find_line_end(bytes, i);
        proof {
            lemma_line_end(rest);
            assert(rest.take(end - i) =~= bytes@.subrange(i as int, end as int));
            if end < bytes@.len() {
                assert(rest.skip(end - i + 1) =~= bytes@.skip(end + 1));
            } else {
                assert(bytes@.skip(end as int) =~= seq![]);
            }
        }
        if end > i {
            out.push(copy_bytes(bytes, i, end));
            assert(byte_views(out@) =~= byte_views(so_far).push(rest.take(end - i)));
        }
        let ghost tail = if end < bytes@.len() {
            byte_lines(bytes@.skip(end + 1))
        } else {
            seq![]
        };
        assert(byte_views(out@) + tail =~= byte_views(so_far) + byte_lines(rest));
        if end < bytes.len() {
            i = end + 1;
        } else {
            i = end;
        }
    }
    assert(bytes@.skip(i as int) =~= seq![]);
    assert(byte_views(out@) + seq![] =~= byte_views(out@));
    out
}

/// The names in the packed list of the packages of the AUR; a report where it is damaged.
pub fn aur_names(config: &Config, data: &[u8]) -> (r: Result<Vec<Vec<u8>>, String>)
    ensures
        match gunzipped(data@) {
            Some(bytes) => r matches Ok(names) && byte_views(names@) == byte_lines(bytes),
            None => r matches Err(e) && e@ == config.messages.list_not_decoded@,
        },
{
    match gunzip(data) {
        Some(bytes) => Ok(split_lines(&bytes)),
        None => Err(config.messages.list_not_decoded.clone()),
    }
}

/// The lines of packages of the AUR, from the first `n` names.
pub open spec fn aur_lines(config: Config, names: Seq<Vec<u8>>, installed: Seq<bool>, n: int) -> Seq<u8>
    decreases n,
{
    if n <= 0 {
        seq![]
    } else {
        aur_lines(config, names, installed, n - 1) + pkg_line(
            config,
            names[n - 1]@,
            "aur"@,
            "unknown-version"@,
            installed[n - 1],
        )
    }
}

/// What is printed of the AUR. `installed` tells of each name whether it is installed.
pub fn list_aur(config: &Config, names: &Vec<Vec<u8>>, installed: &Vec<bool>) -> (r: Vec<u8>)
    requires
        installed@.len() == names@.len(),
    ensures
        r@ == aur_lines(*config, names@, installed@, names@.len() as int),
{
    let mut out: Vec<u8> = Vec::new();
    let mut i: usize = 0;
    assert(out@ =~= seq![]);
    while i < names.len()
        invariant
            i <= names@.len(),
            installed@.len() == names@.len(),
            out@ == aur_lines(*config, names@, installed@, i as int),
        decreases names.len() - i,
    {
        let line = print_pkg(
            config,
            names[i].as_slice(),
            "aur",
            "unknown-version",
            installed[i],
        );
        put_bytes(&mut out, line.as_slice());
        i += 1;
    }
    out
}

} // verus!
