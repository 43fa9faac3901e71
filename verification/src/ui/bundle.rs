//! The rows and sums of the preview of an installation or a removal.

use crate::config::Config;
#[allow(unused_imports)]
use crate::fmt::{max, min};
use crate::order::{key_of_pair, stable_order};
#[allow(unused_imports)]
use crate::order::{key_views, order_of, pair_key, places};
use crate::text::{
    contains, is_blank, is_one_of, lines_of, put, same, starts_with, text_of_bytes, trim,
};
#[allow(unused_imports)]
use crate::text::{lines, lossy_text, mentions, opt_text, texts, trimmed};
use crate::ui::preview::{format_bytes_u64, v_label, version_plain};
#[allow(unused_imports)]
use crate::ui::preview::{previewable, size_text, version_label, version_step};
#[allow(unused_imports)]
use crate::ui::table::presentable;
use crate::ui::table::{
    ConfirmationRow, ConfirmationTable, InstallConfirmTotals, TxActionKind, TxConfirmOp,
    TxRowGroup, TxRowPaint, TxSourceKind,
};
use vstd::prelude::*;

verus! {

/// A package that is built, from the AUR or from a repository of build scripts.
#[derive(Debug, Clone)]
pub struct BuildPkg {
    pub name: String,
    /// The version of the package base.
    pub version: String,
    pub description: Option<String>,
    /// The version that is installed now.
    pub installed: Option<String>,
    /// It was asked for, and is no dependency.
    pub target: bool,
}

/// Packages that are built together.
#[derive(Debug, Clone)]
pub struct BuildBase {
    pub pkgs: Vec<BuildPkg>,
}

/// A package of the local database.
#[derive(Debug, Clone)]
pub struct LocalPkg {
    pub name: String,
    pub version: String,
    pub isize: i64,
    pub desc: Option<String>,
}

/// A package that is installed from a repository.
#[derive(Debug, Clone)]
pub struct RepoPkg {
    pub name: String,
    pub db: String,
    pub version: String,
    pub download_size: i64,
    pub isize: i64,
    pub desc: Option<String>,
    /// The start of its changelog, where it has one that can be read.
    pub changelog: Option<Vec<u8>>,
    /// The package of that name in the local database.
    pub local: Option<LocalPkg>,
    pub target: bool,
}

/// What a transaction builds and installs.
#[derive(Debug, Clone)]
pub struct Actions {
    pub build: Vec<BuildBase>,
    pub install: Vec<RepoPkg>,
}

/// A file in a package cache; what cannot be read of it is left out.
#[derive(Debug, Clone)]
pub struct CacheEntry {
    pub name: Option<String>,
    pub size: Option<i64>,
}

/// A package cache; it has no entries where it cannot be read.
#[derive(Debug, Clone)]
pub struct CacheDir {
    pub entries: Option<Vec<CacheEntry>>,
}

/// What a row shows.
pub struct RowModel {
    pub cells: Seq<Seq<char>>,
    pub action: TxActionKind,
    pub source: TxSourceKind,
    pub old: Seq<char>,
    pub new: Seq<char>,
    pub group: TxRowGroup,
}

/// Whether a row shows what the model says.
pub open spec fn shows(row: ConfirmationRow, m: RowModel) -> bool {
    &&& texts(row.cells@) == m.cells
    &&& row.tx matches Some(p) && p.action == m.action && p.source == m.source && p.old_ver@ == m.old
        && p.new_ver@ == m.new
    &&& row.group == Some(m.group)
}

/// Whether rows show what the models say.
pub open spec fn shows_all(rows: Seq<ConfirmationRow>, models: Seq<RowModel>) -> bool {
    &&& rows.len() == models.len()
    &&& forall|k: int| 0 <= k < rows.len() ==> shows(#[trigger] rows[k], models[k])
}

/// What is done with a package whose installed version, if any, is `old`.
pub open spec fn action_for(old: Seq<char>, new: Seq<char>) -> TxActionKind {
    if old.len() == 0 || old == new {
        TxActionKind::Install
    } else {
        TxActionKind::Upgrade
    }
}

/// What is done with a package.
pub fn repo_tx_action(old: Option<&str>, new: &str) -> (r: TxActionKind)
    ensures
        r == (match old {
            Some(o) => action_for(o@, new@),
            None => TxActionKind::Install,
        }),
{
    match old {
        None => TxActionKind::Install,
        Some(o) => {
            if is_blank(o) || same(o, new) {
                TxActionKind::Install
            } else {
                TxActionKind::Upgrade
            }
        },
    }
}

/// The cell for the versions.
pub open spec fn version_cell_plain(old: Seq<char>, new: Seq<char>) -> Seq<char> {
    match action_for(old, new) {
        TxActionKind::Install => version_label(new),
        _ => version_step(old, new),
    }
}

/// The cell for a size; there is none for what is built.
pub open spec fn download_cell(config: Config, n: Option<i64>) -> Seq<char> {
    match n {
        None => config.messages.build@,
        Some(x) => if x <= 0 {
            "—"@
        } else {
            size_text(x as nat)
        },
    }
}

/// The cell for a size.
pub fn format_download_cell(config: &Config, n: Option<i64>) -> (r: String)
    ensures
        r@ == download_cell(*config, n),
{
    match n {
        None => config.messages.build.clone(),
        Some(x) => if x <= 0 {
            "—".to_owned()
        } else {
            format_bytes_u64(x as u64)
        },
    }
}

/// The first line that is not blank, without blanks around it.
pub open spec fn first_line(list: Seq<Seq<char>>) -> Option<Seq<char>>
    decreases list.len(),
{
    if list.len() == 0 {
        None
    } else if trimmed(list[0]).len() > 0 {
        Some(trimmed(list[0]))
    } else {
        first_line(list.skip(1))
    }
}

/// The first line of a changelog.
pub fn read_first_changelog_line(changelog: &Option<Vec<u8>>) -> (r: Option<String>)
    ensures
        opt_text(r) == (match *changelog {
            Some(bytes) => if bytes@.len() == 0 {
                None
            } else {
                first_line(lines(lossy_text(bytes@)))
            },
            None => None,
        }),
{
    match changelog {
        None => None,
        Some(bytes) => {
            if bytes.len() == 0 {
                return None;
            }
            first_line_of(text_of_bytes(bytes.as_slice()).as_str())
        },
    }
}

/// The first line of a text that is not blank, without blanks around it.
pub fn first_line_of(text: &str) -> (r: Option<String>)
    ensures
        opt_text(r) == first_line(lines(text@)),
{
    let list = lines_of(text);
    let ghost all = texts(list@);
    let mut i: usize = 0;
    assert(all.skip(0) =~= all);
    while i < list.len()
        invariant
            i <= list.len(),
            all == texts(list@),
            all == lines(text@),
            first_line(all) == first_line(all.skip(i as int)),
        decreases list.len() - i,
    {
        assert(all.skip(i as int)[0] == list@[i as int]@);
        assert(all.skip(i as int).skip(1) =~= all.skip(i + 1));
        let line = trim(list[i].as_str());
        if !is_blank(line.as_str()) {
            return Some(line);
        }
        i += 1;
    }
    assert(all.skip(i as int) =~= seq![]);
    None
}

/// The detail of a package: the first line of its changelog, or its description.
pub open spec fn detail_of(p: RepoPkg) -> Seq<char> {
    let first = match p.changelog {
        Some(bytes) => if bytes@.len() == 0 {
            None
        } else {
            first_line(lines(lossy_text(bytes@)))
        },
        None => None,
    };
    match (first, opt_text(p.desc)) {
        (Some(line), _) => line,
        (None, Some(desc)) => desc,
        (None, None) => seq![],
    }
}

fn latest_changelog_or_desc(p: &RepoPkg) -> (r: String)
    ensures
        r@ == detail_of(*p),
{
    match (read_first_changelog_line(&p.changelog), &p.desc) {
        (Some(line), _) => line,
        (None, Some(desc)) => desc.clone(),
        (None, None) => {
            let none = String::new();
            assert(none@ =~= seq![]);
            none
        },
    }
}

/// Whether a file of a cache is a package with this prefix.
pub open spec fn is_package_file(name: Seq<char>, prefix: Seq<char>) -> bool {
    prefix.is_prefix_of(name) && mentions(name, ".pkg.tar"@)
}

/// The largest size among the package files of a cache; none where something that matters
/// cannot be read. `best` is the largest so far.
pub open spec fn scanned(entries: Seq<CacheEntry>, prefix: Seq<char>, best: Option<i64>) -> Option<i64>
    decreases entries.len(),
{
    if entries.len() == 0 {
        best
    } else {
        match (entries[0].name, entries[0].size) {
            (None, _) => None,
            (Some(name), size) => if !is_package_file(name@, prefix) {
                scanned(entries.skip(1), prefix, best)
            } else {
                match size {
                    None => None,
                    Some(n) => scanned(
                        entries.skip(1),
                        prefix,
                        Some(
                            max(
                                match best {
                                    Some(b) => b as int,
                                    None => 0,
                                },
                                n as int,
                            ) as i64,
                        ),
                    ),
                }
            },
        }
    }
}

/// The size of a cached package: that of the first cache that has it.
pub open spec fn cached_size(dirs: Seq<CacheDir>, prefix: Seq<char>) -> Option<i64>
    decreases dirs.len(),
{
    if dirs.len() == 0 {
        None
    } else {
        let here = match dirs[0].entries {
            Some(entries) => scanned(entries@, prefix, None),
            None => None,
        };
        if here is Some {
            here
        } else {
            cached_size(dirs.skip(1), prefix)
        }
    }
}

fn scan_dir(entries: &Vec<CacheEntry>, prefix: &str) -> (r: Option<i64>)
    ensures
        r == scanned(entries@, prefix@, None),
{
    let mut best: Option<i64> = None;
    let mut i: usize = 0;
    assert(entries@.skip(0) =~= entries@);
    while i < entries.len()
        invariant
            i <= entries.len(),
            scanned(entries@, prefix@, None) == scanned(entries@.skip(i as int), prefix@, best),
        decreases entries.len() - i,
    {
        assert(entries@.skip(i as int).skip(1) =~= entries@.skip(i + 1));
        match &entries[i].name {
            None => {
                return None;
            },
            Some(name) => {
                if starts_with(name.as_str(), prefix) && contains(name.as_str(), ".pkg.tar") {
                    match entries[i].size {
                        None => {
                            return None;
                        },
                        Some(n) => {
                            let so_far: i64 = match best {
                                Some(b) => b,
                                None => 0,
                            };
                            best = Some(
                                if so_far > n {
                                    so_far
                                } else {
                                    n
                                },
                            );
                        },
                    }
                }
            },
        }
        i += 1;
    }
    assert(entries@.skip(i as int) =~= seq![]);
    best
}

/// The prefix of the package files of a version.
pub open spec fn package_prefix(name: Seq<char>, ver: Seq<char>) -> Seq<char> {
    name + "-"@ + ver + "-"@
}

/// The size of a cached package.
pub fn aur_cached_pkg_size(dirs: &Vec<CacheDir>, name: &str, ver: &str) -> (r: Option<i64>)
    ensures
        r == cached_size(dirs@, package_prefix(name@, ver@)),
{
    let mut prefix = name.to_owned();
    put(&mut prefix, "-");
    put(&mut prefix, ver);
    put(&mut prefix, "-");
    let mut i: usize = 0;
    assert(dirs@.skip(0) =~= dirs@);
    while i < dirs.len()
        invariant
            i <= dirs.len(),
            prefix@ == package_prefix(name@, ver@),
            cached_size(dirs@, prefix@) == cached_size(dirs@.skip(i as int), prefix@),
        decreases dirs.len() - i,
    {
        assert(dirs@.skip(i as int).skip(1) =~= dirs@.skip(i + 1));
        match &dirs[i].entries {
            Some(entries) => {
                let here = scan_dir(entries, prefix.as_str());
                if here.is_some() {
                    return here;
                }
            },
            None => {},
        }
        i += 1;
    }
    assert(dirs@.skip(i as int) =~= seq![]);
    None
}

/// The text of an optional text, empty where there is none.
pub open spec fn or_empty(s: Option<Seq<char>>) -> Seq<char> {
    match s {
        Some(t) => t,
        None => seq![],
    }
}

fn text_or_empty(s: &Option<String>) -> (r: String)
    ensures
        r@ == or_empty(opt_text(*s)),
{
    match s {
        Some(t) => t.clone(),
        None => {
            let none = String::new();
            assert(none@ =~= seq![]);
            none
        },
    }
}

pub open spec fn group_for(target: bool) -> TxRowGroup {
    if target {
        TxRowGroup::Target
    } else {
        TxRowGroup::Dependency
    }
}

/// The version that a build gives: packages under development have none yet.
pub open spec fn build_version(p: BuildPkg, devel: Seq<Seq<char>>) -> Seq<char> {
    if devel.contains(p.name@) {
        "latest-commit"@
    } else {
        p.version@
    }
}

/// The row for a package that is built.
pub open spec fn build_model(
    config: Config,
    p: BuildPkg,
    devel: Seq<Seq<char>>,
    caches: Seq<CacheDir>,
) -> RowModel {
    let new = build_version(p, devel);
    let old = or_empty(opt_text(p.installed));
    RowModel {
        cells: seq![
            p.name@,
            version_cell_plain(old, new),
            download_cell(config, cached_size(caches, package_prefix(p.name@, new))),
            or_empty(opt_text(p.description)),
        ],
        action: action_for(old, new),
        source: TxSourceKind::Aur,
        old,
        new,
        group: group_for(p.target),
    }
}

/// The rows for packages that are built together.
pub open spec fn base_models(
    config: Config,
    pkgs: Seq<BuildPkg>,
    devel: Seq<Seq<char>>,
    caches: Seq<CacheDir>,
) -> Seq<RowModel> {
    pkgs.map_values(|p: BuildPkg| build_model(config, p, devel, caches))
}

/// The rows for everything that is built.
pub open spec fn build_models(
    config: Config,
    bases: Seq<BuildBase>,
    devel: Seq<Seq<char>>,
    caches: Seq<CacheDir>,
) -> Seq<RowModel>
    decreases bases.len(),
{
    if bases.len() == 0 {
        seq![]
    } else {
        build_models(config, bases.drop_last(), devel, caches) + base_models(
            config,
            bases.last().pkgs@,
            devel,
            caches,
        )
    }
}

/// The row for a package from a repository.
pub open spec fn repo_model(config: Config, p: RepoPkg) -> RowModel {
    let old = match p.local {
        Some(l) => l.version@,
        None => seq![],
    };
    RowModel {
        cells: seq![
            p.name@,
            version_cell_plain(old, p.version@),
            download_cell(config, Some(p.download_size)),
            detail_of(p),
        ],
        action: action_for(old, p.version@),
        source: TxSourceKind::Repo,
        old,
        new: p.version@,
        group: group_for(p.target),
    }
}

/// The keys by which packages from repositories are ordered: their names, then their
/// repositories.
pub open spec fn install_keys(pkgs: Seq<RepoPkg>) -> Seq<Seq<i128>> {
    pkgs.map_values(|p: RepoPkg| pair_key(p.name@, p.db@))
}

/// The rows for the packages from repositories, in order.
pub open spec fn repo_models(config: Config, pkgs: Seq<RepoPkg>) -> Seq<RowModel> {
    order_of(install_keys(pkgs)).map_values(|i: int| repo_model(config, pkgs[i]))
}

/// The download sizes, added up.
pub open spec fn download_sum(pkgs: Seq<RepoPkg>) -> int
    decreases pkgs.len(),
{
    if pkgs.len() == 0 {
        0
    } else {
        download_sum(pkgs.drop_last()) + max(pkgs.last().download_size as int, 0)
    }
}

/// By how much a package changes the installed size.
pub open spec fn disk_delta(p: RepoPkg) -> int {
    p.isize - (match p.local {
        Some(l) => l.isize as int,
        None => 0,
    })
}

/// By how much the packages change the installed size.
pub open spec fn disk_sum(pkgs: Seq<RepoPkg>) -> int
    decreases pkgs.len(),
{
    if pkgs.len() == 0 {
        0
    } else {
        disk_sum(pkgs.drop_last()) + disk_delta(pkgs.last())
    }
}

/// Whether two numbers are the same where counting starts anew after the last number of 64 bits.
pub open spec fn same_in_64_bits(a: int, b: int) -> bool {
    (a - b) % 0x1_0000_0000_0000_0000 == 0
}

/// The table of changes with these columns and rows.
pub open spec fn is_change_table(
    config: Config,
    t: ConfirmationTable,
    headers: Seq<Seq<char>>,
    models: Seq<RowModel>,
) -> bool {
    &&& t.title@ == config.messages.package_changes@
    &&& texts(t.headers@) == headers
    &&& shows_all(t.rows@, models)
}

fn row_of(
    name: &str,
    old: String,
    new: String,
    download: String,
    detail: String,
    source: TxSourceKind,
    target: bool,
) -> (r: ConfirmationRow)
    ensures
        shows(
            r,
            (RowModel {
                cells: seq![name@, version_cell_plain(old@, new@), download@, detail@],
                action: action_for(old@, new@),
                source,
                old: old@,
                new: new@,
                group: group_for(target),
            }),
        ),
        r.cells@.len() == 4,
{
    let known = if is_blank(old.as_str()) {
        None
    } else {
        Some(old.as_str())
    };
    let action = repo_tx_action(known, new.as_str());
    let version = match action {
        TxActionKind::Install => v_label(new.as_str()),
        _ => version_plain(old.as_str(), new.as_str()),
    };
    let mut cells: Vec<String> = Vec::new();
    cells.push(name.to_owned());
    cells.push(version);
    cells.push(download);
    cells.push(detail);
    assert(texts(cells@) =~= seq![name@, version_cell_plain(old@, new@), download@, detail@]);
    let group = if target {
        TxRowGroup::Target
    } else {
        TxRowGroup::Dependency
    };
    ConfirmationRow {
        cells,
        tx: Some(TxRowPaint { action, source, old_ver: old, new_ver: new }),
        group: Some(group),
    }
}

fn build_row(config: &Config, p: &BuildPkg, devel: &Vec<String>, caches: &Vec<CacheDir>) -> (r:
    ConfirmationRow)
    ensures
        shows(r, build_model(*config, *p, texts(devel@), caches@)),
        r.cells@.len() == 4,
{
    let new = if is_one_of(p.name.as_str(), devel) {
        "latest-commit".to_owned()
    } else {
        p.version.clone()
    };
    let old = text_or_empty(&p.installed);
    let size = aur_cached_pkg_size(caches, p.name.as_str(), new.as_str());
    let download = format_download_cell(config, size);
    let detail = text_or_empty(&p.description);
    row_of(p.name.as_str(), old, new, download, detail, TxSourceKind::Aur, p.target)
}

fn repo_row(config: &Config, p: &RepoPkg) -> (r: ConfirmationRow)
    ensures
        shows(r, repo_model(*config, *p)),
        r.cells@.len() == 4,
{
    let old = match &p.local {
        Some(l) => l.version.clone(),
        None => {
            let none = String::new();
            assert(none@ =~= seq![]);
            none
        },
    };
    let download = format_download_cell(config, Some(p.download_size));
    let detail = latest_changelog_or_desc(p);
    row_of(p.name.as_str(), old, p.version.clone(), download, detail, TxSourceKind::Repo, p.target)
}

/// All rows have four cells.
spec fn four_wide(rows: Seq<ConfirmationRow>) -> bool {
    forall|k: int| 0 <= k < rows.len() ==> (#[trigger] rows[k]).cells@.len() == 4
}

fn push_base(
    rows: &mut Vec<ConfirmationRow>,
    config: &Config,
    pkgs: &Vec<BuildPkg>,
    devel: &Vec<String>,
    caches: &Vec<CacheDir>,
    models: Ghost<Seq<RowModel>>,
)
    requires
        shows_all(old(rows)@, models@),
        four_wide(old(rows)@),
    ensures
        shows_all(final(rows)@, models@ + base_models(*config, pkgs@, texts(devel@), caches@)),
        four_wide(final(rows)@),
{
    let ghost all = base_models(*config, pkgs@, texts(devel@), caches@);
    let mut i: usize = 0;
    assert(models@ + all.take(0) =~= models@);
    while i < pkgs.len()
        invariant
            i <= pkgs.len(),
            all == base_models(*config, pkgs@, texts(devel@), caches@),
            shows_all(rows@, models@ + all.take(i as int)),
            four_wide(rows@),
        decreases pkgs.len() - i,
    {
        let ghost before = rows@;
        rows.push(build_row(config, &pkgs[i], devel, caches));
        assert(models@ + all.take(i + 1) =~= (models@ + all.take(i as int)).push(all[i as int]));
        assert forall|k: int| 0 <= k < rows@.len() implies shows(
            #[trigger] rows@[k],
            (models@ + all.take(i + 1))[k],
        ) by {
            if k < before.len() {
                assert(rows@[k] == before[k]);
            }
        }
        i += 1;
    }
    assert(all.take(i as int) =~= all);
}

fn build_rows(
    config: &Config,
    bases: &Vec<BuildBase>,
    devel: &Vec<String>,
    caches: &Vec<CacheDir>,
) -> (r: Vec<ConfirmationRow>)
    ensures
        shows_all(r@, build_models(*config, bases@, texts(devel@), caches@)),
        four_wide(r@),
{
    let mut rows: Vec<ConfirmationRow> = Vec::new();
    let mut i: usize = 0;
    assert(bases@.take(0) =~= seq![]);
    while i < bases.len()
        invariant
            i <= bases.len(),
            shows_all(rows@, build_models(*config, bases@.take(i as int), texts(devel@), caches@)),
            four_wide(rows@),
        decreases bases.len() - i,
    {
        assert(bases@.take(i + 1).drop_last() =~= bases@.take(i as int));
        let ghost so_far = build_models(*config, bases@.take(i as int), texts(devel@), caches@);
        push_base(&mut rows, config, &bases[i].pkgs, devel, caches, Ghost(so_far));
        i += 1;
    }
    assert(bases@.take(i as int) =~= bases@);
    rows
}

fn order_for_install(pkgs: &Vec<RepoPkg>) -> (r: Vec<usize>)
    ensures
        places(r@) == order_of(install_keys(pkgs@)),
        forall|i: int| 0 <= i < r@.len() ==> #[trigger] r@[i] < pkgs@.len(),
        r@.len() == pkgs@.len(),
{
    let mut keys: Vec<Vec<i128>> = Vec::new();
    let mut i: usize = 0;
    while i < pkgs.len()
        invariant
            i <= pkgs.len(),
            keys@.len() == i,
            key_views(keys@) =~= install_keys(pkgs@).take(i as int),
        decreases pkgs.len() - i,
    {
        let ghost before = keys@;
        keys.push(key_of_pair(pkgs[i].name.as_str(), pkgs[i].db.as_str()));
        assert(key_views(keys@) =~= key_views(before).push(
            pair_key(pkgs@[i as int].name@, pkgs@[i as int].db@),
        ));
        i += 1;
    }
    assert(install_keys(pkgs@).take(i as int) =~= install_keys(pkgs@));
    stable_order(&keys)
}

fn push_repo_rows(
    rows: &mut Vec<ConfirmationRow>,
    config: &Config,
    pkgs: &Vec<RepoPkg>,
    models: Ghost<Seq<RowModel>>,
)
    requires
        shows_all(old(rows)@, models@),
        four_wide(old(rows)@),
    ensures
        shows_all(final(rows)@, models@ + repo_models(*config, pkgs@)),
        four_wide(final(rows)@),
        final(rows)@.len() == old(rows)@.len() + pkgs@.len(),
{
    let order = order_for_install(pkgs);
    let ghost all = repo_models(*config, pkgs@);
    let mut i: usize = 0;
    assert(models@ + all.take(0) =~= models@);
    assert(all.len() == places(order@).len());
    while i < order.len()
        invariant
            i <= order.len(),
            all == repo_models(*config, pkgs@),
            places(order@) == order_of(install_keys(pkgs@)),
            all.len() == order@.len(),
            forall|k: int| 0 <= k < order@.len() ==> #[trigger] order@[k] < pkgs@.len(),
            shows_all(rows@, models@ + all.take(i as int)),
            four_wide(rows@),
            rows@.len() == models@.len() + i,
        decreases order.len() - i,
    {
        let ghost before = rows@;
        let at = order[i];
        rows.push(repo_row(config, &pkgs[at]));
        proof {
            assert(places(order@)[i as int] == at);
            assert(all[i as int] == repo_model(*config, pkgs@[at as int]));
            assert(models@ + all.take(i + 1) =~= (models@ + all.take(i as int)).push(all[i as int]));
            assert forall|k: int| 0 <= k < rows@.len() implies shows(
                #[trigger] rows@[k],
                (models@ + all.take(i + 1))[k],
            ) by {
                if k < before.len() {
                    assert(rows@[k] == before[k]);
                }
            }
        }
        i += 1;
    }
    assert(all.take(i as int) =~= all);
}

fn sum_downloads(pkgs: &Vec<RepoPkg>) -> (r: u64)
    ensures
        r == min(download_sum(pkgs@), u64::MAX as int),
{
    let mut total: u64 = 0;
    let mut i: usize = 0;
    assert(pkgs@.take(0) =~= seq![]);
    while i < pkgs.len()
        invariant
            i <= pkgs.len(),
            total == min(download_sum(pkgs@.take(i as int)), u64::MAX as int),
        decreases pkgs.len() - i,
    {
        assert(pkgs@.take(i + 1).drop_last() =~= pkgs@.take(i as int));
        let size = pkgs[i].download_size;
        if size > 0 {
            total = total.saturating_add(size as u64);
        }
        i += 1;
    }
    assert(pkgs@.take(i as int) =~= pkgs@);
    total
}

fn disk_delta_for_repo_pkg(p: &RepoPkg) -> (r: i64)
    ensures
        same_in_64_bits(r as int, disk_delta(*p)),
{
    match &p.local {
        Some(l) => p.isize.wrapping_sub(l.isize),
        None => p.isize,
    }
}

fn sum_deltas(pkgs: &Vec<RepoPkg>) -> (r: i64)
    requires
        i64::MIN <= disk_sum(pkgs@) <= i64::MAX,
    ensures
        r == disk_sum(pkgs@),
{
    let mut total: i64 = 0;
    let mut i: usize = 0;
    assert(pkgs@.take(0) =~= seq![]);
    while i < pkgs.len()
        invariant
            i <= pkgs.len(),
            same_in_64_bits(total as int, disk_sum(pkgs@.take(i as int))),
        decreases pkgs.len() - i,
    {
        assert(pkgs@.take(i + 1).drop_last() =~= pkgs@.take(i as int));
        total = total.wrapping_add(disk_delta_for_repo_pkg(&pkgs[i]));
        i += 1;
    }
    assert(pkgs@.take(i as int) =~= pkgs@);
    total
}

/// Whether this is the preview of an installation: a row for each package, and the sums. There is
/// none where nothing is built or installed.
pub open spec fn is_install_bundle(
    config: Config,
    actions: Actions,
    devel: Seq<Seq<char>>,
    caches: Seq<CacheDir>,
    r: Option<(ConfirmationTable, InstallConfirmTotals)>,
) -> bool {
    &&& r is None <==> actions.install@.len() == 0 && actions.build@.len() == 0
    &&& r matches Some(p) ==> {
        &&& is_change_table(
            config,
            p.0,
            seq![
                config.messages.package@,
                config.messages.version@,
                config.messages.download@,
                config.messages.details@,
            ],
            build_models(config, actions.build@, devel, caches) + repo_models(
                config,
                actions.install@,
            ),
        )
        &&& p.1.download_bytes == min(download_sum(actions.install@), u64::MAX as int)
        &&& p.1.download_excludes_aur == (actions.build@.len() > 0)
        &&& p.1.disk_delta_bytes == disk_sum(actions.install@)
        &&& p.1.disk_partial == (actions.build@.len() > 0)
        &&& p.1.had_repo_pkg == (actions.install@.len() > 0)
    }
}

/// The preview of an installation: a row for each package that is built, then one for each
/// package from a repository, ordered by name, and the sums. There is none for no package.
/// `devel` names the packages under development, `caches` are the package caches.
pub fn install_confirmation_bundle(
    config: &Config,
    actions: &Actions,
    devel: &Vec<String>,
    caches: &Vec<CacheDir>,
) -> (r: Option<(ConfirmationTable, InstallConfirmTotals)>)
    requires
        i64::MIN <= disk_sum(actions.install@) <= i64::MAX,
    ensures
        is_install_bundle(*config, *actions, texts(devel@), caches@, r),
        r matches Some(p) ==> {
            &&& p.0.rows@.len() > 0 ==> presentable(p.0)
            &&& previewable(p.0, TxConfirmOp::Install) && previewable(p.0, TxConfirmOp::Update)
        },
{
    if actions.install.len() == 0 && actions.build.len() == 0 {
        return None;
    }
    let mut rows = build_rows(config, &actions.build, devel, caches);
    let ghost built = build_models(*config, actions.build@, texts(devel@), caches@);
    push_repo_rows(&mut rows, config, &actions.install, Ghost(built));
    let mut table = ConfirmationTable::new(config.messages.package_changes.as_str());
    let mut headers: Vec<String> = Vec::new();
    headers.push(config.messages.package.clone());
    headers.push(config.messages.version.clone());
    headers.push(config.messages.download.clone());
    headers.push(config.messages.details.clone());
    assert(texts(headers@) =~= seq![
        config.messages.package@,
        config.messages.version@,
        config.messages.download@,
        config.messages.details@,
    ]);
    table.headers = headers;
    table.rows = rows;
    let totals = InstallConfirmTotals {
        download_bytes: sum_downloads(&actions.install),
        download_excludes_aur: actions.build.len() > 0,
        disk_delta_bytes: sum_deltas(&actions.install),
        disk_partial: actions.build.len() > 0,
        had_repo_pkg: actions.install.len() > 0,
    };
    Some((table, totals))
}

/// The row for a package that is removed.
pub open spec fn remove_model(p: LocalPkg) -> RowModel {
    RowModel {
        cells: seq![p.name@, version_label(p.version@), or_empty(opt_text(p.desc))],
        action: TxActionKind::Remove,
        source: TxSourceKind::Repo,
        old: p.version@,
        new: seq![],
        group: TxRowGroup::Target,
    }
}

/// The rows for the packages that are removed.
pub open spec fn remove_models(found: Seq<Option<LocalPkg>>) -> Seq<RowModel>
    decreases found.len(),
{
    if found.len() == 0 {
        seq![]
    } else {
        match found.last() {
            Some(p) => remove_models(found.drop_last()).push(remove_model(p)),
            None => remove_models(found.drop_last()),
        }
    }
}

/// The installed sizes of the packages that are removed, added up.
pub open spec fn removed_size(found: Seq<Option<LocalPkg>>) -> int
    decreases found.len(),
{
    if found.len() == 0 {
        0
    } else {
        removed_size(found.drop_last()) + (match found.last() {
            Some(p) => p.isize as int,
            None => 0,
        })
    }
}

fn remove_row(p: &LocalPkg) -> (r: ConfirmationRow)
    ensures
        shows(r, remove_model(*p)),
        r.cells@.len() == 3,
{
    let mut cells: Vec<String> = Vec::new();
    cells.push(p.name.clone());
    cells.push(v_label(p.version.as_str()));
    cells.push(text_or_empty(&p.desc));
    assert(texts(cells@) =~= remove_model(*p).cells);
    let new_ver = String::new();
    assert(new_ver@ =~= seq![]);
    ConfirmationRow {
        cells,
        tx: Some(
            TxRowPaint {
                action: TxActionKind::Remove,
                source: TxSourceKind::Repo,
                old_ver: p.version.clone(),
                new_ver,
            },
        ),
        group: Some(TxRowGroup::Target),
    }
}

/// Whether this is the preview of a removal: a row for each target that is installed, and the sums.
/// There is none where no target is installed.
pub open spec fn is_removal_bundle(
    config: Config,
    found: Seq<Option<LocalPkg>>,
    r: Option<(ConfirmationTable, InstallConfirmTotals)>,
) -> bool {
    &&& r is None <==> remove_models(found).len() == 0
    &&& r matches Some(p) ==> {
        &&& is_change_table(
            config,
            p.0,
            seq![
                config.messages.package@,
                config.messages.version@,
                config.messages.description@,
            ],
            remove_models(found),
        )
        &&& p.1.disk_delta_bytes == -removed_size(found)
        &&& p.1.had_repo_pkg
        &&& p.1.download_bytes == 0 && !p.1.download_excludes_aur && !p.1.disk_partial
    }
}

/// The preview of a removal: a row for each target that is installed, and the sums. `found` holds
/// for each target the installed package of that name. There is none where no target is
/// installed.
pub fn remove_confirmation_bundle(config: &Config, found: &Vec<Option<LocalPkg>>) -> (r: Option<
    (ConfirmationTable, InstallConfirmTotals),
>)
    requires
        i64::MIN <= -removed_size(found@) <= i64::MAX,
    ensures
        is_removal_bundle(*config, found@, r),
        r matches Some(p) ==> {
            &&& presentable(p.0)
            &&& previewable(p.0, TxConfirmOp::Remove)
        },
{
    let mut table = ConfirmationTable::new(config.messages.package_changes.as_str());
    let mut headers: Vec<String> = Vec::new();
    headers.push(config.messages.package.clone());
    headers.push(config.messages.version.clone());
    headers.push(config.messages.description.clone());
    assert(texts(headers@) =~= seq![
        config.messages.package@,
        config.messages.version@,
        config.messages.description@,
    ]);
    let mut rows: Vec<ConfirmationRow> = Vec::new();
    let mut delta: i64 = 0;
    let mut i: usize = 0;
    assert(found@.take(0) =~= seq![]);
    while i < found.len()
        invariant
            i <= found.len(),
            shows_all(rows@, remove_models(found@.take(i as int))),
            forall|k: int| 0 <= k < rows@.len() ==> (#[trigger] rows@[k]).cells@.len() == 3,
            same_in_64_bits(delta as int, -removed_size(found@.take(i as int))),
        decreases found.len() - i,
    {
        assert(found@.take(i + 1).drop_last() =~= found@.take(i as int));
        match &found[i] {
            Some(p) => {
                let ghost before = rows@;
                delta = delta.wrapping_sub(p.isize);
                rows.push(remove_row(p));
                assert forall|k: int| 0 <= k < rows@.len() implies shows(
                    #[trigger] rows@[k],
                    remove_models(found@.take(i + 1))[k],
                ) by {
                    if k < before.len() {
                        assert(rows@[k] == before[k]);
                    }
                }
            },
            None => {},
        }
        i += 1;
    }
    assert(found@.take(i as int) =~= found@);
    if rows.len() == 0 {
        return None;
    }
    table.headers = headers;
    table.rows = rows;
    assert(texts(table.headers@).len() == table.headers@.len());
    let totals = InstallConfirmTotals {
        download_bytes: 0,
        download_excludes_aur: false,
        disk_delta_bytes: delta,
        disk_partial: false,
        had_repo_pkg: true,
    };
    Some((table, totals))
}

} // verus!
