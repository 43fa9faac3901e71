//! The lines of search results.

use crate::config::Config;
use crate::fmt::{truncate_to_width, width, ymd};
#[allow(unused_imports)]
use crate::fmt::{max, minus, text_width, time_text, truncated};
use crate::messages::fill;
#[allow(unused_imports)]
use crate::messages::filled;
use crate::number::scale;
#[allow(unused_imports)]
use crate::number::{scaled, scaled_parts_fit};
use crate::search::highlight::highlight_terms;
#[allow(unused_imports)]
use crate::search::highlight::{highlighted, Marking};
use crate::style::{Colors, Style};
use crate::text::{is_blank, join, put, same, words_of};
#[allow(unused_imports)]
use crate::text::{joined, opt_text, repeated, texts, words};
use vstd::prelude::*;

verus! {

/// The blanks between the parts of a line.
pub const SEARCH_COL_GAP: usize = 1;

/// What is known of a result beyond its line.
#[derive(Debug, Clone)]
pub enum SearchVerbose {
    Alpm(Option<String>),
    Aur { home: Option<String>, package_base: String },
    Pkgbuild(String),
}

/// A search result as a line.
#[derive(Debug, Clone)]
pub struct SearchRow {
    pub name: String,
    pub status: String,
    pub version: String,
    pub repo: String,
    pub description: String,
    pub verbose: SearchVerbose,
}

/// A package of a repository. `installed` is the version of the local package of that name, and
/// `same_version` tells whether the two versions are equal as versions.
#[derive(Debug, Clone)]
pub struct RepoHit {
    pub name: String,
    pub version: String,
    pub db: String,
    pub desc: Option<String>,
    pub groups: Vec<String>,
    pub url: Option<String>,
    pub installed: Option<String>,
    pub same_version: bool,
}

/// A package of the AUR. The popularity is a number that orders packages as their popularity
/// does; `offset` and `epoch_offset` are what the local time zone adds to the time at which the
/// package was flagged, and to the epoch.
#[derive(Debug, Clone)]
pub struct AurHit {
    pub name: String,
    pub version: String,
    pub package_base: String,
    pub description: Option<String>,
    pub url: Option<String>,
    pub maintainer: Option<String>,
    pub out_of_date: Option<i64>,
    pub offset: i32,
    pub epoch_offset: i32,
    pub installed: Option<String>,
    pub num_votes: i64,
    pub popularity: i64,
    pub id: i64,
    pub first_submitted: i64,
    pub last_modified: i64,
}

/// A package of a repository of build scripts.
#[derive(Debug, Clone)]
pub struct CustomHit {
    pub repo: String,
    pub base: String,
    pub name: String,
    pub version: String,
    pub desc: Option<String>,
    pub provides: Vec<String>,
    pub groups: Vec<String>,
    pub path: String,
    pub installed: Option<String>,
}

/// A search result from any source.
#[derive(Debug, Clone)]
pub enum AnyPkg {
    RepoPkg(RepoHit),
    AurPkg(AurHit),
    Custom(CustomHit),
}

/// What a row shows.
pub struct RowView {
    pub name: Seq<char>,
    pub status: Seq<char>,
    pub version: Seq<char>,
    pub repo: Seq<char>,
    pub description: Seq<char>,
    pub verbose: VerboseView,
}

/// What is known of a result beyond its line.
pub enum VerboseView {
    Alpm(Option<Seq<char>>),
    Aur(Option<Seq<char>>, Seq<char>),
    Pkgbuild(Seq<char>),
}

impl View for SearchRow {
    type V = RowView;

    open spec fn view(&self) -> RowView {
        RowView {
            name: self.name@,
            status: self.status@,
            version: self.version@,
            repo: self.repo@,
            description: self.description@,
            verbose: match self.verbose {
                SearchVerbose::Alpm(url) => VerboseView::Alpm(opt_text(url)),
                SearchVerbose::Aur { home, package_base } => VerboseView::Aur(
                    opt_text(home),
                    package_base@,
                ),
                SearchVerbose::Pkgbuild(path) => VerboseView::Pkgbuild(path@),
            },
        }
    }
}

/// The status of a package with an installed version.
pub open spec fn installed_status(config: Config, installed: Option<Seq<char>>, same: bool) -> Seq<char> {
    match installed {
        None => seq![],
        Some(v) => if same {
            config.messages.status_installed@
        } else {
            filled(config.messages.status_installed_as@, v)
        },
    }
}

fn status_of(config: &Config, installed: &Option<String>, same_version: bool) -> (r: String)
    ensures
        r@ == installed_status(*config, opt_text(*installed), same_version),
{
    match installed {
        None => {
            let none = String::new();
            assert(none@ =~= seq![]);
            none
        },
        Some(v) => if same_version {
            config.messages.status_installed.clone()
        } else {
            fill(config.messages.status_installed_as.as_str(), v.as_str())
        },
    }
}

/// The description of a package of a repository, with its groups.
pub open spec fn described(p: RepoHit) -> Seq<char> {
    let desc = match p.desc {
        Some(d) => d@,
        None => seq![],
    };
    if p.groups@.len() == 0 {
        desc
    } else {
        desc + " ("@ + joined(texts(p.groups@), ","@) + ")"@
    }
}

/// The row of a package of a repository.
pub open spec fn alpm_row(config: Config, p: RepoHit) -> RowView {
    RowView {
        name: p.name@,
        status: installed_status(config, opt_text(p.installed), p.same_version),
        version: p.version@,
        repo: p.db@,
        description: described(p),
        verbose: VerboseView::Alpm(opt_text(p.url)),
    }
}

fn copy_opt(s: &Option<String>) -> (r: Option<String>)
    ensures
        opt_text(r) == opt_text(*s),
{
    match s {
        Some(t) => Some(t.clone()),
        None => None,
    }
}

/// The row of a package of a repository.
pub fn search_row_from_alpm(config: &Config, p: &RepoHit) -> (r: SearchRow)
    ensures
        r@ == alpm_row(*config, *p),
{
    let status = status_of(config, &p.installed, p.same_version);
    let mut description = match &p.desc {
        Some(d) => d.clone(),
        None => {
            let none = String::new();
            assert(none@ =~= seq![]);
            none
        },
    };
    if p.groups.len() > 0 {
        put(&mut description, " (");
        put(&mut description, join(&p.groups, ",").as_str());
        put(&mut description, ")");
    }
    SearchRow {
        name: p.name.clone(),
        status,
        version: p.version.clone(),
        repo: p.db.clone(),
        description,
        verbose: SearchVerbose::Alpm(copy_opt(&p.url)),
    }
}

/// The offsets of a package are those of a time zone.
pub open spec fn zoned(p: AurHit) -> bool {
    -86_400 < p.offset < 86_400 && -86_400 < p.epoch_offset < 86_400
}

/// Whether the installed version is the version that was found.
pub open spec fn is_same(installed: Option<Seq<char>>, version: Seq<char>) -> bool {
    installed == Some(version)
}

/// The status of a package of the AUR.
pub open spec fn aur_status(config: Config, p: AurHit) -> Seq<char> {
    installed_status(
        config,
        opt_text(p.installed),
        is_same(opt_text(p.installed), p.version@),
    ) + (match p.out_of_date {
        Some(date) => match time_text(date, p.offset, p.epoch_offset, "%Y-%m-%d"@) {
            Some(day) => filled(config.messages.status_out_of_date@, day),
            None => seq![],
        },
        None => seq![],
    }) + (if p.maintainer is None {
        config.messages.status_orphaned@
    } else {
        seq![]
    })
}

/// A description, or the word for none.
pub open spec fn desc_or_none(config: Config, desc: Option<Seq<char>>) -> Seq<char> {
    match desc {
        Some(d) => d,
        None => config.messages.none@,
    }
}

/// The row of a package of the AUR.
pub open spec fn aur_row(config: Config, p: AurHit) -> RowView {
    RowView {
        name: p.name@,
        status: aur_status(config, p),
        version: p.version@,
        repo: "aur"@,
        description: desc_or_none(config, opt_text(p.description)),
        verbose: VerboseView::Aur(opt_text(p.url), p.package_base@),
    }
}

fn has_version(installed: &Option<String>, version: &str) -> (r: bool)
    ensures
        r == is_same(opt_text(*installed), version@),
{
    match installed {
        Some(v) => same(v.as_str(), version),
        None => false,
    }
}

fn text_or_none(config: &Config, desc: &Option<String>) -> (r: String)
    ensures
        r@ == desc_or_none(*config, opt_text(*desc)),
{
    match desc {
        Some(d) => d.clone(),
        None => config.messages.none.clone(),
    }
}

/// The row of a package of the AUR.
pub fn search_row_from_aur(config: &Config, p: &AurHit) -> (r: SearchRow)
    requires
        zoned(*p),
    ensures
        r@ == aur_row(*config, *p),
{
    let mut status = status_of(config, &p.installed, has_version(&p.installed, p.version.as_str()));
    let ghost first = status@;
    let ghost mut second: Seq<char> = seq![];
    match p.out_of_date {
        Some(date) => {
            let day = ymd(date, p.offset, p.epoch_offset);
            put(&mut status, fill(config.messages.status_out_of_date.as_str(), day.as_str()).as_str());
            proof {
                second = filled(config.messages.status_out_of_date@, day@);
            }
        },
        None => {},
    }
    assert(status@ =~= first + second);
    let ghost mut third: Seq<char> = seq![];
    if p.maintainer.is_none() {
        put(&mut status, config.messages.status_orphaned.as_str());
        proof {
            third = config.messages.status_orphaned@;
        }
    }
    assert(status@ =~= first + second + third);
    SearchRow {
        name: p.name.clone(),
        status,
        version: p.version.clone(),
        repo: "aur".to_owned(),
        description: text_or_none(config, &p.description),
        verbose: SearchVerbose::Aur {
            home: copy_opt(&p.url),
            package_base: p.package_base.clone(),
        },
    }
}

/// The row of a package of a repository of build scripts.
pub open spec fn custom_row(config: Config, p: CustomHit) -> RowView {
    RowView {
        name: p.name@,
        status: installed_status(
            config,
            opt_text(p.installed),
            is_same(opt_text(p.installed), p.version@),
        ),
        version: p.version@,
        repo: p.repo@,
        description: desc_or_none(config, opt_text(p.desc)),
        verbose: VerboseView::Pkgbuild(p.path@),
    }
}

/// The row of a package of a repository of build scripts.
pub fn search_row_from_pkgbuild(config: &Config, p: &CustomHit) -> (r: SearchRow)
    ensures
        r@ == custom_row(*config, *p),
{
    SearchRow {
        name: p.name.clone(),
        status: status_of(config, &p.installed, has_version(&p.installed, p.version.as_str())),
        version: p.version.clone(),
        repo: p.repo.clone(),
        description: text_or_none(config, &p.desc),
        verbose: SearchVerbose::Pkgbuild(p.path.clone()),
    }
}

/// The row of a search result.
pub open spec fn any_row(config: Config, p: AnyPkg) -> RowView {
    match p {
        AnyPkg::RepoPkg(p) => alpm_row(config, p),
        AnyPkg::AurPkg(p) => aur_row(config, p),
        AnyPkg::Custom(p) => custom_row(config, p),
    }
}

/// Whether a result can be shown: its times are in a time zone.
pub open spec fn showable(p: AnyPkg) -> bool {
    p matches AnyPkg::AurPkg(a) ==> zoned(a)
}

/// The row of a search result.
pub fn search_row_from_any_pkg(config: &Config, p: &AnyPkg) -> (r: SearchRow)
    requires
        showable(*p),
    ensures
        r@ == any_row(*config, *p),
{
    match p {
        AnyPkg::RepoPkg(p) => search_row_from_alpm(config, p),
        AnyPkg::AurPkg(p) => search_row_from_aur(config, p),
        AnyPkg::Custom(p) => search_row_from_pkgbuild(config, p),
    }
}

/// The columns of the name and status of a row.
pub open spec fn left_width(r: RowView) -> int {
    if r.status.len() == 0 {
        text_width(r.name) as int
    } else {
        text_width(r.name) + SEARCH_COL_GAP + text_width(r.status)
    }
}

/// The columns of the repository and version of a row.
pub open spec fn mid_width(r: RowView) -> int {
    text_width(r.repo) + SEARCH_COL_GAP + text_width(r.version)
}

impl SearchRow {
    /// The columns of the name and status.
    pub fn left_plain_width(&self) -> (r: u128)
        ensures
            r == left_width(self@),
            r <= 2 * usize::MAX + 1,
    {
        let name: u128 = width(self.name.as_str()) as u128;
        if is_blank(self.status.as_str()) {
            name
        } else {
            name + SEARCH_COL_GAP as u128 + width(self.status.as_str()) as u128
        }
    }

    /// The columns of the repository and version.
    pub fn mid_plain_width(&self) -> (r: u128)
        ensures
            r == mid_width(self@),
            r <= 2 * usize::MAX + 1,
    {
        width(self.repo.as_str()) as u128 + SEARCH_COL_GAP as u128 + width(self.version.as_str()) as u128
    }
}

/// The rows of results.
pub open spec fn row_views(rows: Seq<SearchRow>) -> Seq<RowView> {
    rows.map_values(|r: SearchRow| r@)
}

/// The largest width of names and statuses.
pub open spec fn widest_left(rows: Seq<RowView>) -> int
    decreases rows.len(),
{
    if rows.len() == 0 {
        0
    } else {
        max(widest_left(rows.drop_last()), left_width(rows.last()))
    }
}

/// The largest width of repositories and versions.
pub open spec fn widest_mid(rows: Seq<RowView>) -> int
    decreases rows.len(),
{
    if rows.len() == 0 {
        0
    } else {
        max(widest_mid(rows.drop_last()), mid_width(rows.last()))
    }
}

/// The widths of the three parts of a line.
#[derive(Debug, Clone, Copy, PartialEq, Eq, Structural)]
pub struct SearchColumns {
    pub left: u128,
    pub mid: u128,
    pub description: usize,
}

/// The columns that a description keeps.
pub open spec fn description_reserve() -> int {
    2 * SEARCH_COL_GAP + 8
}

/// The widths of a line on a terminal of `term` columns, for the largest widths `l` and `m` of
/// its first two parts: those widths, as long as a description keeps some columns; otherwise
/// both are made smaller by the same factor, in double precision, but not too small. The
/// description takes what is left.
pub open spec fn columns_for(l: int, m: int, term: int) -> (int, int, int) {
    let budget = minus(term, description_reserve());
    let (left, mid) = if l + m + description_reserve() > term && l + m > budget {
        (
            max(scaled(l as nat, budget as nat, (l + m) as nat) as int, 6),
            max(scaled(m as nat, budget as nat, (l + m) as nat) as int, 4),
        )
    } else {
        (l, m)
    };
    (left, mid, minus(term, left + mid + 2 * SEARCH_COL_GAP))
}

/// The widths of the lines of all results, so that every line lines up.
pub fn compute_search_columns(rows: &Vec<SearchRow>, term_w: usize) -> (r: SearchColumns)
    ensures
        (r.left as int, r.mid as int, r.description as int) == columns_for(
            widest_left(row_views(rows@)),
            widest_mid(row_views(rows@)),
            term_w as int,
        ),
{
    let ghost all = row_views(rows@);
    let mut l: u128 = 0;
    let mut m: u128 = 0;
    let mut i: usize = 0;
    assert(all.take(0) =~= seq![]);
    while i < rows.len()
        invariant
            i <= rows@.len(),
            all == row_views(rows@),
            l == widest_left(all.take(i as int)),
            m == widest_mid(all.take(i as int)),
            l <= 2 * usize::MAX + 1,
            m <= 2 * usize::MAX + 1,
        decreases rows.len() - i,
    {
        assert(all.take(i + 1).drop_last() =~= all.take(i as int));
        let a = rows[i].left_plain_width();
        let b = rows[i].mid_plain_width();
        if a > l {
            l = a;
        }
        if b > m {
            m = b;
        }
        i += 1;
    }
    assert(all.take(i as int) =~= all);
    let reserve: u128 = 2 * SEARCH_COL_GAP as u128 + 8;
    let term: u128 = term_w as u128;
    let budget: u128 = if term > reserve {
        term - reserve
    } else {
        0
    };
    let (mut left, mut mid) = (l, m);
    if l + m + reserve > term && l + m > budget {
        let a = scale(l, budget, l + m);
        let b = scale(m, budget, l + m);
        left = if a > 6 {
            a
        } else {
            6
        };
        mid = if b > 4 {
            b
        } else {
            4
        };
    }
    let gaps: u128 = 2 * SEARCH_COL_GAP as u128;
    let after_left: u128 = if term > left {
        term - left
    } else {
        0
    };
    let after_mid: u128 = if after_left > mid {
        after_left - mid
    } else {
        0
    };
    let rest: u128 = if after_mid > gaps {
        after_mid - gaps
    } else {
        0
    };
    SearchColumns { left, mid, description: rest as usize }
}

/// Where the first two parts of a line leave room for a description, they keep their widths;
/// otherwise they do not become too small. On a terminal as wide as lines are made for, whose
/// columns a double can count, there is always a description, and the parts and the blanks between
/// them fill the terminal exactly. On any other terminal they do so where there is a description.
pub proof fn columns_fill_the_terminal(l: int, m: int, term: int)
    requires
        0 <= l,
        0 <= m,
        0 <= term,
    ensures
        ({
            let (left, mid, description) = columns_for(l, m, term);
            &&& l + m + description_reserve() <= term ==> left == l && mid == m && description >= 8
            &&& l + m > minus(term, description_reserve()) ==> left >= 6 && mid >= 4
            &&& 48 <= term < 0x10_0000_0000_0000 ==> description >= 2 && left + mid + 2
                * SEARCH_COL_GAP + description == term
            &&& description > 0 ==> left + mid + 2 * SEARCH_COL_GAP + description == term
        }),
{
    let budget = minus(term, description_reserve());
    if 48 <= term < 0x10_0000_0000_0000 && l + m > budget {
        scaled_parts_fit(l as nat, m as nat, budget as nat);
    }
}

/// A text on one line, with one blank between its words.
pub open spec fn one_line(s: Seq<char>) -> Seq<char> {
    joined(words(s), " "@)
}

/// A text on one line.
pub fn desc_one_line(s: &str) -> (r: String)
    ensures
        r@ == one_line(s@),
{
    join(&words_of(s), " ")
}

/// How a part of a line is marked.
pub open spec fn marking(c: Colors, base: Style) -> Marking {
    Marking { base, hi: c.action, color_on: c.enabled }
}

fn highlight(c: &Colors, base: Style, text: &str, terms: &Vec<String>) -> (r: String)
    ensures
        r@ == highlighted(marking(*c, base), text@, texts(terms@)),
{
    highlight_terms(text, terms, base, c.action, c.enabled)
}

/// Name and status of a row, uncut.
pub open spec fn name_status(c: Colors, r: RowView, terms: Seq<Seq<char>>) -> Seq<char> {
    if r.status.len() == 0 {
        highlighted(marking(c, c.ss_name), r.name, terms)
    } else {
        highlighted(marking(c, c.ss_name), r.name, terms) + " "@ + highlighted(
            marking(c, c.ss_installed),
            r.status,
            terms,
        )
    }
}

/// Name and status, uncut.
pub fn format_name_status_cell(c: &Colors, row: &SearchRow, terms: &Vec<String>) -> (r: String)
    ensures
        r@ == name_status(*c, row@, texts(terms@)),
{
    let mut out = highlight(c, c.ss_name, row.name.as_str(), terms);
    if !is_blank(row.status.as_str()) {
        put(&mut out, " ");
        put(&mut out, highlight(c, c.ss_installed, row.status.as_str(), terms).as_str());
    }
    out
}

/// Repository and version of a row, uncut.
pub open spec fn repo_version(c: Colors, r: RowView, terms: Seq<Seq<char>>) -> Seq<char> {
    highlighted(marking(c, c.sl_repo), r.repo, terms) + " "@ + highlighted(
        marking(c, c.ss_ver),
        r.version,
        terms,
    )
}

/// Repository and version, uncut.
pub fn format_repo_version_cell(c: &Colors, row: &SearchRow, terms: &Vec<String>) -> (r: String)
    ensures
        r@ == repo_version(*c, row@, texts(terms@)),
{
    let mut out = highlight(c, c.sl_repo, row.repo.as_str(), terms);
    put(&mut out, " ");
    put(&mut out, highlight(c, c.ss_ver, row.version.as_str(), terms).as_str());
    out
}

/// The first part of a line: cut where it is too wide, and filled with blanks.
pub open spec fn left_part(c: Colors, r: RowView, w: int, terms: Seq<Seq<char>>) -> Seq<char> {
    (if left_width(r) > w {
        highlighted(
            marking(c, c.ss_name),
            truncated(
                if r.status.len() == 0 {
                    r.name
                } else {
                    r.name + " "@ + r.status
                },
                w as nat,
            ),
            terms,
        )
    } else {
        name_status(c, r, terms)
    }) + repeated(' ', minus(w, left_width(r)) as nat)
}

/// The second part of a line: cut where it is too wide, and filled with blanks.
pub open spec fn mid_part(c: Colors, r: RowView, w: int, terms: Seq<Seq<char>>) -> Seq<char> {
    (if mid_width(r) > w {
        highlighted(
            marking(c, c.ss_ver),
            truncated(r.repo + " "@ + r.version, w as nat),
            terms,
        )
    } else {
        repo_version(c, r, terms)
    }) + repeated(' ', minus(w, mid_width(r)) as nat)
}

/// The line of a row.
pub open spec fn search_line(
    c: Colors,
    r: RowView,
    left: int,
    mid: int,
    description: int,
    terms: Seq<Seq<char>>,
) -> Seq<char> {
    left_part(c, r, left, terms) + " "@ + mid_part(c, r, mid, terms) + " "@ + highlighted(
        marking(c, c.install_version),
        truncated(one_line(r.description), description as nat),
        terms,
    ) + "\n"@
}

/// Blanks for a width beyond what was written.
fn fill_to(w: u128, used: u128) -> (r: String)
    ensures
        r@ == repeated(' ', minus(w as int, used as int) as nat),
{
    let mut out = String::new();
    let mut n: u128 = used;
    while n < w
        invariant
            n <= w || n == used,
            used <= n,
            out@ =~= repeated(' ', (n - used) as nat),
        decreases w - n,
    {
        out.push(' ');
        n += 1;
    }
    out
}

/// A text in at most `w` columns; no text is wider than a `usize` can count.
fn truncate_wide(s: &str, w: u128) -> (r: String)
    ensures
        r@ == truncated(s@, w as nat),
{
    if w > usize::MAX as u128 {
        s.to_owned()
    } else {
        truncate_to_width(s, w as usize)
    }
}

/// The line of a row, its parts in columns.
pub fn print_search_row(config: &Config, row: &SearchRow, w: SearchColumns, terms: &Vec<String>) -> (r:
    String)
    ensures
        r@ == search_line(
            config.color,
            row@,
            w.left as int,
            w.mid as int,
            w.description as int,
            texts(terms@),
        ),
{
    let c = &config.color;
    let left_plain = row.left_plain_width();
    let mut out = if left_plain > w.left {
        let mut both = row.name.clone();
        if !is_blank(row.status.as_str()) {
            put(&mut both, " ");
            put(&mut both, row.status.as_str());
        }
        let cut = truncate_wide(both.as_str(), w.left);
        highlight(c, c.ss_name, cut.as_str(), terms)
    } else {
        format_name_status_cell(c, row, terms)
    };
    put(&mut out, fill_to(w.left, left_plain).as_str());
    put(&mut out, " ");
    let mid_plain = row.mid_plain_width();
    let mut second = if mid_plain > w.mid {
        let mut both = row.repo.clone();
        put(&mut both, " ");
        put(&mut both, row.version.as_str());
        let cut = truncate_wide(both.as_str(), w.mid);
        highlight(c, c.ss_ver, cut.as_str(), terms)
    } else {
        format_repo_version_cell(c, row, terms)
    };
    put(&mut second, fill_to(w.mid, mid_plain).as_str());
    put(&mut out, second.as_str());
    put(&mut out, " ");
    let desc = truncate_to_width(desc_one_line(row.description.as_str()).as_str(), w.description);
    put(&mut out, highlight(c, c.install_version, desc.as_str(), terms).as_str());
    put(&mut out, "\n");
    out
}

/// A field that is shown below a line: its label and its value.
#[derive(Debug)]
pub struct Field {
    pub label: &'static str,
    pub value: String,
}

/// The fields of a row, as labels and values.
pub open spec fn verbose_fields(config: Config, r: RowView) -> Seq<(Seq<char>, Seq<char>)> {
    if config.args.times("s"@, "search"@) <= 1 {
        seq![]
    } else {
        match r.verbose {
            VerboseView::Alpm(Some(url)) => seq![("    URL"@, url)],
            VerboseView::Alpm(None) => seq![],
            VerboseView::Aur(home, base) => (match home {
                Some(url) => seq![("    URL"@, url)],
                None => seq![],
            }).push(("    AUR URL"@, config.aur_url@ + "packages/"@ + base)),
            VerboseView::Pkgbuild(path) => seq![("    Path"@, path)],
        }
    }
}

/// The labels and values of fields.
pub open spec fn field_views(fields: Seq<Field>) -> Seq<(Seq<char>, Seq<char>)> {
    fields.map_values(|f: Field| (f.label@, f.value@))
}

/// The fields below a line, where the search asks for them.
pub fn print_search_verbose(config: &Config, row: &SearchRow) -> (r: Vec<Field>)
    ensures
        field_views(r@) == verbose_fields(*config, row@),
{
    let mut out: Vec<Field> = Vec::new();
    assert(field_views(out@) =~= seq![]);
    if config.args.count("s", "search") <= 1 {
        return out;
    }
    match &row.verbose {
        SearchVerbose::Alpm(url) => match url {
            Some(url) => {
                out.push(Field { label: "    URL", value: url.clone() });
            },
            None => {},
        },
        SearchVerbose::Aur { home, package_base } => {
            match home {
                Some(url) => {
                    out.push(Field { label: "    URL", value: url.clone() });
                },
                None => {},
            }
            let mut value = config.aur_url.clone();
            put(&mut value, "packages/");
            put(&mut value, package_base.as_str());
            out.push(Field { label: "    AUR URL", value });
        },
        SearchVerbose::Pkgbuild(path) => {
            out.push(Field { label: "    Path", value: path.clone() });
        },
    }
    assert(field_views(out@) =~= verbose_fields(*config, row@));
    out
}

/// The columns of the terminal for results, after a prefix.
pub open spec fn search_terminal(config: Config, prefix: int) -> int {
    max(
        minus(
            match config.cols {
                Some(c) => c as int,
                None => 80,
            },
            prefix,
        ),
        48,
    )
}

/// The columns of the terminal for results, after a prefix.
pub fn search_term_width(config: &Config, menu_prefix_len: usize) -> (r: usize)
    ensures
        r == search_terminal(*config, menu_prefix_len as int),
{
    let cols: usize = match config.cols {
        Some(c) => c,
        None => 80,
    };
    let rest: usize = if cols > menu_prefix_len {
        cols - menu_prefix_len
    } else {
        0
    };
    if rest > 48 {
        rest
    } else {
        48
    }
}

} // verus!
