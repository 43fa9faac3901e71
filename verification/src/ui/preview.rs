//! The preview of a transaction.

use crate::config::Config;
use crate::fmt::{larger, smaller, truncate_to_width, width};
#[allow(unused_imports)]
use crate::fmt::{max, min, minus, text_width, truncated, widest};
use crate::messages::fill;
#[allow(unused_imports)]
use crate::messages::filled;
use crate::number::{decimal_text, one_place_text, two_places_text};
#[allow(unused_imports)]
use crate::number::{as_double, decimal, one_place, two_places};
use crate::style::{heading_text, paint, Colors, Colour, Style};
#[allow(unused_imports)]
use crate::style::{heading, painted};
use crate::text::{is_blank, put, repeat, same, starts_with, trim};
#[allow(unused_imports)]
use crate::text::{repeated, trimmed};
use crate::ui::table::{
    is_presentable, pad_plain, widest_cell, ConfirmationRow, ConfirmationTable,
    InstallConfirmTotals, TxActionKind, TxConfirmOp, TxRowGroup, TxRowPaint, TxSourceKind,
};
#[allow(unused_imports)]
use crate::ui::table::{column, padded, presentable};
use vstd::prelude::*;

verus! {

/// A version with a `v` before it.
pub open spec fn version_label(v: Seq<char>) -> Seq<char> {
    let t = trimmed(v);
    if t.len() == 0 {
        seq![]
    } else if "v"@.is_prefix_of(t) {
        t
    } else {
        "v"@ + t
    }
}

/// A version with a `v` before it.
pub fn v_label(ver: &str) -> (r: String)
    ensures
        r@ == version_label(ver@),
{
    let t = trim(ver);
    if is_blank(t.as_str()) {
        assert(t@ =~= seq![]);
        return t;
    }
    if starts_with(t.as_str(), "v") {
        t
    } else {
        let mut out = "v".to_owned();
        put(&mut out, t.as_str());
        out
    }
}

/// The step from a version to another.
pub open spec fn version_step(old: Seq<char>, new: Seq<char>) -> Seq<char> {
    version_label(old) + " -> "@ + version_label(new)
}

/// The step from a version to another.
pub fn version_plain(old: &str, new: &str) -> (r: String)
    ensures
        r@ == version_step(old@, new@),
{
    let mut out = v_label(old);
    put(&mut out, " -> ");
    put(&mut out, v_label(new).as_str());
    out
}

/// What is shown of the versions of a row.
pub open spec fn shown_version(p: TxRowPaint) -> Seq<char> {
    match p.action {
        TxActionKind::Remove => version_label(p.old_ver@),
        TxActionKind::Install => version_label(p.new_ver@),
        TxActionKind::Upgrade => version_step(p.old_ver@, p.new_ver@),
    }
}

/// What is shown of the versions of a row.
pub fn version_plain_for_tx(p: &TxRowPaint) -> (r: String)
    ensures
        r@ == shown_version(*p),
{
    match p.action {
        TxActionKind::Remove => v_label(p.old_ver.as_str()),
        TxActionKind::Install => v_label(p.new_ver.as_str()),
        TxActionKind::Upgrade => version_plain(p.old_ver.as_str(), p.new_ver.as_str()),
    }
}

/// The versions of a row in colour.
pub open spec fn painted_version(c: Colors, p: TxRowPaint) -> Seq<char> {
    match p.action {
        TxActionKind::Remove => painted(c.old_version, version_label(p.old_ver@)),
        TxActionKind::Install => painted(c.new_version, version_label(p.new_ver@)),
        TxActionKind::Upgrade => painted(c.old_version, version_label(p.old_ver@)) + painted(
            c.tx_arrow,
            " -> "@,
        ) + painted(c.new_version, version_label(p.new_ver@)),
    }
}

/// The versions of a row in colour.
pub fn paint_version_cell(config: &Config, p: &TxRowPaint) -> (r: String)
    ensures
        r@ == painted_version(config.color, *p),
{
    let c = &config.color;
    match p.action {
        TxActionKind::Remove => paint(c.old_version, v_label(p.old_ver.as_str()).as_str()),
        TxActionKind::Install => paint(c.new_version, v_label(p.new_ver.as_str()).as_str()),
        TxActionKind::Upgrade => {
            let mut out = paint(c.old_version, v_label(p.old_ver.as_str()).as_str());
            put(&mut out, paint(c.tx_arrow, " -> ").as_str());
            put(&mut out, paint(c.new_version, v_label(p.new_ver.as_str()).as_str()).as_str());
            out
        },
    }
}

/// The style for an action.
pub open spec fn action_style(c: Colors, k: TxActionKind) -> Style {
    match k {
        TxActionKind::Install => c.tx_install,
        TxActionKind::Upgrade => c.tx_upgrade,
        TxActionKind::Remove => c.tx_remove,
    }
}

fn style_for_action(c: &Colors, k: TxActionKind) -> (r: Style)
    ensures
        r == action_style(*c, k),
{
    match k {
        TxActionKind::Install => c.tx_install,
        TxActionKind::Upgrade => c.tx_upgrade,
        TxActionKind::Remove => c.tx_remove,
    }
}

/// A number of bytes in the unit that suits it. Fractions are those of double precision.
pub open spec fn size_text(n: nat) -> Seq<char> {
    if n < 0x400 {
        decimal(n) + " B"@
    } else if n < 0x10_0000 {
        one_place(as_double(n), 0x400) + " KiB"@
    } else if n < 0x4000_0000 {
        one_place(as_double(n), 0x10_0000) + " MiB"@
    } else {
        two_places(as_double(n), 0x4000_0000) + " GiB"@
    }
}

/// A number of bytes in the unit that suits it.
pub fn format_bytes_u64(n: u64) -> (r: String)
    ensures
        r@ == size_text(n as nat),
{
    if n < 0x400 {
        let mut out = decimal_text(n as u128);
        put(&mut out, " B");
        out
    } else if n < 0x10_0000 {
        let mut out = one_place_text(n as u128, 0x400);
        put(&mut out, " KiB");
        out
    } else if n < 0x4000_0000 {
        let mut out = one_place_text(n as u128, 0x10_0000);
        put(&mut out, " MiB");
        out
    } else {
        let mut out = two_places_text(n as u128, 0x4000_0000);
        put(&mut out, " GiB");
        out
    }
}

/// The title above a group.
pub open spec fn group_title(config: Config, g: TxRowGroup) -> Seq<char> {
    match g {
        TxRowGroup::Target => config.messages.target_packages@,
        TxRowGroup::Dependency => config.messages.dependencies@,
    }
}

fn tx_group_title(config: &Config, g: TxRowGroup) -> (r: String)
    ensures
        r@ == group_title(*config, g),
{
    match g {
        TxRowGroup::Target => config.messages.target_packages.clone(),
        TxRowGroup::Dependency => config.messages.dependencies.clone(),
    }
}

/// The title above the packages of a source.
pub open spec fn source_title(config: Config, s: TxSourceKind) -> Seq<char> {
    match s {
        TxSourceKind::Aur => config.messages.aur_packages@,
        TxSourceKind::Repo => config.messages.repo_packages@,
    }
}

fn tx_source_title(config: &Config, s: TxSourceKind) -> (r: String)
    ensures
        r@ == source_title(*config, s),
{
    match s {
        TxSourceKind::Aur => config.messages.aur_packages.clone(),
        TxSourceKind::Repo => config.messages.repo_packages.clone(),
    }
}

/// The title above a preview of `count` packages.
pub open spec fn table_title(config: Config, op: TxConfirmOp, count: nat) -> Seq<char> {
    filled(
        match op {
            TxConfirmOp::Install => config.messages.to_install@,
            TxConfirmOp::Update => config.messages.to_update@,
            TxConfirmOp::Remove => config.messages.to_remove@,
        },
        decimal(count),
    )
}

fn tx_table_title(config: &Config, op: TxConfirmOp, count: usize) -> (r: String)
    ensures
        r@ == table_title(*config, op, count as nat),
{
    let n = decimal_text(count as u128);
    match op {
        TxConfirmOp::Install => fill(config.messages.to_install.as_str(), n.as_str()),
        TxConfirmOp::Update => fill(config.messages.to_update.as_str(), n.as_str()),
        TxConfirmOp::Remove => fill(config.messages.to_remove.as_str(), n.as_str()),
    }
}

/// The line above a section: its title near the left end of a bar.
pub open spec fn separator(term: int, title: Seq<char>) -> Seq<char> {
    let label = " --"@ + title;
    if term <= text_width(label) {
        truncated(label, max(term, 1) as nat)
    } else {
        label + repeated('-', minus(term, text_width(label) as int) as nat)
    }
}

/// The line above a section.
pub fn section_separator_line(term_w: usize, title: &str) -> (r: String)
    ensures
        r@ == separator(term_w as int, title@),
{
    let mut label = " --".to_owned();
    put(&mut label, title);
    let w = width(label.as_str());
    if term_w <= w {
        return truncate_to_width(label.as_str(), larger(term_w, 1));
    }
    put(&mut label, repeat('-', term_w - w).as_str());
    label
}

/// The line above a section, in colour.
pub open spec fn section_header(term: int, title: Seq<char>) -> Seq<char> {
    "\x1b[1;34m"@ + separator(term, title) + "\x1b[0m"@ + "\n"@
}

fn put_section_header(out: &mut String, term_w: usize, title: &str)
    ensures
        final(out)@ == old(out)@ + section_header(term_w as int, title@),
{
    let ghost before = out@;
    put(out, "\x1b[1;34m");
    put(out, section_separator_line(term_w, title).as_str());
    put(out, "\x1b[0m");
    put(out, "\n");
    assert(out@ =~= before + section_header(term_w as int, title@));
}

/// The widths of the columns of a preview. `download` is there where the table has a column for
/// sizes.
pub struct PreviewWidths {
    pub package: int,
    pub version: int,
    pub download: Option<int>,
    pub detail: int,
}

/// The columns of the terminal for a preview.
pub open spec fn preview_terminal(config: Config, terminal: Option<usize>) -> int {
    max(
        match (config.cols, terminal) {
            (Some(c), _) => c as int,
            (None, Some(t)) => t as int,
            (None, None) => 120,
        },
        72,
    ) - 1
}

/// The versions of the rows that belong to a transaction.
pub open spec fn shown_versions(rows: Seq<ConfirmationRow>) -> Seq<Seq<char>>
    decreases rows.len(),
{
    if rows.len() == 0 {
        seq![]
    } else if rows.last().tx is Some {
        shown_versions(rows.drop_last()).push(shown_version(rows.last().tx->0))
    } else {
        shown_versions(rows.drop_last())
    }
}

/// The least width of the column for details.
pub const MIN_DETAIL: usize = 12;

/// The widths of a preview: package and size take their natural widths up to a limit, the
/// versions theirs as long as the details keep their least width, and the details the rest.
pub open spec fn preview_widths(
    config: Config,
    terminal: Option<usize>,
    t: ConfirmationTable,
) -> PreviewWidths {
    let sized = t.headers@.len() >= 4;
    let package = min(max(widest(column(t.rows@, 0)), text_width(t.headers@[0]@) as int), 40);
    let size = if sized {
        min(max(widest(column(t.rows@, 2)), text_width(t.headers@[2]@) as int), 14)
    } else {
        0
    };
    let title = text_width(t.headers@[1]@) as int;
    let natural = max(widest(shown_versions(t.rows@)), title);
    let room = minus(
        preview_terminal(config, terminal),
        package + size + (if sized {
            6int
        } else {
            4int
        }),
    );
    let version = if natural + MIN_DETAIL > room {
        max(minus(room, MIN_DETAIL as int), title)
    } else {
        natural
    };
    PreviewWidths {
        package,
        version,
        download: if sized {
            Some(size)
        } else {
            None
        },
        detail: max(minus(room, version), MIN_DETAIL as int),
    }
}

/// The style of details.
pub open spec fn detail_style() -> Style {
    Style { foreground: Some(Colour::White), bold: false, dimmed: true }
}

/// The versions of a row in the width of their column: in colour where they fit, otherwise cut.
pub open spec fn version_cell(c: Colors, p: TxRowPaint, w: int) -> Seq<char> {
    let raw = shown_version(p);
    if truncated(raw, w as nat) == raw {
        painted_version(c, p) + repeated(' ', minus(w, text_width(raw) as int) as nat)
    } else {
        painted(c.field, padded(raw, w as nat))
    }
}

/// A text cut and moved to the right end of a width.
pub open spec fn right_padded(s: Seq<char>, w: int) -> Seq<char> {
    let t = truncated(s, w as nat);
    repeated(' ', minus(w, text_width(t) as int) as nat) + t
}

/// The end of the line for a package: its size, where the table has it, and its details.
pub open spec fn preview_details(c: Colors, w: PreviewWidths, row: ConfirmationRow) -> Seq<char> {
    match w.download {
        Some(d) => painted(c.number_menu, right_padded(row.cells@[2]@, d)) + "  "@ + painted(
            detail_style(),
            padded(row.cells@[3]@, w.detail as nat),
        ),
        None => painted(detail_style(), padded(row.cells@[2]@, w.detail as nat)),
    }
}

/// The line for a package.
pub open spec fn preview_line(
    config: Config,
    w: PreviewWidths,
    row: ConfirmationRow,
    p: TxRowPaint,
) -> Seq<char> {
    let c = config.color;
    painted(action_style(c, p.action), padded(row.cells@[0]@, w.package as nat)) + "  "@
        + version_cell(c, p, w.version) + "  "@ + preview_details(c, w, row) + "\n"@
}

/// Which rows a section shows.
#[derive(Debug, Clone, Copy, PartialEq, Eq, Structural)]
pub struct Section {
    pub group: Option<TxRowGroup>,
    pub source: Option<TxSourceKind>,
}

/// Whether a row is shown in a section.
pub open spec fn in_section(row: ConfirmationRow, s: Section) -> bool {
    &&& row.tx is Some
    &&& s.group is Some ==> row.group == s.group
    &&& s.source is Some ==> row.tx->0.source == s.source->0
}

/// Whether any row is shown in a section.
pub open spec fn any_in(rows: Seq<ConfirmationRow>, s: Section) -> bool {
    exists|k: int| 0 <= k < rows.len() && in_section(#[trigger] rows[k], s)
}

/// Whether any row belongs to a group.
pub open spec fn any_of_group(rows: Seq<ConfirmationRow>, g: TxRowGroup) -> bool {
    exists|k: int| 0 <= k < rows.len() && (#[trigger] rows[k]).group == Some(g)
}

/// The lines of a section.
pub open spec fn section_lines(
    config: Config,
    w: PreviewWidths,
    rows: Seq<ConfirmationRow>,
    s: Section,
) -> Seq<char>
    decreases rows.len(),
{
    if rows.len() == 0 {
        seq![]
    } else {
        section_lines(config, w, rows.drop_last(), s) + (if in_section(rows.last(), s) {
            preview_line(config, w, rows.last(), rows.last().tx->0)
        } else {
            seq![]
        })
    }
}

/// The packages of a group, or all of them, under a title for each source.
pub open spec fn by_source(
    config: Config,
    term: int,
    w: PreviewWidths,
    rows: Seq<ConfirmationRow>,
    group: Option<TxRowGroup>,
) -> Seq<char> {
    section_header(term, source_title(config, TxSourceKind::Aur)) + section_lines(
        config,
        w,
        rows,
        Section { group, source: Some(TxSourceKind::Aur) },
    ) + section_header(term, source_title(config, TxSourceKind::Repo)) + section_lines(
        config,
        w,
        rows,
        Section { group, source: Some(TxSourceKind::Repo) },
    )
}

/// Whether both sources occur in a group, or among all rows.
pub open spec fn both_sources(rows: Seq<ConfirmationRow>, group: Option<TxRowGroup>) -> bool {
    any_in(rows, Section { group, source: Some(TxSourceKind::Aur) }) && any_in(
        rows,
        Section { group, source: Some(TxSourceKind::Repo) },
    )
}

/// The packages of a group under its title, or nothing where there are none.
pub open spec fn group_text(
    config: Config,
    term: int,
    w: PreviewWidths,
    rows: Seq<ConfirmationRow>,
    g: TxRowGroup,
) -> Seq<char> {
    if !any_of_group(rows, g) {
        seq![]
    } else {
        section_header(term, group_title(config, g)) + (if both_sources(rows, Some(g)) {
            by_source(config, term, w, rows, Some(g))
        } else {
            section_lines(config, w, rows, Section { group: Some(g), source: None })
        })
    }
}

/// The packages of a preview.
pub open spec fn preview_body(
    config: Config,
    term: int,
    w: PreviewWidths,
    rows: Seq<ConfirmationRow>,
    op: TxConfirmOp,
) -> Seq<char> {
    if op == TxConfirmOp::Install {
        group_text(config, term, w, rows, TxRowGroup::Target) + group_text(
            config,
            term,
            w,
            rows,
            TxRowGroup::Dependency,
        )
    } else if both_sources(rows, None) {
        by_source(config, term, w, rows, None)
    } else {
        section_lines(config, w, rows, Section { group: None, source: None })
    }
}

/// The size in a summary.
pub open spec fn summary_size(config: Config, t: InstallConfirmTotals) -> Seq<char> {
    if t.download_bytes == 0 {
        if t.download_excludes_aur {
            config.messages.size_of_aur@
        } else {
            config.messages.zero_bytes@
        }
    } else {
        size_text(t.download_bytes as nat) + (if t.download_excludes_aur {
            "*"@
        } else {
            seq![]
        })
    }
}

/// The summary under a preview.
pub open spec fn summary(config: Config, t: InstallConfirmTotals) -> Seq<char> {
    "\n"@ + heading(
        config.color,
        filled(config.messages.total_download@, summary_size(config, t)),
    ) + "\n"@ + (if t.download_excludes_aur || t.disk_partial {
        "   "@ + painted(config.color.install_version, config.messages.build_sizes@) + "\n"@
    } else {
        seq![]
    }) + "\n"@
}

/// The text of a preview.
pub open spec fn preview(
    config: Config,
    terminal: Option<usize>,
    t: ConfirmationTable,
    totals: InstallConfirmTotals,
    op: TxConfirmOp,
) -> Seq<char> {
    if !presentable(t) {
        seq![]
    } else {
        "\n"@ + heading(config.color, table_title(config, op, t.rows@.len())) + "\n"@
            + preview_body(
            config,
            preview_terminal(config, terminal),
            preview_widths(config, terminal, t),
            t.rows@,
            op,
        ) + (if op == TxConfirmOp::Remove {
            seq![]
        } else {
            summary(config, totals)
        })
    }
}

/// Whether a preview shows a row.
pub open spec fn is_shown(row: ConfirmationRow, op: TxConfirmOp) -> bool {
    row.tx is Some && (op == TxConfirmOp::Install ==> row.group is Some)
}

/// Whether a table has the columns that a preview of it reads.
pub open spec fn previewable(t: ConfirmationTable, op: TxConfirmOp) -> bool {
    presentable(t) ==> {
        &&& t.headers@.len() >= 2
        &&& t.headers@.len() >= 3 || forall|k: int|
            0 <= k < t.rows@.len() ==> !is_shown(#[trigger] t.rows@[k], op)
    }
}

/// The widths as numbers of columns.
struct Widths {
    package: usize,
    version: usize,
    download: Option<usize>,
    detail: usize,
}

impl Widths {
    spec fn model(&self) -> PreviewWidths {
        PreviewWidths {
            package: self.package as int,
            version: self.version as int,
            download: match self.download {
                Some(d) => Some(d as int),
                None => None,
            },
            detail: self.detail as int,
        }
    }
}

fn widest_version(rows: &Vec<ConfirmationRow>) -> (r: usize)
    ensures
        r == widest(shown_versions(rows@)),
{
    let mut best: usize = 0;
    let mut k: usize = 0;
    assert(rows@.take(0) =~= seq![]);
    while k < rows.len()
        invariant
            k <= rows.len(),
            best == widest(shown_versions(rows@.take(k as int))),
        decreases rows.len() - k,
    {
        assert(rows@.take(k + 1).drop_last() =~= rows@.take(k as int));
        match &rows[k].tx {
            Some(p) => {
                let v = version_plain_for_tx(p);
                let w = width(v.as_str());
                if w > best {
                    best = w;
                }
                proof {
                    let before = shown_versions(rows@.take(k as int));
                    assert(before.push(v@).drop_last() =~= before);
                }
            },
            None => {},
        }
        k += 1;
    }
    assert(rows@.take(k as int) =~= rows@);
    best
}

fn terminal_for_preview(config: &Config, terminal: Option<usize>) -> (r: usize)
    ensures
        r == preview_terminal(*config, terminal),
{
    let cols = match (config.cols, terminal) {
        (Some(c), _) => c,
        (None, Some(t)) => t,
        (None, None) => 120,
    };
    larger(cols, 72) - 1
}

fn widths_for_preview(config: &Config, terminal: Option<usize>, t: &ConfirmationTable) -> (w: Widths)
    requires
        presentable(*t),
        t.headers@.len() >= 2,
    ensures
        w.model() == preview_widths(*config, terminal, *t),
{
    let sized = t.headers.len() >= 4;
    let package = smaller(larger(widest_cell(t, 0), width(t.headers[0].as_str())), 40);
    let size: usize = if sized {
        smaller(larger(widest_cell(t, 2), width(t.headers[2].as_str())), 14)
    } else {
        0
    };
    let title = width(t.headers[1].as_str());
    let natural = larger(widest_version(&t.rows), title);
    let term = terminal_for_preview(config, terminal);
    let gaps: usize = if sized {
        6
    } else {
        4
    };
    let used: usize = package + size + gaps;
    let room: usize = if term > used {
        term - used
    } else {
        0
    };
    let version: usize = if room < MIN_DETAIL || natural > room - MIN_DETAIL {
        let rest: usize = if room > MIN_DETAIL {
            room - MIN_DETAIL
        } else {
            0
        };
        larger(rest, title)
    } else {
        natural
    };
    let rest: usize = if room > version {
        room - version
    } else {
        0
    };
    let download = if sized {
        Some(size)
    } else {
        None
    };
    Widths { package, version, download, detail: larger(rest, MIN_DETAIL) }
}

fn version_cell_text(config: &Config, p: &TxRowPaint, w: usize) -> (r: String)
    ensures
        r@ == version_cell(config.color, *p, w as int),
{
    let raw = version_plain_for_tx(p);
    let cut = truncate_to_width(raw.as_str(), w);
    if same(cut.as_str(), raw.as_str()) {
        let mut out = paint_version_cell(config, p);
        let own = width(raw.as_str());
        let blanks: usize = if w > own {
            w - own
        } else {
            0
        };
        put(&mut out, repeat(' ', blanks).as_str());
        out
    } else {
        paint(config.color.field, pad_plain(raw.as_str(), w).as_str())
    }
}

fn right_pad(s: &str, w: usize) -> (r: String)
    ensures
        r@ == right_padded(s@, w as int),
{
    let t = truncate_to_width(s, w);
    let own = width(t.as_str());
    let blanks: usize = if w > own {
        w - own
    } else {
        0
    };
    let mut out = repeat(' ', blanks);
    put(&mut out, t.as_str());
    out
}

fn details_text(c: &Colors, w: &Widths, row: &ConfirmationRow) -> (r: String)
    requires
        w.download is Some ==> row.cells@.len() >= 4,
        row.cells@.len() >= 3,
    ensures
        r@ == preview_details(*c, w.model(), *row),
{
    let detail = Style { foreground: Some(Colour::White), bold: false, dimmed: true };
    match w.download {
        Some(d) => {
            let mut out = paint(c.number_menu, right_pad(row.cells[2].as_str(), d).as_str());
            put(&mut out, "  ");
            put(&mut out, paint(detail, pad_plain(row.cells[3].as_str(), w.detail).as_str()).as_str());
            out
        },
        None => paint(detail, pad_plain(row.cells[2].as_str(), w.detail).as_str()),
    }
}

fn preview_line_text(config: &Config, w: &Widths, row: &ConfirmationRow, p: &TxRowPaint) -> (r:
    String)
    requires
        w.download is Some ==> row.cells@.len() >= 4,
        row.cells@.len() >= 3,
    ensures
        r@ == preview_line(*config, w.model(), *row, *p),
{
    let c = &config.color;
    let name = pad_plain(row.cells[0].as_str(), w.package);
    let mut out = paint(style_for_action(c, p.action), name.as_str());
    put(&mut out, "  ");
    put(&mut out, version_cell_text(config, p, w.version).as_str());
    put(&mut out, "  ");
    put(&mut out, details_text(c, w, row).as_str());
    put(&mut out, "\n");
    out
}

fn is_in_section(row: &ConfirmationRow, s: Section) -> (r: bool)
    ensures
        r == in_section(*row, s),
{
    match &row.tx {
        None => false,
        Some(p) => {
            let group_fits = match (s.group, row.group) {
                (None, _) => true,
                (Some(g), Some(h)) => g == h,
                (Some(_), None) => false,
            };
            let source_fits = match s.source {
                None => true,
                Some(source) => p.source == source,
            };
            group_fits && source_fits
        },
    }
}

fn has_any_in(rows: &Vec<ConfirmationRow>, s: Section) -> (r: bool)
    ensures
        r == any_in(rows@, s),
{
    let mut k: usize = 0;
    while k < rows.len()
        invariant
            k <= rows.len(),
            forall|j: int| 0 <= j < k ==> !in_section(#[trigger] rows@[j], s),
        decreases rows.len() - k,
    {
        if is_in_section(&rows[k], s) {
            assert(in_section(rows@[k as int], s));
            return true;
        }
        k += 1;
    }
    false
}

fn has_group(rows: &Vec<ConfirmationRow>, g: TxRowGroup) -> (r: bool)
    ensures
        r == any_of_group(rows@, g),
{
    let mut k: usize = 0;
    while k < rows.len()
        invariant
            k <= rows.len(),
            forall|j: int| 0 <= j < k ==> (#[trigger] rows@[j]).group != Some(g),
        decreases rows.len() - k,
    {
        match rows[k].group {
            Some(h) => {
                if h == g {
                    assert(rows@[k as int].group == Some(g));
                    return true;
                }
            },
            None => {},
        }
        k += 1;
    }
    false
}

/// The columns that the lines of a section read are there.
spec fn readable(rows: Seq<ConfirmationRow>, w: Widths, s: Section) -> bool {
    forall|k: int|
        0 <= k < rows.len() && in_section(#[trigger] rows[k], s) ==> rows[k].cells@.len() >= 3 && (
        w.download is Some ==> rows[k].cells@.len() >= 4)
}

fn put_section(out: &mut String, config: &Config, w: &Widths, rows: &Vec<ConfirmationRow>, s: Section)
    requires
        readable(rows@, *w, s),
    ensures
        final(out)@ == old(out)@ + section_lines(*config, w.model(), rows@, s),
{
    let ghost before = out@;
    let mut k: usize = 0;
    assert(rows@.take(0) =~= seq![]);
    assert(out@ =~= before + seq![]);
    while k < rows.len()
        invariant
            k <= rows.len(),
            readable(rows@, *w, s),
            out@ =~= before + section_lines(*config, w.model(), rows@.take(k as int), s),
        decreases rows.len() - k,
    {
        assert(rows@.take(k + 1).drop_last() =~= rows@.take(k as int));
        let ghost so_far = out@;
        if is_in_section(&rows[k], s) {
            assert(in_section(rows@[k as int], s));
            match &rows[k].tx {
                Some(p) => {
                    put(out, preview_line_text(config, w, &rows[k], p).as_str());
                },
                None => {},
            }
        } else {
            assert(out@ =~= so_far + seq![]);
        }
        k += 1;
    }
    assert(rows@.take(k as int) =~= rows@);
}

/// The columns that a preview reads are there in every row that it shows.
spec fn all_readable(rows: Seq<ConfirmationRow>, w: Widths, op: TxConfirmOp) -> bool {
    forall|k: int|
        0 <= k < rows.len() && is_shown(#[trigger] rows[k], op) ==> rows[k].cells@.len() >= 3 && (
        w.download is Some ==> rows[k].cells@.len() >= 4)
}

proof fn lemma_readable(rows: Seq<ConfirmationRow>, w: Widths, op: TxConfirmOp, s: Section)
    requires
        all_readable(rows, w, op),
        op == TxConfirmOp::Install ==> s.group is Some,
    ensures
        readable(rows, w, s),
{
    assert forall|k: int| 0 <= k < rows.len() && in_section(#[trigger] rows[k], s) implies rows[k].cells@.len()
        >= 3 && (w.download is Some ==> rows[k].cells@.len() >= 4) by {
        assert(is_shown(rows[k], op));
    }
}

fn put_by_source(
    out: &mut String,
    config: &Config,
    term: usize,
    w: &Widths,
    rows: &Vec<ConfirmationRow>,
    group: Option<TxRowGroup>,
    op: TxConfirmOp,
)
    requires
        all_readable(rows@, *w, op),
        op == TxConfirmOp::Install ==> group is Some,
    ensures
        final(out)@ == old(out)@ + by_source(*config, term as int, w.model(), rows@, group),
{
    let ghost before = out@;
    let aur = Section { group, source: Some(TxSourceKind::Aur) };
    let repo = Section { group, source: Some(TxSourceKind::Repo) };
    proof {
        lemma_readable(rows@, *w, op, aur);
        lemma_readable(rows@, *w, op, repo);
    }
    put_section_header(out, term, tx_source_title(config, TxSourceKind::Aur).as_str());
    put_section(out, config, w, rows, aur);
    put_section_header(out, term, tx_source_title(config, TxSourceKind::Repo).as_str());
    put_section(out, config, w, rows, repo);
    assert(out@ =~= before + by_source(*config, term as int, w.model(), rows@, group));
}

fn has_both_sources(rows: &Vec<ConfirmationRow>, group: Option<TxRowGroup>) -> (r: bool)
    ensures
        r == both_sources(rows@, group),
{
    has_any_in(rows, Section { group, source: Some(TxSourceKind::Aur) }) && has_any_in(
        rows,
        Section { group, source: Some(TxSourceKind::Repo) },
    )
}

fn put_group(
    out: &mut String,
    config: &Config,
    term: usize,
    w: &Widths,
    rows: &Vec<ConfirmationRow>,
    g: TxRowGroup,
)
    requires
        all_readable(rows@, *w, TxConfirmOp::Install),
    ensures
        final(out)@ == old(out)@ + group_text(*config, term as int, w.model(), rows@, g),
{
    let ghost before = out@;
    if !has_group(rows, g) {
        assert(out@ =~= before + seq![]);
        return;
    }
    put_section_header(out, term, tx_group_title(config, g).as_str());
    if has_both_sources(rows, Some(g)) {
        put_by_source(out, config, term, w, rows, Some(g), TxConfirmOp::Install);
    } else {
        let all = Section { group: Some(g), source: None };
        proof {
            lemma_readable(rows@, *w, TxConfirmOp::Install, all);
        }
        put_section(out, config, w, rows, all);
    }
    assert(out@ =~= before + group_text(*config, term as int, w.model(), rows@, g));
}

/// The summary under a preview: the download size, and a note where sizes are not known.
pub fn print_install_confirmation_summary(config: &Config, totals: &InstallConfirmTotals) -> (r:
    String)
    ensures
        r@ == summary(*config, *totals),
{
    let c = &config.color;
    let size = if totals.download_bytes == 0 {
        if totals.download_excludes_aur {
            config.messages.size_of_aur.clone()
        } else {
            config.messages.zero_bytes.clone()
        }
    } else {
        let mut s = format_bytes_u64(totals.download_bytes);
        if totals.download_excludes_aur {
            put(&mut s, "*");
        } else {
            assert(s@ + seq![] =~= s@);
        }
        s
    };
    let mut out = "\n".to_owned();
    let body = fill(config.messages.total_download.as_str(), size.as_str());
    put(&mut out, heading_text(c, body.as_str()).as_str());
    put(&mut out, "\n");
    let ghost above = out@;
    if totals.download_excludes_aur || totals.disk_partial {
        put(&mut out, "   ");
        put(&mut out, paint(c.install_version, config.messages.build_sizes.as_str()).as_str());
        put(&mut out, "\n");
        assert(out@ =~= above + ("   "@ + painted(c.install_version, config.messages.build_sizes@)
            + "\n"@));
    } else {
        assert(out@ =~= above + seq![]);
    }
    put(&mut out, "\n");
    out
}

/// The text of a preview: a title, the packages under the titles of their groups and sources,
/// and a summary of an installation or update. `terminal` is the width of the terminal, used
/// where no width is configured.
pub fn print_install_confirmation_table(
    config: &Config,
    terminal: Option<usize>,
    table: &ConfirmationTable,
    totals: &InstallConfirmTotals,
    op: TxConfirmOp,
) -> (r: String)
    requires
        previewable(*table, op),
    ensures
        r@ == preview(*config, terminal, *table, *totals, op),
{
    if !is_presentable(table) {
        return String::new();
    }
    let term = terminal_for_preview(config, terminal);
    let w = widths_for_preview(config, terminal, table);
    let rows = &table.rows;
    proof {
        assert(all_readable(rows@, w, op)) by {
            assert forall|k: int| 0 <= k < rows@.len() && is_shown(
                #[trigger] rows@[k],
                op,
            ) implies rows@[k].cells@.len() >= 3 && (w.download is Some ==> rows@[k].cells@.len()
                >= 4) by {
                assert(table.rows@[k].cells@.len() == table.headers@.len());
            }
        }
    }
    let mut out = "\n".to_owned();
    let title = tx_table_title(config, op, rows.len());
    put(&mut out, heading_text(&config.color, title.as_str()).as_str());
    put(&mut out, "\n");
    let ghost above = out@;
    if op == TxConfirmOp::Install {
        put_group(&mut out, config, term, &w, rows, TxRowGroup::Target);
        put_group(&mut out, config, term, &w, rows, TxRowGroup::Dependency);
    } else if has_both_sources(rows, None) {
        put_by_source(&mut out, config, term, &w, rows, None, op);
    } else {
        let all = Section { group: None, source: None };
        proof {
            lemma_readable(rows@, w, op, all);
        }
        put_section(&mut out, config, &w, rows, all);
    }
    assert(out@ =~= above + preview_body(*config, term as int, w.model(), rows@, op));
    if op != TxConfirmOp::Remove {
        put(&mut out, print_install_confirmation_summary(config, totals).as_str());
    } else {
        assert(out@ + seq![] =~= out@);
    }
    out
}

/// A section with the titles above it.
pub struct TitledSection {
    pub titles: Seq<Seq<char>>,
    pub section: Section,
}

/// The sections of all rows, or of a group: one, or one for each source.
pub open spec fn sections_of(
    config: Config,
    rows: Seq<ConfirmationRow>,
    group: Option<TxRowGroup>,
    above: Seq<Seq<char>>,
) -> Seq<TitledSection> {
    if both_sources(rows, group) {
        seq![
            TitledSection {
                titles: above.push(source_title(config, TxSourceKind::Aur)),
                section: Section { group, source: Some(TxSourceKind::Aur) },
            },
            TitledSection {
                titles: seq![source_title(config, TxSourceKind::Repo)],
                section: Section { group, source: Some(TxSourceKind::Repo) },
            },
        ]
    } else {
        seq![TitledSection { titles: above, section: Section { group, source: None } }]
    }
}

/// The sections of a group.
pub open spec fn group_sections(config: Config, rows: Seq<ConfirmationRow>, g: TxRowGroup) -> Seq<
    TitledSection,
> {
    if any_of_group(rows, g) {
        sections_of(config, rows, Some(g), seq![group_title(config, g)])
    } else {
        seq![]
    }
}

/// The sections of a preview.
pub open spec fn preview_sections(config: Config, rows: Seq<ConfirmationRow>, op: TxConfirmOp) -> Seq<
    TitledSection,
> {
    if op == TxConfirmOp::Install {
        group_sections(config, rows, TxRowGroup::Target) + group_sections(
            config,
            rows,
            TxRowGroup::Dependency,
        )
    } else {
        sections_of(config, rows, None, seq![])
    }
}

/// Lines with titles.
pub open spec fn title_lines(term: int, titles: Seq<Seq<char>>) -> Seq<char>
    decreases titles.len(),
{
    if titles.len() == 0 {
        seq![]
    } else {
        title_lines(term, titles.drop_last()) + section_header(term, titles.last())
    }
}

/// Sections with their titles, one after the other.
pub open spec fn sections_text(
    config: Config,
    term: int,
    w: PreviewWidths,
    rows: Seq<ConfirmationRow>,
    list: Seq<TitledSection>,
) -> Seq<char>
    decreases list.len(),
{
    if list.len() == 0 {
        seq![]
    } else {
        sections_text(config, term, w, rows, list.drop_last()) + title_lines(
            term,
            list.last().titles,
        ) + section_lines(config, w, rows, list.last().section)
    }
}

proof fn lemma_titles(term: int, a: Seq<char>, b: Seq<char>)
    ensures
        title_lines(term, seq![]) == Seq::<char>::empty(),
        title_lines(term, seq![a]) == section_header(term, a),
        title_lines(term, seq![a, b]) == section_header(term, a) + section_header(term, b),
{
    let one = seq![a];
    let none = Seq::<Seq<char>>::empty();
    assert(one.drop_last() =~= none);
    assert(title_lines(term, none) =~= seq![]);
    assert(title_lines(term, one) == title_lines(term, none) + section_header(term, a));
    assert(title_lines(term, one) =~= section_header(term, a));
    assert(seq![a, b].drop_last() =~= one);
}

proof fn lemma_sections(
    config: Config,
    term: int,
    w: PreviewWidths,
    rows: Seq<ConfirmationRow>,
    group: Option<TxRowGroup>,
    above: Seq<Seq<char>>,
)
    requires
        above.len() <= 1,
    ensures
        sections_text(config, term, w, rows, sections_of(config, rows, group, above)) == title_lines(
            term,
            above,
        ) + (if both_sources(rows, group) {
            by_source(config, term, w, rows, group)
        } else {
            section_lines(config, w, rows, Section { group, source: None })
        }),
{
    let list = sections_of(config, rows, group, above);
    let aur = source_title(config, TxSourceKind::Aur);
    let repo = source_title(config, TxSourceKind::Repo);
    let head = title_lines(term, above);
    if above.len() == 1 {
        assert(above =~= seq![above[0]]);
        assert(above.push(aur) =~= seq![above[0], aur]);
        lemma_titles(term, above[0], aur);
    } else {
        assert(above =~= seq![]);
        assert(above.push(aur) =~= seq![aur]);
        lemma_titles(term, aur, aur);
    }
    lemma_titles(term, repo, repo);
    if both_sources(rows, group) {
        let front = list.drop_last();
        assert(front.drop_last() =~= seq![]);
        assert(sections_text(config, term, w, rows, front.drop_last()) =~= seq![]);
        let first = section_lines(config, w, rows, list[0].section);
        let second = section_lines(config, w, rows, list[1].section);
        assert(sections_text(config, term, w, rows, front) =~= title_lines(term, above.push(aur))
            + first);
        assert(title_lines(term, above.push(aur)) =~= head + section_header(term, aur));
        assert(sections_text(config, term, w, rows, list) =~= head + by_source(
            config,
            term,
            w,
            rows,
            group,
        ));
    } else {
        assert(list.drop_last() =~= seq![]);
        assert(sections_text(config, term, w, rows, list.drop_last()) =~= seq![]);
        assert(sections_text(config, term, w, rows, list) =~= head + section_lines(
            config,
            w,
            rows,
            Section { group, source: None },
        ));
    }
}

proof fn lemma_sections_add(
    config: Config,
    term: int,
    w: PreviewWidths,
    rows: Seq<ConfirmationRow>,
    a: Seq<TitledSection>,
    b: Seq<TitledSection>,
)
    ensures
        sections_text(config, term, w, rows, a + b) == sections_text(config, term, w, rows, a)
            + sections_text(config, term, w, rows, b),
    decreases b.len(),
{
    if b.len() == 0 {
        assert(a + b =~= a);
        assert(sections_text(config, term, w, rows, a) + Seq::<char>::empty() =~= sections_text(
            config,
            term,
            w,
            rows,
            a,
        ));
    } else {
        lemma_sections_add(config, term, w, rows, a, b.drop_last());
        assert((a + b).drop_last() =~= a + b.drop_last());
        assert((a + b).last() == b.last());
        let head = sections_text(config, term, w, rows, a);
        let tail = sections_text(config, term, w, rows, b.drop_last());
        let titles = title_lines(term, b.last().titles);
        let lines = section_lines(config, w, rows, b.last().section);
        assert(head + tail + titles + lines =~= head + (tail + titles + lines));
    }
}

/// The packages of a preview are its sections, one after the other, each under its titles.
pub proof fn preview_is_made_of_sections(
    config: Config,
    term: int,
    w: PreviewWidths,
    rows: Seq<ConfirmationRow>,
    op: TxConfirmOp,
)
    ensures
        preview_body(config, term, w, rows, op) == sections_text(
            config,
            term,
            w,
            rows,
            preview_sections(config, rows, op),
        ),
{
    let (t, d) = (TxRowGroup::Target, TxRowGroup::Dependency);
    if op == TxConfirmOp::Install {
        lemma_sections_add(
            config,
            term,
            w,
            rows,
            group_sections(config, rows, t),
            group_sections(config, rows, d),
        );
        lemma_sections(config, term, w, rows, Some(t), seq![group_title(config, t)]);
        lemma_sections(config, term, w, rows, Some(d), seq![group_title(config, d)]);
        lemma_titles(term, group_title(config, t), group_title(config, d));
        lemma_titles(term, group_title(config, d), group_title(config, d));
    } else {
        lemma_sections(config, term, w, rows, None, seq![]);
        lemma_titles(term, seq![], seq![]);
        let rest = if both_sources(rows, None) {
            by_source(config, term, w, rows, None)
        } else {
            section_lines(config, w, rows, Section { group: None, source: None })
        };
        assert(Seq::<char>::empty() + rest =~= rest);
    }
}

/// The place of a row's section among those of its group.
spec fn place(rows: Seq<ConfirmationRow>, group: Option<TxRowGroup>, row: ConfirmationRow) -> int {
    if both_sources(rows, group) && row.tx->0.source == TxSourceKind::Repo {
        1
    } else {
        0
    }
}

proof fn lemma_place(
    config: Config,
    rows: Seq<ConfirmationRow>,
    group: Option<TxRowGroup>,
    above: Seq<Seq<char>>,
    row: ConfirmationRow,
)
    requires
        row.tx is Some,
    ensures
        0 <= place(rows, group, row) < sections_of(config, rows, group, above).len(),
        forall|j: int|
            0 <= j < sections_of(config, rows, group, above).len() ==> (in_section(
                row,
                #[trigger] sections_of(config, rows, group, above)[j].section,
            ) <==> j == place(rows, group, row) && (group is Some ==> row.group == group)),
{
    let list = sections_of(config, rows, group, above);
    assert forall|j: int| 0 <= j < list.len() implies (in_section(row, #[trigger] list[j].section)
        <==> j == place(rows, group, row) && (group is Some ==> row.group == group)) by {
        if both_sources(rows, group) {
            assert(list.len() == 2);
            assert(list[0].section == Section { group, source: Some(TxSourceKind::Aur) });
            assert(list[1].section == Section { group, source: Some(TxSourceKind::Repo) });
        } else {
            assert(list[0].section == Section { group, source: None });
        }
    }
}

/// Every row that a preview shows is in exactly one of its sections.
pub proof fn each_row_is_shown_once(
    config: Config,
    rows: Seq<ConfirmationRow>,
    op: TxConfirmOp,
    k: int,
)
    requires
        0 <= k < rows.len(),
        is_shown(rows[k], op),
    ensures
        exists|j: int|
            0 <= j < preview_sections(config, rows, op).len() && in_section(
                rows[k],
                #[trigger] preview_sections(config, rows, op)[j].section,
            ),
        forall|i: int, j: int|
            0 <= i < preview_sections(config, rows, op).len() && 0 <= j < preview_sections(
                config,
                rows,
                op,
            ).len() && in_section(rows[k], #[trigger] preview_sections(config, rows, op)[i].section)
                && in_section(rows[k], #[trigger] preview_sections(config, rows, op)[j].section)
                ==> i == j,
{
    let row = rows[k];
    let all = preview_sections(config, rows, op);
    let (t, d) = (TxRowGroup::Target, TxRowGroup::Dependency);
    if op == TxConfirmOp::Install {
        let first = group_sections(config, rows, t);
        let second = group_sections(config, rows, d);
        let g = row.group->0;
        assert(any_of_group(rows, g));
        lemma_place(config, rows, Some(t), seq![group_title(config, t)], row);
        lemma_place(config, rows, Some(d), seq![group_title(config, d)], row);
        let at = if g == t {
            place(rows, Some(t), row)
        } else {
            first.len() + place(rows, Some(d), row)
        };
        assert forall|j: int| 0 <= j < all.len() implies (in_section(row, #[trigger] all[j].section)
            <==> j == at) by {
            if j < first.len() {
                assert(all[j] == first[j]);
            } else {
                assert(all[j] == second[j - first.len()]);
            }
        }
        assert(0 <= at < all.len());
        assert(in_section(row, all[at].section));
    } else {
        lemma_place(config, rows, None, seq![], row);
        let at = place(rows, None, row);
        assert(in_section(row, all[at].section));
    }
}

/// The words of a question before a transaction.
pub open spec fn confirm_words(op: TxConfirmOp) -> Seq<char> {
    match op {
        TxConfirmOp::Remove => "Proceed with removal?"@,
        TxConfirmOp::Update => "Proceed with update?"@,
        TxConfirmOp::Install => "Proceed with installation?"@,
    }
}

/// The question before a transaction.
pub fn tx_confirm_prompt(op: TxConfirmOp) -> (r: &'static str)
    ensures
        r@ == confirm_words(op),
{
    match op {
        TxConfirmOp::Remove => "Proceed with removal?",
        TxConfirmOp::Update => "Proceed with update?",
        TxConfirmOp::Install => "Proceed with installation?",
    }
}

/// A question to the user: what is shown before it, its words, and the answer for an empty reply.
#[derive(Debug)]
pub struct Confirmation {
    pub text: String,
    pub prompt: &'static str,
    pub default_yes: bool,
}

/// What is put to the user before a transaction: its preview and a question whose default is yes.
pub fn confirm_transaction(
    config: &Config,
    terminal: Option<usize>,
    table: &ConfirmationTable,
    totals: &InstallConfirmTotals,
    op: TxConfirmOp,
) -> (r: Confirmation)
    requires
        previewable(*table, op),
    ensures
        r.text@ == preview(*config, terminal, *table, *totals, op),
        r.prompt@ == confirm_words(op),
        r.default_yes,
{
    let text = print_install_confirmation_table(config, terminal, table, totals, op);
    Confirmation { text, prompt: tx_confirm_prompt(op), default_yes: true }
}

} // verus!
