//! Tables for confirmation.

use crate::config::Config;
use crate::fmt::{larger, smaller, truncate_to_width, width};
#[allow(unused_imports)]
use crate::fmt::{max, min, minus, text_width, truncated, widest};
use crate::style::{heading_text, paint, Colors, Style};
#[allow(unused_imports)]
use crate::style::{heading, painted};
use crate::text::{join, put, repeat, trim_tail};
#[allow(unused_imports)]
use crate::text::{joined, repeated, texts, trim_end};
use vstd::prelude::*;

verus! {

/// What is done with a package.
#[derive(Debug, Clone, Copy, PartialEq, Eq, Structural)]
pub enum TxActionKind {
    Install,
    Upgrade,
    Remove,
}

/// Where a package comes from.
#[derive(Debug, Clone, Copy, PartialEq, Eq, Structural)]
pub enum TxSourceKind {
    Repo,
    Aur,
}

/// The operation that is confirmed.
#[derive(Debug, Clone, Copy, PartialEq, Eq, Structural)]
pub enum TxConfirmOp {
    Install,
    Update,
    Remove,
}

/// Why a package is part of the transaction.
#[derive(Debug, Clone, Copy, PartialEq, Eq, Structural)]
pub enum TxRowGroup {
    Target,
    Dependency,
}

/// What a row of a transaction is painted from; its plain cells still decide the widths.
#[derive(Debug, Clone)]
pub struct TxRowPaint {
    pub action: TxActionKind,
    pub source: TxSourceKind,
    pub old_ver: String,
    pub new_ver: String,
}

/// One line of a table.
#[derive(Debug, Clone, Default)]
pub struct ConfirmationRow {
    pub cells: Vec<String>,
    /// Where it is set, the row is painted as a part of a transaction.
    pub tx: Option<TxRowPaint>,
    /// The group under which the row is shown.
    pub group: Option<TxRowGroup>,
}

/// A table with a title.
#[derive(Debug, Clone, Default)]
pub struct ConfirmationTable {
    pub title: String,
    pub headers: Vec<String>,
    pub rows: Vec<ConfirmationRow>,
}

/// The sums under the preview of an installation.
#[derive(Debug, Clone, Default)]
pub struct InstallConfirmTotals {
    /// The known download sizes, added up.
    pub download_bytes: u64,
    /// Packages that are built are part of the transaction; their download is not in the sum.
    pub download_excludes_aur: bool,
    /// By how much the installed size changes, as far as it is known.
    pub disk_delta_bytes: i64,
    /// The change is unknown for at least one package.
    pub disk_partial: bool,
    /// At least one package has a known size.
    pub had_repo_pkg: bool,
}

impl ConfirmationTable {
    /// A table without columns and rows.
    pub fn new(title: &str) -> (r: ConfirmationTable)
        ensures
            r.title@ == title@,
            r.headers@ == Seq::<String>::empty(),
            r.rows@ == Seq::<ConfirmationRow>::empty(),
    {
        ConfirmationTable { title: title.to_owned(), headers: Vec::new(), rows: Vec::new() }
    }

    /// Adds a row of plain cells.
    pub fn push_row(&mut self, cells: Vec<String>)
        ensures
            final(self).title == old(self).title,
            final(self).headers == old(self).headers,
            final(self).rows@ == old(self).rows@.push(
                ConfirmationRow { cells, tx: None, group: None },
            ),
    {
        self.rows.push(ConfirmationRow { cells, tx: None, group: None });
    }
}

/// A table that can be shown: it has columns and rows, and each row has a cell for each column.
pub open spec fn presentable(t: ConfirmationTable) -> bool {
    &&& t.headers@.len() > 0
    &&& t.rows@.len() > 0
    &&& forall|k: int| 0 <= k < t.rows@.len() ==> (#[trigger] t.rows@[k]).cells@.len() == t.headers@.len()
}

/// Whether the table can be shown.
pub fn is_presentable(t: &ConfirmationTable) -> (r: bool)
    ensures
        r == presentable(*t),
{
    if t.headers.len() == 0 || t.rows.len() == 0 {
        return false;
    }
    let mut k: usize = 0;
    while k < t.rows.len()
        invariant
            k <= t.rows.len(),
            forall|j: int| 0 <= j < k ==> (#[trigger] t.rows@[j]).cells@.len() == t.headers@.len(),
        decreases t.rows.len() - k,
    {
        if t.rows[k].cells.len() != t.headers.len() {
            return false;
        }
        k += 1;
    }
    true
}

/// The cells of a column.
pub open spec fn column(rows: Seq<ConfirmationRow>, i: int) -> Seq<Seq<char>> {
    rows.map_values(|r: ConfirmationRow| r.cells@[i]@)
}

/// The width of the widest cell of a column.
pub fn widest_cell(t: &ConfirmationTable, i: usize) -> (r: usize)
    requires
        presentable(*t),
        i < t.headers@.len(),
    ensures
        r == widest(column(t.rows@, i as int)),
{
    let mut best: usize = 0;
    let mut k: usize = 0;
    assert(column(t.rows@, i as int).take(0) =~= seq![]);
    while k < t.rows.len()
        invariant
            k <= t.rows.len(),
            presentable(*t),
            i < t.headers@.len(),
            best == widest(column(t.rows@, i as int).take(k as int)),
        decreases t.rows.len() - k,
    {
        let ghost all = column(t.rows@, i as int);
        assert(all.take(k + 1).drop_last() =~= all.take(k as int));
        assert(all.take(k + 1).last() == t.rows@[k as int].cells@[i as int]@);
        let w = width(t.rows[k].cells[i].as_str());
        if w > best {
            best = w;
        }
        k += 1;
    }
    assert(column(t.rows@, i as int).take(k as int) =~= column(t.rows@, i as int));
    best
}

/// A text cut and filled with blanks to a width.
pub open spec fn padded(s: Seq<char>, w: nat) -> Seq<char> {
    let t = truncated(s, w);
    t + repeated(' ', minus(w as int, text_width(t) as int) as nat)
}

/// A text cut and filled with blanks to a width.
pub fn pad_plain(s: &str, w: usize) -> (r: String)
    ensures
        r@ == padded(s@, w as nat),
{
    let mut t = truncate_to_width(s, w);
    let plain = width(t.as_str());
    if plain >= w {
        assert(t@ + repeated(' ', 0) =~= t@);
        return t;
    }
    put(&mut t, repeat(' ', w - plain).as_str());
    t
}

/// The limit for the width of a column.
pub open spec fn cap(caps: Seq<usize>, i: int, otherwise: int) -> int {
    if i < caps.len() {
        caps[i] as int
    } else {
        otherwise
    }
}

fn cap_of(caps: &[usize], i: usize, otherwise: usize) -> (r: usize)
    ensures
        r == cap(caps@, i as int, otherwise as int),
{
    if i < caps.len() {
        caps[i]
    } else {
        otherwise
    }
}

/// The natural width of a column: that of its widest text and at least four, up to its limit.
pub open spec fn natural_width(t: ConfirmationTable, caps: Seq<usize>, i: int) -> int {
    min(
        max(max(4, text_width(t.headers@[i]@) as int), widest(column(t.rows@, i))),
        cap(caps, i, 56),
    )
}

/// The natural widths of the first `n` columns.
pub open spec fn natural_widths(t: ConfirmationTable, caps: Seq<usize>, n: int) -> Seq<int> {
    Seq::new(n as nat, |i: int| natural_width(t, caps, i))
}

pub open spec fn sum(list: Seq<int>) -> int
    decreases list.len(),
{
    if list.len() == 0 {
        0
    } else {
        sum(list.drop_last()) + list.last()
    }
}

/// The columns of the terminal for a table.
pub open spec fn table_terminal(config: Config) -> int {
    max(
        match config.cols {
            Some(c) => c as int,
            None => 120,
        },
        72,
    )
}

/// The width of a column: its natural width, but the last one takes what the terminal leaves, up
/// to its limit.
pub open spec fn table_width(config: Config, t: ConfirmationTable, caps: Seq<usize>, i: int) -> int {
    let last = t.headers@.len() - 1;
    let natural = natural_width(t, caps, i);
    if i < last {
        natural
    } else {
        let room = minus(table_terminal(config), sum(natural_widths(t, caps, last)) + 2 * last);
        min(max(room, natural), max(cap(caps, last, 256), natural))
    }
}

/// The style of a column.
pub open spec fn column_style(c: Colors, i: int) -> Style {
    if i == 0 {
        c.sl_pkg
    } else if i == 1 {
        c.old_version
    } else if i == 2 {
        c.new_version
    } else if i == 3 {
        c.install_version
    } else {
        c.field
    }
}

/// The names of the columns, each in its width.
pub open spec fn header_cells(config: Config, t: ConfirmationTable, caps: Seq<usize>) -> Seq<
    Seq<char>,
> {
    Seq::new(
        t.headers@.len(),
        |i: int| padded(t.headers@[i]@, table_width(config, t, caps, i) as nat),
    )
}

/// The cells of a row, each in its width and style.
pub open spec fn row_cells(
    config: Config,
    t: ConfirmationTable,
    caps: Seq<usize>,
    row: ConfirmationRow,
) -> Seq<Seq<char>> {
    Seq::new(
        t.headers@.len(),
        |i: int|
            painted(
                column_style(config.color, i),
                padded(row.cells@[i]@, table_width(config, t, caps, i) as nat),
            ),
    )
}

/// The lines of the first `n` rows.
pub open spec fn row_lines(config: Config, t: ConfirmationTable, caps: Seq<usize>, n: int) -> Seq<
    char,
>
    decreases n,
{
    if n <= 0 {
        seq![]
    } else {
        row_lines(config, t, caps, n - 1) + trim_end(
            joined(row_cells(config, t, caps, t.rows@[n - 1]), "  "@),
        ) + "\n"@
    }
}

/// The text of a table.
pub open spec fn table_text(config: Config, t: ConfirmationTable, caps: Seq<usize>) -> Seq<char> {
    if presentable(t) {
        heading(config.color, t.title@) + "\n"@ + painted(
            config.color.field,
            joined(header_cells(config, t, caps), "  "@),
        ) + "\n"@ + row_lines(config, t, caps, t.rows@.len() as int)
    } else {
        seq![]
    }
}

proof fn lemma_widest(list: Seq<Seq<char>>)
    ensures
        0 <= widest(list) <= usize::MAX,
    decreases list.len(),
{
    if list.len() > 0 {
        lemma_widest(list.drop_last());
    }
}

/// The natural widths of all columns.
pub fn base_widths(t: &ConfirmationTable, caps: &[usize]) -> (r: Vec<usize>)
    requires
        presentable(*t),
    ensures
        r@.len() == t.headers@.len(),
        forall|i: int| 0 <= i < r@.len() ==> #[trigger] r@[i] == natural_width(*t, caps@, i),
{
    let mut w: Vec<usize> = Vec::new();
    let mut i: usize = 0;
    while i < t.headers.len()
        invariant
            i <= t.headers.len(),
            w@.len() == i,
            presentable(*t),
            forall|k: int| 0 <= k < i ==> #[trigger] w@[k] == natural_width(*t, caps@, k),
        decreases t.headers.len() - i,
    {
        let head = larger(4, width(t.headers[i].as_str()));
        let cells = widest_cell(t, i);
        w.push(smaller(larger(head, cells), cap_of(caps, i, 56)));
        i += 1;
    }
    w
}

fn table_widths(config: &Config, t: &ConfirmationTable, caps: &[usize]) -> (r: Vec<usize>)
    requires
        presentable(*t),
    ensures
        r@.len() == t.headers@.len(),
        forall|i: int|
            0 <= i < r@.len() ==> #[trigger] r@[i] == table_width(*config, *t, caps@, i),
{
    let mut w = base_widths(t, caps);
    let term = larger(
        match config.cols {
            Some(c) => c,
            None => 120,
        },
        72,
    );
    let last: usize = w.len() - 1;
    let mut room: usize = term;
    let mut i: usize = 0;
    assert(natural_widths(*t, caps@, 0) =~= seq![]);
    while i < last
        invariant
            i <= last,
            last == w@.len() - 1,
            w@.len() == t.headers@.len(),
            forall|k: int| 0 <= k < w@.len() ==> #[trigger] w@[k] == natural_width(*t, caps@, k),
            sum(natural_widths(*t, caps@, i as int)) >= 0,
            room == minus(term as int, sum(natural_widths(*t, caps@, i as int)) + 2 * i),
        decreases last - i,
    {
        assert(natural_widths(*t, caps@, i + 1).drop_last() =~= natural_widths(*t, caps@, i as int));
        let used = w[i];
        room = if room > used {
            room - used
        } else {
            0
        };
        room = if room > 2 {
            room - 2
        } else {
            0
        };
        i += 1;
    }
    let own = w[last];
    let ghost natural = w@;
    w.set(last, smaller(larger(room, own), larger(cap_of(caps, last, 256), own)));
    assert forall|k: int| 0 <= k < w@.len() implies #[trigger] w@[k] == table_width(
        *config,
        *t,
        caps@,
        k,
    ) by {
        assert(natural[k] == natural_width(*t, caps@, k));
    }
    w
}

fn style_of_column(c: &Colors, i: usize) -> (r: Style)
    ensures
        r == column_style(*c, i as int),
{
    if i == 0 {
        c.sl_pkg
    } else if i == 1 {
        c.old_version
    } else if i == 2 {
        c.new_version
    } else if i == 3 {
        c.install_version
    } else {
        c.field
    }
}

fn cells_of_header(
    config: &Config,
    t: &ConfirmationTable,
    caps: &[usize],
    w: &Vec<usize>,
) -> (r: Vec<String>)
    requires
        w@.len() == t.headers@.len(),
        forall|i: int|
            0 <= i < w@.len() ==> #[trigger] w@[i] == table_width(*config, *t, caps@, i),
    ensures
        texts(r@) == header_cells(*config, *t, caps@),
{
    let mut cells: Vec<String> = Vec::new();
    let mut i: usize = 0;
    while i < w.len()
        invariant
            i <= w.len(),
            w@.len() == t.headers@.len(),
            forall|k: int|
                0 <= k < w@.len() ==> #[trigger] w@[k] == table_width(*config, *t, caps@, k),
            texts(cells@) =~= header_cells(*config, *t, caps@).take(i as int),
        decreases w.len() - i,
    {
        let ghost before = cells@;
        cells.push(pad_plain(t.headers[i].as_str(), w[i]));
        assert(texts(cells@) =~= texts(before).push(cells@.last()@));
        i += 1;
    }
    assert(header_cells(*config, *t, caps@).take(i as int) =~= header_cells(*config, *t, caps@));
    cells
}

fn cells_of_row(
    config: &Config,
    t: &ConfirmationTable,
    caps: &[usize],
    w: &Vec<usize>,
    row: &ConfirmationRow,
) -> (r: Vec<String>)
    requires
        w@.len() == t.headers@.len(),
        row.cells@.len() == w@.len(),
        forall|i: int|
            0 <= i < w@.len() ==> #[trigger] w@[i] == table_width(*config, *t, caps@, i),
    ensures
        texts(r@) == row_cells(*config, *t, caps@, *row),
{
    let mut cells: Vec<String> = Vec::new();
    let mut i: usize = 0;
    while i < w.len()
        invariant
            i <= w.len(),
            w@.len() == t.headers@.len(),
            row.cells@.len() == w@.len(),
            forall|k: int|
                0 <= k < w@.len() ==> #[trigger] w@[k] == table_width(*config, *t, caps@, k),
            texts(cells@) =~= row_cells(*config, *t, caps@, *row).take(i as int),
        decreases w.len() - i,
    {
        let ghost before = cells@;
        let cell = pad_plain(row.cells[i].as_str(), w[i]);
        cells.push(paint(style_of_column(&config.color, i), cell.as_str()));
        assert(texts(cells@) =~= texts(before).push(cells@.last()@));
        i += 1;
    }
    assert(row_cells(*config, *t, caps@, *row).take(i as int) =~= row_cells(
        *config,
        *t,
        caps@,
        *row,
    ));
    cells
}

/// The text of a table: a title, the names of the columns and the rows. A limit caps the natural
/// width of a column; the last column takes what is left of the terminal. A table that cannot be
/// shown gives no text.
pub fn print_confirmation_table(config: &Config, t: &ConfirmationTable, caps: &[usize]) -> (r:
    String)
    ensures
        r@ == table_text(*config, *t, caps@),
{
    if !is_presentable(t) {
        return String::new();
    }
    let w = table_widths(config, t, caps);
    let mut out = heading_text(&config.color, t.title.as_str());
    put(&mut out, "\n");
    let header = join(&cells_of_header(config, t, caps, &w), "  ");
    put(&mut out, paint(config.color.field, header.as_str()).as_str());
    put(&mut out, "\n");
    let ghost above = out@;
    let mut k: usize = 0;
    while k < t.rows.len()
        invariant
            k <= t.rows.len(),
            presentable(*t),
            w@.len() == t.headers@.len(),
            forall|i: int|
                0 <= i < w@.len() ==> #[trigger] w@[i] == table_width(*config, *t, caps@, i),
            out@ =~= above + row_lines(*config, *t, caps@, k as int),
        decreases t.rows.len() - k,
    {
        let line = join(&cells_of_row(config, t, caps, &w, &t.rows[k]), "  ");
        put(&mut out, trim_tail(line.as_str()).as_str());
        put(&mut out, "\n");
        k += 1;
    }
    out
}

/// The last column is at least as wide as its widest text asks for within its limit, and the
/// whole table fits the terminal where the other columns leave that much room.
pub proof fn last_column_fills_the_terminal(
    config: Config,
    t: ConfirmationTable,
    caps: Seq<usize>,
)
    requires
        presentable(t),
    ensures
        ({
            let last = t.headers@.len() - 1;
            let natural = natural_width(t, caps, last);
            let others = sum(natural_widths(t, caps, last)) + 2 * last;
            let w = table_width(config, t, caps, last);
            &&& w >= natural
            &&& others + natural <= table_terminal(config) ==> others + w <= table_terminal(config)
        }),
{
    lemma_widest(column(t.rows@, t.headers@.len() - 1));
}

} // verus!
