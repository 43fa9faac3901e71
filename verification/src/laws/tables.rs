//! What tables of changes show.

#[allow(unused_imports)]
use crate::config::Config;
#[allow(unused_imports)]
use crate::fmt::{all_narrow, narrow_text_takes_up_the_width, text_width, truncated};
#[allow(unused_imports)]
use crate::laws::lists::lemma_widest_of;
#[allow(unused_imports)]
use crate::style::{is_plain, Colors};
#[allow(unused_imports)]
use crate::text::{joined, repeated, trim_end};
#[allow(unused_imports)]
use crate::ui::table::{
    column, column_style, header_cells, padded, presentable, row_cells, row_lines, table_text,
    table_width, ConfirmationTable,
};
use vstd::prelude::*;

verus! {

/// A column has room for its name and for each of its cells, unless that takes it beyond its limit.
pub proof fn columns_have_room_for_their_cells(
    config: Config,
    t: ConfirmationTable,
    caps: Seq<usize>,
    i: int,
    k: int,
)
    requires
        presentable(t),
        0 <= i < t.headers@.len(),
        0 <= k < t.rows@.len(),
    ensures
        ({
            let w = table_width(config, t, caps, i);
            let limit = if i < caps.len() {
                caps[i] as int
            } else {
                56
            };
            &&& w >= 4 || w >= limit
            &&& w >= text_width(t.headers@[i]@) || w >= limit
            &&& w >= text_width(t.rows@[k].cells@[i]@) || w >= limit
            &&& i < t.headers@.len() - 1 ==> w <= limit
            &&& i < caps.len() ==> w <= limit
        }),
{
    lemma_widest_of(column(t.rows@, i), k);
}

/// A cell of narrow characters that fits its column stands there whole, with blanks behind it; any
/// cell of such characters takes up just its column.
pub proof fn cells_take_up_their_columns(s: Seq<char>, w: nat)
    requires
        all_narrow(s),
        s.len() <= usize::MAX,
    ensures
        padded(s, w).len() == w,
        s.len() <= w ==> padded(s, w) == s + repeated(' ', (w - s.len()) as nat),
{
    narrow_text_takes_up_the_width(s, w);
    reveal_strlit("...");
    let t = truncated(s, w);
    assert(all_narrow(t)) by {
        if s.len() > w && w > 3 {
            assert forall|i: int| 0 <= i < t.len() implies crate::fmt::is_narrow(#[trigger] t[i]) by {
                if i < w - 3 {
                    assert(t[i] == s[i]);
                }
            }
        }
    }
}

/// A table without colours has its title, the names of its columns, and a line for each row with a
/// cell in each column; nothing is shown of what is no table.
pub proof fn tables_show_their_rows(
    config: Config,
    t: ConfirmationTable,
    caps: Seq<usize>,
    k: int,
    i: int,
)
    requires
        is_plain(config.color.action),
        is_plain(config.color.bold),
        is_plain(config.color.field),
        is_plain(config.color.sl_pkg),
        is_plain(config.color.old_version),
        is_plain(config.color.new_version),
        is_plain(config.color.install_version),
    ensures
        t.headers@.len() == 0 || t.rows@.len() == 0 ==> table_text(config, t, caps).len() == 0,
        presentable(t) ==> ("::"@ + " "@ + t.title@ + "\n"@).is_prefix_of(table_text(config, t, caps)),
        presentable(t) && 0 <= i < t.headers@.len() ==> {
            &&& header_cells(config, t, caps).len() == t.headers@.len()
            &&& header_cells(config, t, caps)[i] == padded(
                t.headers@[i]@,
                table_width(config, t, caps, i) as nat,
            )
        },
        presentable(t) && 0 <= k < t.rows@.len() ==> {
            let cells = row_cells(config, t, caps, t.rows@[k]);
            &&& cells.len() == t.headers@.len()
            &&& 0 <= i < t.headers@.len() ==> cells[i] == padded(
                t.rows@[k].cells@[i]@,
                table_width(config, t, caps, i) as nat,
            )
            &&& row_lines(config, t, caps, k + 1) == row_lines(config, t, caps, k) + trim_end(
                joined(cells, "  "@),
            ) + "\n"@
        },
        presentable(t) ==> row_lines(config, t, caps, t.rows@.len() as int).is_suffix_of(
            table_text(config, t, caps),
        ),
{
    if presentable(t) {
        let text = table_text(config, t, caps);
        let head = "::"@ + " "@ + t.title@ + "\n"@;
        let tail = row_lines(config, t, caps, t.rows@.len() as int);
        assert(text.subrange(0, head.len() as int) =~= head);
        assert(text.subrange(text.len() - tail.len(), text.len() as int) =~= tail);
        if 0 <= k < t.rows@.len() && 0 <= i < t.headers@.len() {
            let cells = row_cells(config, t, caps, t.rows@[k]);
            let cell = padded(t.rows@[k].cells@[i]@, table_width(config, t, caps, i) as nat);
            assert(cells[i] =~= cell);
        }
    }
}

/// Each column of a table has its own style: packages, old versions, new versions, details, and
/// fields after these.
pub proof fn columns_have_their_styles(c: Colors, i: int)
    ensures
        column_style(c, 0) == c.sl_pkg,
        column_style(c, 1) == c.old_version,
        column_style(c, 2) == c.new_version,
        column_style(c, 3) == c.install_version,
        i > 3 ==> column_style(c, i) == c.field,
{
}

} // verus!
