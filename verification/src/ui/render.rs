//! The blocks of progress lines of a transaction.
//!
//! Each package has a line. Lines of packages that are under way are drawn again and again; the
//! line of a package that is done is drawn once more and then left alone.

use crate::config::Config;
use crate::fmt::larger;
#[allow(unused_imports)]
use crate::fmt::{max, min, minus};
use crate::number::decimal_text;
#[allow(unused_imports)]
use crate::number::decimal;
#[allow(unused_imports)]
use crate::style::heading;
use crate::text::{ends_with, put, same};
#[allow(unused_imports)]
use crate::text::{opt_text, texts};
use crate::ui::notice::{ansi_ok, print_hook_phase_done, print_hook_phase_start};
#[allow(unused_imports)]
use crate::ui::notice::ok_mark;
use crate::ui::progress::render_install_line;
#[allow(unused_imports)]
use crate::ui::progress::{install_left, install_line, PROGRESS_BAR_WIDTH};
use vstd::prelude::*;

verus! {

/// The least time between two drawings, in nanoseconds.
pub const REDRAW_NANOS: u128 = 100_000_000;

/// Which packages have lines, and what was drawn of them. A number is the place of a package.
#[derive(Debug)]
pub struct Board {
    pub keys: Vec<String>,
    /// The packages that are under way.
    pub active: Vec<usize>,
    /// The packages that are done.
    pub frozen: Vec<usize>,
    /// How many lines of packages under way stand above the cursor.
    pub active_rendered: usize,
    /// How many packages that are done have been drawn for good.
    pub frozen_rendered: usize,
    /// When the block was last drawn, in nanoseconds.
    pub last_render: Option<u128>,
}

/// What a board holds.
pub struct BoardView {
    pub keys: Seq<Seq<char>>,
    pub active: Seq<usize>,
    pub frozen: Seq<usize>,
    pub active_rendered: usize,
    pub frozen_rendered: usize,
    pub last_render: Option<u128>,
}

impl View for Board {
    type V = BoardView;

    open spec fn view(&self) -> BoardView {
        BoardView {
            keys: texts(self.keys@),
            active: self.active@,
            frozen: self.frozen@,
            active_rendered: self.active_rendered,
            frozen_rendered: self.frozen_rendered,
            last_render: self.last_render,
        }
    }
}

impl BoardView {
    /// Each name occurs once, and each package is either under way or done, in one place.
    pub open spec fn wf(self) -> bool {
        &&& self.keys.no_duplicates()
        &&& self.keys.len() <= usize::MAX
        &&& self.active.no_duplicates()
        &&& self.frozen.no_duplicates()
        &&& self.frozen_rendered <= self.frozen.len()
        &&& forall|i: usize| #[trigger] self.active.contains(i) ==> i < self.keys.len()
        &&& forall|i: usize| #[trigger] self.frozen.contains(i) ==> i < self.keys.len()
        &&& forall|i: usize| i < self.keys.len() ==> (#[trigger] self.active.contains(i)
            != self.frozen.contains(i))
    }

    /// With a package that is under way.
    pub open spec fn with(self, key: Seq<char>) -> BoardView {
        BoardView {
            keys: self.keys.push(key),
            active: self.active.push(self.keys.len() as usize),
            ..self
        }
    }

    /// With a package that is done.
    pub open spec fn freeze(self, i: usize) -> BoardView {
        BoardView { active: without(self.active, i), frozen: self.frozen.push(i), ..self }
    }

    /// Whether the block is to be drawn: not too soon, unless it has to be, and not where there
    /// is nothing to draw.
    pub open spec fn due(self, now: u128, force: bool) -> bool {
        &&& force || !(self.last_render matches Some(last) && minus(now as int, last as int)
            < REDRAW_NANOS)
        &&& self.frozen.len() > self.frozen_rendered || self.active.len() > 0
    }

    /// The packages whose lines are drawn: those that are done and not yet drawn as such, then
    /// those that are under way.
    pub open spec fn pending(self) -> Seq<usize> {
        self.frozen.skip(self.frozen_rendered as int) + self.active
    }

    /// After the block was drawn.
    pub open spec fn drawn(self, now: u128) -> BoardView {
        BoardView {
            active_rendered: self.active.len() as usize,
            frozen_rendered: self.frozen.len() as usize,
            last_render: Some(now),
            ..self
        }
    }
}

/// Whether a board holds no package and was never drawn.
pub open spec fn is_empty_board(b: BoardView) -> bool {
    &&& b.keys.len() == 0 && b.active.len() == 0 && b.frozen.len() == 0
    &&& b.active_rendered == 0 && b.frozen_rendered == 0
    &&& b.last_render is None
}

/// A list without a number.
pub open spec fn without(list: Seq<usize>, i: usize) -> Seq<usize>
    decreases list.len(),
{
    if list.len() == 0 {
        list
    } else if list.last() == i {
        list.drop_last()
    } else {
        without(list.drop_last(), i).push(list.last())
    }
}

proof fn lemma_without(list: Seq<usize>, i: usize)
    requires
        list.no_duplicates(),
    ensures
        without(list, i).no_duplicates(),
        forall|j: usize| #[trigger] without(list, i).contains(j) <==> list.contains(j) && j != i,
    decreases list.len(),
{
    if list.len() > 0 {
        let front = list.drop_last();
        let last = list.last();
        assert forall|a: int, b: int| 0 <= a < front.len() && 0 <= b < front.len() && a != b implies front[a]
            != front[b] by {
            assert(list[a] != list[b]);
        }
        assert forall|j: usize| #[trigger] list.contains(j) <==> front.contains(j) || j == last by {
            if list.contains(j) {
                let k = choose|k: int| 0 <= k < list.len() && list[k] == j;
                if k < front.len() {
                    assert(front[k] == j);
                }
            }
            if front.contains(j) {
                let k = choose|k: int| 0 <= k < front.len() && front[k] == j;
                assert(list[k] == j);
            }
            if j == last {
                assert(list[list.len() - 1] == j);
            }
        }
        assert(!front.contains(last)) by {
            if front.contains(last) {
                let k = choose|k: int| 0 <= k < front.len() && front[k] == last;
                assert(list[k] != list[list.len() - 1]);
            }
        }
        if last != i {
            lemma_without(front, i);
            let inner = without(front, i);
            assert(!inner.contains(last));
            let out = inner.push(last);
            assert forall|a: int, b: int| 0 <= a < out.len() && 0 <= b < out.len() && a != b implies out[a]
                != out[b] by {
                if a < inner.len() && b == inner.len() {
                    assert(inner.contains(inner[a]));
                } else if b < inner.len() && a == inner.len() {
                    assert(inner.contains(inner[b]));
                }
            }
            assert forall|j: usize| #[trigger] out.contains(j) <==> list.contains(j) && j != i by {
                if out.contains(j) {
                    let k = choose|k: int| 0 <= k < out.len() && out[k] == j;
                    if k < inner.len() {
                        assert(inner.contains(inner[k]));
                    }
                }
                if inner.contains(j) {
                    let k = choose|k: int| 0 <= k < inner.len() && inner[k] == j;
                    assert(out[k] == j);
                }
                if j == last {
                    assert(out[inner.len() as int] == j);
                }
            }
        } else {
            assert(without(list, i) == front);
        }
    }
}

proof fn lemma_without_at(list: Seq<usize>, i: usize, p: int)
    requires
        0 <= p < list.len(),
        list[p] == i,
        forall|q: int| p < q < list.len() ==> #[trigger] list[q] != i,
    ensures
        without(list, i) == list.remove(p),
    decreases list.len(),
{
    if p < list.len() - 1 {
        let front = list.drop_last();
        assert(list.last() == list[list.len() - 1]);
        assert forall|q: int| p < q < front.len() implies #[trigger] front[q] != i by {
            assert(front[q] == list[q]);
        }
        lemma_without_at(front, i, p);
        assert(front.remove(p).push(list.last()) =~= list.remove(p));
    } else {
        assert(list.remove(p) =~= list.drop_last());
    }
}

/// A package that was added is under way, and the board stays in order.
pub proof fn adding_keeps_order(b: BoardView, key: Seq<char>)
    requires
        b.wf(),
        !b.keys.contains(key),
        b.keys.len() < usize::MAX,
    ensures
        b.with(key).wf(),
        b.with(key).active.contains(b.keys.len() as usize),
{
    let n = b.keys.len() as usize;
    let c = b.with(key);
    assert(!b.active.contains(n));
    assert(!b.frozen.contains(n));
    assert forall|x: int, y: int| 0 <= x < c.keys.len() && 0 <= y < c.keys.len() && x != y implies c.keys[x]
        != c.keys[y] by {
        if x < n && y == n {
            assert(b.keys.contains(b.keys[x]));
        } else if y < n && x == n {
            assert(b.keys.contains(b.keys[y]));
        }
    }
    assert forall|x: int, y: int|
        0 <= x < c.active.len() && 0 <= y < c.active.len() && x != y implies c.active[x]
        != c.active[y] by {
        if x < b.active.len() && y == b.active.len() {
            assert(b.active.contains(b.active[x]));
        } else if y < b.active.len() && x == b.active.len() {
            assert(b.active.contains(b.active[y]));
        }
    }
    assert(c.active[b.active.len() as int] == n);
    assert forall|i: usize| #[trigger] c.active.contains(i) <==> b.active.contains(i) || i == n by {
        if c.active.contains(i) {
            let k = choose|k: int| 0 <= k < c.active.len() && c.active[k] == i;
            if k < b.active.len() {
                assert(b.active[k] == i);
            }
        }
        if b.active.contains(i) {
            let k = choose|k: int| 0 <= k < b.active.len() && b.active[k] == i;
            assert(c.active[k] == i);
        }
    }
}

/// A package that was under way and is done is no longer under way, and the board stays in
/// order.
pub proof fn freezing_keeps_order(b: BoardView, i: usize)
    requires
        b.wf(),
        b.active.contains(i),
    ensures
        b.freeze(i).wf(),
        b.freeze(i).frozen.contains(i),
        !b.freeze(i).active.contains(i),
        forall|j: usize| j != i ==> (#[trigger] b.freeze(i).active.contains(j) <==> b.active.contains(j)),
        forall|j: usize| j != i ==> (#[trigger] b.freeze(i).frozen.contains(j) <==> b.frozen.contains(j)),
{
    lemma_without(b.active, i);
    let c = b.freeze(i);
    assert(!b.frozen.contains(i));
    assert(c.frozen[b.frozen.len() as int] == i);
    assert forall|j: usize| #[trigger] c.frozen.contains(j) <==> b.frozen.contains(j) || j == i by {
        if c.frozen.contains(j) {
            let k = choose|k: int| 0 <= k < c.frozen.len() && c.frozen[k] == j;
            if k < b.frozen.len() {
                assert(b.frozen[k] == j);
            }
        }
        if b.frozen.contains(j) {
            let k = choose|k: int| 0 <= k < b.frozen.len() && b.frozen[k] == j;
            assert(c.frozen[k] == j);
        }
    }
    assert forall|x: int, y: int|
        0 <= x < c.frozen.len() && 0 <= y < c.frozen.len() && x != y implies c.frozen[x]
        != c.frozen[y] by {
        if x < b.frozen.len() && y == b.frozen.len() {
            assert(b.frozen.contains(b.frozen[x]));
        } else if y < b.frozen.len() && x == b.frozen.len() {
            assert(b.frozen.contains(b.frozen[y]));
        }
    }
}

/// Drawing keeps the board in order, and a package that is done is not drawn a second time.
pub proof fn drawing_settles_what_is_done(b: BoardView, now: u128)
    requires
        b.wf(),
        b.frozen.len() <= usize::MAX,
        b.active.len() <= usize::MAX,
    ensures
        b.drawn(now).wf(),
        b.drawn(now).pending() == b.active,
{
    assert(b.drawn(now).pending() =~= b.active);
}

/// Two drawings between which nothing forces one are at least the least time apart.
pub proof fn drawings_are_spaced(b: BoardView, then: u128, now: u128)
    requires
        b.drawn(then).due(now, false),
    ensures
        now >= then + REDRAW_NANOS,
{
}

impl Board {
    /// A board without packages.
    pub fn new() -> (r: Board)
        ensures
            r@.wf(),
            is_empty_board(r@),
    {
        Board {
            keys: Vec::new(),
            active: Vec::new(),
            frozen: Vec::new(),
            active_rendered: 0,
            frozen_rendered: 0,
            last_render: None,
        }
    }

    /// The place of a package.
    fn find(&self, key: &str) -> (r: Option<usize>)
        requires
            self@.wf(),
        ensures
            match r {
                Some(i) => i < self@.keys.len() && self@.keys[i as int] == key@,
                None => !self@.keys.contains(key@),
            },
    {
        let mut i: usize = 0;
        while i < self.keys.len()
            invariant
                i <= self.keys.len(),
                forall|k: int| 0 <= k < i ==> #[trigger] self@.keys[k] != key@,
            decreases self.keys.len() - i,
        {
            if same(self.keys[i].as_str(), key) {
                return Some(i);
            }
            i += 1;
        }
        assert(self@.keys.len() == self.keys@.len());
        None
    }

    fn add_key(&mut self, key: &str)
        requires
            old(self)@.wf(),
            !old(self)@.keys.contains(key@),
            old(self)@.keys.len() < usize::MAX,
        ensures
            final(self)@ == old(self)@.with(key@),
            final(self)@.wf(),
    {
        let ghost before = self@;
        proof {
            adding_keeps_order(before, key@);
        }
        let n = self.keys.len();
        self.keys.push(key.to_owned());
        self.active.push(n);
        assert(self@.keys =~= before.keys.push(key@));
        assert(self@ == before.with(key@));
    }

    fn freeze_key(&mut self, i: usize)
        requires
            old(self)@.wf(),
            old(self)@.active.contains(i),
        ensures
            final(self)@ == old(self)@.freeze(i),
            final(self)@.wf(),
    {
        let ghost before = self@;
        proof {
            freezing_keeps_order(before, i);
        }
        let mut p: usize = self.active.len();
        while p > 0 && self.active[p - 1] != i
            invariant
                p <= self.active@.len(),
                self.active@ == before.active,
                forall|q: int| p <= q < before.active.len() ==> #[trigger] before.active[q] != i,
            decreases p,
        {
            p -= 1;
        }
        proof {
            if p == 0 {
                let k = choose|k: int| 0 <= k < before.active.len() && before.active[k] == i;
                assert(before.active[k] != i);
            }
            lemma_without_at(before.active, i, p - 1);
        }
        self.active.remove(p - 1);
        self.frozen.push(i);
        assert(self@ == before.freeze(i));
    }

    fn is_due(&self, now: u128, force: bool) -> (r: bool)
        requires
            self@.wf(),
        ensures
            r == self@.due(now, force),
    {
        if !force {
            match self.last_render {
                Some(last) => {
                    let passed: u128 = if now > last {
                        now - last
                    } else {
                        0
                    };
                    if passed < REDRAW_NANOS {
                        return false;
                    }
                },
                None => {},
            }
        }
        self.frozen.len() > self.frozen_rendered || self.active.len() > 0
    }

    fn pending_keys(&self) -> (r: Vec<usize>)
        requires
            self@.wf(),
        ensures
            r@ == self@.pending(),
            forall|k: int| 0 <= k < r@.len() ==> #[trigger] r@[k] < self@.keys.len(),
    {
        let mut out: Vec<usize> = Vec::new();
        let mut i: usize = self.frozen_rendered;
        while i < self.frozen.len()
            invariant
                self.frozen_rendered <= i <= self.frozen@.len(),
                out@ =~= self.frozen@.subrange(self.frozen_rendered as int, i as int),
            decreases self.frozen.len() - i,
        {
            out.push(self.frozen[i]);
            i += 1;
        }
        assert(out@ =~= self.frozen@.skip(self.frozen_rendered as int));
        let ghost first = out@;
        let mut k: usize = 0;
        while k < self.active.len()
            invariant
                k <= self.active@.len(),
                out@ =~= first + self.active@.take(k as int),
            decreases self.active.len() - k,
        {
            out.push(self.active[k]);
            k += 1;
        }
        assert(self.active@.take(k as int) =~= self.active@);
        assert forall|j: int| 0 <= j < out@.len() implies #[trigger] out@[j] < self@.keys.len() by {
            if j < first.len() {
                assert(self@.frozen.contains(self@.frozen[self.frozen_rendered + j]));
            } else {
                assert(self@.active.contains(self@.active[j - first.len()]));
            }
        }
        out
    }

    fn settle(&mut self, now: u128)
        requires
            old(self)@.wf(),
        ensures
            final(self)@ == old(self)@.drawn(now),
            final(self)@.wf(),
    {
        let ghost before = self@;
        self.active_rendered = self.active.len();
        self.frozen_rendered = self.frozen.len();
        self.last_render = Some(now);
        assert(self@ == before.drawn(now));
    }
}

/// The lines of a block, each on a line that was cleared.
pub open spec fn block_lines(lines: Seq<Seq<char>>) -> Seq<char>
    decreases lines.len(),
{
    if lines.len() == 0 {
        seq![]
    } else {
        block_lines(lines.drop_last()) + "\r\x1b[2K"@ + lines.last() + "\n"@
    }
}

/// A block: the cursor goes up over the lines that are drawn again.
pub open spec fn block(up: nat, lines: Seq<Seq<char>>) -> Seq<char> {
    (if up > 0 {
        "\x1b["@ + decimal(up) + "A"@
    } else {
        seq![]
    }) + block_lines(lines)
}

fn block_text(up: usize, lines: &Vec<String>) -> (r: String)
    ensures
        r@ == block(up as nat, texts(lines@)),
{
    let mut out = String::new();
    if up > 0 {
        put(&mut out, "\x1b[");
        put(&mut out, decimal_text(up as u128).as_str());
        put(&mut out, "A");
        assert(out@ =~= "\x1b["@ + decimal(up as nat) + "A"@);
    } else {
        assert(out@ =~= seq![]);
    }
    let ghost above = out@;
    let mut i: usize = 0;
    assert(texts(lines@).take(0) =~= seq![]);
    while i < lines.len()
        invariant
            i <= lines.len(),
            out@ =~= above + block_lines(texts(lines@).take(i as int)),
        decreases lines.len() - i,
    {
        assert(texts(lines@).take(i + 1).drop_last() =~= texts(lines@).take(i as int));
        put(&mut out, "\r\x1b[2K");
        put(&mut out, lines[i].as_str());
        put(&mut out, "\n");
        i += 1;
    }
    assert(texts(lines@).take(i as int) =~= texts(lines@));
    out
}

/// A speed: bytes in a time of so many nanoseconds.
#[derive(Debug, Clone, Copy, PartialEq, Eq, Structural)]
pub struct Speed {
    pub bytes: u64,
    pub nanos: u128,
}

/// The state of a download.
#[derive(Debug, Clone, Copy, PartialEq, Eq, Structural)]
pub struct DownloadState {
    pub downloaded: u64,
    pub total: u64,
    pub speed: Speed,
    pub last_at: u128,
    pub last_bytes: u64,
    pub frozen: bool,
}

/// The state of an installation.
#[derive(Debug, Clone, Copy, PartialEq, Eq, Structural)]
pub struct InstallState {
    pub percent: u64,
    pub current: usize,
    pub total: usize,
    pub removing: bool,
    pub frozen: bool,
}

/// The line of a download that is to be drawn.
#[derive(Debug, Clone)]
pub struct DownloadLine {
    pub package: String,
    pub downloaded: u64,
    pub total: u64,
    pub speed: Speed,
}

/// No speed.
pub open spec fn standstill() -> Speed {
    Speed { bytes: 0, nanos: 1 }
}

/// The state of a download that starts.
pub open spec fn fresh_download(downloaded: u64, total: u64, now: u128) -> DownloadState {
    DownloadState {
        downloaded: 0,
        total,
        speed: standstill(),
        last_at: now,
        last_bytes: downloaded,
        frozen: false,
    }
}

/// Whether a report completes a download.
pub open spec fn completes(s: DownloadState, downloaded: u64, total: u64) -> bool {
    downloaded >= total && !s.frozen
}

/// The state of a download after a report. The speed is that since the last report.
pub open spec fn reported(s: DownloadState, downloaded: u64, total: u64, now: u128) -> DownloadState {
    DownloadState {
        downloaded: min(downloaded as int, total as int) as u64,
        total,
        speed: if completes(s, downloaded, total) {
            standstill()
        } else if now > s.last_at && downloaded >= s.last_bytes {
            Speed {
                bytes: (downloaded - s.last_bytes) as u64,
                nanos: (now - s.last_at) as u128,
            }
        } else {
            s.speed
        },
        last_at: now,
        last_bytes: downloaded,
        frozen: s.frozen || downloaded >= total,
    }
}

/// The state of an installation after a report.
pub open spec fn progressed(
    s: Option<InstallState>,
    percent: u64,
    current: usize,
    total: usize,
    removing: bool,
) -> InstallState {
    InstallState {
        percent: min(percent as int, 100) as u64,
        current,
        total,
        removing,
        frozen: percent >= 100 || (s matches Some(old) && old.frozen),
    }
}

/// The progress of a transaction as it is drawn.
#[derive(Debug)]
pub struct TransactionRenderController {
    pub downloads: Board,
    pub download_states: Vec<DownloadState>,
    pub installs: Board,
    pub install_states: Vec<InstallState>,
}

/// Whether a report on a download is shown at all.
pub open spec fn is_shown_download(package: Seq<char>, total: u64) -> bool {
    total > 0 && !".sig"@.is_suffix_of(package)
}

/// The place of a name in a board, or the place after all names.
pub open spec fn slot(b: BoardView, key: Seq<char>) -> int {
    if b.keys.contains(key) {
        b.keys.index_of(key)
    } else {
        b.keys.len() as int
    }
}

/// The board after a report on `key`, which is `done` with it or not.
pub open spec fn noted(b: BoardView, key: Seq<char>, done: bool) -> BoardView {
    let c = if b.keys.contains(key) {
        b
    } else {
        b.with(key)
    };
    if done {
        c.freeze(slot(b, key) as usize)
    } else {
        c
    }
}

/// The state in a slot after a report.
pub open spec fn download_after(
    b: BoardView,
    states: Seq<DownloadState>,
    key: Seq<char>,
    downloaded: u64,
    total: u64,
    now: u128,
) -> DownloadState {
    let old = if b.keys.contains(key) {
        states[slot(b, key)]
    } else {
        fresh_download(downloaded, total, now)
    };
    reported(old, downloaded, total, now)
}

/// Whether a report completes the download of `key`.
pub open spec fn download_completes(
    b: BoardView,
    states: Seq<DownloadState>,
    key: Seq<char>,
    downloaded: u64,
    total: u64,
) -> bool {
    downloaded >= total && !(b.keys.contains(key) && states[slot(b, key)].frozen)
}

/// A sequence with `x` in a slot, which may be the one after its end.
pub open spec fn put_in<T>(list: Seq<T>, at: int, x: T) -> Seq<T> {
    if at < list.len() {
        list.update(at, x)
    } else {
        list.push(x)
    }
}

/// Whether a line is drawn for the download in a slot.
pub open spec fn is_line_of(
    line: DownloadLine,
    b: BoardView,
    states: Seq<DownloadState>,
    i: usize,
) -> bool {
    &&& line.package@ == b.keys[i as int]
    &&& line.downloaded == states[i as int].downloaded
    &&& line.total == states[i as int].total
    &&& line.speed == states[i as int].speed
}

/// The line of an installation.
pub open spec fn install_line_of(
    b: BoardView,
    states: Seq<InstallState>,
    i: usize,
    term: usize,
) -> Seq<char> {
    let s = states[i as int];
    install_line(
        install_left(b.keys[i as int], s.removing),
        min(s.percent as int, 100) as nat,
        s.current as nat,
        s.total as nat,
        max(term as int, 1),
        PROGRESS_BAR_WIDTH as int,
    )
}

/// The columns of the terminal for progress lines.
pub open spec fn progress_terminal(terminal: Option<usize>) -> int {
    max(
        match terminal {
            Some(t) => t as int,
            None => 120,
        },
        1,
    )
}

proof fn lemma_index_of(keys: Seq<Seq<char>>, i: int, key: Seq<char>)
    requires
        keys.no_duplicates(),
        0 <= i < keys.len(),
        keys[i] == key,
    ensures
        keys.contains(key),
        keys.index_of(key) == i,
{
    assert(keys.contains(keys[i]));
    let j = keys.index_of(key);
    assert(0 <= j < keys.len() && keys[j] == key);
    if j != i {
        assert(keys[i] != keys[j]);
    }
}

/// How a report on a download changes the progress, and the lines that are then drawn.
pub open spec fn notes_download(
    from: TransactionRenderController,
    to: TransactionRenderController,
    package: Seq<char>,
    downloaded: u64,
    total: u64,
    now: u128,
    drawn: Option<Vec<DownloadLine>>,
) -> bool {
    let b = from.downloads@;
    let states = from.download_states@;
    let done = download_completes(b, states, package, downloaded, total);
    let force = !b.keys.contains(package) || done;
    &&& to.installs == from.installs
    &&& to.install_states == from.install_states
    &&& !is_shown_download(package, total) ==> drawn is None && to == from
    &&& is_shown_download(package, total) ==> {
        &&& to.downloads@ == noted(b, package, done)
        &&& to.download_states@ == put_in(
            states,
            slot(b, package),
            download_after(b, states, package, downloaded, total, now),
        )
        &&& drawn is Some <==> to.downloads@.due(now, force)
        &&& drawn matches Some(lines) ==> {
            let pending = to.downloads@.pending();
            &&& lines@.len() == pending.len()
            &&& forall|k: int|
                0 <= k < lines@.len() ==> is_line_of(
                    #[trigger] lines@[k],
                    to.downloads@,
                    to.download_states@,
                    pending[k],
                )
        }
    }
}

/// How a report on an installation or removal changes the progress, and the text that is then
/// written.
pub open spec fn notes_install(
    from: TransactionRenderController,
    to: TransactionRenderController,
    package: Seq<char>,
    percent: u64,
    current: usize,
    total: usize,
    removing: bool,
    now: u128,
    terminal: Option<usize>,
    text: Option<Seq<char>>,
) -> bool {
    let b = from.installs@;
    let states = from.install_states@;
    let known = b.keys.contains(package);
    let s = if known {
        Some(states[slot(b, package)])
    } else {
        None
    };
    let done = percent >= 100 && !(s matches Some(old_state) && old_state.frozen);
    let after = noted(b, package, done);
    let states_after = put_in(
        states,
        slot(b, package),
        progressed(s, percent, current, total, removing),
    );
    let due = after.due(now, !known || done);
    &&& to.downloads == from.downloads
    &&& to.download_states == from.download_states
    &&& to.install_states@ == states_after
    &&& to.installs@ == if due {
        after.drawn(now)
    } else {
        after
    }
    &&& text == if due {
        Some(
            block(
                b.active_rendered as nat,
                after.pending().map_values(
                    |i: usize|
                        install_line_of(
                            after,
                            states_after,
                            i,
                            progress_terminal(terminal) as usize,
                        ),
                ),
            ),
        )
    } else {
        None
    }
}

/// A report on a download: what it says, when it comes, and the lines that are then drawn.
pub struct DownloadReport {
    pub package: Seq<char>,
    pub downloaded: u64,
    pub total: u64,
    pub now: u128,
    pub drawn: Option<Vec<DownloadLine>>,
}

/// Whether a report completes the download of a package.
pub open spec fn is_complete_report(r: DownloadReport, package: Seq<char>) -> bool {
    r.package == package && is_shown_download(package, r.total) && r.downloaded >= r.total
}

/// Whether a report is on a package and shown at all.
pub open spec fn is_report_on(r: DownloadReport, package: Seq<char>) -> bool {
    r.package == package && is_shown_download(package, r.total)
}

/// Whether the downloads stand as they stood; they may have been drawn.
pub open spec fn same_downloads(from: TransactionRenderController, to: TransactionRenderController) -> bool {
    &&& to.download_states@ == from.download_states@
    &&& to.downloads@.keys == from.downloads@.keys
    &&& to.downloads@.active == from.downloads@.active
    &&& to.downloads@.frozen == from.downloads@.frozen
}

/// Whether `states` is how the progress of a transaction goes on from its start: each state comes
/// from the one before it by a report on a download, or by something else that leaves the
/// downloads as they stand.
pub open spec fn is_course(
    states: Seq<TransactionRenderController>,
    steps: Seq<Option<DownloadReport>>,
) -> bool {
    &&& states.len() == steps.len() + 1
    &&& forall|i: int| 0 <= i < states.len() ==> (#[trigger] states[i]).wf()
    &&& is_empty_board(states[0].downloads@)
    &&& forall|i: int|
        0 <= i < steps.len() ==> match #[trigger] steps[i] {
            Some(r) => notes_download(
                states[i],
                states[i + 1],
                r.package,
                r.downloaded,
                r.total,
                r.now,
                r.drawn,
            ),
            None => same_downloads(states[i], states[i + 1]),
        }
}

/// Whether a package is among those of a board that are done.
pub open spec fn is_done(b: BoardView, package: Seq<char>) -> bool {
    b.keys.contains(package) && b.frozen.contains(b.keys.index_of(package) as usize)
}

/// Whether a package is among those of a board that are under way.
pub open spec fn is_under_way(b: BoardView, package: Seq<char>) -> bool {
    b.keys.contains(package) && b.active.contains(b.keys.index_of(package) as usize)
}

/// Whether one of the first `n` steps is a report on a package that is shown.
pub open spec fn was_reported(steps: Seq<Option<DownloadReport>>, n: int, package: Seq<char>) -> bool {
    exists|i: int|
        0 <= i < n && ((#[trigger] steps[i]) matches Some(r) && is_report_on(r, package))
}

/// Whether one of the first `n` steps is a report that completes the download of a package.
pub open spec fn was_completed(steps: Seq<Option<DownloadReport>>, n: int, package: Seq<char>) -> bool {
    exists|i: int|
        0 <= i < n && ((#[trigger] steps[i]) matches Some(r) && is_complete_report(r, package))
}

proof fn lemma_place(b: BoardView, package: Seq<char>)
    requires
        b.wf(),
        b.keys.contains(package),
    ensures
        0 <= b.keys.index_of(package) < b.keys.len(),
        b.keys[b.keys.index_of(package)] == package,
        is_done(b, package) != is_under_way(b, package),
{
    let i = b.keys.index_of(package) as usize;
    assert(b.active.contains(i) != b.frozen.contains(i));
}

proof fn lemma_report_step(
    from: TransactionRenderController,
    to: TransactionRenderController,
    r: DownloadReport,
    package: Seq<char>,
)
    requires
        from.wf(),
        to.wf(),
        notes_download(from, to, r.package, r.downloaded, r.total, r.now, r.drawn),
    ensures
        to.downloads@.keys.contains(package) <==> from.downloads@.keys.contains(package)
            || is_report_on(r, package),
        is_done(to.downloads@, package) <==> is_done(from.downloads@, package)
            || is_complete_report(r, package),
{
    let b = from.downloads@;
    let c = to.downloads@;
    if is_shown_download(r.package, r.total) {
        let done = download_completes(b, from.download_states@, r.package, r.downloaded, r.total);
        let at = slot(b, r.package);
        let mid = if b.keys.contains(r.package) {
            b
        } else {
            b.with(r.package)
        };
        if b.keys.contains(r.package) {
            lemma_place(b, r.package);
            assert(mid.active.contains(at as usize) != mid.frozen.contains(at as usize));
        } else {
            assert(mid.keys[b.keys.len() as int] == r.package);
            assert(mid.keys.len() == c.keys.len());
            adding_keeps_order(b, r.package);
        }
        assert(mid.keys[at] == r.package);
        lemma_index_of(mid.keys, at, r.package);
        if done {
            assert(b.keys.contains(r.package) ==> (b.frozen.contains(at as usize)
                <==> from.download_states@[at as usize as int].frozen));
            freezing_keeps_order(mid, at as usize);
        }
        assert(c.keys == mid.keys);
        if b.keys.contains(package) {
            lemma_place(b, package);
            let i = b.keys.index_of(package);
            assert(mid.keys[i] == package);
            lemma_index_of(mid.keys, i, package);
            assert(b.frozen.contains(i as usize) <==> from.download_states@[i as usize as int].frozen);
            assert(mid.frozen.contains(i as usize) <==> b.frozen.contains(i as usize));
            if i == at {
                assert(package == r.package);
            } else {
                assert(package != r.package) by {
                    assert(mid.keys[i] == package && mid.keys[at] == r.package);
                }
                assert(c.frozen.contains(i as usize) <==> mid.frozen.contains(i as usize));
            }
        } else if package == r.package {
            assert(mid.active.contains(at as usize));
            assert(!mid.frozen.contains(at as usize));
        } else {
            assert(!mid.keys.contains(package)) by {
                if mid.keys.contains(package) {
                    let k = choose|k: int| 0 <= k < mid.keys.len() && mid.keys[k] == package;
                    if k < b.keys.len() {
                        assert(b.keys[k] == package);
                    }
                }
            }
        }
    }
}

/// Whatever reports come, every package on which one was shown is in one of two places: done, if
/// and only if a report completed its download, and otherwise under way. No more is downloaded of
/// a package than there is of it.
pub proof fn downloads_end_where_they_belong(
    states: Seq<TransactionRenderController>,
    steps: Seq<Option<DownloadReport>>,
    n: int,
    package: Seq<char>,
)
    requires
        is_course(states, steps),
        0 <= n <= steps.len(),
    ensures
        states[n].downloads@.keys.contains(package) <==> was_reported(steps, n, package),
        is_done(states[n].downloads@, package) <==> was_completed(steps, n, package),
        is_under_way(states[n].downloads@, package) <==> was_reported(steps, n, package)
            && !was_completed(steps, n, package),
        forall|i: int|
            0 <= i < states[n].download_states@.len() ==> (
            #[trigger] states[n].download_states@[i]).downloaded
                <= states[n].download_states@[i].total,
    decreases n,
{
    if n > 0 {
        downloads_end_where_they_belong(states, steps, n - 1, package);
        let step = steps[n - 1];
        assert(states[n - 1].wf() && states[n].wf());
        assert(steps[n - 1] == step);
        if step is Some {
            let r = step->0;
            lemma_report_step(states[n - 1], states[n], r, package);
            if is_complete_report(r, package) {
                assert(was_completed(steps, n, package));
                assert(was_reported(steps, n, package));
            }
            if is_report_on(r, package) {
                assert(was_reported(steps, n, package));
            }
        }
        assert(was_completed(steps, n - 1, package) ==> was_completed(steps, n, package));
        assert(was_reported(steps, n - 1, package) ==> was_reported(steps, n, package));
        if was_completed(steps, n, package) {
            let i = choose|i: int|
                0 <= i < n && ((#[trigger] steps[i]) matches Some(r) && is_complete_report(r, package));
            if i < n - 1 {
                assert(was_completed(steps, n - 1, package));
            }
        }
        if was_reported(steps, n, package) {
            let i = choose|i: int|
                0 <= i < n && ((#[trigger] steps[i]) matches Some(r) && is_report_on(r, package));
            if i < n - 1 {
                assert(was_reported(steps, n - 1, package));
            }
        }
    } else {
        assert(states[0].wf());
    }
    if states[n].downloads@.keys.contains(package) {
        assert(states[n].wf());
        lemma_place(states[n].downloads@, package);
    }
}

/// A package that is done never turns active again.
pub proof fn done_downloads_stay_done(
    states: Seq<TransactionRenderController>,
    steps: Seq<Option<DownloadReport>>,
    i: int,
    n: int,
    package: Seq<char>,
)
    requires
        is_course(states, steps),
        0 <= i <= n <= steps.len(),
        is_done(states[i].downloads@, package),
    ensures
        is_done(states[n].downloads@, package),
        !is_under_way(states[n].downloads@, package),
{
    downloads_end_where_they_belong(states, steps, i, package);
    downloads_end_where_they_belong(states, steps, n, package);
    let k = choose|k: int|
        0 <= k < i && ((#[trigger] steps[k]) matches Some(r) && is_complete_report(r, package));
    assert(was_completed(steps, n, package)) by {
        assert(steps[k] matches Some(r) && is_complete_report(r, package));
    }
}

impl TransactionRenderController {
    /// Each line has a state, which tells whether the package is done. No more is downloaded of a
    /// package than there is of it.
    pub open spec fn wf(&self) -> bool {
        &&& self.downloads@.wf()
        &&& self.download_states@.len() == self.downloads@.keys.len()
        &&& forall|i: int|
            0 <= i < self.download_states@.len() ==> (#[trigger] self.download_states@[i]).downloaded
                <= self.download_states@[i].total
        &&& forall|i: usize|
            i < self.downloads@.keys.len() ==> (#[trigger] self.downloads@.frozen.contains(i)
                <==> self.download_states@[i as int].frozen)
        &&& self.installs@.wf()
        &&& self.install_states@.len() == self.installs@.keys.len()
        &&& forall|i: usize|
            i < self.installs@.keys.len() ==> (#[trigger] self.installs@.frozen.contains(i)
                <==> self.install_states@[i as int].frozen)
    }

    /// The progress of a transaction that starts.
    pub fn new() -> (r: TransactionRenderController)
        ensures
            r.wf(),
            is_empty_board(r.downloads@),
            is_empty_board(r.installs@),
    {
        TransactionRenderController {
            downloads: Board::new(),
            download_states: Vec::new(),
            installs: Board::new(),
            install_states: Vec::new(),
        }
    }

    /// The text of a step without progress.
    pub fn on_static_step(&self, msg: &str) -> (r: String)
        ensures
            r@ == msg@ + "\n"@,
    {
        let mut out = msg.to_owned();
        put(&mut out, "\n");
        out
    }

    /// The text of a line of the log.
    pub fn on_log_line(&self, msg: &str) -> (r: String)
        ensures
            r@ == msg@ + "\n"@,
    {
        let mut out = msg.to_owned();
        put(&mut out, "\n");
        out
    }

    /// Takes a report on a download at a time in nanoseconds. The lines that are to be drawn,
    /// where the block is to be drawn.
    pub fn on_download_progress(
        &mut self,
        package: &str,
        downloaded: u64,
        total: u64,
        now: u128,
    ) -> (r: Option<Vec<DownloadLine>>)
        requires
            old(self).wf(),
            old(self).downloads@.keys.len() < usize::MAX,
        ensures
            final(self).wf(),
            notes_download(*old(self), *final(self), package@, downloaded, total, now, r),
    {
        if total == 0 || ends_with(package, ".sig") {
            return None;
        }
        let ghost b = self.downloads@;
        let ghost states = self.download_states@;
        let found = self.downloads.find(package);
        let (at, is_new, state) = match found {
            Some(i) => {
                proof {
                    lemma_index_of(b.keys, i as int, package@);
                }
                (i, false, self.download_states[i])
            },
            None => {
                let n = self.downloads.keys.len();
                assert(n == b.keys.len());
                self.downloads.add_key(package);
                let state = DownloadState {
                    downloaded: 0,
                    total,
                    speed: Speed { bytes: 0, nanos: 1 },
                    last_at: now,
                    last_bytes: downloaded,
                    frozen: false,
                };
                self.download_states.push(state);
                (n, true, state)
            },
        };
        assert(at == slot(b, package@));
        let ghost mid = self.downloads@;
        let completed = downloaded >= total && !state.frozen;
        let speed = if completed {
            Speed { bytes: 0, nanos: 1 }
        } else if now > state.last_at && downloaded >= state.last_bytes {
            Speed { bytes: downloaded - state.last_bytes, nanos: now - state.last_at }
        } else {
            state.speed
        };
        let next = DownloadState {
            downloaded: if downloaded < total {
                downloaded
            } else {
                total
            },
            total,
            speed,
            last_at: now,
            last_bytes: downloaded,
            frozen: state.frozen || downloaded >= total,
        };
        proof {
            assert(mid.active.contains(at) != mid.frozen.contains(at));
            if is_new {
                adding_keeps_order(b, package@);
            }
        }
        self.download_states.set(at, next);
        proof {
            assert(self.download_states@ =~= put_in(states, at as int, next));
        }
        if completed {
            proof {
                assert(mid.frozen.contains(at) <==> state.frozen);
                freezing_keeps_order(mid, at);
            }
            self.downloads.freeze_key(at);
        }
        let pending = if self.downloads.is_due(now, is_new || completed) {
            Some(self.downloads.pending_keys())
        } else {
            None
        };
        match pending {
            None => None,
            Some(list) => Some(self.lines_for(&list)),
        }
    }

    fn lines_for(&self, list: &Vec<usize>) -> (r: Vec<DownloadLine>)
        requires
            self.download_states@.len() == self.downloads@.keys.len(),
            forall|k: int| 0 <= k < list@.len() ==> #[trigger] list@[k] < self.downloads@.keys.len(),
        ensures
            r@.len() == list@.len(),
            forall|k: int|
                0 <= k < r@.len() ==> is_line_of(
                    #[trigger] r@[k],
                    self.downloads@,
                    self.download_states@,
                    list@[k],
                ),
    {
        let mut out: Vec<DownloadLine> = Vec::new();
        let mut k: usize = 0;
        while k < list.len()
            invariant
                k <= list@.len(),
                out@.len() == k,
                self.download_states@.len() == self.downloads@.keys.len(),
                forall|j: int|
                    0 <= j < list@.len() ==> #[trigger] list@[j] < self.downloads@.keys.len(),
                forall|j: int|
                    0 <= j < k ==> is_line_of(
                        #[trigger] out@[j],
                        self.downloads@,
                        self.download_states@,
                        list@[j],
                    ),
            decreases list.len() - k,
        {
            let i = list[k];
            assert(self.downloads@.keys.len() == self.downloads.keys@.len());
            let s = self.download_states[i];
            out.push(
                DownloadLine {
                    package: self.downloads.keys[i].clone(),
                    downloaded: s.downloaded,
                    total: s.total,
                    speed: s.speed,
                },
            );
            k += 1;
        }
        out
    }

    /// Draws the lines of downloads that were found due: the text of the block.
    pub fn draw_downloads(&mut self, lines: &Vec<String>, now: u128) -> (r: String)
        requires
            old(self).wf(),
        ensures
            final(self).wf(),
            final(self).downloads@ == old(self).downloads@.drawn(now),
            final(self).download_states == old(self).download_states,
            final(self).installs == old(self).installs,
            final(self).install_states == old(self).install_states,
            r@ == block(old(self).downloads@.active_rendered as nat, texts(lines@)),
    {
        let out = block_text(self.downloads.active_rendered, lines);
        self.downloads.settle(now);
        out
    }

    fn install_lines(&self, list: &Vec<usize>, term: usize) -> (r: Vec<String>)
        requires
            self.install_states@.len() == self.installs@.keys.len(),
            forall|k: int| 0 <= k < list@.len() ==> #[trigger] list@[k] < self.installs@.keys.len(),
        ensures
            texts(r@) == list@.map_values(
                |i: usize| install_line_of(self.installs@, self.install_states@, i, term),
            ),
    {
        let ghost all = list@.map_values(
            |i: usize| install_line_of(self.installs@, self.install_states@, i, term),
        );
        let mut out: Vec<String> = Vec::new();
        let mut k: usize = 0;
        while k < list.len()
            invariant
                k <= list@.len(),
                self.install_states@.len() == self.installs@.keys.len(),
                forall|j: int|
                    0 <= j < list@.len() ==> #[trigger] list@[j] < self.installs@.keys.len(),
                all == list@.map_values(
                    |i: usize| install_line_of(self.installs@, self.install_states@, i, term),
                ),
                texts(out@) =~= all.take(k as int),
            decreases list.len() - k,
        {
            let ghost before = out@;
            let i = list[k];
            assert(self.installs@.keys.len() == self.installs.keys@.len());
            let s = self.install_states[i];
            out.push(
                render_install_line(
                    self.installs.keys[i].as_str(),
                    s.percent,
                    s.current,
                    s.total,
                    s.removing,
                    term,
                ),
            );
            assert(texts(out@) =~= texts(before).push(all[k as int]));
            k += 1;
        }
        assert(all.take(k as int) =~= all);
        out
    }

    /// Takes a report on a package that is installed or removed, at a time in nanoseconds: the
    /// text of the block, where it is to be drawn.
    pub fn on_install_progress(
        &mut self,
        package: &str,
        percent: u64,
        current: usize,
        total: usize,
        removing: bool,
        now: u128,
        terminal: Option<usize>,
    ) -> (r: Option<String>)
        requires
            old(self).wf(),
            old(self).installs@.keys.len() < usize::MAX,
        ensures
            final(self).wf(),
            notes_install(
                *old(self),
                *final(self),
                package@,
                percent,
                current,
                total,
                removing,
                now,
                terminal,
                opt_text(r),
            ),
    {
        let ghost b = self.installs@;
        let ghost states = self.install_states@;
        let found = self.installs.find(package);
        let done_percent: u64 = if percent < 100 {
            percent
        } else {
            100
        };
        let (at, is_new, was_frozen) = match found {
            Some(i) => {
                proof {
                    lemma_index_of(b.keys, i as int, package@);
                }
                (i, false, self.install_states[i].frozen)
            },
            None => {
                let n = self.installs.keys.len();
                assert(n == b.keys.len());
                self.installs.add_key(package);
                self.install_states.push(
                    InstallState { percent: 0, current, total, removing, frozen: false },
                );
                (n, true, false)
            },
        };
        assert(at == slot(b, package@));
        let ghost mid = self.installs@;
        let next = InstallState {
            percent: done_percent,
            current,
            total,
            removing,
            frozen: percent >= 100 || was_frozen,
        };
        proof {
            assert(mid.active.contains(at) != mid.frozen.contains(at));
            if is_new {
                adding_keeps_order(b, package@);
            }
        }
        self.install_states.set(at, next);
        proof {
            assert(self.install_states@ =~= put_in(states, at as int, next));
        }
        let completed = percent >= 100 && !was_frozen;
        if completed {
            proof {
                assert(mid.frozen.contains(at) <==> was_frozen);
                freezing_keeps_order(mid, at);
            }
            self.installs.freeze_key(at);
        }
        if !self.installs.is_due(now, is_new || completed) {
            return None;
        }
        let term = larger(
            match terminal {
                Some(t) => t,
                None => 120,
            },
            1,
        );
        let list = self.installs.pending_keys();
        let lines = self.install_lines(&list, term);
        let out = block_text(self.installs.active_rendered, &lines);
        self.installs.settle(now);
        Some(out)
    }

    /// The text at the start of the hooks.
    pub fn on_hook_phase_start(&self, config: &Config) -> (r: String)
        ensures
            r@ == heading(config.color, "Running post-transaction hooks..."@) + "\n"@,
    {
        print_hook_phase_start(config)
    }

    /// The text of a hook.
    pub fn on_hook_step(&self, current: usize, total: usize, desc: &str) -> (r: String)
        ensures
            r@ == "("@ + decimal(current as nat) + "/"@ + decimal(total as nat) + ") "@ + desc@
                + " "@ + ok_mark() + "\n"@,
    {
        let mut out = "(".to_owned();
        put(&mut out, decimal_text(current as u128).as_str());
        put(&mut out, "/");
        put(&mut out, decimal_text(total as u128).as_str());
        put(&mut out, ") ");
        put(&mut out, desc);
        put(&mut out, " ");
        put(&mut out, ansi_ok().as_str());
        put(&mut out, "\n");
        out
    }

    /// The text at the end of the hooks.
    pub fn on_hook_phase_done(&self, config: &Config) -> (r: String)
        ensures
            r@ == heading(config.color, "Post-transaction hooks completed."@) + "\n"@,
    {
        print_hook_phase_done(config)
    }

    /// The end of the transaction: the lines stay as they are.
    pub fn finish(&mut self)
        ensures
            *final(self) == *old(self),
    {
    }
}

} // verus!
