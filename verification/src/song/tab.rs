//! Tab grids (guitar, bass and drum) and their ASCII rendering.
use vstd::prelude::*;
use vstd::string::*;
use crate::text::{push_decimal, owned, decimal};

verus! {

broadcast use vstd::string::group_string_axioms;

// ── Types ────────────────────────────────────────────────────────────────────

/// A single note cell in a tab grid column.
#[derive(Debug, Clone, PartialEq)]
pub enum TabCell {
    /// No note on this string at this beat.
    Empty,
    /// A fretted note (0 = open, 1–24).
    Fret(u8),
    /// Muted / dead string (written as "x").
    Muted,
    /// Ghost note — written as "(n)" where n is the fret.
    GhostNote(u8),
    /// Hammer-on ("h").
    HammerOn,
    /// Pull-off ("p").
    PullOff,
    /// Release bend ("r").
    Release,
    /// Bend ("b").
    Bend,
    /// Slide up ("/").
    SlideUp,
    /// Slide down ("\\").
    SlideDown,
    /// Free-form combination (e.g. "5h", "7b", "5h7", "(5)b").
    Custom(String),
}

/// The abstract content of a tab cell.
pub enum TabCellView {
    Empty,
    Fret(u8),
    Muted,
    GhostNote(u8),
    HammerOn,
    PullOff,
    Release,
    Bend,
    SlideUp,
    SlideDown,
    Custom(Seq<char>),
}

impl View for TabCell {
    type V = TabCellView;

    open spec fn view(&self) -> TabCellView {
        match self {
            TabCell::Empty => TabCellView::Empty,
            TabCell::Fret(f) => TabCellView::Fret(*f),
            TabCell::Muted => TabCellView::Muted,
            TabCell::GhostNote(f) => TabCellView::GhostNote(*f),
            TabCell::HammerOn => TabCellView::HammerOn,
            TabCell::PullOff => TabCellView::PullOff,
            TabCell::Release => TabCellView::Release,
            TabCell::Bend => TabCellView::Bend,
            TabCell::SlideUp => TabCellView::SlideUp,
            TabCell::SlideDown => TabCellView::SlideDown,
            TabCell::Custom(s) => TabCellView::Custom(s@),
        }
    }
}

impl TabCell {
    /// The empty cell, the default value.
    pub fn empty() -> (r: TabCell)
        ensures
            r@ == TabCellView::Empty,
    {
        TabCell::Empty
    }

    /// An independent copy of this cell.
    pub fn copy(&self) -> (r: TabCell)
        ensures
            r@ == self@,
    {
        match self {
            TabCell::Empty => TabCell::Empty,
            TabCell::Fret(f) => TabCell::Fret(*f),
            TabCell::Muted => TabCell::Muted,
            TabCell::GhostNote(f) => TabCell::GhostNote(*f),
            TabCell::HammerOn => TabCell::HammerOn,
            TabCell::PullOff => TabCell::PullOff,
            TabCell::Release => TabCell::Release,
            TabCell::Bend => TabCell::Bend,
            TabCell::SlideUp => TabCell::SlideUp,
            TabCell::SlideDown => TabCell::SlideDown,
            TabCell::Custom(s) => TabCell::Custom(s.clone()),
        }
    }
}

/// A single column in a tab grid — either a beat with one cell per track
/// (index 0 = high e), a barline, or a row break.
#[derive(Debug, Clone, PartialEq)]
pub enum TabCol {
    /// One cell per string or drum track, index 0 = high e.
    Notes([TabCell; 8]),
    /// A vertical barline (end-of-bar marker).
    Barline,
    /// Ends the current row and starts a new one with fresh string labels.
    LineBreak,
}

/// The abstract content of a tab column.
pub enum TabColView {
    Notes(Seq<TabCellView>),
    Barline,
    LineBreak,
}

/// The view of each cell of a column.
pub open spec fn cells_view(cells: Seq<TabCell>) -> Seq<TabCellView> {
    cells.map_values(|c: TabCell| c@)
}

impl View for TabCol {
    type V = TabColView;

    open spec fn view(&self) -> TabColView {
        match self {
            TabCol::Notes(arr) => TabColView::Notes(cells_view(arr@)),
            TabCol::Barline => TabColView::Barline,
            TabCol::LineBreak => TabColView::LineBreak,
        }
    }
}

/// The view of each column of a grid.
pub open spec fn grid_view(cols: Seq<TabCol>) -> Seq<TabColView> {
    cols.map_values(|c: TabCol| c@)
}

impl TabCol {
    /// An independent copy of this column.
    pub fn copy(&self) -> (r: TabCol)
        ensures
            r@ == self@,
    {
        match self {
            TabCol::Notes(arr) => {
                let cells: [TabCell; 8] = [
                    arr[0].copy(),
                    arr[1].copy(),
                    arr[2].copy(),
                    arr[3].copy(),
                    arr[4].copy(),
                    arr[5].copy(),
                    arr[6].copy(),
                    arr[7].copy(),
                ];
                assert(cells_view(cells@) =~= cells_view(arr@));
                TabCol::Notes(cells)
            },
            TabCol::Barline => TabCol::Barline,
            TabCol::LineBreak => TabCol::LineBreak,
        }
    }
}

/// Copies every column of a grid.
pub fn copy_grid(cols: &Vec<TabCol>) -> (r: Vec<TabCol>)
    ensures
        grid_view(r@) == grid_view(cols@),
{
    let mut r: Vec<TabCol> = Vec::new();
    let mut i: usize = 0;
    while i < cols.len()
        invariant
            i <= cols@.len(),
            r@.len() == i,
            forall|j: int| 0 <= j < i ==> #[trigger] r@[j]@ == cols@[j]@,
        decreases cols@.len() - i,
    {
        r.push(cols[i].copy());
        i = i + 1;
    }
    assert(grid_view(r@) =~= grid_view(cols@));
    r
}

/// Whether a song part holds chords or a tab riff.
#[derive(Debug, Clone, Copy, PartialEq, Eq, Structural)]
pub enum PartKind {
    Chords,
    /// Guitar tab (6 strings).
    Riff,
    /// 4-string bass tab (G, D, A, E — indices 2-5 of the shared column array).
    BassRiff,
    /// 8-track drum beat grid (K, S, Hi, R, C, T1, T2, T3 — all 8 cells).
    DrumBeat,
}

impl PartKind {
    /// `Chords`, the default kind.
    pub fn default_kind() -> (r: PartKind)
        ensures
            r == PartKind::Chords,
    {
        PartKind::Chords
    }
}

// ── Rendering specification ──────────────────────────────────────────────────

/// The text written for one cell in an ASCII tab row.
pub open spec fn cell_text(c: TabCellView) -> Seq<char> {
    match c {
        TabCellView::Fret(f) => if f >= 10 {
            decimal(f as nat) + "-"@
        } else {
            "-"@ + decimal(f as nat) + "-"@
        },
        TabCellView::Muted => "-x-"@,
        TabCellView::Empty => "---"@,
        TabCellView::GhostNote(f) => "("@ + decimal(f as nat) + ")"@,
        TabCellView::HammerOn => "-h-"@,
        TabCellView::PullOff => "-p-"@,
        TabCellView::Release => "-r-"@,
        TabCellView::Bend => "-b-"@,
        TabCellView::SlideUp => "-/-"@,
        TabCellView::SlideDown => "-\\-"@,
        TabCellView::Custom(s) => s,
    }
}

/// The row labels of a tab, top row first.
pub open spec fn tab_labels(kind: PartKind) -> Seq<Seq<char>> {
    match kind {
        PartKind::BassRiff => seq!["G"@, "D"@, "A"@, "E"@],
        PartKind::DrumBeat => seq!["K"@, "S"@, "Hi"@, "R"@, "C"@, "T1"@, "T2"@, "T3"@],
        _ => seq!["e"@, "B"@, "G"@, "D"@, "A"@, "E"@],
    }
}

/// The index in a column's cells of the first rendered row.
pub open spec fn tab_offset(kind: PartKind) -> int {
    match kind {
        PartKind::BassRiff => 2,
        _ => 0,
    }
}

/// The text a column contributes to row `r`.
pub open spec fn col_text(col: TabColView, kind: PartKind, r: int) -> Seq<char> {
    match col {
        TabColView::Notes(cells) => cell_text(cells[tab_offset(kind) + r]),
        TabColView::Barline => "|"@,
        TabColView::LineBreak => seq![],
    }
}

/// The text a run of columns contributes to row `r`.
pub open spec fn cols_text(seg: Seq<TabColView>, kind: PartKind, r: int) -> Seq<char>
    decreases seg.len(),
{
    if seg.len() == 0 {
        seq![]
    } else {
        cols_text(seg.drop_last(), kind, r) + col_text(seg.last(), kind, r)
    }
}

/// Row `r` of a rendered block: label, `|`, the columns, `|`, newline.
pub open spec fn row_line(kind: PartKind, seg: Seq<TabColView>, r: int) -> Seq<char> {
    tab_labels(kind)[r] + "|"@ + cols_text(seg, kind, r) + "|\n"@
}

/// The first `n` rows of a rendered block.
pub open spec fn block_rows(kind: PartKind, seg: Seq<TabColView>, n: int) -> Seq<char>
    decreases n,
{
    if n <= 0 {
        seq![]
    } else {
        block_rows(kind, seg, n - 1) + row_line(kind, seg, n - 1)
    }
}

/// A whole rendered block: one line per label.
pub open spec fn block_text(kind: PartKind, seg: Seq<TabColView>) -> Seq<char> {
    block_rows(kind, seg, tab_labels(kind).len() as int)
}

/// The grid cut at its `LineBreak` columns: the runs of other columns, in
/// order (one more run than there are breaks; runs may be empty).
pub open spec fn split_rows(cols: Seq<TabColView>) -> Seq<Seq<TabColView>>
    decreases cols.len(),
{
    if cols.len() == 0 {
        seq![seq![]]
    } else {
        let s = split_rows(cols.drop_last());
        match cols.last() {
            TabColView::LineBreak => s.push(seq![]),
            _ => s.update(s.len() - 1, s.last().push(cols.last())),
        }
    }
}

proof fn lemma_split_rows_nonempty(cols: Seq<TabColView>)
    ensures
        split_rows(cols).len() >= 1,
    decreases cols.len(),
{
    if cols.len() > 0 {
        lemma_split_rows_nonempty(cols.drop_last());
    }
}

/// The text of runs that were each closed by a `LineBreak`: every non-empty
/// run as a block followed by a blank line; empty runs write nothing.
pub open spec fn closed_blocks(kind: PartKind, segs: Seq<Seq<TabColView>>) -> Seq<char>
    decreases segs.len(),
{
    if segs.len() == 0 {
        seq![]
    } else {
        closed_blocks(kind, segs.drop_last()) + if segs.last().len() > 0 {
            block_text(kind, segs.last()) + "\n"@
        } else {
            seq![]
        }
    }
}

/// `s` without one trailing newline, if it has one.
pub open spec fn strip_newline(s: Seq<char>) -> Seq<char> {
    if s.len() > 0 && s.last() == '\n' {
        s.drop_last()
    } else {
        s
    }
}

/// The ASCII rendering of a non-empty grid: each non-empty run between row
/// breaks becomes a block of labelled rows, blocks are separated by a
/// blank line, and the text does not end in a newline.
pub open spec fn grid_text(kind: PartKind, cols: Seq<TabColView>) -> Seq<char> {
    let segs = split_rows(cols);
    let last = segs.last();
    strip_newline(
        closed_blocks(kind, segs.drop_last()) + if last.len() > 0 {
            block_text(kind, last)
        } else {
            seq![]
        },
    )
}

// ── Rendering ────────────────────────────────────────────────────────────────

fn tab_labels_exec(kind: PartKind) -> (r: Vec<&'static str>)
    ensures
        r@.map_values(|s: &str| s@) == tab_labels(kind),
{
    let r = match kind {
        PartKind::BassRiff => vec!["G", "D", "A", "E"],
        PartKind::DrumBeat => vec!["K", "S", "Hi", "R", "C", "T1", "T2", "T3"],
        _ => vec!["e", "B", "G", "D", "A", "E"],
    };
    assert(r@.map_values(|s: &str| s@) =~= tab_labels(kind));
    r
}

fn tab_offset_exec(kind: PartKind) -> (r: usize)
    ensures
        r == tab_offset(kind),
{
    match kind {
        PartKind::BassRiff => 2,
        _ => 0,
    }
}

/// Appends the text of one cell.
fn push_cell(s: &mut String, cell: &TabCell)
    ensures
        final(s)@ == old(s)@ + cell_text(cell@),
{
    match cell {
        TabCell::Fret(f) => {
            if *f >= 10 {
                push_decimal(s, *f as u64);
                s.append("-");
            } else {
                s.append("-");
                push_decimal(s, *f as u64);
                s.append("-");
            }
        },
        TabCell::Muted => s.append("-x-"),
        TabCell::Empty => s.append("---"),
        TabCell::GhostNote(f) => {
            s.append("(");
            push_decimal(s, *f as u64);
            s.append(")");
        },
        TabCell::HammerOn => s.append("-h-"),
        TabCell::PullOff => s.append("-p-"),
        TabCell::Release => s.append("-r-"),
        TabCell::Bend => s.append("-b-"),
        TabCell::SlideUp => s.append("-/-"),
        TabCell::SlideDown => s.append("-\\-"),
        TabCell::Custom(c) => s.append(c.as_str()),
    }
    assert(final(s)@ =~= old(s)@ + cell_text(cell@));
}

/// Fresh rows: each label followed by `|`.
fn fresh_rows(labels: &Vec<&'static str>) -> (r: Vec<String>)
    ensures
        r@.len() == labels@.len(),
        forall|k: int| 0 <= k < r@.len() ==> #[trigger] r@[k]@ == labels@[k]@ + "|"@,
{
    let mut r: Vec<String> = Vec::new();
    let mut k: usize = 0;
    while k < labels.len()
        invariant
            k <= labels@.len(),
            r@.len() == k,
            forall|j: int| 0 <= j < k ==> #[trigger] r@[j]@ == labels@[j]@ + "|"@,
        decreases labels@.len() - k,
    {
        let mut row = owned(labels[k]);
        row.append("|");
        r.push(row);
        k = k + 1;
    }
    r
}

/// Appends the finished block held in `rows` (each row closed with `|` and
/// a newline) to `out`.
fn flush_rows(out: &mut String, rows: &Vec<String>, kind: PartKind, seg: Ghost<Seq<TabColView>>)
    requires
        rows@.len() == tab_labels(kind).len(),
        forall|k: int|
            0 <= k < rows@.len() ==> #[trigger] rows@[k]@ == tab_labels(kind)[k] + "|"@
                + cols_text(seg@, kind, k),
    ensures
        final(out)@ == old(out)@ + block_text(kind, seg@),
{
    let mut k: usize = 0;
    while k < rows.len()
        invariant
            k <= rows@.len(),
            rows@.len() == tab_labels(kind).len(),
            forall|j: int|
                0 <= j < rows@.len() ==> #[trigger] rows@[j]@ == tab_labels(kind)[j] + "|"@
                    + cols_text(seg@, kind, j),
            out@ == old(out)@ + block_rows(kind, seg@, k as int),
        decreases rows@.len() - k,
    {
        out.append(rows[k].as_str());
        out.append("|\n");
        assert(out@ =~= old(out)@ + block_rows(kind, seg@, k + 1));
        k = k + 1;
    }
}

/// Renders a tab grid as ASCII text (see `grid_text`).
pub fn render_grid(kind: PartKind, grid: &Vec<TabCol>) -> (r: String)
    ensures
        r@ == grid_text(kind, grid_view(grid@)),
{
    let labels = tab_labels_exec(kind);
    let offset = tab_offset_exec(kind);
    let ghost gv = grid_view(grid@);
    let mut rows = fresh_rows(&labels);
    let mut out = String::new();
    let mut has_content = false;
    let mut i: usize = 0;
    proof {
        reveal_with_fuel(cols_text, 1);
    }
    while i < grid.len()
        invariant
            i <= grid@.len(),
            gv == grid_view(grid@),
            labels@.map_values(|s: &str| s@) == tab_labels(kind),
            offset == tab_offset(kind),
            rows@.len() == tab_labels(kind).len(),
            split_rows(gv.take(i as int)).len() >= 1,
            forall|k: int|
                0 <= k < rows@.len() ==> #[trigger] rows@[k]@ == tab_labels(kind)[k] + "|"@
                    + cols_text(split_rows(gv.take(i as int)).last(), kind, k),
            out@ == closed_blocks(kind, split_rows(gv.take(i as int)).drop_last()),
            has_content == (split_rows(gv.take(i as int)).last().len() > 0),
        decreases grid@.len() - i,
    {
        let ghost segs = split_rows(gv.take(i as int));
        let ghost pre = gv.take(i as int);
        let ghost cur = gv.take(i + 1);
        assert(cur.drop_last() =~= pre);
        assert(cur.last() == grid@[i as int]@);
        assert(labels@.len() == tab_labels(kind).len()) by {
            assert(labels@.map_values(|s: &str| s@).len() == labels@.len());
        }
        match &grid[i] {
            TabCol::LineBreak => {
                if has_content {
                    flush_rows(&mut out, &rows, kind, Ghost(segs.last()));
                    out.append("\n");
                }
                assert(split_rows(cur) == segs.push(seq![]));
                assert(split_rows(cur).drop_last() =~= segs);
                assert(segs == segs.drop_last().push(segs.last()));
                assert(out@ =~= closed_blocks(kind, segs));
                rows = fresh_rows(&labels);
                assert forall|k: int| 0 <= k < rows@.len() implies #[trigger] rows@[k]@
                    == tab_labels(kind)[k] + "|"@ + cols_text(split_rows(cur).last(), kind, k) by {
                    assert(labels@[k]@ == labels@.map_values(|s: &str| s@)[k]);
                    assert(rows@[k]@ =~= tab_labels(kind)[k] + "|"@ + cols_text(
                        split_rows(cur).last(),
                        kind,
                        k,
                    ));
                }
                has_content = false;
            },
            TabCol::Barline => {
                let ghost seg2 = segs.last().push(cur.last());
                assert(split_rows(cur) == segs.update(segs.len() - 1, seg2));
                assert(split_rows(cur).drop_last() =~= segs.drop_last());
                let mut next: Vec<String> = Vec::new();
                let mut k: usize = 0;
                while k < rows.len()
                    invariant
                        k <= rows@.len(),
                        rows@.len() == tab_labels(kind).len(),
                        next@.len() == k,
                        seg2 == segs.last().push(TabColView::Barline),
                        forall|j: int|
                            0 <= j < rows@.len() ==> #[trigger] rows@[j]@ == tab_labels(kind)[j]
                                + "|"@ + cols_text(segs.last(), kind, j),
                        forall|j: int|
                            0 <= j < k ==> #[trigger] next@[j]@ == tab_labels(kind)[j] + "|"@
                                + cols_text(seg2, kind, j),
                    decreases rows@.len() - k,
                {
                    let mut row = rows[k].clone();
                    row.append("|");
                    assert(seg2.drop_last() =~= segs.last());
                    assert(row@ =~= tab_labels(kind)[k as int] + "|"@ + cols_text(
                        seg2,
                        kind,
                        k as int,
                    ));
                    next.push(row);
                    k = k + 1;
                }
                rows = next;
                has_content = true;
            },
            TabCol::Notes(arr) => {
                let ghost seg2 = segs.last().push(cur.last());
                assert(split_rows(cur) == segs.update(segs.len() - 1, seg2));
                assert(split_rows(cur).drop_last() =~= segs.drop_last());
                let mut next: Vec<String> = Vec::new();
                let mut k: usize = 0;
                while k < rows.len()
                    invariant
                        k <= rows@.len(),
                        rows@.len() == tab_labels(kind).len(),
                        offset == tab_offset(kind),
                        offset + rows@.len() <= 8,
                        next@.len() == k,
                        seg2 == segs.last().push(TabColView::Notes(cells_view(arr@))),
                        forall|j: int|
                            0 <= j < rows@.len() ==> #[trigger] rows@[j]@ == tab_labels(kind)[j]
                                + "|"@ + cols_text(segs.last(), kind, j),
                        forall|j: int|
                            0 <= j < k ==> #[trigger] next@[j]@ == tab_labels(kind)[j] + "|"@
                                + cols_text(seg2, kind, j),
                    decreases rows@.len() - k,
                {
                    let mut row = rows[k].clone();
                    push_cell(&mut row, &arr[offset + k]);
                    assert(seg2.drop_last() =~= segs.last());
                    assert(row@ =~= tab_labels(kind)[k as int] + "|"@ + cols_text(
                        seg2,
                        kind,
                        k as int,
                    ));
                    next.push(row);
                    k = k + 1;
                }
                rows = next;
                has_content = true;
            },
        }
        i = i + 1;
    }
    assert(gv.take(grid@.len() as int) =~= gv);
    let ghost segs = split_rows(gv);
    if has_content {
        flush_rows(&mut out, &rows, kind, Ghost(segs.last()));
    }
    let n = out.as_str().unicode_len();
    if n > 0 && out.as_str().get_char(n - 1) == '\n' {
        let trimmed = owned(out.as_str().substring_char(0, n - 1));
        assert(trimmed@ =~= strip_newline(out@));
        trimmed
    } else {
        out
    }
}

/// How many of the runs are non-empty.
pub open spec fn nonempty_runs(segs: Seq<Seq<TabColView>>) -> int
    decreases segs.len(),
{
    if segs.len() == 0 {
        0
    } else {
        nonempty_runs(segs.drop_last()) + if segs.last().len() > 0 {
            1int
        } else {
            0
        }
    }
}

/// The number of row blocks a grid renders as: its non-empty runs of
/// columns between row breaks.
pub fn tab_block_count(grid: &Vec<TabCol>) -> (r: usize)
    ensures
        r == nonempty_runs(split_rows(grid_view(grid@))),
{
    let ghost gv = grid_view(grid@);
    let mut count: usize = 0;
    let mut in_seg = false;
    let mut i: usize = 0;
    assert(gv.take(0) =~= Seq::<TabColView>::empty());
    assert(split_rows(gv.take(0)) == seq![Seq::<TabColView>::empty()]);
    assert(split_rows(gv.take(0)).drop_last() =~= Seq::<Seq<TabColView>>::empty());
    assert(nonempty_runs(split_rows(gv.take(0))) == 0) by {
        reveal_with_fuel(nonempty_runs, 2);
    }
    while i < grid.len()
        invariant
            i <= grid@.len(),
            gv == grid_view(grid@),
            split_rows(gv.take(i as int)).len() >= 1,
            count as int == nonempty_runs(split_rows(gv.take(i as int))),
            count <= i,
            in_seg == (split_rows(gv.take(i as int)).last().len() > 0),
        decreases grid@.len() - i,
    {
        let ghost segs = split_rows(gv.take(i as int));
        let ghost cur = gv.take(i + 1);
        assert(cur.drop_last() =~= gv.take(i as int));
        assert(cur.last() == grid@[i as int]@);
        match &grid[i] {
            TabCol::LineBreak => {
                assert(split_rows(cur) == segs.push(seq![]));
                assert(split_rows(cur).drop_last() =~= segs);
                in_seg = false;
            },
            _ => {
                let ghost seg2 = segs.last().push(cur.last());
                assert(split_rows(cur) == segs.update(segs.len() - 1, seg2));
                assert(split_rows(cur).drop_last() =~= segs.drop_last());
                if !in_seg {
                    count = count + 1;
                    in_seg = true;
                }
            },
        }
        i = i + 1;
    }
    assert(gv.take(grid@.len() as int) =~= gv);
    count
}

/// The positions of the grid's columns, cut at its `LineBreak` columns: for
/// each run of other columns (one more run than there are breaks; runs may
/// be empty), the positions of its columns in order.
pub open spec fn row_positions(cols: Seq<TabColView>) -> Seq<Seq<int>>
    decreases cols.len(),
{
    if cols.len() == 0 {
        seq![seq![]]
    } else {
        let s = row_positions(cols.drop_last());
        match cols.last() {
            TabColView::LineBreak => s.push(seq![]),
            _ => s.update(s.len() - 1, s.last().push(cols.len() - 1)),
        }
    }
}

/// The positions of the grid's `LineBreak` columns, in order.
pub open spec fn break_positions(cols: Seq<TabColView>) -> Seq<int>
    decreases cols.len(),
{
    if cols.len() == 0 {
        seq![]
    } else {
        let s = break_positions(cols.drop_last());
        match cols.last() {
            TabColView::LineBreak => s.push(cols.len() - 1),
            _ => s,
        }
    }
}

proof fn lemma_row_positions_nonempty(cols: Seq<TabColView>)
    ensures
        row_positions(cols).len() >= 1,
    decreases cols.len(),
{
    if cols.len() > 0 {
        lemma_row_positions_nonempty(cols.drop_last());
    }
}

/// The column positions of each row of the grid and the positions of its
/// row breaks (see `row_positions` and `break_positions`); the editors lay
/// out one block per row and offer to remove each break.
pub fn grid_rows(grid: &Vec<TabCol>) -> (r: (Vec<Vec<usize>>, Vec<usize>))
    ensures
        r.0@.len() == row_positions(grid_view(grid@)).len(),
        forall|k: int|
            0 <= k < r.0@.len() ==> #[trigger] r.0@[k]@.len() == row_positions(grid_view(grid@))[k].len(),
        forall|k: int, j: int|
            0 <= k < r.0@.len() && 0 <= j < r.0@[k]@.len() ==> #[trigger] r.0@[k]@[j] as int
                == row_positions(grid_view(grid@))[k][j],
        r.1@.len() == break_positions(grid_view(grid@)).len(),
        forall|k: int| 0 <= k < r.1@.len() ==> #[trigger] r.1@[k] as int == break_positions(grid_view(grid@))[k],
{
    let ghost gv = grid_view(grid@);
    let mut done: Vec<Vec<usize>> = Vec::new();
    let mut cur: Vec<usize> = Vec::new();
    let mut breaks: Vec<usize> = Vec::new();
    let mut i: usize = 0;
    assert(gv.take(0) =~= Seq::<TabColView>::empty());
    while i < grid.len()
        invariant
            i <= grid@.len(),
            gv == grid_view(grid@),
            row_positions(gv.take(i as int)).len() == done@.len() + 1,
            forall|k: int|
                0 <= k < done@.len() ==> #[trigger] done@[k]@.len() == row_positions(gv.take(i as int))[k].len(),
            forall|k: int, j: int|
                0 <= k < done@.len() && 0 <= j < done@[k]@.len() ==> #[trigger] done@[k]@[j] as int
                    == row_positions(gv.take(i as int))[k][j],
            cur@.len() == row_positions(gv.take(i as int)).last().len(),
            forall|j: int| 0 <= j < cur@.len() ==> #[trigger] cur@[j] as int == row_positions(gv.take(i as int)).last()[j],
            breaks@.len() == break_positions(gv.take(i as int)).len(),
            forall|k: int| 0 <= k < breaks@.len() ==> #[trigger] breaks@[k] as int == break_positions(gv.take(i as int))[k],
        decreases grid@.len() - i,
    {
        let ghost rows = row_positions(gv.take(i as int));
        let ghost brs = break_positions(gv.take(i as int));
        let ghost next = gv.take(i + 1);
        assert(next.drop_last() =~= gv.take(i as int));
        assert(next.last() == grid@[i as int]@);
        proof {
            lemma_row_positions_nonempty(gv.take(i as int));
        }
        match &grid[i] {
            TabCol::LineBreak => {
                assert(row_positions(next) == rows.push(seq![]));
                assert(break_positions(next) == brs.push(i as int));
                let finished = cur;
                cur = Vec::new();
                done.push(finished);
                breaks.push(i);
            },
            _ => {
                assert(row_positions(next) == rows.update(rows.len() - 1, rows.last().push(i as int)));
                assert(break_positions(next) == brs);
                cur.push(i);
            },
        }
        i = i + 1;
    }
    assert(gv.take(grid@.len() as int) =~= gv);
    done.push(cur);
    (done, breaks)
}

} // verus!
