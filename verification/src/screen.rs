//! Immutable snapshots of a terminal screen: a `lines` by `columns` grid of
//! styled cells, laid out in row-major order.

use vstd::prelude::*;
use vstd::arithmetic::mul::lemma_mul_upper_bound;
use vstd::arithmetic::mul::lemma_mul_inequality;
use vstd::arithmetic::mul::lemma_mul_is_distributive_add_other_way;
use crate::colors::Rgb;

verus! {

/// The unicode character and style of a single cell in the terminal grid.
#[derive(Clone, Copy, Debug, PartialEq, Eq, Structural)]
pub struct Cell {
    pub c: char,
    pub fg: Rgb,
    pub bg: Rgb,
    pub bold: bool,
    pub italic: bool,
    pub underline: bool,
    pub strikethrough: bool,
}

/// The cell every fresh grid position holds: a space in the default
/// foreground over the default background, with no style flags.
pub open spec fn default_cell() -> Cell {
    Cell {
        c: ' ',
        fg: Rgb { r: 0x83, g: 0x94, b: 0x96 },
        bg: Rgb { r: 0x00, g: 0x2b, b: 0x36 },
        bold: false,
        italic: false,
        underline: false,
        strikethrough: false,
    }
}

/// Build the default cell.
pub fn make_default_cell() -> (r: Cell)
    ensures
        r == default_cell(),
{
    Cell {
        c: ' ',
        fg: Rgb { r: 0x83, g: 0x94, b: 0x96 },
        bg: Rgb { r: 0x00, g: 0x2b, b: 0x36 },
        bold: false,
        italic: false,
        underline: false,
        strikethrough: false,
    }
}

/// A static snapshot of a terminal screen.
pub struct Screen {
    pub(crate) lines: u16,
    pub(crate) columns: u16,
    pub(crate) cells: Vec<Cell>,
}

impl Screen {
    /// The number of screen lines.
    pub closed spec fn spec_lines(&self) -> u16 {
        self.lines
    }

    /// The number of screen columns.
    pub closed spec fn spec_columns(&self) -> u16 {
        self.columns
    }

    /// The cells in row-major order.
    pub closed spec fn spec_cells(&self) -> Seq<Cell> {
        self.cells@
    }

    /// The grid holds exactly `lines x columns` cells.
    pub open spec fn wf(&self) -> bool {
        self.spec_cells().len() == self.spec_lines() * self.spec_columns()
    }

    /// A screen of the given size in which every cell is the default cell.
    pub fn blank(lines: u16, columns: u16) -> (r: Screen)
        ensures
            r.wf(),
            r.spec_lines() == lines,
            r.spec_columns() == columns,
            r.spec_cells() == Seq::new((lines * columns) as nat, |i: int| default_cell()),
    {
        proof {
            lemma_mul_upper_bound(lines as int, 65535, columns as int, 65535);
        }
        let total: usize = (lines as usize) * (columns as usize);
        let mut cells: Vec<Cell> = Vec::new();
        let mut i: usize = 0;
        while i < total
            invariant
                cells@.len() == i,
                i <= total,
                forall|j: int| 0 <= j < i ==> cells@[j] == default_cell(),
            decreases total - i,
        {
            cells.push(make_default_cell());
            i = i + 1;
        }
        let r = Screen { lines, columns, cells };
        proof {
            assert(r.spec_cells() =~= Seq::new((lines * columns) as nat, |i: int| default_cell()));
        }
        r
    }

    /// Assemble a snapshot from its parts.
    pub(crate) fn from_parts(lines: u16, columns: u16, cells: Vec<Cell>) -> (r: Screen)
        requires
            cells@.len() == lines * columns,
        ensures
            r.wf(),
            r.spec_lines() == lines,
            r.spec_columns() == columns,
            r.spec_cells() == cells@,
    {
        Screen { lines, columns, cells }
    }

    /// The row-major index of the grid position `(y, x)`.
    pub fn idx(&self, y: u16, x: u16) -> (r: usize)
        ensures
            r == y * self.spec_columns() + x,
    {
        proof {
            lemma_mul_upper_bound(y as int, 65535, self.columns as int, 65535);
        }
        (y as usize) * (self.columns as usize) + (x as usize)
    }

    /// The number of screen lines in this snapshot.
    pub fn lines(&self) -> (r: u16)
        ensures
            r == self.spec_lines(),
    {
        self.lines
    }

    /// The number of screen columns in this snapshot.
    pub fn columns(&self) -> (r: u16)
        ensures
            r == self.spec_columns(),
    {
        self.columns
    }

    /// All cells in the terminal grid, over all columns of the first line
    /// from left to right, then the second line, and so on.
    pub fn cells(&self) -> (r: &Vec<Cell>)
        ensures
            r@ == self.spec_cells(),
    {
        &self.cells
    }

    /// The cell at the grid position given by `line` and `column`, or
    /// `None` when the position lies outside the grid.
    pub fn get(&self, line: u16, column: u16) -> (r: Option<&Cell>)
        requires
            self.wf(),
        ensures
            line < self.spec_lines() && column < self.spec_columns() ==> r == Some(
                &self.spec_cells()[line * self.spec_columns() + column],
            ),
            !(line < self.spec_lines() && column < self.spec_columns()) ==> r is None,
    {
        if line < self.lines && column < self.columns {
            proof {
                lemma_mul_inequality(line as int + 1, self.lines as int, self.columns as int);
                lemma_mul_is_distributive_add_other_way(
                    self.columns as int,
                    line as int,
                    1,
                );
            }
            let i = self.idx(line, column);
            Some(&self.cells[i])
        } else {
            None
        }
    }
}

/// How many cells of `cells` have background `color`.
pub open spec fn count_bg(cells: Seq<Cell>, color: Rgb) -> nat
    decreases cells.len(),
{
    if cells.len() == 0 {
        0
    } else {
        count_bg(cells.drop_last(), color) + if cells.last().bg == color {
            1nat
        } else {
            0nat
        }
    }
}

/// The distinct background colors of `cells`, in order of first occurrence.
pub open spec fn distinct_bgs(cells: Seq<Cell>) -> Seq<Rgb>
    decreases cells.len(),
{
    if cells.len() == 0 {
        Seq::empty()
    } else {
        let d = distinct_bgs(cells.drop_last());
        if d.contains(cells.last().bg) {
            d
        } else {
            d.push(cells.last().bg)
        }
    }
}

/// Fold over `dl[j..]`, keeping the first color that strictly beats the
/// running best by count.
pub open spec fn best_from(dl: Seq<Rgb>, cells: Seq<Cell>, j: int, best: Rgb) -> Rgb
    decreases dl.len() - j,
{
    if j < 0 || j >= dl.len() {
        best
    } else {
        best_from(
            dl,
            cells,
            j + 1,
            if count_bg(cells, dl[j]) > count_bg(cells, best) {
                dl[j]
            } else {
                best
            },
        )
    }
}

/// The most common background color of `cells`; ties go to the color whose
/// first occurrence comes first. An empty grid has no backgrounds and falls
/// back to black.
pub open spec fn most_common_bg(cells: Seq<Cell>) -> Rgb {
    if cells.len() == 0 {
        Rgb { r: 0, g: 0, b: 0 }
    } else {
        best_from(distinct_bgs(cells), cells, 1, distinct_bgs(cells)[0])
    }
}

/// A nonempty grid has at least one distinct background, and the first one
/// is the first cell's background.
pub proof fn lemma_distinct_bgs_first(cells: Seq<Cell>)
    requires
        cells.len() > 0,
    ensures
        distinct_bgs(cells).len() >= 1,
        distinct_bgs(cells)[0] == cells[0].bg,
    decreases cells.len(),
{
    if cells.len() == 1 {
        let d = distinct_bgs(cells.drop_last());
        assert(d =~= Seq::<Rgb>::empty());
        assert(!d.contains(cells.last().bg));
        assert(distinct_bgs(cells) == d.push(cells.last().bg));
        assert(cells.last() == cells[0]);
    } else {
        lemma_distinct_bgs_first(cells.drop_last());
        assert(cells.drop_last()[0] == cells[0]);
        let d = distinct_bgs(cells.drop_last());
        if d.contains(cells.last().bg) {
            assert(distinct_bgs(cells) == d);
        } else {
            assert(distinct_bgs(cells) == d.push(cells.last().bg));
            assert(distinct_bgs(cells)[0] == d[0]);
        }
    }
}

/// The most common background color of the screen's cells. For an empty
/// screen there is no background; black is reported.
pub fn most_common_color(screen: &Screen) -> (r: Rgb)
    ensures
        r == most_common_bg(screen.spec_cells()),
{
    let cells = &screen.cells;
    let n = cells.len();
    if n == 0 {
        return Rgb { r: 0, g: 0, b: 0 };
    }
    let ghost cseq = cells@;

    // Walk the grid once, keeping the distinct backgrounds in order of first
    // occurrence and a count for each.
    let mut dl: Vec<Rgb> = Vec::new();
    let mut counts: Vec<usize> = Vec::new();
    let mut i: usize = 0;
    while i < n
        invariant
            i <= n,
            n == cseq.len(),
            cseq == cells@,
            dl@ == distinct_bgs(cseq.take(i as int)),
            counts@.len() == dl@.len(),
            forall|j: int|
                0 <= j < dl@.len() ==> counts@[j] == count_bg(cseq.take(i as int), dl@[j]),
            forall|a: int, b: int| 0 <= a < b < dl@.len() ==> dl@[a] != dl@[b],
            forall|j: int| 0 <= j < dl@.len() ==> counts@[j] <= i,
        decreases n - i,
    {
        let bg = cells[i].bg;
        proof {
            assert(cseq.take(i + 1).drop_last() =~= cseq.take(i as int));
            assert(cseq.take(i + 1).last() == cseq[i as int]);
        }
        // find bg in dl
        let mut j: usize = 0;
        let mut found = false;
        while j < dl.len() && !found
            invariant
                j <= dl@.len(),
                counts@.len() == dl@.len(),
                !found ==> forall|m: int| 0 <= m < j ==> dl@[m] != bg,
                found ==> j < dl@.len() && dl@[j as int] == bg,
            decreases dl@.len() - j, (if found { 0int } else { 1int }),
        {
            if dl[j] == bg {
                found = true;
            } else {
                j = j + 1;
            }
        }
        if found {
            proof {
                assert(distinct_bgs(cseq.take(i as int)).contains(bg));
            }
            let c = counts[j];
            counts.set(j, c + 1);
            proof {
                assert forall|m: int| 0 <= m < dl@.len() implies counts@[m] == count_bg(
                    cseq.take(i + 1),
                    dl@[m],
                ) by {
                    if m == j {
                    } else {
                        assert(dl@[m] != bg);
                    }
                }
            }
        } else {
            proof {
                assert forall|m: int|
                    0 <= m < dl@.len() implies !(distinct_bgs(cseq.take(i as int))[m] == bg) by {}
                assert(!distinct_bgs(cseq.take(i as int)).contains(bg));
            }
            dl.push(bg);
            counts.push(1);
            proof {
                assert forall|m: int| 0 <= m < dl@.len() implies counts@[m] == count_bg(
                    cseq.take(i + 1),
                    dl@[m],
                ) by {
                    if m < dl@.len() - 1 {
                        assert(dl@[m] != bg);
                    } else {
                        assert(count_bg(cseq.take(i as int), bg) == 0) by {
                            lemma_uncounted_bg_zero(cseq.take(i as int), bg);
                        }
                    }
                }
            }
        }
        i = i + 1;
    }
    proof {
        assert(cseq.take(n as int) =~= cseq);
    }

    // Keep the first color that strictly beats the running best.
    let mut best = dl[0];
    let mut bestc = counts[0];
    let mut j: usize = 1;
    while j < dl.len()
        invariant
            1 <= j <= dl@.len(),
            counts@.len() == dl@.len(),
            dl@.len() >= 1,
            cseq == cells@,
            dl@ == distinct_bgs(cseq),
            forall|m: int| 0 <= m < dl@.len() ==> counts@[m] == count_bg(cseq, dl@[m]),
            bestc == count_bg(cseq, best),
            best_from(dl@, cseq, j as int, best) == best_from(dl@, cseq, 1, dl@[0]),
        decreases dl@.len() - j,
    {
        if counts[j] > bestc {
            best = dl[j];
            bestc = counts[j];
        }
        j = j + 1;
    }
    proof {
        lemma_distinct_bgs_first(cseq);
    }
    best
}

/// A background color that does not occur among the distinct backgrounds
/// occurs in no cell.
proof fn lemma_uncounted_bg_zero(cells: Seq<Cell>, color: Rgb)
    requires
        !distinct_bgs(cells).contains(color),
    ensures
        count_bg(cells, color) == 0,
    decreases cells.len(),
{
    if cells.len() == 0 {
    } else {
        let d = distinct_bgs(cells.drop_last());
        if d.contains(cells.last().bg) {
            assert(forall|m: int|
                0 <= m < d.len() ==> distinct_bgs(cells)[m] == d[m]);
            assert(!d.contains(color)) by {
                assert forall|m: int| 0 <= m < d.len() implies d[m] != color by {
                    assert(distinct_bgs(cells)[m] == d[m]);
                }
            }
            lemma_uncounted_bg_zero(cells.drop_last(), color);
        } else {
            assert(!d.contains(color)) by {
                assert forall|m: int| 0 <= m < d.len() implies d[m] != color by {
                    assert(distinct_bgs(cells)[m] == d[m]);
                }
            }
            lemma_uncounted_bg_zero(cells.drop_last(), color);
            assert(cells.last().bg != color) by {
                assert(distinct_bgs(cells)[d.len() as int] == cells.last().bg);
            }
        }
    }
}

/// Folding from `j` on can only improve the running best, and beats every
/// candidate it inspects.
proof fn lemma_best_from_max(dl: Seq<Rgb>, cells: Seq<Cell>, j: int, best: Rgb)
    requires
        0 <= j <= dl.len(),
    ensures
        count_bg(cells, best_from(dl, cells, j, best)) >= count_bg(cells, best),
        forall|k: int|
            j <= k < dl.len() ==> count_bg(cells, best_from(dl, cells, j, best)) >= count_bg(
                cells,
                #[trigger] dl[k],
            ),
    decreases dl.len() - j,
{
    if j >= dl.len() {
    } else {
        let nb = if count_bg(cells, dl[j]) > count_bg(cells, best) {
            dl[j]
        } else {
            best
        };
        lemma_best_from_max(dl, cells, j + 1, nb);
    }
}

/// The reported majority background really is a majority: no color has a
/// strictly greater count among the cells' backgrounds.
pub proof fn lemma_most_common_is_majority(cells: Seq<Cell>)
    requires
        cells.len() > 0,
    ensures
        forall|c: Rgb|
            #[trigger] count_bg(cells, c) <= count_bg(cells, most_common_bg(cells)),
{
    let dl = distinct_bgs(cells);
    lemma_distinct_bgs_first(cells);
    lemma_best_from_max(dl, cells, 1, dl[0]);
    assert forall|c: Rgb| #[trigger] count_bg(cells, c) <= count_bg(
        cells,
        most_common_bg(cells),
    ) by {
        if dl.contains(c) {
            let k = choose|k: int| 0 <= k < dl.len() && dl[k] == c;
            if k == 0 {
                assert(count_bg(cells, most_common_bg(cells)) >= count_bg(cells, dl[0]));
            } else {
                assert(count_bg(cells, most_common_bg(cells)) >= count_bg(cells, dl[k]));
            }
        } else {
            lemma_uncounted_bg_zero(cells, c);
        }
    }
}

} // verus!
