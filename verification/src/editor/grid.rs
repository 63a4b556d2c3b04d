//! A grid of cells: the text and style Neovim put in each one.

use vstd::prelude::*;

use crate::editor::style::Style;
use crate::text::space;

verus! {

/// One cell: its text (empty for the right half of a double-width char) and its style.
pub type GridCell = (String, Option<Style>);

/// What a cell holds, as values.
pub type CellView = (Seq<char>, Option<Style>);

pub open spec fn cell_view(c: GridCell) -> CellView {
    (c.0@, c.1)
}

pub open spec fn default_cell_view() -> CellView {
    (seq![' '], None)
}

pub open spec fn row_view(row: Seq<GridCell>) -> Seq<CellView> {
    Seq::new(row.len(), |x: int| cell_view(row[x]))
}

/// A grid of `h` rows of `w` cells each.
pub open spec fn shaped(cells: Seq<Seq<CellView>>, w: int, h: int) -> bool {
    &&& cells.len() == h
    &&& forall|y: int| 0 <= y < h ==> #[trigger] cells[y].len() == w
}

/// The empty cell: one space, no style.
pub fn default_cell() -> (c: GridCell)
    ensures
        cell_view(c) == default_cell_view(),
{
    (space(), None)
}

pub fn clone_cell(c: &GridCell) -> (r: GridCell)
    ensures
        cell_view(r) == cell_view(*c),
{
    (c.0.clone(), c.1)
}

/// `cells` resized to `w` x `h`: what fits is kept, new cells are empty.
pub open spec fn resized(cells: Seq<Seq<CellView>>, w: int, h: int) -> Seq<Seq<CellView>> {
    Seq::new(
        h as nat,
        |y: int|
            Seq::new(
                w as nat,
                |x: int|
                    if y < cells.len() && x < cells[y].len() {
                        cells[y][x]
                    } else {
                        default_cell_view()
                    },
            ),
    )
}

/// Does `grid_scroll` copy a cell into `(dx, dy)`? Positive `rows`/`cols` move content up/left;
/// the source range is the part of the region that stays inside it after the move.
pub open spec fn scroll_moves(
    top: int,
    bottom: int,
    left: int,
    right: int,
    rows: int,
    cols: int,
    w: int,
    h: int,
    dy: int,
    dx: int,
) -> bool {
    &&& row_moves(top, bottom, rows, h, dy)
    &&& col_moves(left, right, cols, w, dx)
}

pub open spec fn row_moves(top: int, bottom: int, rows: int, h: int, dy: int) -> bool {
    let sy = dy + rows;
    &&& 0 <= dy < h
    &&& 0 <= sy < h
    &&& if rows > 0 {
        (if top + rows > 0 { top + rows } else { 0 }) <= sy < bottom
    } else {
        top <= sy < (if bottom + rows > 0 { bottom + rows } else { 0 })
    }
}

pub open spec fn col_moves(left: int, right: int, cols: int, w: int, dx: int) -> bool {
    let sx = dx + cols;
    &&& 0 <= dx < w
    &&& 0 <= sx < w
    &&& if cols > 0 {
        (if left + cols > 0 { left + cols } else { 0 }) <= sx < right
    } else {
        left <= sx < (if right + cols > 0 { right + cols } else { 0 })
    }
}

/// A row after a region scroll copied into it from row `src`.
pub open spec fn moved_row(dst: Seq<CellView>, src: Seq<CellView>, left: int, right: int, cols: int, w: int) -> Seq<CellView> {
    Seq::new(dst.len(), |dx: int| if col_moves(left, right, cols, w, dx) { src[dx + cols] } else { dst[dx] })
}

/// The grid after a region scroll: every cell the scroll moves gets its source, the rest stay.
pub open spec fn region_scrolled(
    cells: Seq<Seq<CellView>>,
    top: int,
    bottom: int,
    left: int,
    right: int,
    rows: int,
    cols: int,
    w: int,
    h: int,
) -> Seq<Seq<CellView>> {
    Seq::new(
        cells.len(),
        |dy: int|
            if row_moves(top, bottom, rows, h, dy) {
                moved_row(cells[dy], cells[dy + rows], left, right, cols, w)
            } else {
                cells[dy]
            },
    )
}

/// The grid with its rows rotated: row `i` shows old row `(i + n) mod h`.
pub open spec fn rotated(cells: Seq<Seq<CellView>>, n: int) -> Seq<Seq<CellView>> {
    Seq::new(cells.len(), |i: int| cells[(i + n) % (cells.len() as int)])
}

/// A full-grid vertical scroll: the whole grid, no column movement.
pub open spec fn is_full_scroll(top: int, bottom: int, left: int, right: int, cols: int, w: int, h: int) -> bool {
    top == 0 && bottom == h && left == 0 && right == w && cols == 0 && h > 0
}

/// How far rows rotate for a full scroll of `rows`: up for positive, down for negative.
pub open spec fn rotation(rows: int, h: int) -> int {
    let n = (if rows >= 0 { rows } else { -rows }) % h;
    if rows > 0 { n } else { (h - n) % h }
}

/// Rows `dy` already moved, while sources are visited upwards (positive `rows`).
pub open spec fn moved_rows_below(
    cells: Seq<Seq<CellView>>,
    top: int,
    bottom: int,
    left: int,
    right: int,
    rows: int,
    cols: int,
    w: int,
    h: int,
    limit: int,
    upwards: bool,
) -> Seq<Seq<CellView>> {
    Seq::new(
        cells.len(),
        |dy: int|
            if row_moves(top, bottom, rows, h, dy) && (if upwards { dy + rows < limit } else { dy + rows >= limit }) {
                moved_row(cells[dy], cells[dy + rows], left, right, cols, w)
            } else {
                cells[dy]
            },
    )
}

/// A row part-way through a region scroll: the sources already visited are copied.
pub open spec fn moved_row_part(
    dst: Seq<CellView>,
    src: Seq<CellView>,
    left: int,
    right: int,
    cols: int,
    w: int,
    limit: int,
    upwards: bool,
) -> Seq<CellView> {
    Seq::new(
        dst.len(),
        |dx: int|
            if col_moves(left, right, cols, w, dx) && (if upwards { dx + cols < limit } else { dx + cols >= limit }) {
                src[dx + cols]
            } else {
                dst[dx]
            },
    )
}

proof fn lemma_rotate_index(i: int, n: int, h: int)
    requires
        0 <= i < h,
        0 <= n <= h,
    ensures
        (i + n) % h == if i + n < h { i + n } else { i + n - h },
{
    if i + n < h {
        vstd::arithmetic::div_mod::lemma_small_mod((i + n) as nat, h as nat);
    } else {
        vstd::arithmetic::div_mod::lemma_mod_multiples_vanish(1, i + n - h, h);
        vstd::arithmetic::div_mod::lemma_small_mod((i + n - h) as nat, h as nat);
    }
}

#[derive(Debug)]
pub struct CharacterGrid {
    width: usize,
    height: usize,
    lines: Vec<Vec<GridCell>>,
}

impl View for CharacterGrid {
    type V = Seq<Seq<CellView>>;

    closed spec fn view(&self) -> Seq<Seq<CellView>> {
        Seq::new(self.lines@.len(), |y: int| row_view(self.lines@[y]@))
    }
}

impl CharacterGrid {
    pub closed spec fn spec_width(self) -> nat {
        self.width as nat
    }

    pub closed spec fn spec_height(self) -> nat {
        self.height as nat
    }

    /// The rows hold `height` lines of `width` cells.
    pub closed spec fn wf(self) -> bool {
        &&& self.lines@.len() == self.height
        &&& forall|y: int| 0 <= y < self.height ==> #[trigger] self.lines@[y]@.len() == self.width
    }

    /// The sizes are `usize` values.
    pub proof fn lemma_size_bounds(self)
        ensures
            self.spec_width() <= usize::MAX,
            self.spec_height() <= usize::MAX,
    {
    }

    pub proof fn lemma_shape(self)
        requires
            self.wf(),
        ensures
            shaped(self@, self.spec_width() as int, self.spec_height() as int),
    {
    }

    fn empty_line(width: usize) -> (line: Vec<GridCell>)
        ensures
            line@.len() == width,
            row_view(line@) == Seq::new(width as nat, |x: int| default_cell_view()),
    {
        let mut line: Vec<GridCell> = Vec::with_capacity(width);
        let mut i: usize = 0;
        while i < width
            invariant
                i <= width,
                line@.len() == i,
                forall|x: int| 0 <= x < i ==> #[trigger] cell_view(line@[x]) == default_cell_view(),
            decreases width - i,
        {
            line.push(default_cell());
            i += 1;
        }
        proof {
            assert(row_view(line@) =~= Seq::new(width as nat, |x: int| default_cell_view()));
        }
        line
    }

    pub fn new(size: (usize, usize)) -> (g: CharacterGrid)
        ensures
            g.wf(),
            g.spec_width() == size.0,
            g.spec_height() == size.1,
            g@ == Seq::new(size.1 as nat, |y: int| Seq::new(size.0 as nat, |x: int| default_cell_view())),
    {
        let (width, height) = size;
        let mut lines: Vec<Vec<GridCell>> = Vec::with_capacity(height);
        let mut i: usize = 0;
        while i < height
            invariant
                i <= height,
                lines@.len() == i,
                forall|y: int| 0 <= y < i ==> #[trigger] lines@[y]@.len() == width,
                forall|y: int|
                    0 <= y < i ==> #[trigger] row_view(lines@[y]@) == Seq::new(width as nat, |x: int| default_cell_view()),
            decreases height - i,
        {
            lines.push(Self::empty_line(width));
            i += 1;
        }
        let g = CharacterGrid { width, height, lines };
        proof {
            assert(g@ =~= Seq::new(height as nat, |y: int| Seq::new(width as nat, |x: int| default_cell_view())));
        }
        g
    }

    fn fit_line(line: &mut Vec<GridCell>, width: usize)
        ensures
            final(line)@.len() == width,
            row_view(final(line)@) == Seq::new(
                width as nat,
                |x: int| if x < old(line)@.len() { cell_view(old(line)@[x]) } else { default_cell_view() },
            ),
    {
        if line.len() > width {
            line.truncate(width);
        }
        let ghost kept = line@;
        while line.len() < width
            invariant
                line@.len() <= width,
                kept.len() <= line@.len(),
                kept == old(line)@.take(kept.len() as int),
                kept.len() == if old(line)@.len() < width { old(line)@.len() } else { width as nat },
                forall|x: int| 0 <= x < kept.len() ==> #[trigger] line@[x] == kept[x],
                forall|x: int| kept.len() <= x < line@.len() ==> #[trigger] cell_view(line@[x]) == default_cell_view(),
            decreases width - line@.len(),
        {
            line.push(default_cell());
        }
        proof {
            assert(row_view(line@) =~= Seq::new(
                width as nat,
                |x: int| if x < old(line)@.len() { cell_view(old(line)@[x]) } else { default_cell_view() },
            ));
        }
    }

    /// Resize to `width` x `height`: what fits is kept, new cells are empty.
    pub fn resize(&mut self, size: (usize, usize))
        requires
            old(self).wf(),
        ensures
            final(self).wf(),
            final(self).spec_width() == size.0,
            final(self).spec_height() == size.1,
            final(self)@ == resized(old(self)@, size.0 as int, size.1 as int),
    {
        let (width, height) = size;
        let ghost old_view = self@;
        if self.lines.len() > height {
            self.lines.truncate(height);
        }
        let ghost kept = self.lines@.len();
        while self.lines.len() < height
            invariant
                self.lines@.len() <= height,
                kept <= self.lines@.len(),
                kept == if old_view.len() < height { old_view.len() } else { height as nat },
                forall|y: int| 0 <= y < kept ==> #[trigger] row_view(self.lines@[y]@) == old_view[y],
                forall|y: int|
                    kept <= y < self.lines@.len() ==> #[trigger] row_view(self.lines@[y]@) == Seq::new(
                        width as nat,
                        |x: int| default_cell_view(),
                    ),
                forall|y: int| kept <= y < self.lines@.len() ==> #[trigger] self.lines@[y]@.len() == width,
            decreases height - self.lines@.len(),
        {
            self.lines.push(Self::empty_line(width));
        }
        let mut y: usize = 0;
        while y < height
            invariant
                self.lines@.len() == height,
                y <= height,
                kept == if old_view.len() < height { old_view.len() } else { height as nat },
                forall|i: int| 0 <= i < y ==> #[trigger] self.lines@[i]@.len() == width,
                forall|i: int|
                    0 <= i < y ==> #[trigger] row_view(self.lines@[i]@) == resized(old_view, width as int, height as int)[i],
                forall|i: int| y <= i < kept ==> #[trigger] row_view(self.lines@[i]@) == old_view[i],
                forall|i: int|
                    kept <= i < height ==> #[trigger] row_view(self.lines@[i]@) == Seq::new(
                        width as nat,
                        |x: int| default_cell_view(),
                    ),
                forall|i: int| kept <= i < height ==> #[trigger] self.lines@[i]@.len() == width,
            decreases height - y,
        {
            let ghost before = self.lines@[y as int]@;
            Self::fit_line(&mut self.lines[y], width);
            proof {
                let r = resized(old_view, width as int, height as int);
                if y < kept {
                    assert(row_view(before) == old_view[y as int]);
                    assert(row_view(self.lines@[y as int]@) =~= r[y as int]);
                } else {
                    assert forall|x: int| 0 <= x < width implies #[trigger] cell_view(before[x]) == default_cell_view() by {
                        assert(row_view(before)[x] == cell_view(before[x]));
                    }
                    assert(row_view(self.lines@[y as int]@) =~= r[y as int]);
                }
            }
            y += 1;
        }
        self.width = width;
        self.height = height;
        proof {
            assert(self@ =~= resized(old_view, width as int, height as int));
        }
    }

    /// Empty every cell.
    pub fn clear(&mut self)
        requires
            old(self).wf(),
        ensures
            final(self).wf(),
            final(self).spec_width() == old(self).spec_width(),
            final(self).spec_height() == old(self).spec_height(),
            final(self)@ == Seq::new(
                old(self).spec_height(),
                |y: int| Seq::new(old(self).spec_width(), |x: int| default_cell_view()),
            ),
    {
        let mut y: usize = 0;
        while y < self.lines.len()
            invariant
                self.wf(),
                self.width == old(self).width,
                self.height == old(self).height,
                y <= self.height,
                forall|i: int|
                    0 <= i < y ==> #[trigger] row_view(self.lines@[i]@) == Seq::new(
                        self.width as nat,
                        |x: int| default_cell_view(),
                    ),
            decreases self.height - y,
        {
            let mut x: usize = 0;
            while x < self.width
                invariant
                    self.wf(),
                    self.width == old(self).width,
                    self.height == old(self).height,
                    y < self.height,
                    x <= self.width,
                    forall|i: int|
                        0 <= i < y ==> #[trigger] row_view(self.lines@[i]@) == Seq::new(
                            self.width as nat,
                            |x: int| default_cell_view(),
                        ),
                    forall|j: int| 0 <= j < x ==> #[trigger] cell_view(self.lines@[y as int]@[j]) == default_cell_view(),
                decreases self.width - x,
            {
                self.lines[y][x] = default_cell();
                x += 1;
            }
            proof {
                assert(row_view(self.lines@[y as int]@) =~= Seq::new(self.width as nat, |x: int| default_cell_view()));
            }
            y += 1;
        }
        proof {
            assert(self@ =~= Seq::new(self.height as nat, |y: int| Seq::new(self.width as nat, |x: int| default_cell_view())));
        }
    }

    /// The cell at column `x` of row `y`, if the grid has one there.
    pub fn get_cell(&self, x: usize, y: usize) -> (c: Option<&GridCell>)
        requires
            self.wf(),
        ensures
            match c {
                Some(c) => y < self.spec_height() && x < self.spec_width() && cell_view(*c) == self@[y as int][x as int],
                None => !(y < self.spec_height() && x < self.spec_width()),
            },
    {
        if y < self.lines.len() && x < self.lines[y].len() {
            Some(&self.lines[y][x])
        } else {
            None
        }
    }

    /// Put `cell` at column `x` of row `y`; false (and no change) outside the grid.
    pub fn set_cell(&mut self, x: usize, y: usize, cell: GridCell) -> (done: bool)
        requires
            old(self).wf(),
        ensures
            final(self).wf(),
            final(self).spec_width() == old(self).spec_width(),
            final(self).spec_height() == old(self).spec_height(),
            done == (y < old(self).spec_height() && x < old(self).spec_width()),
            done ==> final(self)@ == old(self)@.update(y as int, old(self)@[y as int].update(x as int, cell_view(cell))),
            !done ==> final(self)@ == old(self)@,
    {
        if y < self.lines.len() && x < self.lines[y].len() {
            self.lines[y][x] = cell;
            proof {
                assert(row_view(self.lines@[y as int]@) =~= old(self)@[y as int].update(x as int, cell_view(cell)));
                assert(self@ =~= old(self)@.update(y as int, old(self)@[y as int].update(x as int, cell_view(cell))));
            }
            true
        } else {
            false
        }
    }

    /// Row `y`, if the grid has one there.
    pub fn row(&self, y: usize) -> (r: Option<&Vec<GridCell>>)
        requires
            self.wf(),
        ensures
            match r {
                Some(r) => y < self.spec_height() && row_view(r@) == self@[y as int] && r@.len() == self.spec_width(),
                None => y >= self.spec_height(),
            },
    {
        if y < self.lines.len() {
            Some(&self.lines[y])
        } else {
            None
        }
    }

    /// Copy the cells a region scroll moves into row `dy`, taking them from row `sy`.
    fn copy_row_cells(&mut self, dy: usize, sy: usize, left: i128, right: i128, cols: i128)
        requires
            old(self).wf(),
            dy < old(self).spec_height(),
            sy < old(self).spec_height(),
            0 <= left,
            0 <= right,
            -0x1_0000_0000_0000_0000 <= left <= 0x1_0000_0000_0000_0000,
            -0x1_0000_0000_0000_0000 <= right <= 0x1_0000_0000_0000_0000,
            -0x1_0000_0000_0000_0000 <= cols <= 0x1_0000_0000_0000_0000,
        ensures
            final(self).wf(),
            final(self).spec_width() == old(self).spec_width(),
            final(self).spec_height() == old(self).spec_height(),
            final(self)@ == old(self)@.update(
                dy as int,
                moved_row(old(self)@[dy as int], old(self)@[sy as int], left as int, right as int, cols as int, old(self).spec_width() as int),
            ),
    {
        let ghost g0 = self@;
        let ghost w = self.width as int;
        let ghost src = g0[sy as int];
        let ghost dst = g0[dy as int];
        let wi = self.width as i128;
        proof {
            assert(self.lines@[sy as int]@.len() == self.width);
            assert(self.lines@[dy as int]@.len() == self.width);
            assert(src.len() == w && dst.len() == w);
            assert(moved_row_part(dst, src, left as int, right as int, cols as int, w, if left + cols > 0 { left + cols } else { 0 }, true) =~= dst);
            assert(moved_row_part(dst, src, left as int, right as int, cols as int, w, if right + cols > 0 { right + cols } else { 0 }, false) =~= dst);
            assert(g0.update(dy as int, dst) =~= g0);
        }
        if cols > 0 {
            let mut x: i128 = if left + cols > 0 { left + cols } else { 0 };
            while x < right
                invariant
                    self.wf(),
                    self.width == old(self).width,
                    self.height == old(self).height,
                    wi == w,
                    w == self.width as int,
                    g0 == old(self)@,
                    g0.len() == self.height,
                    0 <= left,
                    dy < self.height,
                    sy < self.height,
                    src == g0[sy as int],
                    dst == g0[dy as int],
                    src.len() == w,
                    dst.len() == w,
                    cols > 0,
                    x >= 0,
                    x >= left + cols,
                    -0x1_0000_0000_0000_0000 <= right <= 0x1_0000_0000_0000_0000,
                    self@ == g0.update(dy as int, moved_row_part(dst, src, left as int, right as int, cols as int, w, x as int, true)),
                decreases right - x,
            {
                let dest_x = x - cols;
                if x < wi && dest_x >= 0 && dest_x < wi {
                    let ghost cur = self@;
                    proof {
                        assert(0 <= x < self.width);
                        assert(self.lines@[sy as int]@.len() == self.width);
                        if sy == dy {
                            assert(moved_row_part(dst, src, left as int, right as int, cols as int, w, x as int, true)[x as int] == dst[x as int]);
                        }
                        assert(cur[sy as int][x as int] == src[x as int]);
                    }
                    let cell = clone_cell(&self.lines[sy][x as usize]);
                    self.lines[dy][dest_x as usize] = cell;
                    proof {
                        assert(row_view(self.lines@[dy as int]@) =~= cur[dy as int].update(dest_x as int, src[x as int]));
                        assert(self@ =~= cur.update(dy as int, cur[dy as int].update(dest_x as int, src[x as int])));
                        assert(moved_row_part(dst, src, left as int, right as int, cols as int, w, x + 1, true)
                            =~= moved_row_part(dst, src, left as int, right as int, cols as int, w, x as int, true).update(dest_x as int, src[x as int]));
                    }
                } else {
                    proof {
                        assert(moved_row_part(dst, src, left as int, right as int, cols as int, w, x + 1, true)
                            =~= moved_row_part(dst, src, left as int, right as int, cols as int, w, x as int, true));
                    }
                }
                x += 1;
            }
            proof {
                assert(moved_row_part(dst, src, left as int, right as int, cols as int, w, x as int, true)
                    =~= moved_row(dst, src, left as int, right as int, cols as int, w));
            }
        } else {
            let mut x: i128 = if right + cols > 0 { right + cols } else { 0 };
            while x > left
                invariant
                    self.wf(),
                    self.width == old(self).width,
                    self.height == old(self).height,
                    wi == w,
                    w == self.width as int,
                    g0 == old(self)@,
                    g0.len() == self.height,
                    0 <= left,
                    dy < self.height,
                    sy < self.height,
                    src == g0[sy as int],
                    dst == g0[dy as int],
                    src.len() == w,
                    dst.len() == w,
                    cols <= 0,
                    x >= 0,
                    x <= right + cols || x == 0,
                    -0x1_0000_0000_0000_0000 <= left <= 0x1_0000_0000_0000_0000,
                    self@ == g0.update(dy as int, moved_row_part(dst, src, left as int, right as int, cols as int, w, x as int, false)),
                decreases x - left,
            {
                x -= 1;
                let dest_x = x - cols;
                if x < wi && dest_x >= 0 && dest_x < wi {
                    let ghost cur = self@;
                    proof {
                        assert(0 <= x < self.width);
                        assert(self.lines@[sy as int]@.len() == self.width);
                        if sy == dy {
                            assert(moved_row_part(dst, src, left as int, right as int, cols as int, w, x + 1, false)[x as int] == dst[x as int]);
                        }
                        assert(cur[sy as int][x as int] == src[x as int]);
                    }
                    let cell = clone_cell(&self.lines[sy][x as usize]);
                    self.lines[dy][dest_x as usize] = cell;
                    proof {
                        assert(row_view(self.lines@[dy as int]@) =~= cur[dy as int].update(dest_x as int, src[x as int]));
                        assert(self@ =~= cur.update(dy as int, cur[dy as int].update(dest_x as int, src[x as int])));
                        assert(moved_row_part(dst, src, left as int, right as int, cols as int, w, x as int, false)
                            =~= moved_row_part(dst, src, left as int, right as int, cols as int, w, x + 1, false).update(dest_x as int, src[x as int]));
                    }
                } else {
                    proof {
                        assert(moved_row_part(dst, src, left as int, right as int, cols as int, w, x as int, false)
                            =~= moved_row_part(dst, src, left as int, right as int, cols as int, w, x + 1, false));
                    }
                }
            }
            proof {
                assert(moved_row_part(dst, src, left as int, right as int, cols as int, w, x as int, false)
                    =~= moved_row(dst, src, left as int, right as int, cols as int, w));
            }
        }
    }

    fn rotate_rows_left(&mut self, n: usize)
        requires
            old(self).wf(),
            n <= old(self).spec_height(),
            old(self).spec_height() > 0,
        ensures
            final(self).wf(),
            final(self).spec_width() == old(self).spec_width(),
            final(self).spec_height() == old(self).spec_height(),
            final(self)@ == rotated(old(self)@, n as int),
    {
        let ghost g0 = self@;
        let ghost l0 = self.lines@;
        let mut tail = self.lines.split_off(n);
        tail.append(&mut self.lines);
        self.lines = tail;
        proof {
            let h = self.height as int;
            assert forall|i: int| 0 <= i < h implies #[trigger] self.lines@[i] == l0[(i + n) % h] by {
                lemma_rotate_index(i, n as int, h);
            }
            assert forall|y: int| 0 <= y < self.height implies #[trigger] self.lines@[y]@.len() == self.width by {
                lemma_rotate_index(y, n as int, h);
                assert(l0[(y + n) % h]@.len() == self.width);
            }
            assert(self@ =~= rotated(g0, n as int));
        }
    }

    /// Scroll the region as `grid_scroll` describes: positive `rows` move content up, positive
    /// `cols` move it left. A scroll of the whole grid with no column movement rotates the rows
    /// and returns true; the rows that wrap around are left for later `grid_line`s to overwrite.
    /// Any other scroll copies the cells that stay inside the region and returns false.
    pub fn scroll_region(&mut self, top: usize, bottom: usize, left: usize, right: usize, rows: isize, cols: isize) -> (full: bool)
        requires
            old(self).wf(),
            top <= isize::MAX,
            bottom <= isize::MAX,
            left <= isize::MAX,
            right <= isize::MAX,
            isize::MIN <= top + rows <= isize::MAX,
            isize::MIN <= bottom + rows <= isize::MAX,
            isize::MIN <= left + cols <= isize::MAX,
            isize::MIN <= right + cols <= isize::MAX,
            rows > isize::MIN,
        ensures
            final(self).wf(),
            final(self).spec_width() == old(self).spec_width(),
            final(self).spec_height() == old(self).spec_height(),
            full == is_full_scroll(
                top as int,
                bottom as int,
                left as int,
                right as int,
                cols as int,
                old(self).spec_width() as int,
                old(self).spec_height() as int,
            ),
            full ==> final(self)@ == rotated(old(self)@, rotation(rows as int, old(self).spec_height() as int)),
            !full ==> final(self)@ == region_scrolled(
                old(self)@,
                top as int,
                bottom as int,
                left as int,
                right as int,
                rows as int,
                cols as int,
                old(self).spec_width() as int,
                old(self).spec_height() as int,
            ),
    {
        let ghost g0 = self@;
        let ghost h = self.height as int;
        let ghost w = self.width as int;
        if top == 0 && bottom == self.height && left == 0 && right == self.width && cols == 0 && self.height > 0 {
            let magnitude: usize = if rows >= 0 { rows as usize } else { (-rows) as usize };
            let n = magnitude % self.height;
            if rows > 0 {
                self.rotate_rows_left(n);
            } else {
                let k = (self.height - n) % self.height;
                self.rotate_rows_left(k);
            }
            return true;
        }
        let hi = self.height as i128;
        let rows_i = rows as i128;
        let top_i = top as i128;
        let bottom_i = bottom as i128;
        proof {
            assert(moved_rows_below(g0, top as int, bottom as int, left as int, right as int, rows as int, cols as int, w, h,
                if top + rows > 0 { top + rows } else { 0 }, true) =~= g0);
            assert(moved_rows_below(g0, top as int, bottom as int, left as int, right as int, rows as int, cols as int, w, h,
                if bottom + rows > 0 { bottom + rows } else { 0 }, false) =~= g0);
        }
        if rows > 0 {
            let mut y: i128 = if top_i + rows_i > 0 { top_i + rows_i } else { 0 };
            while y < bottom_i
                invariant
                    self.wf(),
                    self.width == old(self).width,
                    self.height == old(self).height,
                    g0 == old(self)@,
                    g0.len() == h,
                    h == self.height as int,
                    w == self.width as int,
                    hi == h,
                    rows_i == rows,
                    bottom_i == bottom,
                    rows > 0,
                    0 <= left <= isize::MAX,
                    0 <= right <= isize::MAX,
                    isize::MIN <= cols <= isize::MAX,
                    y >= 0,
                    y >= top + rows,
                    self@ == moved_rows_below(g0, top as int, bottom as int, left as int, right as int, rows as int, cols as int, w, h, y as int, true),
                decreases bottom_i - y,
            {
                let dest_y = y - rows_i;
                let ghost cur = self@;
                let ghost next = moved_rows_below(g0, top as int, bottom as int, left as int, right as int, rows as int, cols as int, w, h, y + 1, true);
                if y < hi && dest_y >= 0 && dest_y < hi {
                    proof {
                        assert(cur[dest_y as int] == g0[dest_y as int]);
                        assert(cur[y as int] == g0[y as int]);
                    }
                    self.copy_row_cells(dest_y as usize, y as usize, left as i128, right as i128, cols as i128);
                    proof {
                        assert(self@ =~= next);
                    }
                } else {
                    proof {
                        assert(cur =~= next);
                    }
                }
                y += 1;
            }
            proof {
                assert(moved_rows_below(g0, top as int, bottom as int, left as int, right as int, rows as int, cols as int, w, h, y as int, true)
                    =~= region_scrolled(g0, top as int, bottom as int, left as int, right as int, rows as int, cols as int, w, h));
            }
        } else {
            let mut y: i128 = if bottom_i + rows_i > 0 { bottom_i + rows_i } else { 0 };
            while y > top_i
                invariant
                    self.wf(),
                    self.width == old(self).width,
                    self.height == old(self).height,
                    g0 == old(self)@,
                    g0.len() == h,
                    h == self.height as int,
                    w == self.width as int,
                    hi == h,
                    rows_i == rows,
                    top_i == top,
                    bottom <= isize::MAX,
                    y <= (if bottom + rows > 0 { bottom + rows } else { 0 }),
                    rows <= 0,
                    rows > isize::MIN,
                    0 <= top,
                    0 <= left <= isize::MAX,
                    0 <= right <= isize::MAX,
                    isize::MIN <= cols <= isize::MAX,
                    y >= 0,
                    self@ == moved_rows_below(g0, top as int, bottom as int, left as int, right as int, rows as int, cols as int, w, h, y as int, false),
                decreases y - top_i,
            {
                y -= 1;
                let dest_y = y - rows_i;
                let ghost cur = self@;
                let ghost next = moved_rows_below(g0, top as int, bottom as int, left as int, right as int, rows as int, cols as int, w, h, y as int, false);
                if y < hi && dest_y >= 0 && dest_y < hi {
                    proof {
                        assert(cur[dest_y as int] == g0[dest_y as int]);
                        assert(cur[y as int] == g0[y as int]);
                    }
                    self.copy_row_cells(dest_y as usize, y as usize, left as i128, right as i128, cols as i128);
                    proof {
                        assert(self@ =~= next);
                    }
                } else {
                    proof {
                        assert(cur =~= next);
                    }
                }
            }
            proof {
                assert(moved_rows_below(g0, top as int, bottom as int, left as int, right as int, rows as int, cols as int, w, h, y as int, false)
                    =~= region_scrolled(g0, top as int, bottom as int, left as int, right as int, rows as int, cols as int, w, h));
            }
        }
        false
    }

    pub fn width(&self) -> (w: usize)
        ensures
            w == self.spec_width(),
    {
        self.width
    }

    pub fn height(&self) -> (h: usize)
        ensures
            h == self.spec_height(),
    {
        self.height
    }
}


/// A full scroll by `rows` followed by a full scroll by `-rows` gives the grid back: the rows
/// rotate one way and then the other.
pub proof fn law_full_scroll_round_trip(cells: Seq<Seq<CellView>>, rows: int)
    requires
        cells.len() > 0,
    ensures
        rotated(rotated(cells, rotation(rows, cells.len() as int)), rotation(-rows, cells.len() as int)) =~= cells,
{
    let h = cells.len() as int;
    let n = (if rows >= 0 { rows } else { -rows }) % h;
    vstd::arithmetic::div_mod::lemma_mod_bound(if rows >= 0 { rows } else { -rows }, h);
    vstd::arithmetic::div_mod::lemma_mod_multiples_vanish(1, 0, h);
    vstd::arithmetic::div_mod::lemma_small_mod(0, h as nat);
    if n > 0 {
        vstd::arithmetic::div_mod::lemma_small_mod((h - n) as nat, h as nat);
    }
    let a = rotation(rows, h);
    let b = rotation(-rows, h);
    assert(0 <= a < h && 0 <= b < h && (a + b == 0 || a + b == h));
    let once = rotated(cells, a);
    assert forall|i: int| 0 <= i < h implies #[trigger] rotated(once, b)[i] == cells[i] by {
        lemma_rotate_index(i, b, h);
        let j = (i + b) % h;
        lemma_rotate_index(j, a, h);
    }
}

/// Growing a grid and then shrinking it back to its size gives it back: resizing keeps what
/// fits, and everything fits on the way back.
pub proof fn law_resize_grow_then_shrink(cells: Seq<Seq<CellView>>, w: int, h: int, w2: int, h2: int)
    requires
        shaped(cells, w, h),
        0 <= w <= w2,
        0 <= h <= h2,
    ensures
        resized(resized(cells, w2, h2), w, h) =~= cells,
{
    let big = resized(cells, w2, h2);
    assert forall|y: int| 0 <= y < h implies #[trigger] resized(big, w, h)[y] =~= cells[y] by {
        assert(cells[y].len() == w);
    }
}

} // verus!
