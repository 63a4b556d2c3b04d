//! One Neovim grid ("window" in multigrid terms) and how its rows become renderable lines:
//! runs of cells that share a style, split into words at whitespace.

use vstd::prelude::*;

use crate::bridge::events::{cells_view, GridLineCell, GridLineCellView, WindowAnchor};
use crate::bridge::value::FloatValue;
use crate::editor::grid::{
    cell_view, default_cell_view, is_full_scroll, region_scrolled, resized, rotated, rotation, row_view, shaped, CellView, CharacterGrid,
    GridCell,
};
use crate::editor::AnchorInfo;
use crate::editor::style::Style;
use crate::editor::words::{bytes_len, capped_bytes_len, is_white_space, is_whitespace, Word};
use crate::text::{chars_of, push_char, space};

verus! {

#[derive(Clone, Copy, Debug, PartialEq, Eq, Structural)]
pub enum WindowType {
    Editor,
    Message { scrolled: bool },
}

// ---- positions ----

/// A coordinate in grid-1 cells, kept as the sum Neovim's numbers make: the renderer adds it
/// up in floating point, in this order.
#[derive(Debug)]
pub enum Coord {
    /// A whole number of cells.
    Cells(u64),
    /// An anchor coordinate from `win_float_pos`.
    Anchor(FloatValue),
    /// An anchor coordinate less the window's width or height.
    AnchorLess(FloatValue, u64),
    /// The parent's coordinate plus this one.
    Sum(Box<Coord>, Box<Coord>),
}

/// A top-left corner.
#[derive(Debug)]
pub struct Pos {
    pub left: Coord,
    pub top: Coord,
}

pub fn clone_coord(c: &Coord) -> (r: Coord)
    ensures
        r == *c,
    decreases c,
{
    match c {
        Coord::Cells(n) => Coord::Cells(*n),
        Coord::Anchor(f) => Coord::Anchor(*f),
        Coord::AnchorLess(f, n) => Coord::AnchorLess(*f, *n),
        Coord::Sum(a, b) => Coord::Sum(Box::new(clone_coord(a)), Box::new(clone_coord(b))),
    }
}

pub fn clone_pos(p: &Pos) -> (r: Pos)
    ensures
        r == *p,
{
    Pos { left: clone_coord(&p.left), top: clone_coord(&p.top) }
}

pub open spec fn cells_pos(left: u64, top: u64) -> Pos {
    Pos { left: Coord::Cells(left), top: Coord::Cells(top) }
}

/// The top-left of a `width` x `height` window whose `anchor` corner sits at (`left`, `top`).
pub open spec fn anchored_top_left(anchor: WindowAnchor, left: FloatValue, top: FloatValue, width: u64, height: u64) -> Pos {
    match anchor {
        WindowAnchor::NorthWest | WindowAnchor::Absolute => Pos { left: Coord::Anchor(left), top: Coord::Anchor(top) },
        WindowAnchor::NorthEast => Pos { left: Coord::AnchorLess(left, width), top: Coord::Anchor(top) },
        WindowAnchor::SouthWest => Pos { left: Coord::Anchor(left), top: Coord::AnchorLess(top, height) },
        WindowAnchor::SouthEast => Pos { left: Coord::AnchorLess(left, width), top: Coord::AnchorLess(top, height) },
    }
}

pub fn modified_top_left(anchor: WindowAnchor, left: FloatValue, top: FloatValue, width: u64, height: u64) -> (p: Pos)
    ensures
        p == anchored_top_left(anchor, left, top, width, height),
{
    match anchor {
        WindowAnchor::NorthWest | WindowAnchor::Absolute => Pos { left: Coord::Anchor(left), top: Coord::Anchor(top) },
        WindowAnchor::NorthEast => Pos { left: Coord::AnchorLess(left, width), top: Coord::Anchor(top) },
        WindowAnchor::SouthWest => Pos { left: Coord::Anchor(left), top: Coord::AnchorLess(top, height) },
        WindowAnchor::SouthEast => Pos { left: Coord::AnchorLess(left, width), top: Coord::AnchorLess(top, height) },
    }
}

/// `parent` moved by `offset`.
pub open spec fn offset_pos(parent: Pos, offset: Pos) -> Pos {
    Pos { left: Coord::Sum(Box::new(parent.left), Box::new(offset.left)), top: Coord::Sum(Box::new(parent.top), Box::new(offset.top)) }
}

// ---- lines ----

pub struct WordView {
    pub text: Seq<char>,
    pub cell: u32,
    pub sizes: Seq<u8>,
}

pub open spec fn word_view(w: &Word) -> WordView {
    WordView { text: w.text@, cell: w.cell, sizes: w.cluster_sizes@ }
}

pub open spec fn words_view(ws: Seq<Word>) -> Seq<WordView> {
    Seq::new(ws.len(), |i: int| word_view(&ws[i]))
}

pub open spec fn empty_word() -> WordView {
    WordView { text: Seq::empty(), cell: 0, sizes: Seq::empty() }
}

/// What a cell's text adds to the words of a run, as the `i`th cell of the run: a blank starts
/// a new word, the empty right half of a double-width character extends the current one with
/// size 0, and any other cluster (longer than 255 bytes reads as one space) joins the current
/// word with its byte length.
pub open spec fn scan_cell(st: (Seq<WordView>, WordView), i: int, text: Seq<char>) -> (Seq<WordView>, WordView) {
    let words = st.0;
    let cur = st.1;
    let cluster = if bytes_len(text) > 255 { seq![' '] } else { text };
    if cluster.len() == 0 {
        if cur.sizes.len() > 0 {
            (words, WordView { sizes: cur.sizes.push(0), ..cur })
        } else {
            (words, cur)
        }
    } else if is_white_space(cluster[0]) {
        if cur.sizes.len() > 0 {
            (words.push(cur), empty_word())
        } else {
            (words, cur)
        }
    } else {
        let start = if cur.sizes.len() == 0 { i as u32 } else { cur.cell };
        (words, WordView { text: cur.text + cluster, cell: start, sizes: cur.sizes.push(bytes_len(cluster) as u8) })
    }
}

pub open spec fn scan(texts: Seq<Seq<char>>) -> (Seq<WordView>, WordView)
    decreases texts.len(),
{
    if texts.len() == 0 {
        (Seq::empty(), empty_word())
    } else {
        scan_cell(scan(texts.drop_last()), texts.len() - 1, texts.last())
    }
}

/// The words of a run: the scanned words and the last one, if it has any cluster.
pub open spec fn run_words(texts: Seq<Seq<char>>) -> Seq<WordView> {
    let st = scan(texts);
    if st.1.sizes.len() > 0 {
        st.0.push(st.1)
    } else {
        st.0
    }
}

/// Where the run of cells with style `style` that starts at `j` ends.
pub open spec fn run_end(row: Seq<CellView>, style: Option<Style>, j: int) -> int
    decreases row.len() - j,
{
    if j < 0 || j >= row.len() || row[j].1 != style {
        j
    } else {
        run_end(row, style, j + 1)
    }
}

pub struct FragmentView {
    pub start: u32,
    pub end: u32,
    pub style: Option<Style>,
    pub words: Seq<WordView>,
}

/// The run of cells that starts at `start` and shares its style.
pub open spec fn fragment_at(row: Seq<CellView>, start: int) -> FragmentView {
    let end = run_end(row, row[start].1, start);
    FragmentView {
        start: start as u32,
        end: end as u32,
        style: row[start].1,
        words: run_words(Seq::new((end - start) as nat, |i: int| row[start + i].0)),
    }
}

/// The runs of a row from cell `start` on.
pub open spec fn fragments_from(row: Seq<CellView>, start: int) -> Seq<FragmentView>
    decreases row.len() - start,
{
    if start < 0 || start >= row.len() {
        Seq::empty()
    } else {
        let end = run_end(row, row[start].1, start);
        if end <= start || end > row.len() {
            Seq::empty()
        } else {
            seq![fragment_at(row, start)] + fragments_from(row, end)
        }
    }
}

pub proof fn lemma_run_end(row: Seq<CellView>, style: Option<Style>, j: int)
    requires
        0 <= j <= row.len(),
    ensures
        j <= run_end(row, style, j) <= row.len(),
        forall|k: int| j <= k < run_end(row, style, j) ==> row[k].1 == style,
        run_end(row, style, j) < row.len() ==> row[run_end(row, style, j)].1 != style,
    decreases row.len() - j,
{
    if j < row.len() && row[j].1 == style {
        lemma_run_end(row, style, j + 1);
    }
}

/// A run of cells that share one style. `words` split its text at whitespace so the shaper
/// can cache short strings and align each to its cell.
#[derive(Debug)]
pub struct LineFragment {
    pub cells: std::ops::Range<u32>,
    pub style: Option<Style>,
    pub words: Vec<Word>,
}

pub open spec fn fragment_view(f: &LineFragment) -> FragmentView {
    FragmentView { start: f.cells.start, end: f.cells.end, style: f.style, words: words_view(f.words@) }
}

pub open spec fn fragments_view(fs: Seq<LineFragment>) -> Seq<FragmentView> {
    Seq::new(fs.len(), |i: int| fragment_view(&fs[i]))
}

#[derive(Debug)]
pub struct Line {
    pub fragments: Vec<LineFragment>,
}

pub open spec fn lines_view(ls: Seq<Line>) -> Seq<Seq<FragmentView>> {
    Seq::new(ls.len(), |i: int| fragments_view(ls[i].fragments@))
}

fn same_style(a: &Option<Style>, b: &Option<Style>) -> (r: bool)
    ensures
        r == (*a == *b),
{
    match (a, b) {
        (Some(x), Some(y)) => *x == *y,
        (None, None) => true,
        _ => false,
    }
}

fn new_word() -> (w: Word)
    ensures
        word_view(&w) == empty_word(),
{
    Word { text: String::new(), cell: 0, cluster_sizes: Vec::new() }
}

fn scan_step(words: &mut Vec<Word>, current: &mut Word, i: u32, text: &String)
    ensures
        (words_view(final(words)@), word_view(final(current))) == scan_cell(
            (words_view(old(words)@), word_view(old(current))),
            i as int,
            text@,
        ),
{
    let long = capped_bytes_len(text.as_str()) > 255;
    let cluster = if long {
        space()
    } else {
        text.clone()
    };
    let ghost cv = if bytes_len(text@) > 255 { seq![' '] } else { text@ };
    let cs = chars_of(cluster.as_str());
    proof {
        assert((' ' as u32) == 32u32);
        crate::editor::words::lemma_bytes_len_push(Seq::<char>::empty(), ' ');
        assert(Seq::<char>::empty().push(' ') =~= seq![' ']);
        assert(bytes_len(seq![' ']) == 1);
        assert(cluster@ == cv);
        assert(cs@ == cv);
    }
    if cs.len() == 0 {
        if current.cluster_sizes.len() > 0 {
            current.cluster_sizes.push(0);
        }
    } else if is_whitespace(cs[0]) {
        if current.cluster_sizes.len() > 0 {
            let ghost before = words@;
            let mut finished = new_word();
            std::mem::swap(&mut finished, current);
            words.push(finished);
            proof {
                assert(words_view(words@) =~= words_view(before).push(word_view(old(current))));
            }
        }
    } else {
        if current.cluster_sizes.len() == 0 {
            current.cell = i;
        }
        let mut k: usize = 0;
        let ghost t0 = current.text@;
        let ghost sizes0 = current.cluster_sizes@;
        let ghost cell0 = current.cell;
        while k < cs.len()
            invariant
                k <= cs@.len(),
                current.cluster_sizes@ == sizes0,
                current.cell == cell0,
                current.text@ == t0 + cs@.take(k as int),
            decreases cs@.len() - k,
        {
            push_char(&mut current.text, cs[k]);
            proof {
                assert(t0 + cs@.take(k + 1) =~= (t0 + cs@.take(k as int)).push(cs@[k as int]));
            }
            k += 1;
        }
        proof {
            assert(cs@.take(cs@.len() as int) =~= cs@);
        }
        let size = capped_bytes_len(cluster.as_str());
        proof {
            assert(size == bytes_len(cv));
        }
        current.cluster_sizes.push(size as u8);
        proof {
            assert(current.text@ == old(current).text@ + cv);
            assert(current.cluster_sizes@ == old(current).cluster_sizes@.push(bytes_len(cv) as u8));
        }
    }
}

/// Build the style-run fragment that starts at `start`; returns where the next one starts.
pub fn build_line_fragment(row: &Vec<GridCell>, start: usize) -> (r: (usize, LineFragment))
    requires
        start < row@.len(),
        row@.len() <= u32::MAX,
    ensures
        r.0 == run_end(row_view(row@), row@[start as int].1, start as int),
        fragment_view(&r.1) == fragment_at(row_view(row@), start as int),
{
    let ghost rv = row_view(row@);
    let style = row[start].1;
    let mut words: Vec<Word> = Vec::new();
    let mut current = new_word();
    let mut j: usize = start;
    proof {
        assert(Seq::new(0, |i: int| rv[start + i].0) =~= Seq::<Seq<char>>::empty());
    }
    while j < row.len()
        invariant
            start <= j <= row@.len(),
            row@.len() <= u32::MAX,
            rv == row_view(row@),
            style == row@[start as int].1,
            forall|k: int| start <= k < j ==> rv[k].1 == style,
            (words_view(words@), word_view(&current)) == scan(Seq::new((j - start) as nat, |i: int| rv[start + i].0)),
        ensures
            j == row@.len() || rv[j as int].1 != style,
        decreases row@.len() - j,
    {
        if !same_style(&row[j].1, &style) {
            break;
        }
        let ghost texts = Seq::new((j - start) as nat, |i: int| rv[start + i].0);
        let ghost next = Seq::new((j + 1 - start) as nat, |i: int| rv[start + i].0);
        proof {
            assert(next.drop_last() =~= texts);
            assert(next.last() == row@[j as int].0@);
        }
        scan_step(&mut words, &mut current, (j - start) as u32, &row[j].0);
        j += 1;
    }
    proof {
        lemma_run_end(rv, style, start as int);
        lemma_run_end_at(rv, style, start as int, j as int);
    }
    let ghost texts = Seq::new((j - start) as nat, |i: int| rv[start + i].0);
    if current.cluster_sizes.len() > 0 {
        let ghost before = words@;
        words.push(current);
        proof {
            assert(words_view(words@) =~= words_view(before).push(word_view(&current)));
        }
    }
    (j, LineFragment { cells: (start as u32)..(j as u32), style, words })
}

/// A run that has the style throughout `[j, e)` and ends at `e` ends where `run_end` says.
proof fn lemma_run_end_at(row: Seq<CellView>, style: Option<Style>, j: int, e: int)
    requires
        0 <= j <= e <= row.len(),
        forall|k: int| j <= k < e ==> row[k].1 == style,
        e == row.len() || row[e].1 != style,
    ensures
        run_end(row, style, j) == e,
    decreases e - j,
{
    if j < e {
        lemma_run_end_at(row, style, j + 1, e);
    }
}

/// The fragments of a whole row.
pub fn line_fragments(row: &Vec<GridCell>) -> (r: Line)
    requires
        row@.len() <= u32::MAX,
    ensures
        fragments_view(r.fragments@) == fragments_from(row_view(row@), 0),
{
    let ghost rv = row_view(row@);
    let mut fragments: Vec<LineFragment> = Vec::new();
    let mut start: usize = 0;
    while start < row.len()
        invariant
            start <= row@.len(),
            row@.len() <= u32::MAX,
            rv == row_view(row@),
            fragments_from(rv, 0) == fragments_view(fragments@) + fragments_from(rv, start as int),
        decreases row@.len() - start,
    {
        let (next, fragment) = build_line_fragment(row, start);
        proof {
            lemma_run_end(rv, rv[start as int].1, start as int);
            assert(rv[start as int].1 == row@[start as int].1);
            assert(fragments_from(rv, start as int) == seq![fragment_at(rv, start as int)] + fragments_from(rv, next as int));
        }
        let ghost before = fragments@;
        fragments.push(fragment);
        proof {
            assert(fragments_view(fragments@) =~= fragments_view(before).push(fragment_view(&fragment)));
            assert(fragments_view(fragments@) + fragments_from(rv, next as int) =~= fragments_view(before) + (seq![
                fragment_at(rv, start as int),
            ] + fragments_from(rv, next as int)));
        }
        start = next;
    }
    proof {
        assert(fragments_from(rv, start as int) =~= Seq::<FragmentView>::empty());
        assert(fragments_view(fragments@) + Seq::<FragmentView>::empty() =~= fragments_view(fragments@));
    }
    Line { fragments }
}


// ---- drawing a grid_line ----

/// The style of a `grid_line` cell: id 0 is the default style, other ids are looked up (an
/// unknown id is the default too), and no id repeats the previous cell's.
pub open spec fn cell_style(id: Option<u64>, styles: Map<u64, Style>, previous: Option<Style>) -> Option<Style> {
    match id {
        Some(i) => if i == 0 {
            None
        } else if styles.contains_key(i) {
            Some(styles[i])
        } else {
            None
        },
        None => previous,
    }
}

/// `row` with the cells from `col` to `col + n` (those inside it) set to `c`.
pub open spec fn put_cells(row: Seq<CellView>, col: int, n: int, c: CellView) -> Seq<CellView> {
    Seq::new(row.len(), |x: int| if col <= x < col + n { c } else { row[x] })
}

/// One `grid_line` cell drawn at column `st.1`: it fills `repeat` cells (one without a
/// repeat), and a repeat of 0 draws nothing and keeps the previous style.
pub open spec fn line_step(st: (Seq<CellView>, int, Option<Style>), cell: GridLineCellView, styles: Map<u64, Style>) -> (Seq<CellView>, int, Option<Style>) {
    let style = cell_style(cell.highlight_id, styles, st.2);
    if cell.repeat == Some(0u64) {
        st
    } else {
        let n: int = match cell.repeat {
            Some(k) => k as int,
            None => 1,
        };
        (put_cells(st.0, st.1, n, (cell.text, style)), st.1 + n, style)
    }
}

/// A row after drawing `cells` from column `col`, with the column and style after the last.
pub open spec fn drawn_line(row: Seq<CellView>, col: int, cells: Seq<GridLineCellView>, styles: Map<u64, Style>) -> (Seq<CellView>, int, Option<Style>)
    decreases cells.len(),
{
    if cells.len() == 0 {
        (row, col, None)
    } else {
        line_step(drawn_line(row, col, cells.drop_last(), styles), cells.last(), styles)
    }
}

/// The style under `id`, if one is defined.
pub fn lookup_style(styles: &std::collections::HashMap<u64, Style>, id: u64) -> (r: Option<Style>)
    ensures
        r == (if styles@.contains_key(id) { Some(styles@[id]) } else { None::<Style> }),
{
    broadcast use vstd::std_specs::hash::group_hash_axioms;
    match styles.get(&id) {
        Some(s) => Some(*s),
        None => None,
    }
}

/// One grid of the editor and where it goes.
#[derive(Debug)]
pub struct Window {
    pub grid_id: u64,
    pub grid: CharacterGrid,
    pub window_type: WindowType,
    pub anchor_info: Option<AnchorInfo>,
    /// Position in grid-1 cells, as last set by a position event.
    pub grid_position: Pos,
    pub hidden: bool,
    /// Rows in the top and bottom margins that do not scroll (winbar, float borders).
    pub viewport_margins: (u64, u64),
}

impl Window {
    pub open spec fn wf(&self) -> bool {
        self.grid.wf()
    }

    pub open spec fn width(&self) -> nat {
        self.grid.spec_width()
    }

    pub open spec fn height(&self) -> nat {
        self.grid.spec_height()
    }

    pub fn new(grid_id: u64, window_type: WindowType, anchor_info: Option<AnchorInfo>, grid_position: Pos, grid_size: (u64, u64)) -> (w: Window)
        ensures
            w.wf(),
            w.grid_id == grid_id,
            w.window_type == window_type,
            w.anchor_info == anchor_info,
            w.grid_position == grid_position,
            !w.hidden,
            w.viewport_margins == (0u64, 0u64),
            w.width() == grid_size.0 as usize,
            w.height() == grid_size.1 as usize,
            w.grid@ == Seq::new(
                (grid_size.1 as usize) as nat,
                |y: int| Seq::new((grid_size.0 as usize) as nat, |x: int| default_cell_view()),
            ),
    {
        Window {
            grid_id,
            grid: CharacterGrid::new((grid_size.0 as usize, grid_size.1 as usize)),
            window_type,
            anchor_info,
            grid_position,
            hidden: false,
            viewport_margins: (0, 0),
        }
    }

    pub fn get_width(&self) -> (w: u64)
        ensures
            w == self.width() as u64,
    {
        self.grid.width() as u64
    }

    pub fn get_height(&self) -> (h: u64)
        ensures
            h == self.height() as u64,
    {
        self.grid.height() as u64
    }

    /// Text, style and double-width flag of a cell, for the cursor: a space with no style
    /// outside the grid; double width when the next cell is the empty right half.
    pub fn get_cursor_grid_cell(&self, left: u64, top: u64) -> (r: (String, Option<Style>, bool))
        requires
            self.wf(),
        ensures
            (r.0@, r.1) == (if (top as usize) < self.height() && (left as usize) < self.width() {
                self.grid@[(top as usize) as int][(left as usize) as int]
            } else {
                default_cell_view()
            }),
            r.2 == ((top as usize) < self.height() && (left as usize) + 1 < self.width()
                && self.grid@[(top as usize) as int][(left as usize) + 1].0.len() == 0),
    {
        let x = left as usize;
        let y = top as usize;
        let (text, style) = match self.grid.get_cell(x, y) {
            Some(c) => (c.0.clone(), c.1),
            None => (space(), None),
        };
        let double_width = if x < self.grid.width() && x + 1 < self.grid.width() {
            match self.grid.get_cell(x + 1, y) {
                Some(c) => c.0.as_str().is_empty(),
                None => false,
            }
        } else {
            false
        };
        (text, style, double_width)
    }

    /// Move the window: resize its grid and set its anchor and position.
    pub fn position(&mut self, anchor_info: Option<AnchorInfo>, grid_size: (u64, u64), grid_position: Pos)
        requires
            old(self).wf(),
        ensures
            final(self).wf(),
            final(self).grid_id == old(self).grid_id,
            final(self).window_type == old(self).window_type,
            final(self).hidden == old(self).hidden,
            final(self).viewport_margins == old(self).viewport_margins,
            final(self).anchor_info == anchor_info,
            final(self).grid_position == grid_position,
            final(self).width() == grid_size.0 as usize,
            final(self).height() == grid_size.1 as usize,
            final(self).grid@ == resized(old(self).grid@, (grid_size.0 as usize) as int, (grid_size.1 as usize) as int),
    {
        self.grid.resize((grid_size.0 as usize, grid_size.1 as usize));
        self.anchor_info = anchor_info;
        self.grid_position = grid_position;
    }

    pub fn resize(&mut self, new_size: (u64, u64))
        requires
            old(self).wf(),
        ensures
            final(self).wf(),
            final(self).grid_id == old(self).grid_id,
            final(self).window_type == old(self).window_type,
            final(self).hidden == old(self).hidden,
            final(self).viewport_margins == old(self).viewport_margins,
            final(self).anchor_info == old(self).anchor_info,
            final(self).grid_position == old(self).grid_position,
            final(self).width() == new_size.0 as usize,
            final(self).height() == new_size.1 as usize,
            final(self).grid@ == resized(old(self).grid@, (new_size.0 as usize) as int, (new_size.1 as usize) as int),
    {
        self.grid.resize((new_size.0 as usize, new_size.1 as usize));
    }

    /// Draw the cells of a `grid_line` into row `row` from `column_start`. A row outside the
    /// grid draws nothing; cells past the right edge are dropped.
    pub fn draw_grid_line(&mut self, row: u64, column_start: u64, cells: Vec<GridLineCell>, styles: &std::collections::HashMap<u64, Style>)
        requires
            old(self).wf(),
        ensures
            final(self).wf(),
            final(self).grid_id == old(self).grid_id,
            final(self).window_type == old(self).window_type,
            final(self).hidden == old(self).hidden,
            final(self).viewport_margins == old(self).viewport_margins,
            final(self).anchor_info == old(self).anchor_info,
            final(self).grid_position == old(self).grid_position,
            final(self).width() == old(self).width(),
            final(self).height() == old(self).height(),
            final(self).grid@ == if (row as usize) < old(self).height() {
                old(self).grid@.update(
                    (row as usize) as int,
                    drawn_line(old(self).grid@[(row as usize) as int], (column_start as usize) as int, cells_view(cells@), styles@).0,
                )
            } else {
                old(self).grid@
            },
    {
        let y = row as usize;
        if y >= self.grid.height() {
            return;
        }
        proof {
            self.grid.lemma_shape();
        }
        let ghost g0 = self.grid@;
        let ghost cv = cells_view(cells@);
        let ghost w = self.width() as int;
        let w_exec = self.grid.width();
        let mut column: usize = if (column_start as usize) < w_exec { column_start as usize } else { w_exec };
        let mut previous: Option<Style> = None;
        proof {
            assert(cv.take(0) =~= Seq::<GridLineCellView>::empty());
        }
        for cell in it: cells
            invariant
                self.wf(),
                self.grid_id == old(self).grid_id,
                self.window_type == old(self).window_type,
                self.hidden == old(self).hidden,
                self.viewport_margins == old(self).viewport_margins,
                self.anchor_info == old(self).anchor_info,
                self.grid_position == old(self).grid_position,
                self.width() == old(self).width(),
                self.height() == old(self).height(),
                w == self.width(),
                w_exec == w,
                g0 == old(self).grid@,
                g0.len() == self.height(),
                forall|k: int| 0 <= k < g0.len() ==> #[trigger] g0[k].len() == w,
                y < self.height(),
                cells_view(it.seq()) == cv,
                column <= w,
                ({
                    let st = drawn_line(g0[y as int], (column_start as usize) as int, cv.take(it.index() as int), styles@);
                    &&& self.grid@ == g0.update(y as int, st.0)
                    &&& previous == st.2
                    &&& column as int == if st.1 < w { st.1 } else { w }
                    &&& st.1 >= 0
                }),
        {
            let ghost i = it.index() as int;
            let ghost st = drawn_line(g0[y as int], (column_start as usize) as int, cv.take(i), styles@);
            proof {
                assert(cv.take(i + 1).drop_last() =~= cv.take(i));
                assert(cv[i] == cell@);
                self.grid.lemma_shape();
            }
            let style = match cell.highlight_id {
                Some(id) => if id == 0 {
                    None
                } else {
                    lookup_style(styles, id)
                },
                None => previous,
            };
            let n: u64 = match cell.repeat {
                Some(k) => k,
                None => 1,
            };
            proof {
                assert(self.grid@[y as int] == st.0);
            }
            if n != 0 {
                let ghost row0 = self.grid@[y as int];
                proof {
                    assert(Seq::new(row0.len(), |c: int| if column <= c < column { (cell.text@, style) } else { row0[c] }) =~= row0);
                    assert(g0.update(y as int, row0) =~= self.grid@);
                }
                let end: usize = if (n as u128) < (w_exec - column) as u128 { column + n as usize } else { w_exec };
                let mut x: usize = column;
                while x < end
                    invariant
                        self.wf(),
                        self.grid_id == old(self).grid_id,
                        self.window_type == old(self).window_type,
                        self.hidden == old(self).hidden,
                        self.viewport_margins == old(self).viewport_margins,
                        self.anchor_info == old(self).anchor_info,
                        self.grid_position == old(self).grid_position,
                        self.width() == old(self).width(),
                        self.height() == old(self).height(),
                        w == self.width(),
                        y < self.height(),
                        g0.len() == self.height(),
                        column <= x <= end <= w,
                        self.grid@ == g0.update(y as int, Seq::new(row0.len(), |c: int| if column <= c < x { (cell.text@, style) } else { row0[c] })),
                        row0.len() == w,
                    decreases end - x,
                {
                    let ghost before = self.grid@;
                    proof {
                        self.grid.lemma_shape();
                    }
                    let t = cell.text.clone();
                    let _ = self.grid.set_cell(x, y, (t, style));
                    proof {
                        let newrow = Seq::new(row0.len(), |c: int| if column <= c < x + 1 { (cell.text@, style) } else { row0[c] });
                        assert(before[y as int].update(x as int, (cell.text@, style)) =~= newrow);
                        assert(self.grid@ =~= g0.update(y as int, newrow));
                    }
                    x += 1;
                }
                proof {
                    let target = put_cells(row0, st.1, n as int, (cell.text@, style));
                    assert(Seq::new(row0.len(), |c: int| if column <= c < x { (cell.text@, style) } else { row0[c] }) =~= target);
                }
                column = end;
                previous = style;
            }
        }
        proof {
            assert(cv.take(cv.len() as int) =~= cv);
        }
    }

    pub fn scroll_region(&mut self, top: u64, bottom: u64, left: u64, right: u64, rows: i64, cols: i64) -> (full: bool)
        requires
            old(self).wf(),
            top <= isize::MAX,
            bottom <= isize::MAX,
            left <= isize::MAX,
            right <= isize::MAX,
            isize::MIN <= top + rows <= isize::MAX,
            isize::MIN <= bottom + rows <= isize::MAX,
            isize::MIN <= left + cols <= isize::MAX,
            isize::MIN <= right + cols <= isize::MAX,
            isize::MIN < rows <= isize::MAX,
            isize::MIN <= cols <= isize::MAX,
        ensures
            final(self).wf(),
            final(self).grid_id == old(self).grid_id,
            final(self).window_type == old(self).window_type,
            final(self).hidden == old(self).hidden,
            final(self).viewport_margins == old(self).viewport_margins,
            final(self).anchor_info == old(self).anchor_info,
            final(self).grid_position == old(self).grid_position,
            final(self).width() == old(self).width(),
            final(self).height() == old(self).height(),
            full == is_full_scroll(top as int, bottom as int, left as int, right as int, cols as int, old(self).width() as int, old(self).height() as int),
            full ==> final(self).grid@ == rotated(old(self).grid@, rotation(rows as int, old(self).height() as int)),
            !full ==> final(self).grid@ == region_scrolled(
                old(self).grid@,
                top as int,
                bottom as int,
                left as int,
                right as int,
                rows as int,
                cols as int,
                old(self).width() as int,
                old(self).height() as int,
            ),
    {
        self.grid.scroll_region(top as usize, bottom as usize, left as usize, right as usize, rows as isize, cols as isize)
    }

    pub fn clear(&mut self)
        requires
            old(self).wf(),
        ensures
            final(self).wf(),
            final(self).grid_id == old(self).grid_id,
            final(self).window_type == old(self).window_type,
            final(self).hidden == old(self).hidden,
            final(self).viewport_margins == old(self).viewport_margins,
            final(self).anchor_info == old(self).anchor_info,
            final(self).grid_position == old(self).grid_position,
            final(self).width() == old(self).width(),
            final(self).height() == old(self).height(),
            final(self).grid@ == Seq::new(old(self).height(), |y: int| Seq::new(old(self).width(), |x: int| default_cell_view())),
    {
        self.grid.clear();
    }

    /// The fragments of row `row_index`; no fragments outside the grid.
    pub fn snapshot_line(&self, row_index: usize) -> (l: Line)
        requires
            self.wf(),
            self.width() <= u32::MAX,
        ensures
            fragments_view(l.fragments@) == if row_index < self.height() {
                fragments_from(self.grid@[row_index as int], 0)
            } else {
                Seq::empty()
            },
    {
        match self.grid.row(row_index) {
            Some(row) => line_fragments(row),
            None => {
                let l = Line { fragments: Vec::new() };
                proof {
                    assert(fragments_view(l.fragments@) =~= Seq::<FragmentView>::empty());
                }
                l
            },
        }
    }

    /// The fragments of every row, top to bottom.
    pub fn snapshot_lines(&self) -> (ls: Vec<Line>)
        requires
            self.wf(),
            self.width() <= u32::MAX,
        ensures
            lines_view(ls@) == Seq::new(self.height(), |y: int| fragments_from(self.grid@[y], 0)),
    {
        let mut ls: Vec<Line> = Vec::new();
        let mut y: usize = 0;
        while y < self.grid.height()
            invariant
                self.wf(),
                self.width() <= u32::MAX,
                y <= self.height(),
                lines_view(ls@) == Seq::new(y as nat, |k: int| fragments_from(self.grid@[k], 0)),
            decreases self.height() - y,
        {
            let l = self.snapshot_line(y);
            let ghost before = ls@;
            ls.push(l);
            proof {
                assert(lines_view(ls@) =~= lines_view(before).push(fragments_view(l.fragments@)));
                assert(lines_view(ls@) =~= Seq::new((y + 1) as nat, |k: int| fragments_from(self.grid@[k], 0)));
            }
            y += 1;
        }
        ls
    }
}


/// A window as values.
pub struct WindowView {
    pub grid_id: u64,
    pub cells: Seq<Seq<CellView>>,
    pub width: nat,
    pub height: nat,
    pub window_type: WindowType,
    pub anchor_info: Option<AnchorInfo>,
    pub grid_position: Pos,
    pub hidden: bool,
    pub viewport_margins: (u64, u64),
}

impl View for Window {
    type V = WindowView;

    open spec fn view(&self) -> WindowView {
        WindowView {
            grid_id: self.grid_id,
            cells: self.grid@,
            width: self.width(),
            height: self.height(),
            window_type: self.window_type,
            anchor_info: self.anchor_info,
            grid_position: self.grid_position,
            hidden: self.hidden,
            viewport_margins: self.viewport_margins,
        }
    }
}

/// A fresh `width` x `height` window of empty cells, shown.
pub open spec fn new_window_view(grid_id: u64, window_type: WindowType, anchor_info: Option<AnchorInfo>, grid_position: Pos, width: u64, height: u64) -> WindowView {
    WindowView {
        grid_id,
        cells: Seq::new((height as usize) as nat, |y: int| Seq::new((width as usize) as nat, |x: int| default_cell_view())),
        width: (width as usize) as nat,
        height: (height as usize) as nat,
        window_type,
        anchor_info,
        grid_position,
        hidden: false,
        viewport_margins: (0, 0),
    }
}

/// Resizing to the size a grid already has keeps every cell.
pub proof fn lemma_resized_same(cells: Seq<Seq<CellView>>, w: int, h: int)
    requires
        shaped(cells, w, h),
    ensures
        resized(cells, w, h) == cells,
{
    assert forall|y: int| 0 <= y < h implies #[trigger] resized(cells, w, h)[y] =~= cells[y] by {
        assert(cells[y].len() == w);
    }
    assert(resized(cells, w, h) =~= cells);
}


/// A size read as `u64` and back is the same size.
pub proof fn lemma_size_round_trip(n: usize)
    ensures
        (n as u64) as usize == n,
{
    assert((n as u64) as usize == n) by (bit_vector);
}

} // verus!
