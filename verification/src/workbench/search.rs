//! The Search view: a query box over ripgrep, results grouped by file.

use vstd::prelude::*;

use crate::ui::widgets::{ListState, TextState};
use crate::workbench::tasks::SearchHit;

verus! {

pub struct SearchView {
    pub query: TextState,
    pub list: ListState,
    pub hits: Vec<SearchHit>,
    pub error: Option<String>,
    /// Generation of the last request; stale results are dropped.
    pub generation: u64,
    pub searching: bool,
    /// True while the query box has the keyboard.
    pub editing: bool,
}

#[derive(Debug)]
pub enum SearchRow {
    File(String),
    Hit(usize),
}

pub enum SearchRowView {
    File(Seq<char>),
    Hit(int),
}

pub open spec fn search_rows_view(rows: Seq<SearchRow>) -> Seq<SearchRowView> {
    Seq::new(
        rows.len(),
        |i: int|
            match rows[i] {
                SearchRow::File(f) => SearchRowView::File(f@),
                SearchRow::Hit(h) => SearchRowView::Hit(h as int),
            },
    )
}

/// Does hit `i` start a new file (the first hit, or a different file than the hit before)?
pub open spec fn starts_file(files: Seq<Seq<char>>, i: int) -> bool {
    i == 0 || files[i] != files[i - 1]
}

/// The rows for the first `n` hits: a header before each run of hits in one file, then the
/// hits by index.
pub open spec fn spec_rows(files: Seq<Seq<char>>, n: int) -> Seq<SearchRowView>
    decreases n,
{
    if n <= 0 {
        Seq::empty()
    } else {
        let before = spec_rows(files, n - 1);
        let with_header = if starts_file(files, n - 1) { before.push(SearchRowView::File(files[n - 1])) } else { before };
        with_header.push(SearchRowView::Hit(n - 1))
    }
}

/// How many runs of hits in one file there are among the first `n` hits.
pub open spec fn spec_file_count(files: Seq<Seq<char>>, n: int) -> nat
    decreases n,
{
    if n <= 0 {
        0
    } else {
        spec_file_count(files, n - 1) + if starts_file(files, n - 1) { 1nat } else { 0nat }
    }
}

pub open spec fn hit_files(hits: Seq<SearchHit>) -> Seq<Seq<char>> {
    Seq::new(hits.len(), |i: int| hits[i].file@)
}

impl SearchView {
    pub fn new() -> (v: SearchView)
        ensures
            v.query.text@ == Seq::<char>::empty(),
            v.query.cursor == 0,
            v.list == (ListState { selected: 0, scroll: 0, pending_g: false }),
            v.hits@.len() == 0,
            v.error is None,
            v.generation == 0,
            !v.searching,
            !v.editing,
    {
        SearchView {
            query: TextState::new(),
            list: ListState::new(),
            hits: Vec::new(),
            error: None,
            generation: 0,
            searching: false,
            editing: false,
        }
    }

    /// Rows to draw: a header per file, then its hits.
    pub fn rows(&self) -> (rows: Vec<SearchRow>)
        ensures
            search_rows_view(rows@) == spec_rows(hit_files(self.hits@), self.hits@.len() as int),
    {
        let ghost files = hit_files(self.hits@);
        let mut rows: Vec<SearchRow> = Vec::new();
        let mut i: usize = 0;
        while i < self.hits.len()
            invariant
                i <= self.hits@.len(),
                files == hit_files(self.hits@),
                search_rows_view(rows@) == spec_rows(files, i as int),
            decreases self.hits@.len() - i,
        {
            let new_file = i == 0 || !crate::text::str_eq(self.hits[i].file.as_str(), self.hits[i - 1].file.as_str());
            let ghost before = rows@;
            if new_file {
                rows.push(SearchRow::File(self.hits[i].file.clone()));
                proof {
                    assert(search_rows_view(rows@) =~= search_rows_view(before).push(SearchRowView::File(files[i as int])));
                }
            }
            let ghost mid = rows@;
            rows.push(SearchRow::Hit(i));
            proof {
                assert(search_rows_view(rows@) =~= search_rows_view(mid).push(SearchRowView::Hit(i as int)));
                if !new_file {
                    assert(mid == before);
                }
            }
            i += 1;
        }
        rows
    }

    /// How many files the hits are in (runs of hits in one file).
    pub fn file_count(&self) -> (n: usize)
        ensures
            n == spec_file_count(hit_files(self.hits@), self.hits@.len() as int),
    {
        let ghost files = hit_files(self.hits@);
        let mut n: usize = 0;
        let mut i: usize = 0;
        while i < self.hits.len()
            invariant
                i <= self.hits@.len(),
                files == hit_files(self.hits@),
                n == spec_file_count(files, i as int),
                n <= i,
            decreases self.hits@.len() - i,
        {
            if i == 0 || !crate::text::str_eq(self.hits[i].file.as_str(), self.hits[i - 1].file.as_str()) {
                n += 1;
            }
            i += 1;
        }
        n
    }
}

/// All hits of one file stand together (as ripgrep reports them).
pub open spec fn grouped(files: Seq<Seq<char>>) -> bool {
    forall|i: int, j: int, k: int|
        0 <= i < j < k < files.len() && #[trigger] files[i] == #[trigger] files[k] ==> #[trigger] files[j] == files[i]
}

proof fn lemma_file_count_distinct(files: Seq<Seq<char>>, n: int)
    requires
        grouped(files),
        0 <= n <= files.len(),
    ensures
        spec_file_count(files, n) == files.take(n).to_set().len(),
    decreases n,
{
    broadcast use vstd::seq_lib::seq_to_set_is_finite, vstd::set::axiom_set_insert_len;
    if n == 0 {
        assert(files.take(0).to_set() =~= Set::<Seq<char>>::empty());
    } else {
        lemma_file_count_distinct(files, n - 1);
        let s0 = files.take(n - 1).to_set();
        let s1 = files.take(n).to_set();
        let x = files[n - 1];
        assert(s1 =~= s0.insert(x)) by {
            assert forall|y: Seq<char>| s1.contains(y) <==> s0.insert(x).contains(y) by {
                if s1.contains(y) {
                    let j = choose|j: int| 0 <= j < n && #[trigger] files.take(n)[j] == y;
                    if j < n - 1 {
                        assert(files.take(n - 1)[j] == y);
                    }
                }
                if s0.contains(y) {
                    let j = choose|j: int| 0 <= j < n - 1 && #[trigger] files.take(n - 1)[j] == y;
                    assert(files.take(n)[j] == y);
                }
                if y == x {
                    assert(files.take(n)[n - 1] == y);
                }
            }
        }
        if starts_file(files, n - 1) {
            assert(!s0.contains(x)) by {
                if s0.contains(x) {
                    let j = choose|j: int| 0 <= j < n - 1 && #[trigger] files.take(n - 1)[j] == x;
                    assert(files[j] == x);
                    if j < n - 2 {
                        assert(files[n - 2] == files[j]);
                    }
                }
            }
        } else {
            assert(files.take(n - 1)[n - 2] == x);
            assert(s0.contains(x));
            assert(s0.insert(x) =~= s0);
        }
    }
}

/// When the hits of each file stand together, the file count is the number of different files
/// among the hits.
pub proof fn law_file_count_is_distinct_files(hits: Seq<SearchHit>)
    requires
        grouped(hit_files(hits)),
    ensures
        spec_file_count(hit_files(hits), hits.len() as int) == hit_files(hits).to_set().len(),
{
    let files = hit_files(hits);
    lemma_file_count_distinct(files, files.len() as int);
    assert(files.take(files.len() as int) =~= files);
}

} // verus!
