//! The Source control view: staged and unstaged changes, stage/unstage, commit.

use vstd::prelude::*;

use crate::ui::widgets::{ListState, TextState};
use crate::workbench::tasks::GitStatus;

verus! {

pub struct GitView {
    pub status: GitStatus,
    pub message: TextState,
    pub list: ListState,
    pub editing: bool,
    pub busy: bool,
    pub last_error: Option<String>,
    pub loaded: bool,
}

#[derive(Debug)]
pub enum GitRow {
    Header(&'static str, usize),
    Staged(usize),
    Unstaged(usize),
}

pub enum GitRowView {
    Header(Seq<char>, int),
    Staged(int),
    Unstaged(int),
}

pub open spec fn git_rows_view(rows: Seq<GitRow>) -> Seq<GitRowView> {
    Seq::new(
        rows.len(),
        |i: int|
            match rows[i] {
                GitRow::Header(t, n) => GitRowView::Header(t@, n as int),
                GitRow::Staged(k) => GitRowView::Staged(k as int),
                GitRow::Unstaged(k) => GitRowView::Unstaged(k as int),
            },
    )
}

/// A "Staged" header with the count, each staged change, a "Changes" header with the count,
/// each unstaged change.
pub open spec fn spec_git_rows(staged: int, unstaged: int) -> Seq<GitRowView> {
    seq![GitRowView::Header("Staged"@, staged)] + Seq::new(staged as nat, |i: int| GitRowView::Staged(i)) + seq![
        GitRowView::Header("Changes"@, unstaged),
    ] + Seq::new(unstaged as nat, |i: int| GitRowView::Unstaged(i))
}

impl GitView {
    pub fn new() -> (v: GitView)
        ensures
            v.status.branch@ == Seq::<char>::empty(),
            v.status.staged@.len() == 0,
            v.status.unstaged@.len() == 0,
            v.status.error is None,
            v.message.text@ == Seq::<char>::empty(),
            v.message.cursor == 0,
            v.list == (ListState { selected: 0, scroll: 0, pending_g: false }),
            !v.editing,
            !v.busy,
            v.last_error is None,
            !v.loaded,
    {
        GitView {
            status: GitStatus::new(),
            message: TextState::new(),
            list: ListState::new(),
            editing: false,
            busy: false,
            last_error: None,
            loaded: false,
        }
    }

    pub fn rows(&self) -> (rows: Vec<GitRow>)
        ensures
            git_rows_view(rows@) == spec_git_rows(self.status.staged@.len() as int, self.status.unstaged@.len() as int),
    {
        let s = self.status.staged.len();
        let u = self.status.unstaged.len();
        let mut rows: Vec<GitRow> = Vec::new();
        rows.push(GitRow::Header("Staged", s));
        let mut i: usize = 0;
        while i < s
            invariant
                i <= s,
                git_rows_view(rows@) == seq![GitRowView::Header("Staged"@, s as int)] + Seq::new(i as nat, |k: int| GitRowView::Staged(k)),
            decreases s - i,
        {
            let ghost before = rows@;
            rows.push(GitRow::Staged(i));
            proof {
                assert(git_rows_view(rows@) =~= git_rows_view(before).push(GitRowView::Staged(i as int)));
                assert(git_rows_view(rows@) =~= seq![GitRowView::Header("Staged"@, s as int)] + Seq::new((i + 1) as nat, |k: int| GitRowView::Staged(k)));
            }
            i += 1;
        }
        let ghost mid = rows@;
        rows.push(GitRow::Header("Changes", u));
        proof {
            assert(git_rows_view(rows@) =~= git_rows_view(mid).push(GitRowView::Header("Changes"@, u as int)));
        }
        let ghost base = git_rows_view(rows@);
        let mut j: usize = 0;
        while j < u
            invariant
                j <= u,
                git_rows_view(rows@) == base + Seq::new(j as nat, |k: int| GitRowView::Unstaged(k)),
            decreases u - j,
        {
            let ghost before = rows@;
            rows.push(GitRow::Unstaged(j));
            proof {
                assert(git_rows_view(rows@) =~= git_rows_view(before).push(GitRowView::Unstaged(j as int)));
                assert(git_rows_view(rows@) =~= base + Seq::new((j + 1) as nat, |k: int| GitRowView::Unstaged(k)));
            }
            j += 1;
        }
        proof {
            assert(git_rows_view(rows@) =~= spec_git_rows(s as int, u as int));
        }
        rows
    }
}

} // verus!
