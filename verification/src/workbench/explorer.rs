//! The file tree of the sidebar.
//!
//! The tree does not read the disk itself: what a folder holds comes in as a [`Listing`] (the
//! names in it, and which are folders), read by the caller. A folder that has no listing reads
//! as empty, as one that cannot be read does.

use vstd::prelude::*;

use crate::text::{chars_of, str_eq};
use crate::ui::widgets::ListState;
use crate::workbench::join_path;
use crate::workbench::plugins::{less_text, strings_view, text_less};
use crate::workbench::tasks::{lowercase, spec_lowercase};

verus! {

/// One name in a folder.
pub struct Entry {
    pub name: String,
    pub is_dir: bool,
}

/// What the folder `dir` holds.
pub struct Listing {
    pub dir: String,
    pub entries: Vec<Entry>,
}

/// An entry as text and kind.
pub type EntryView = (Seq<char>, bool);

pub open spec fn entry_view(e: Entry) -> EntryView {
    (e.name@, e.is_dir)
}

pub open spec fn entries_view(es: Seq<Entry>) -> Seq<EntryView> {
    Seq::new(es.len(), |j: int| entry_view(es[j]))
}

/// The entries of the first listing of `dir`; none when there is no such listing.
pub open spec fn listing_for(ls: Seq<Listing>, dir: Seq<char>) -> Seq<EntryView> {
    listing_from(ls, dir, 0)
}

pub open spec fn listing_from(ls: Seq<Listing>, dir: Seq<char>, k: int) -> Seq<EntryView>
    decreases ls.len() - k,
{
    if k < 0 || k >= ls.len() {
        Seq::empty()
    } else if ls[k].dir@ == dir {
        entries_view(ls[k].entries@)
    } else {
        listing_from(ls, dir, k + 1)
    }
}

/// The entries of one kind (folders or files) that are not hidden, in listing order.
pub open spec fn kept(hidden: Seq<Seq<char>>, es: Seq<EntryView>, dirs: bool) -> Seq<EntryView>
    decreases es.len(),
{
    if es.len() == 0 {
        Seq::empty()
    } else {
        let rest = kept(hidden, es.drop_last(), dirs);
        let e = es.last();
        if e.1 == dirs && !hidden.contains(e.0) {
            rest.push(e)
        } else {
            rest
        }
    }
}

/// The key a folder's entries are ordered by: the name in lower case.
pub open spec fn name_key(e: EntryView) -> Seq<char> {
    spec_lowercase(e.0)
}

/// `e` put after every entry whose key is not greater (a stable insertion).
pub open spec fn insert_entry(s: Seq<EntryView>, e: EntryView) -> Seq<EntryView>
    decreases s.len(),
{
    if s.len() == 0 {
        seq![e]
    } else if !text_less(name_key(e), name_key(s.last())) {
        s.push(e)
    } else {
        insert_entry(s.drop_last(), e).push(s.last())
    }
}

/// `s` ordered by key, stably.
pub open spec fn sort_entries(s: Seq<EntryView>) -> Seq<EntryView>
    decreases s.len(),
{
    if s.len() == 0 {
        Seq::empty()
    } else {
        insert_entry(sort_entries(s.drop_last()), s.last())
    }
}

/// What a folder shows: its folders, then its files, each ordered by lower-case name, without
/// the hidden names.
pub open spec fn tree_entries(hidden: Seq<Seq<char>>, es: Seq<EntryView>) -> Seq<EntryView> {
    sort_entries(kept(hidden, es, true)) + sort_entries(kept(hidden, es, false))
}

/// The names hidden until the settings say otherwise.
pub open spec fn default_hidden_view() -> Seq<Seq<char>> {
    seq![".git"@, "node_modules"@, "target"@, "__pycache__"@, ".DS_Store"@]
}

pub fn default_hidden() -> (v: Vec<String>)
    ensures
        strings_view(v@) == default_hidden_view(),
{
    let v = vec![
        ".git".to_string(),
        "node_modules".to_string(),
        "target".to_string(),
        "__pycache__".to_string(),
        ".DS_Store".to_string(),
    ];
    proof {
        assert(strings_view(v@) =~= default_hidden_view());
    }
    v
}

/// Is `name` one of the hidden names?
fn is_hidden(hidden: &Vec<String>, name: &str) -> (r: bool)
    ensures
        r == strings_view(hidden@).contains(name@),
{
    let mut i: usize = 0;
    while i < hidden.len()
        invariant
            i <= hidden@.len(),
            forall|j: int| 0 <= j < i ==> hidden@[j]@ != name@,
        decreases hidden@.len() - i,
    {
        if str_eq(hidden[i].as_str(), name) {
            proof {
                assert(strings_view(hidden@)[i as int] == name@);
            }
            return true;
        }
        i += 1;
    }
    proof {
        if strings_view(hidden@).contains(name@) {
            let j = choose|j: int| 0 <= j < strings_view(hidden@).len() && strings_view(hidden@)[j] == name@;
            assert(hidden@[j]@ == name@);
        }
    }
    false
}

fn same_names(a: &Vec<String>, b: &Vec<String>) -> (r: bool)
    ensures
        r == (strings_view(a@) == strings_view(b@)),
{
    if a.len() != b.len() {
        proof {
            assert(strings_view(a@).len() != strings_view(b@).len());
        }
        return false;
    }
    let mut i: usize = 0;
    while i < b.len()
        invariant
            a@.len() == b@.len(),
            i <= b@.len(),
            forall|j: int| 0 <= j < i ==> a@[j]@ == b@[j]@,
        decreases b@.len() - i,
    {
        if !str_eq(a[i].as_str(), b[i].as_str()) {
            proof {
                assert(strings_view(a@)[i as int] != strings_view(b@)[i as int]);
            }
            return false;
        }
        i += 1;
    }
    proof {
        assert(strings_view(a@) =~= strings_view(b@));
    }
    true
}

/// The hidden names after they are set to `names`, and whether they changed.
pub open spec fn spec_set_hidden(hidden: Seq<Seq<char>>, names: Seq<Seq<char>>) -> (Seq<Seq<char>>, bool) {
    (names, hidden != names)
}

/// Replace the hidden names; true when they changed (the tree then needs a refresh).
pub fn set_hidden(hidden: &mut Vec<String>, names: Vec<String>) -> (changed: bool)
    ensures
        (strings_view(final(hidden)@), changed) == spec_set_hidden(strings_view(old(hidden)@), strings_view(names@)),
{
    if same_names(hidden, &names) {
        return false;
    }
    *hidden = names;
    true
}


/// Where `dir`'s listing stands among `listings`.
fn find_listing(listings: &Vec<Listing>, dir: &str) -> (r: Option<usize>)
    ensures
        match r {
            Some(k) => k < listings@.len() && listing_for(listings@, dir@) == entries_view(listings@[k as int].entries@),
            None => listing_for(listings@, dir@) == Seq::<EntryView>::empty(),
        },
{
    let mut i: usize = 0;
    while i < listings.len()
        invariant
            i <= listings@.len(),
            listing_for(listings@, dir@) == listing_from(listings@, dir@, i as int),
        decreases listings@.len() - i,
    {
        if str_eq(listings[i].dir.as_str(), dir) {
            return Some(i);
        }
        i += 1;
    }
    None
}

fn copy_entry(e: &Entry) -> (c: Entry)
    ensures
        entry_view(c) == entry_view(*e),
{
    Entry { name: e.name.clone(), is_dir: e.is_dir }
}

/// The entries of one kind that are not hidden, in order.
fn kept_entries(hidden: &Vec<String>, es: &Vec<Entry>, dirs: bool) -> (r: Vec<Entry>)
    ensures
        entries_view(r@) == kept(strings_view(hidden@), entries_view(es@), dirs),
{
    let ghost hv = strings_view(hidden@);
    let ghost ev = entries_view(es@);
    let mut r: Vec<Entry> = Vec::new();
    let mut i: usize = 0;
    proof {
        assert(ev.take(0) =~= Seq::<EntryView>::empty());
        assert(entries_view(r@) =~= Seq::<EntryView>::empty());
    }
    while i < es.len()
        invariant
            i <= es@.len(),
            hv == strings_view(hidden@),
            ev == entries_view(es@),
            entries_view(r@) == kept(hv, ev.take(i as int), dirs),
        decreases es@.len() - i,
    {
        let ghost before = r@;
        proof {
            assert(ev.take(i + 1).drop_last() =~= ev.take(i as int));
            assert(ev.take(i + 1).last() == entry_view(es@[i as int]));
        }
        if es[i].is_dir == dirs && !is_hidden(hidden, es[i].name.as_str()) {
            r.push(copy_entry(&es[i]));
            proof {
                assert(entries_view(r@) =~= entries_view(before).push(entry_view(es@[i as int])));
            }
        }
        i += 1;
    }
    proof {
        assert(ev.take(es@.len() as int) =~= ev);
    }
    r
}

/// Does `a` sort before `b` (by lower-case name)?
fn key_less(a: &Entry, b: &Entry) -> (r: bool)
    ensures
        r == text_less(name_key(entry_view(*a)), name_key(entry_view(*b))),
{
    let ka = chars_of(lowercase(a.name.as_str()).as_str());
    let kb = chars_of(lowercase(b.name.as_str()).as_str());
    less_text(&ka, &kb)
}

fn insert_by_name(s: &mut Vec<Entry>, e: Entry)
    ensures
        entries_view(final(s)@) == insert_entry(entries_view(old(s)@), entry_view(e)),
    decreases old(s)@.len(),
{
    let ghost sv = entries_view(s@);
    if s.len() == 0 {
        s.push(e);
        proof {
            assert(entries_view(s@) =~= seq![entry_view(e)]);
        }
        return;
    }
    let n = s.len();
    proof {
        assert(sv.last() == entry_view(s@[n - 1]));
    }
    if !key_less(&e, &s[n - 1]) {
        let ghost ev = entry_view(e);
        s.push(e);
        proof {
            assert(entries_view(s@) =~= sv.push(ev));
        }
        return;
    }
    let popped = s.pop().unwrap();
    proof {
        assert(entries_view(s@) =~= sv.drop_last());
    }
    let ghost pv = entry_view(popped);
    let ghost mid = entries_view(s@);
    insert_by_name(s, e);
    let ghost inserted = entries_view(s@);
    s.push(popped);
    proof {
        assert(entries_view(s@) =~= inserted.push(pv));
    }
}

/// `v` ordered by lower-case name, stably.
fn sort_by_name(v: &Vec<Entry>) -> (r: Vec<Entry>)
    ensures
        entries_view(r@) == sort_entries(entries_view(v@)),
{
    let ghost ev = entries_view(v@);
    let mut r: Vec<Entry> = Vec::new();
    let mut i: usize = 0;
    proof {
        assert(ev.take(0) =~= Seq::<EntryView>::empty());
        assert(entries_view(r@) =~= Seq::<EntryView>::empty());
    }
    while i < v.len()
        invariant
            i <= v@.len(),
            ev == entries_view(v@),
            entries_view(r@) == sort_entries(ev.take(i as int)),
        decreases v@.len() - i,
    {
        proof {
            assert(ev.take(i + 1).drop_last() =~= ev.take(i as int));
            assert(ev.take(i + 1).last() == entry_view(v@[i as int]));
        }
        insert_by_name(&mut r, copy_entry(&v[i]));
        i += 1;
    }
    proof {
        assert(ev.take(v@.len() as int) =~= ev);
    }
    r
}

/// What a folder shows of `es`, in the order it shows it.
fn shown_entries(hidden: &Vec<String>, es: &Vec<Entry>) -> (r: Vec<Entry>)
    ensures
        entries_view(r@) == tree_entries(strings_view(hidden@), entries_view(es@)),
{
    let mut dirs = sort_by_name(&kept_entries(hidden, es, true));
    let files = sort_by_name(&kept_entries(hidden, es, false));
    let ghost dv = entries_view(dirs@);
    let ghost fv = entries_view(files@);
    let mut i: usize = 0;
    while i < files.len()
        invariant
            i <= files@.len(),
            fv == entries_view(files@),
            entries_view(dirs@) == dv + fv.take(i as int),
        decreases files@.len() - i,
    {
        let ghost before = entries_view(dirs@);
        dirs.push(copy_entry(&files[i]));
        proof {
            assert(entries_view(dirs@) =~= before.push(fv[i as int]));
            assert(fv.take(i + 1) =~= fv.take(i as int).push(fv[i as int]));
        }
        i += 1;
    }
    proof {
        assert(fv.take(files@.len() as int) =~= fv);
    }
    dirs
}


/// One row of the tree: a file or a folder, with the folder's entries once it has been read.
pub struct Node {
    pub path: String,
    pub name: String,
    pub is_dir: bool,
    pub depth: usize,
    pub expanded: bool,
    pub loaded: bool,
    pub children: Vec<Node>,
}

/// One level deeper (the depth stops at the largest `usize`).
pub open spec fn deeper(d: usize) -> usize {
    if d < usize::MAX {
        (d + 1) as usize
    } else {
        d
    }
}

/// The first expanded node among `info[k..]` at `path`.
pub open spec fn expanded_from(info: Seq<Node>, path: Seq<char>, k: int) -> Option<int>
    decreases info.len() - k,
{
    if k < 0 || k >= info.len() {
        None
    } else if info[k].expanded && info[k].path@ == path {
        Some(k)
    } else {
        expanded_from(info, path, k + 1)
    }
}

/// A node as it is first read: closed, with nothing read under it.
pub open spec fn fresh(c: Node) -> bool {
    !c.expanded && !c.loaded && c.children@.len() == 0
}

/// The entries of `n` are what its listing shows, one node for each, in order. A node whose
/// path was expanded among `info` (the entries before the folder was read again) is expanded
/// again, and a folder among them that had been read is read again in the same way, below it.
pub open spec fn children_ok(info: Seq<Node>, n: Node, hidden: Seq<Seq<char>>, ls: Seq<Listing>) -> bool
    decreases info,
{
    let es = tree_entries(hidden, listing_for(ls, n.path@));
    &&& n.children@.len() == es.len()
    &&& forall|k: int|
        #![trigger n.children@[k]]
        0 <= k < es.len() ==> {
            let c = n.children@[k];
            &&& c.name@ == es[k].0
            &&& c.is_dir == es[k].1
            &&& c.depth == deeper(n.depth)
            &&& match expanded_from(info, c.path@, 0) {
                None => fresh(c),
                Some(j) => 0 <= j < info.len() && c.expanded && if c.is_dir && info[j].loaded {
                    c.loaded && children_ok(info[j].children@, c, hidden, ls)
                } else {
                    !c.loaded && c.children@.len() == 0
                },
            }
        }
}

/// The fields of a node but for its entries and whether it was read.
pub open spec fn same_head(a: Node, b: Node) -> bool {
    &&& a.path == b.path
    &&& a.name == b.name
    &&& a.is_dir == b.is_dir
    &&& a.depth == b.depth
    &&& a.expanded == b.expanded
}

impl Node {
    /// Read a folder that has not been read: its entries from `listings`, without the hidden
    /// names, folders first, each ordered by lower-case name.
    pub fn load_children(&mut self, hidden: &Vec<String>, listings: &Vec<Listing>)
        ensures
            old(self).loaded || !old(self).is_dir ==> *final(self) == *old(self),
            !old(self).loaded && old(self).is_dir ==> {
                &&& same_head(*final(self), *old(self))
                &&& final(self).loaded
                &&& children_ok(Seq::empty(), *final(self), strings_view(hidden@), listings@)
            },
    {
        if self.loaded || !self.is_dir {
            return;
        }
        self.loaded = true;
        let none: Vec<Entry> = Vec::new();
        let found = find_listing(listings, self.path.as_str());
        let es: &Vec<Entry> = match found {
            Some(k) => &listings[k].entries,
            None => &none,
        };
        proof {
            assert(entries_view(none@) =~= Seq::<EntryView>::empty());
        }
        let shown = shown_entries(hidden, es);
        let ghost sv = entries_view(shown@);
        let depth = self.depth.saturating_add(1);
        let mut children: Vec<Node> = Vec::new();
        let mut i: usize = 0;
        while i < shown.len()
            invariant
                i <= shown@.len(),
                sv == entries_view(shown@),
                children@.len() == i,
                depth == deeper(self.depth),
                forall|k: int|
                    #![trigger children@[k]]
                    0 <= k < i ==> {
                        let c = children@[k];
                        &&& c.name@ == sv[k].0
                        &&& c.is_dir == sv[k].1
                        &&& c.depth == depth
                        &&& fresh(c)
                    },
            decreases shown@.len() - i,
        {
            let c = Node {
                path: join_path(self.path.as_str(), shown[i].name.as_str()),
                name: shown[i].name.clone(),
                is_dir: shown[i].is_dir,
                depth,
                expanded: false,
                loaded: false,
                children: Vec::new(),
            };
            children.push(c);
            i += 1;
        }
        self.children = children;
    }
}


/// The rows a node shows, as index paths under `p`: itself, then, for an open folder, the rows
/// of each of its entries in order.
pub open spec fn rows_at(n: Node, p: Seq<usize>) -> Seq<Seq<usize>>
    decreases n, 0int,
{
    seq![p] + if n.is_dir && n.expanded {
        kid_rows(n.children@, p, 0)
    } else {
        Seq::empty()
    }
}

/// The rows of `kids[k..]`, the entries of the folder at `p`.
pub open spec fn kid_rows(kids: Seq<Node>, p: Seq<usize>, k: int) -> Seq<Seq<usize>>
    decreases kids, kids.len() - k,
{
    if k < 0 || k >= kids.len() {
        Seq::empty()
    } else {
        rows_at(kids[k], p.push(k as usize)) + kid_rows(kids, p, k + 1)
    }
}

/// `q` leads from `n` to a node below it (or to `n` itself, when empty).
pub open spec fn valid_at(n: Node, q: Seq<usize>) -> bool
    decreases q.len(),
{
    q.len() == 0 || (q[0] < n.children@.len() && valid_at(n.children@[q[0] as int], q.skip(1)))
}

/// The node that `q` leads to from `n`.
pub open spec fn node_at(n: Node, q: Seq<usize>) -> Node
    decreases q.len(),
{
    if q.len() == 0 || q[0] >= n.children@.len() {
        n
    } else {
        node_at(n.children@[q[0] as int], q.skip(1))
    }
}

pub open spec fn paths_view(v: Seq<Vec<usize>>) -> Seq<Seq<usize>> {
    Seq::new(v.len(), |j: int| v[j]@)
}

/// Every row of `n` under `p` starts with `p` and leads, after it, to a node of `n`.
proof fn lemma_rows_valid(n: Node, p: Seq<usize>)
    ensures
        forall|j: int|
            #![trigger rows_at(n, p)[j]]
            0 <= j < rows_at(n, p).len() ==> {
                let r = rows_at(n, p)[j];
                &&& r.len() >= p.len()
                &&& r.subrange(0, p.len() as int) == p
                &&& valid_at(n, r.skip(p.len() as int))
            },
    decreases n, 0int,
{
    let rows = rows_at(n, p);
    assert(p.subrange(0, p.len() as int) =~= p);
    assert(p.skip(p.len() as int) =~= Seq::<usize>::empty());
    if n.is_dir && n.expanded {
        let kids = n.children@;
        assert(kids.len() == n.children.len());
        lemma_kid_rows_valid(kids, p, 0);
        assert forall|j: int| 0 <= j < rows.len() implies {
            let r = #[trigger] rows[j];
            &&& r.len() >= p.len()
            &&& r.subrange(0, p.len() as int) == p
            &&& valid_at(n, r.skip(p.len() as int))
        } by {
            if j > 0 {
                let r = rows[j];
                assert(r == kid_rows(kids, p, 0)[j - 1]);
                let q = r.skip(p.len() as int);
                assert(q[0] == r[p.len() as int]);
                assert(q.skip(1) =~= r.skip(p.len() as int + 1));
            }
        }
    }
}

/// Every row of `kids[k..]` under `p` is `p`, then the index of an entry from `k` on, then a
/// path that leads into that entry.
proof fn lemma_kid_rows_valid(kids: Seq<Node>, p: Seq<usize>, k: int)
    requires
        0 <= k,
        kids.len() <= usize::MAX,
    ensures
        forall|j: int|
            #![trigger kid_rows(kids, p, k)[j]]
            0 <= j < kid_rows(kids, p, k).len() ==> {
                let r = kid_rows(kids, p, k)[j];
                &&& r.len() > p.len()
                &&& r.subrange(0, p.len() as int) == p
                &&& k <= r[p.len() as int] < kids.len()
                &&& valid_at(kids[r[p.len() as int] as int], r.skip(p.len() as int + 1))
            },
    decreases kids, kids.len() - k,
{
    if k < kids.len() {
        let p1 = p.push(k as usize);
        lemma_rows_valid(kids[k], p1);
        lemma_kid_rows_valid(kids, p, k + 1);
        let first = rows_at(kids[k], p1);
        let rest = kid_rows(kids, p, k + 1);
        assert forall|j: int| 0 <= j < kid_rows(kids, p, k).len() implies {
            let r = #[trigger] kid_rows(kids, p, k)[j];
            &&& r.len() > p.len()
            &&& r.subrange(0, p.len() as int) == p
            &&& k <= r[p.len() as int] < kids.len()
            &&& valid_at(kids[r[p.len() as int] as int], r.skip(p.len() as int + 1))
        } by {
            let r = kid_rows(kids, p, k)[j];
            if j < first.len() {
                assert(r == first[j]);
                assert(r.subrange(0, p1.len() as int) == p1);
                assert(r[p.len() as int] == r.subrange(0, p1.len() as int)[p.len() as int]);
                assert(r[p.len() as int] == k);
                assert(r.skip(p1.len() as int) =~= r.skip(p.len() as int + 1));
                assert(r.subrange(0, p.len() as int) =~= p1.subrange(0, p.len() as int));
                assert(p1.subrange(0, p.len() as int) =~= p);
            } else {
                assert(r == rest[j - first.len()]);
            }
        }
    }
}

/// Append the rows of `n` under `path` to `out`.
fn walk(n: &Node, path: &mut Vec<usize>, out: &mut Vec<Vec<usize>>)
    ensures
        final(path)@ == old(path)@,
        paths_view(final(out)@) == paths_view(old(out)@) + rows_at(*n, old(path)@),
    decreases n,
{
    let ghost p = path@;
    let ghost base = paths_view(out@);
    let copy = path.clone();
    proof {
        assert(copy@ =~= p);
    }
    out.push(copy);
    proof {
        assert(paths_view(out@) =~= base.push(p));
    }
    if n.is_dir && n.expanded {
        let mut i: usize = 0;
        proof {
            assert(base + rows_at(*n, p) =~= base.push(p) + kid_rows(n.children@, p, 0));
        }
        while i < n.children.len()
            invariant
                i <= n.children@.len(),
                path@ == p,
                n.is_dir && n.expanded,
                paths_view(out@) + kid_rows(n.children@, p, i as int) == base + rows_at(*n, p),
            decreases n.children@.len() - i,
        {
            let ghost before = paths_view(out@);
            path.push(i);
            walk(&n.children[i], path, out);
            path.pop();
            proof {
                assert(path@ =~= p);
                let kids = n.children@;
                assert(kid_rows(kids, p, i as int) == rows_at(kids[i as int], p.push(i)) + kid_rows(kids, p, i + 1));
                assert(paths_view(out@) + kid_rows(kids, p, i + 1) =~= before + kid_rows(kids, p, i as int));
            }
            i += 1;
        }
        proof {
            assert(kid_rows(n.children@, p, i as int) =~= Seq::<Seq<usize>>::empty());
            assert(paths_view(out@) =~= paths_view(out@) + kid_rows(n.children@, p, i as int));
        }
    } else {
        proof {
            assert(base + rows_at(*n, p) =~= base.push(p));
        }
    }
}

/// The node that `q[k..]` leads to from `n`.
fn node_ref<'a>(n: &'a Node, q: &Vec<usize>, k: usize) -> (r: &'a Node)
    requires
        k <= q@.len(),
        valid_at(*n, q@.skip(k as int)),
    ensures
        *r == node_at(*n, q@.skip(k as int)),
    decreases q@.len() - k,
{
    if k == q.len() {
        proof {
            assert(q@.skip(k as int).len() == 0);
        }
        return n;
    }
    let i = q[k];
    proof {
        assert(q@.skip(k as int)[0] == i);
        assert(q@.skip(k as int).skip(1) =~= q@.skip(k + 1));
    }
    node_ref(&n.children[i], q, k + 1)
}


/// `Path::file_name`: the last component of `path` as text, if it has one (it has none when
/// the path ends in `..`). Which component that is depends on the platform's separators, so
/// nothing is stated of it.
#[verifier::external_body]
fn file_name(path: &str) -> (r: Option<String>) {
    match std::path::Path::new(path).file_name() {
        Some(n) => Some(n.to_string_lossy().to_string()),
        None => None,
    }
}

/// The selection kept inside `n` rows.
pub open spec fn clamp_selection(selected: usize, n: nat) -> usize {
    if selected >= n {
        if n > 0 {
            (n - 1) as usize
        } else {
            0
        }
    } else {
        selected
    }
}

/// The file tree: its root folder, the selection among its rows, the names it hides, and its
/// visible rows.
pub struct Explorer {
    pub root: Node,
    pub list: ListState,
    pub hidden: Vec<String>,
    /// The rows on show, as index paths into the tree, rebuilt on every change.
    pub visible: Vec<Vec<usize>>,
}

/// `e` is a tree just rooted at `root`: the root folder, open and read, its entries fresh and
/// closed, every row on show, and the first row selected.
pub open spec fn fresh_explorer(e: Explorer, root: Seq<char>, hidden: Seq<Seq<char>>, ls: Seq<Listing>) -> bool {
    &&& e.wf()
    &&& e.root.path@ == root
    &&& e.root.is_dir
    &&& e.root.depth == 0
    &&& e.root.expanded
    &&& e.root.loaded
    &&& children_ok(Seq::empty(), e.root, hidden, ls)
    &&& e.list == (ListState { selected: 0, scroll: 0, pending_g: false })
}

impl Explorer {
    /// The rows on show are those of the tree.
    pub open spec fn wf(&self) -> bool {
        paths_view(self.visible@) == rows_at(self.root, Seq::empty())
    }

    fn rebuild(&mut self)
        ensures
            final(self).wf(),
            final(self).root == old(self).root,
            final(self).hidden == old(self).hidden,
            final(self).list == (ListState {
                selected: clamp_selection(old(self).list.selected, rows_at(old(self).root, Seq::empty()).len()),
                ..old(self).list
            }),
    {
        let mut out: Vec<Vec<usize>> = Vec::new();
        let mut path: Vec<usize> = Vec::new();
        proof {
            assert(paths_view(out@) =~= Seq::<Seq<usize>>::empty());
            assert(path@ =~= Seq::<usize>::empty());
        }
        walk(&self.root, &mut path, &mut out);
        proof {
            assert(paths_view(out@) =~= rows_at(self.root, Seq::empty()));
        }
        self.visible = out;
        if self.list.selected >= self.visible.len() {
            self.list.selected = self.visible.len().saturating_sub(1);
        }
    }

    /// The tree rooted at the folder `root`, open and read from `listings`, with the first row
    /// selected.
    pub fn new(root: &str, hidden: Vec<String>, listings: &Vec<Listing>) -> (e: Explorer)
        ensures
            fresh_explorer(e, root@, strings_view(hidden@), listings@),
            e.hidden == hidden,
    {
        let name = match file_name(root) {
            Some(n) => n,
            None => root.to_string(),
        };
        let mut node = Node {
            path: root.to_string(),
            name,
            is_dir: true,
            depth: 0,
            expanded: true,
            loaded: false,
            children: Vec::new(),
        };
        node.load_children(&hidden, listings);
        let mut e = Explorer { root: node, list: ListState::new(), hidden, visible: Vec::new() };
        e.rebuild();
        e
    }

    pub fn root_path(&self) -> (p: &str)
        ensures
            p@ == self.root.path@,
    {
        self.root.path.as_str()
    }

    /// Root the tree at `root`, read afresh, unless it is rooted there already.
    pub fn set_root(&mut self, root: &str, listings: &Vec<Listing>)
        ensures
            old(self).root.path@ == root@ ==> *final(self) == *old(self),
            old(self).root.path@ != root@ ==> {
                &&& fresh_explorer(*final(self), root@, strings_view(old(self).hidden@), listings@)
                &&& final(self).hidden == old(self).hidden
            },
    {
        if str_eq(self.root.path.as_str(), root) {
            return;
        }
        let mut hidden: Vec<String> = Vec::new();
        std::mem::swap(&mut hidden, &mut self.hidden);
        *self = Explorer::new(root, hidden, listings);
    }

    /// The nodes of the rows on show, in order.
    pub fn rows(&self) -> (r: Vec<&Node>)
        requires
            self.wf(),
        ensures
            r@.len() == rows_at(self.root, Seq::empty()).len(),
            forall|j: int|
                0 <= j < r@.len() ==> *#[trigger] r@[j] == node_at(self.root, rows_at(self.root, Seq::empty())[j]),
    {
        let ghost rows = rows_at(self.root, Seq::empty());
        proof {
            lemma_rows_valid(self.root, Seq::empty());
            assert forall|j: int| 0 <= j < rows.len() implies valid_at(self.root, #[trigger] rows[j]) by {
                assert(rows[j].skip(0) =~= rows[j]);
            }
        }
        let mut r: Vec<&Node> = Vec::new();
        let mut i: usize = 0;
        while i < self.visible.len()
            invariant
                self.wf(),
                rows == rows_at(self.root, Seq::empty()),
                i <= self.visible@.len(),
                r@.len() == i,
                forall|j: int| 0 <= j < rows.len() ==> valid_at(self.root, #[trigger] rows[j]),
                forall|j: int| 0 <= j < i ==> *#[trigger] r@[j] == node_at(self.root, rows[j]),
            decreases self.visible@.len() - i,
        {
            proof {
                assert(paths_view(self.visible@)[i as int] == self.visible@[i as int]@);
                assert(self.visible@[i as int]@.skip(0) =~= self.visible@[i as int]@);
                assert(valid_at(self.root, rows[i as int]));
            }
            r.push(node_ref(&self.root, &self.visible[i], 0));
            i += 1;
        }
        r
    }

    /// How many rows are on show.
    pub fn len(&self) -> (n: usize)
        requires
            self.wf(),
        ensures
            n == rows_at(self.root, Seq::empty()).len(),
    {
        self.visible.len()
    }

    pub fn is_empty(&self) -> (b: bool)
        requires
            self.wf(),
        ensures
            b == (rows_at(self.root, Seq::empty()).len() == 0),
    {
        self.visible.len() == 0
    }
}


/// `b` is the folder `a` activated: an open folder closes; a closed one opens, read from the
/// listings first if it had not been read.
pub open spec fn toggled(a: Node, b: Node, hidden: Seq<Seq<char>>, ls: Seq<Listing>) -> bool {
    if a.expanded {
        b == (Node { expanded: false, ..a })
    } else if a.loaded {
        b == (Node { expanded: true, ..a })
    } else {
        &&& b.path == a.path
        &&& b.name == a.name
        &&& b.is_dir == a.is_dir
        &&& b.depth == a.depth
        &&& b.expanded
        &&& b.loaded
        &&& children_ok(Seq::empty(), b, hidden, ls)
    }
}

/// `new` is `old` with the node at `q` changed: activated (`toggle`) or closed.
pub open spec fn changed_at(old: Node, new: Node, q: Seq<usize>, toggle: bool, hidden: Seq<Seq<char>>, ls: Seq<Listing>) -> bool
    decreases q.len(),
{
    if q.len() == 0 {
        if toggle {
            toggled(old, new, hidden, ls)
        } else {
            new == (Node { expanded: false, ..old })
        }
    } else {
        &&& q[0] < old.children@.len()
        &&& new.path == old.path
        &&& new.name == old.name
        &&& new.is_dir == old.is_dir
        &&& new.depth == old.depth
        &&& new.expanded == old.expanded
        &&& new.loaded == old.loaded
        &&& new.children@.len() == old.children@.len()
        &&& forall|j: int|
            0 <= j < old.children@.len() && j != q[0] ==> #[trigger] new.children@[j] == old.children@[j]
        &&& changed_at(old.children@[q[0] as int], new.children@[q[0] as int], q.skip(1), toggle, hidden, ls)
    }
}

fn change_at(n: &mut Node, q: &Vec<usize>, k: usize, toggle: bool, hidden: &Vec<String>, listings: &Vec<Listing>)
    requires
        k <= q@.len(),
        valid_at(*old(n), q@.skip(k as int)),
        toggle ==> node_at(*old(n), q@.skip(k as int)).is_dir,
    ensures
        changed_at(*old(n), *final(n), q@.skip(k as int), toggle, strings_view(hidden@), listings@),
    decreases q@.len() - k,
{
    if k == q.len() {
        proof {
            assert(q@.skip(k as int).len() == 0);
        }
        if toggle && !n.expanded {
            n.load_children(hidden, listings);
            n.expanded = true;
        } else {
            n.expanded = false;
        }
        return;
    }
    let i = q[k];
    proof {
        assert(q@.skip(k as int)[0] == i);
        assert(q@.skip(k as int).skip(1) =~= q@.skip(k + 1));
    }
    change_at(&mut n.children[i], q, k + 1, toggle, hidden, listings);
}

/// The first of `rows[k..]` that is `target`.
pub open spec fn row_from(rows: Seq<Seq<usize>>, target: Seq<usize>, k: int) -> Option<int>
    decreases rows.len() - k,
{
    if k < 0 || k >= rows.len() {
        None
    } else if rows[k] == target {
        Some(k)
    } else {
        row_from(rows, target, k + 1)
    }
}

fn same_path(a: &Vec<usize>, b: &Vec<usize>) -> (r: bool)
    ensures
        r == (a@ == b@),
{
    if a.len() != b.len() {
        return false;
    }
    let mut i: usize = 0;
    while i < a.len()
        invariant
            a@.len() == b@.len(),
            i <= a@.len(),
            forall|j: int| 0 <= j < i ==> a@[j] == b@[j],
        decreases a@.len() - i,
    {
        if a[i] != b[i] {
            return false;
        }
        i += 1;
    }
    proof {
        assert(a@ =~= b@);
    }
    true
}

impl Explorer {
    /// Where the row `target` stands among the rows on show.
    fn position(&self, target: &Vec<usize>) -> (r: Option<usize>)
        requires
            self.wf(),
        ensures
            r matches Some(k) ==> k < self.visible@.len(),
            r == (match row_from(rows_at(self.root, Seq::empty()), target@, 0) {
                Some(k) => Some(k as usize),
                None => None,
            }),
    {
        let ghost rows = rows_at(self.root, Seq::empty());
        let mut i: usize = 0;
        while i < self.visible.len()
            invariant
                self.wf(),
                rows == rows_at(self.root, Seq::empty()),
                i <= self.visible@.len(),
                row_from(rows, target@, 0) == row_from(rows, target@, i as int),
            decreases self.visible@.len() - i,
        {
            proof {
                assert(rows[i as int] == self.visible@[i as int]@);
            }
            if same_path(&self.visible[i], target) {
                return Some(i);
            }
            i += 1;
        }
        None
    }

    /// Enter, `l` or a click on row `i`: a folder opens or closes (read first if it has not
    /// been); a file is handed back, to be opened.
    pub fn activate(&mut self, i: usize, listings: &Vec<Listing>) -> (opened: Option<String>)
        requires
            old(self).wf(),
        ensures
            final(self).wf(),
            i >= rows_at(old(self).root, Seq::empty()).len() ==> opened is None && *final(self) == *old(self),
            i < rows_at(old(self).root, Seq::empty()).len() ==> {
                let q = rows_at(old(self).root, Seq::empty())[i as int];
                let target = node_at(old(self).root, q);
                if target.is_dir {
                    &&& opened is None
                    &&& changed_at(old(self).root, final(self).root, q, true, strings_view(old(self).hidden@), listings@)
                    &&& final(self).hidden == old(self).hidden
                    &&& final(self).list == (ListState {
                        selected: clamp_selection(old(self).list.selected, rows_at(final(self).root, Seq::empty()).len()),
                        ..old(self).list
                    })
                } else {
                    &&& opened matches Some(p) && p@ == target.path@
                    &&& *final(self) == *old(self)
                }
            },
    {
        if i >= self.visible.len() {
            return None;
        }
        let ghost rows = rows_at(self.root, Seq::empty());
        let index = self.visible[i].clone();
        proof {
            lemma_rows_valid(self.root, Seq::empty());
            assert(rows[i as int] == self.visible@[i as int]@);
            assert(index@ =~= rows[i as int]);
            assert(rows[i as int].skip(0) =~= rows[i as int]);
            assert(index@.skip(0) =~= index@);
        }
        let node = node_ref(&self.root, &index, 0);
        if node.is_dir {
            change_at(&mut self.root, &index, 0, true, &self.hidden, listings);
            self.rebuild();
            None
        } else {
            Some(node.path.clone())
        }
    }

    /// `h` on row `i`: an open folder closes (but the root); on any other row the selection
    /// moves to the row's folder.
    pub fn collapse(&mut self, i: usize)
        requires
            old(self).wf(),
        ensures
            final(self).wf(),
            final(self).hidden == old(self).hidden,
            i >= rows_at(old(self).root, Seq::empty()).len() ==> *final(self) == *old(self),
            i < rows_at(old(self).root, Seq::empty()).len() ==> {
                let rows = rows_at(old(self).root, Seq::empty());
                let q = rows[i as int];
                let target = node_at(old(self).root, q);
                if target.is_dir && target.expanded && q.len() > 0 {
                    &&& changed_at(old(self).root, final(self).root, q, false, strings_view(old(self).hidden@), Seq::empty())
                    &&& final(self).list == (ListState {
                        selected: clamp_selection(old(self).list.selected, rows_at(final(self).root, Seq::empty()).len()),
                        ..old(self).list
                    })
                } else {
                    &&& final(self).root == old(self).root
                    &&& final(self).visible == old(self).visible
                    &&& final(self).list == (ListState {
                        selected: if q.len() > 0 {
                            match row_from(rows, q.drop_last(), 0) {
                                Some(k) => k as usize,
                                None => old(self).list.selected,
                            }
                        } else {
                            old(self).list.selected
                        },
                        ..old(self).list
                    })
                }
            },
    {
        if i >= self.visible.len() {
            return;
        }
        let ghost rows = rows_at(self.root, Seq::empty());
        let index = self.visible[i].clone();
        proof {
            lemma_rows_valid(self.root, Seq::empty());
            assert(rows[i as int] == self.visible@[i as int]@);
            assert(index@ =~= rows[i as int]);
            assert(rows[i as int].skip(0) =~= rows[i as int]);
            assert(index@.skip(0) =~= index@);
        }
        let node = node_ref(&self.root, &index, 0);
        if node.is_dir && node.expanded && index.len() > 0 {
            let none: Vec<Listing> = Vec::new();
            change_at(&mut self.root, &index, 0, false, &self.hidden, &none);
            proof {
                assert(none@ =~= Seq::<Listing>::empty());
            }
            self.rebuild();
        } else if index.len() > 0 {
            let mut parent: Vec<usize> = Vec::new();
            let mut k: usize = 0;
            while k < index.len() - 1
                invariant
                    index@.len() > 0,
                    k + 1 <= index@.len(),
                    parent@ == index@.take(k as int),
                decreases index@.len() - k,
            {
                parent.push(index[k]);
                proof {
                    assert(index@.take(k + 1) =~= index@.take(k as int).push(index@[k as int]));
                }
                k += 1;
            }
            proof {
                assert(parent@ =~= index@.drop_last());
            }
            if let Some(pos) = self.position(&parent) {
                self.list.selected = pos;
            }
        }
    }
}


/// The first expanded node of `info` at `path`.
fn find_expanded(info: &Vec<Node>, path: &str) -> (r: Option<usize>)
    ensures
        match r {
            Some(j) => j < info@.len() && expanded_from(info@, path@, 0) == Some(j as int),
            None => expanded_from(info@, path@, 0) is None,
        },
{
    let mut i: usize = 0;
    while i < info.len()
        invariant
            i <= info@.len(),
            expanded_from(info@, path@, 0) == expanded_from(info@, path@, i as int),
        decreases info@.len() - i,
    {
        if info[i].expanded && str_eq(info[i].path.as_str(), path) {
            return Some(i);
        }
        i += 1;
    }
    None
}

/// Read the folder `n` afresh; what was expanded among `info`, its entries before, is expanded
/// again and read afresh too.
fn reread(n: &mut Node, info: &Vec<Node>, hidden: &Vec<String>, listings: &Vec<Listing>)
    requires
        old(n).is_dir,
        !old(n).loaded,
    ensures
        same_head(*final(n), *old(n)),
        final(n).loaded,
        children_ok(info@, *final(n), strings_view(hidden@), listings@),
    decreases info@,
{
    let ghost hv = strings_view(hidden@);
    let ghost start = *n;
    n.load_children(hidden, listings);
    let ghost es = tree_entries(hv, listing_for(listings@, n.path@));
    let mut k: usize = 0;
    while k < n.children.len()
        invariant
            hv == strings_view(hidden@),
            same_head(*n, start),
            n.loaded,
            es == tree_entries(hv, listing_for(listings@, n.path@)),
            n.children@.len() == es.len(),
            k <= n.children@.len(),
            forall|kk: int|
                #![trigger n.children@[kk]]
                0 <= kk < es.len() ==> {
                    let c = n.children@[kk];
                    &&& c.name@ == es[kk].0
                    &&& c.is_dir == es[kk].1
                    &&& c.depth == deeper(n.depth)
                },
            forall|kk: int| k <= kk < es.len() ==> fresh(#[trigger] n.children@[kk]),
            forall|kk: int|
                #![trigger n.children@[kk]]
                0 <= kk < k ==> {
                    let c = n.children@[kk];
                    match expanded_from(info@, c.path@, 0) {
                        None => fresh(c),
                        Some(j) => 0 <= j < info@.len() && c.expanded && if c.is_dir && info@[j].loaded {
                            c.loaded && children_ok(info@[j].children@, c, hv, listings@)
                        } else {
                            !c.loaded && c.children@.len() == 0
                        },
                    }
                },
        decreases n.children@.len() - k,
    {
        let ghost before = n.children@;
        let found = find_expanded(info, n.children[k].path.as_str());
        match found {
            None => {},
            Some(j) => {
                let c = &mut n.children[k];
                c.expanded = true;
                if c.is_dir && info[j].loaded {
                    reread(c, &info[j].children, hidden, listings);
                }
                proof {
                    let c2 = n.children@[k as int];
                    assert(c2.path == before[k as int].path);
                    assert(expanded_from(info@, before[k as int].path@, 0) == Some(j as int));
                    assert(expanded_from(info@, c2.path@, 0) == Some(j as int));
                    assert(c2.expanded);
                    if c2.is_dir && info@[j as int].loaded {
                        assert(c2.loaded && children_ok(info@[j as int].children@, c2, hv, listings@));
                    } else {
                        assert(!c2.loaded && c2.children@.len() == 0);
                    }
                }
            },
        }
        proof {
            assert(n.children@.len() == before.len());
            assert(forall|kk: int| 0 <= kk < before.len() && kk != k ==> n.children@[kk] == before[kk]);
            assert(n.children@[k as int].path == before[k as int].path);
            assert(n.children@[k as int].name == before[k as int].name);
            assert(n.children@[k as int].is_dir == before[k as int].is_dir);
            assert(n.children@[k as int].depth == before[k as int].depth);
            let c = n.children@[k as int];
            assert(fresh(before[k as int]));
            assert(match expanded_from(info@, c.path@, 0) {
                None => fresh(c),
                Some(j) => 0 <= j < info@.len() && c.expanded && if c.is_dir && info@[j].loaded {
                    c.loaded && children_ok(info@[j].children@, c, hv, listings@)
                } else {
                    !c.loaded && c.children@.len() == 0
                },
            });
        }
        k += 1;
    }
}

impl Explorer {
    /// Read every open folder again (after a git operation or a change on disk), keeping what
    /// was open open.
    pub fn refresh(&mut self, listings: &Vec<Listing>)
        requires
            old(self).wf(),
        ensures
            final(self).wf(),
            final(self).hidden == old(self).hidden,
            old(self).root.is_dir && old(self).root.loaded ==> {
                &&& same_head(final(self).root, old(self).root)
                &&& final(self).root.loaded
                &&& children_ok(old(self).root.children@, final(self).root, strings_view(old(self).hidden@), listings@)
            },
            !(old(self).root.is_dir && old(self).root.loaded) ==> final(self).root == old(self).root,
            final(self).list == (ListState {
                selected: clamp_selection(old(self).list.selected, rows_at(final(self).root, Seq::empty()).len()),
                ..old(self).list
            }),
    {
        if self.root.is_dir && self.root.loaded {
            let mut info: Vec<Node> = Vec::new();
            std::mem::swap(&mut info, &mut self.root.children);
            self.root.loaded = false;
            reread(&mut self.root, &info, &self.hidden, listings);
        }
        self.rebuild();
    }
}


/// The first of `kids[k..]` named `name`.
pub open spec fn name_from(kids: Seq<Node>, name: Seq<char>, k: int) -> Option<int>
    decreases kids.len() - k,
{
    if k < 0 || k >= kids.len() {
        None
    } else if kids[k].name@ == name {
        Some(k)
    } else {
        name_from(kids, name, k + 1)
    }
}

/// The index path that follows the names `comps` down from `n`, when each is there.
pub open spec fn found_path(n: Node, comps: Seq<Seq<char>>) -> Option<Seq<usize>>
    decreases comps.len(),
{
    if comps.len() == 0 {
        Some(Seq::empty())
    } else {
        match name_from(n.children@, comps[0], 0) {
            None => None,
            Some(i) => if 0 <= i < n.children@.len() {
                match found_path(n.children@[i], comps.skip(1)) {
                    None => None,
                    Some(r) => Some(seq![i as usize] + r),
                }
            } else {
                None
            },
        }
    }
}

/// `b` is `a` read, if it is a closed folder that had not been read. (An open folder that was
/// never read is left as it shows, so that reading it does not change the rows.)
pub open spec fn read_once(a: Node, b: Node, hidden: Seq<Seq<char>>, ls: Seq<Listing>) -> bool {
    if a.loaded || !a.is_dir || a.expanded {
        b == a
    } else {
        &&& same_head(b, a)
        &&& b.loaded
        &&& children_ok(Seq::empty(), b, hidden, ls)
    }
}

/// `new` is `old` after following the names `comps` down: each closed folder on the way is read
/// if it had not been, and each entry on the way but the last is opened. The walk stops where a name
/// is not found.
pub open spec fn revealed(old: Node, new: Node, comps: Seq<Seq<char>>, hidden: Seq<Seq<char>>, ls: Seq<Listing>) -> bool
    decreases comps.len(),
{
    if comps.len() == 0 {
        new == old
    } else {
        exists|mid: Node|
            #![trigger read_once(old, mid, hidden, ls)]
            read_once(old, mid, hidden, ls) && match name_from(mid.children@, comps[0], 0) {
                None => new == mid,
                Some(i) => {
                    &&& 0 <= i < mid.children@.len()
                    &&& new.path == mid.path
                    &&& new.name == mid.name
                    &&& new.is_dir == mid.is_dir
                    &&& new.depth == mid.depth
                    &&& new.expanded == mid.expanded
                    &&& new.loaded == mid.loaded
                    &&& new.children@.len() == mid.children@.len()
                    &&& forall|j: int|
                        0 <= j < mid.children@.len() && j != i ==> #[trigger] new.children@[j] == mid.children@[j]
                    &&& comps.len() > 1 ==> new.children@[i].expanded
                    &&& revealed(
                        mid.children@[i],
                        if comps.len() > 1 {
                            Node { expanded: mid.children@[i].expanded, ..new.children@[i] }
                        } else {
                            new.children@[i]
                        },
                        comps.skip(1),
                        hidden,
                        ls,
                    )
                },
            }
    }
}

/// Where the first entry named `name` stands.
fn find_name(kids: &Vec<Node>, name: &str) -> (r: Option<usize>)
    ensures
        match r {
            Some(j) => j < kids@.len() && name_from(kids@, name@, 0) == Some(j as int),
            None => name_from(kids@, name@, 0) is None,
        },
{
    let mut i: usize = 0;
    while i < kids.len()
        invariant
            i <= kids@.len(),
            name_from(kids@, name@, 0) == name_from(kids@, name@, i as int),
        decreases kids@.len() - i,
    {
        if str_eq(kids[i].name.as_str(), name) {
            return Some(i);
        }
        i += 1;
    }
    None
}

/// Follow `comps[k..]` down from `n`; the indices taken are appended to `index`. True when
/// every name was found; then the entries on the way but the last are opened. When a name is
/// missing, nothing is opened: only closed folders on the way were read, and the rows stay.
fn reveal_in(n: &mut Node, comps: &Vec<String>, k: usize, index: &mut Vec<usize>, hidden: &Vec<String>, listings: &Vec<Listing>) -> (found: bool)
    requires
        k <= comps@.len(),
    ensures
        found ==> revealed(*old(n), *final(n), strings_view(comps@).skip(k as int), strings_view(hidden@), listings@),
        !found ==> forall|p: Seq<usize>| #[trigger] rows_at(*final(n), p) == rows_at(*old(n), p),
        final(n).name == old(n).name,
        final(n).expanded == old(n).expanded,
        found == found_path(*final(n), strings_view(comps@).skip(k as int)) is Some,
        found ==> final(index)@ == old(index)@ + found_path(*final(n), strings_view(comps@).skip(k as int))->0,
    decreases comps@.len() - k,
{
    let ghost cs = strings_view(comps@).skip(k as int);
    let ghost hv = strings_view(hidden@);
    if k == comps.len() {
        proof {
            assert(cs.len() == 0);
            assert(old(index)@ + Seq::<usize>::empty() =~= old(index)@);
        }
        return true;
    }
    let ghost start = *n;
    if !n.expanded {
        n.load_children(hidden, listings);
    }
    let ghost mid = *n;
    proof {
        assert(cs[0] == comps@[k as int]@);
        assert(cs.skip(1) =~= strings_view(comps@).skip(k + 1));
        assert(read_once(start, mid, hv, listings@));
        assert forall|p: Seq<usize>| #[trigger] rows_at(mid, p) == rows_at(start, p) by {
            if !(start.loaded || !start.is_dir || start.expanded) {
                assert(!mid.expanded);
            }
        }
    }
    match find_name(&n.children, comps[k].as_str()) {
        None => {
            proof {
                assert(revealed(start, *n, cs, hv, listings@));
            }
            false
        },
        Some(i) => {
            let ghost before_index = index@;
            index.push(i);
            let c = &mut n.children[i];
            let ghost c_start = *c;
            let found = reveal_in(c, comps, k + 1, index, hidden, listings);
            let ghost c_after = *c;
            if found && k + 1 < comps.len() {
                c.expanded = true;
            }
            proof {
                assert(c_start == mid.children@[i as int]);
                assert(name_from(n.children@, cs[0], 0) == name_from(mid.children@, cs[0], 0)) by {
                    lemma_name_from_same(mid.children@, n.children@, cs[0], 0, i as int);
                }
                assert(n.children@[i as int] == *c);
                assert(found_path(*c, cs.skip(1)) == found_path(c_after, cs.skip(1)));
                if found {
                    if cs.len() > 1 {
                        assert(Node { expanded: c_start.expanded, ..*c } == c_after);
                    }
                    assert(revealed(start, *n, cs, hv, listings@));
                    let rest = found_path(n.children@[i as int], cs.skip(1))->0;
                    assert(index@ =~= before_index + (seq![i] + rest));
                } else {
                    assert forall|j: int, q: Seq<usize>|
                        0 <= j < mid.children@.len() implies #[trigger] rows_at(n.children@[j], q) == rows_at(mid.children@[j], q) by {
                        if j == i {
                            assert(rows_at(c_after, q) == rows_at(c_start, q));
                        }
                    }
                    assert forall|p: Seq<usize>| #[trigger] rows_at(*n, p) == rows_at(start, p) by {
                        lemma_kid_rows_same(mid.children@, n.children@, p, 0);
                        assert(rows_at(*n, p) == rows_at(mid, p));
                    }
                }
            }
            found
        },
    }
}

/// Folders whose entries each show the same rows show the same rows.
proof fn lemma_kid_rows_same(a: Seq<Node>, b: Seq<Node>, p: Seq<usize>, k: int)
    requires
        a.len() == b.len(),
        forall|j: int, q: Seq<usize>| 0 <= j < a.len() ==> #[trigger] rows_at(b[j], q) == rows_at(a[j], q),
    ensures
        kid_rows(b, p, k) == kid_rows(a, p, k),
    decreases a.len() - k,
{
    if 0 <= k < a.len() {
        lemma_kid_rows_same(a, b, p, k + 1);
        assert(rows_at(b[k], p.push(k as usize)) == rows_at(a[k], p.push(k as usize)));
    }
}

/// Changing an entry at `i` but not its name leaves the search by name as it was.
proof fn lemma_name_from_same(a: Seq<Node>, b: Seq<Node>, name: Seq<char>, k: int, i: int)
    requires
        0 <= k,
        a.len() == b.len(),
        0 <= i < a.len(),
        b[i].name == a[i].name,
        forall|j: int| 0 <= j < a.len() && j != i ==> #[trigger] b[j] == a[j],
    ensures
        name_from(b, name, k) == name_from(a, name, k),
    decreases a.len() - k,
{
    if k < a.len() {
        lemma_name_from_same(a, b, name, k + 1, i);
    }
}

/// `Path::strip_prefix`: `path` below `root`, relative to it, as text; none when `path` is not
/// below `root`. That depends on the platform's separators, so nothing is stated of it.
#[verifier::external_body]
fn strip_prefix(path: &str, root: &str) -> (r: Option<String>) {
    match std::path::Path::new(path).strip_prefix(root) {
        Ok(rel) => Some(rel.to_string_lossy().to_string()),
        Err(_) => None,
    }
}

/// `Path::components`: the components of `rel`, each as text. Where the platform splits them is
/// not stated.
#[verifier::external_body]
fn components(rel: &str) -> (r: Vec<String>) {
    let mut v = Vec::new();
    for c in std::path::Path::new(rel).components() {
        v.push(c.as_os_str().to_string_lossy().to_string());
    }
    v
}

/// `b` is `a` after the names `cs` were followed down from the root. When every name is found,
/// the folders on the way are read and opened, the rows rebuilt, and the row reached selected
/// (or the old selection kept in range). When a name is missing, only closed folders on the
/// way may have been read: the rows and the selection stay as they were.
pub open spec fn reveals(a: Explorer, b: Explorer, cs: Seq<Seq<char>>, ls: Seq<Listing>) -> bool {
    &&& b.wf()
    &&& b.hidden == a.hidden
    &&& match found_path(b.root, cs) {
        Some(q) => {
            &&& revealed(a.root, b.root, cs, strings_view(a.hidden@), ls)
            &&& b.list == (ListState {
                selected: match row_from(rows_at(b.root, Seq::empty()), q, 0) {
                    Some(k) => k as usize,
                    None => clamp_selection(a.list.selected, rows_at(b.root, Seq::empty()).len()),
                },
                ..a.list
            })
        },
        None => {
            &&& rows_at(b.root, Seq::empty()) == rows_at(a.root, Seq::empty())
            &&& b.visible == a.visible
            &&& b.list == a.list
        },
    }
}

impl Explorer {
    /// Follow the names `comps` down from the root, reading and opening the folders on the
    /// way, and select the row reached; where a name is missing, the rows stay as they were.
    pub fn reveal_components(&mut self, comps: &Vec<String>, listings: &Vec<Listing>)
        requires
            old(self).wf(),
        ensures
            reveals(*old(self), *final(self), strings_view(comps@), listings@),
    {
        let mut index: Vec<usize> = Vec::new();
        let found = reveal_in(&mut self.root, comps, 0, &mut index, &self.hidden, listings);
        proof {
            assert(strings_view(comps@).skip(0) =~= strings_view(comps@));
            if found {
                assert(index@ =~= found_path(self.root, strings_view(comps@))->0);
            }
        }
        if !found {
            proof {
                assert(rows_at(self.root, Seq::empty()) == rows_at(old(self).root, Seq::empty()));
            }
            return;
        }
        self.rebuild();
        if let Some(pos) = self.position(&index) {
            self.list.selected = pos;
        }
    }

    /// Select and show `path`, if it is below the root. Which names the path splits into below
    /// the root is the platform's (`Path::strip_prefix`, `Path::components`), so what is stated
    /// is that the explorer is unchanged (a path not below the root) or has followed some list
    /// of names, as `reveal_components` does.
    pub fn reveal_path(&mut self, path: &str, listings: &Vec<Listing>)
        requires
            old(self).wf(),
        ensures
            final(self).wf(),
            final(self).hidden == old(self).hidden,
            *final(self) == *old(self) || exists|cs: Seq<Seq<char>>| reveals(*old(self), *final(self), cs, listings@),
    {
        let rel = match strip_prefix(path, self.root.path.as_str()) {
            Some(r) => r,
            None => return,
        };
        let comps = components(rel.as_str());
        let ghost before = *self;
        self.reveal_components(&comps, listings);
        proof {
            assert(reveals(before, *self, strings_view(comps@), listings@));
        }
    }
}


proof fn lemma_insert_members(s: Seq<EntryView>, e: EntryView)
    ensures
        insert_entry(s, e).len() == s.len() + 1,
        forall|x: EntryView| #[trigger] insert_entry(s, e).contains(x) <==> (s.contains(x) || x == e),
    decreases s.len(),
{
    if s.len() == 0 {
        assert(insert_entry(s, e) =~= seq![e]);
        assert forall|x: EntryView| #[trigger] insert_entry(s, e).contains(x) <==> (s.contains(x) || x == e) by {
            if insert_entry(s, e).contains(x) {
                assert(insert_entry(s, e)[0] == e);
            }
            if x == e {
                assert(insert_entry(s, e)[0] == e);
            }
        }
    } else if !text_less(name_key(e), name_key(s.last())) {
        assert forall|x: EntryView| #[trigger] insert_entry(s, e).contains(x) <==> (s.contains(x) || x == e) by {
            let t = s.push(e);
            assert(insert_entry(s, e) == t);
            if t.contains(x) {
                let j = choose|j: int| 0 <= j < t.len() && t[j] == x;
                if j < s.len() {
                    assert(s[j] == x);
                }
            }
            if s.contains(x) {
                let j = choose|j: int| 0 <= j < s.len() && s[j] == x;
                assert(t[j] == x);
            }
            if x == e {
                assert(t[s.len() as int] == x);
            }
        }
    } else {
        let d = s.drop_last();
        lemma_insert_members(d, e);
        let m = insert_entry(d, e);
        assert forall|x: EntryView| #[trigger] insert_entry(s, e).contains(x) <==> (s.contains(x) || x == e) by {
            let t = m.push(s.last());
            assert(insert_entry(s, e) == t);
            if t.contains(x) {
                let j = choose|j: int| 0 <= j < t.len() && t[j] == x;
                if j < m.len() {
                    assert(m[j] == x);
                    assert(m.contains(x));
                    if d.contains(x) {
                        let jj = choose|jj: int| 0 <= jj < d.len() && d[jj] == x;
                        assert(s[jj] == x);
                    }
                } else {
                    assert(s[s.len() - 1] == x);
                }
            }
            if s.contains(x) {
                let j = choose|j: int| 0 <= j < s.len() && s[j] == x;
                if j < s.len() - 1 {
                    assert(d[j] == x);
                    assert(m.contains(x));
                    let jj = choose|jj: int| 0 <= jj < m.len() && m[jj] == x;
                    assert(t[jj] == x);
                } else {
                    assert(t[m.len() as int] == x);
                }
            }
            if x == e {
                assert(m.contains(x));
                let jj = choose|jj: int| 0 <= jj < m.len() && m[jj] == x;
                assert(t[jj] == x);
            }
        }
    }
}

proof fn lemma_sort_members(s: Seq<EntryView>)
    ensures
        forall|x: EntryView| #[trigger] sort_entries(s).contains(x) <==> s.contains(x),
    decreases s.len(),
{
    if s.len() > 0 {
        let d = s.drop_last();
        lemma_sort_members(d);
        lemma_insert_members(sort_entries(d), s.last());
        assert forall|x: EntryView| #[trigger] sort_entries(s).contains(x) <==> s.contains(x) by {
            if d.contains(x) {
                let j = choose|j: int| 0 <= j < d.len() && d[j] == x;
                assert(s[j] == x);
            }
            if s.contains(x) {
                let j = choose|j: int| 0 <= j < s.len() && s[j] == x;
                if j < s.len() - 1 {
                    assert(d[j] == x);
                }
            }
        }
    }
}

proof fn lemma_kept_members(hidden: Seq<Seq<char>>, es: Seq<EntryView>, dirs: bool)
    ensures
        forall|x: EntryView| #[trigger] kept(hidden, es, dirs).contains(x) ==> x.1 == dirs && !hidden.contains(x.0),
    decreases es.len(),
{
    if es.len() > 0 {
        lemma_kept_members(hidden, es.drop_last(), dirs);
        let rest = kept(hidden, es.drop_last(), dirs);
        assert forall|x: EntryView| #[trigger] kept(hidden, es, dirs).contains(x) implies x.1 == dirs && !hidden.contains(x.0) by {
            let t = kept(hidden, es, dirs);
            let e = es.last();
            let j = choose|j: int| 0 <= j < t.len() && t[j] == x;
            if e.1 == dirs && !hidden.contains(e.0) {
                assert(t == rest.push(e));
                if j < rest.len() {
                    assert(rest[j] == x);
                    assert(rest.contains(x));
                }
            } else {
                assert(t == rest);
                assert(rest[j] == x);
                assert(rest.contains(x));
            }
        }
    }
}

/// A folder shows none of the hidden names, and shows its folders before its files.
pub proof fn law_hidden_names_not_shown(info: Seq<Node>, n: Node, hidden: Seq<Seq<char>>, ls: Seq<Listing>)
    requires
        children_ok(info, n, hidden, ls),
    ensures
        forall|k: int| 0 <= k < n.children@.len() ==> !hidden.contains(#[trigger] n.children@[k].name@),
        forall|k1: int, k2: int|
            0 <= k1 < k2 < n.children@.len() && (#[trigger] n.children@[k2]).is_dir ==> (#[trigger] n.children@[k1]).is_dir,
{
    let es = listing_for(ls, n.path@);
    let d = sort_entries(kept(hidden, es, true));
    let f = sort_entries(kept(hidden, es, false));
    let all = tree_entries(hidden, es);
    lemma_sort_members(kept(hidden, es, true));
    lemma_sort_members(kept(hidden, es, false));
    lemma_kept_members(hidden, es, true);
    lemma_kept_members(hidden, es, false);
    assert forall|k: int| 0 <= k < all.len() implies !hidden.contains((#[trigger] all[k]).0) && (all[k].1 <==> k < d.len()) by {
        if k < d.len() {
            assert(all[k] == d[k]);
            assert(d.contains(d[k]));
        } else {
            assert(all[k] == f[k - d.len()]);
            assert(f.contains(f[k - d.len()]));
        }
    }
    assert forall|k: int| 0 <= k < n.children@.len() implies !hidden.contains(#[trigger] n.children@[k].name@) by {
        assert(n.children@[k].name@ == all[k].0);
    }
    assert forall|k1: int, k2: int|
        0 <= k1 < k2 < n.children@.len() && (#[trigger] n.children@[k2]).is_dir implies (#[trigger] n.children@[k1]).is_dir by {
        assert(n.children@[k1].is_dir == all[k1].1);
        assert(n.children@[k2].is_dir == all[k2].1);
    }
}

/// Activating a folder that has been read twice leaves it as it was.
pub proof fn law_activate_twice(a: Node, b: Node, c: Node, hidden: Seq<Seq<char>>, ls: Seq<Listing>)
    requires
        a.loaded,
        toggled(a, b, hidden, ls),
        toggled(b, c, hidden, ls),
    ensures
        c == a,
{
}

/// The rows on show always start with the root's: a tree never shows no rows.
pub proof fn law_rows_start_at_root(e: Explorer)
    requires
        e.wf(),
    ensures
        rows_at(e.root, Seq::empty()).len() >= 1,
        rows_at(e.root, Seq::empty())[0] == Seq::<usize>::empty(),
        e.visible@.len() >= 1,
{
    assert(paths_view(e.visible@).len() == e.visible@.len());
}

/// Activating the same folder row twice gives back the rows there were before (an open folder
/// that was never read aside, since opening reads it).
pub proof fn law_activate_twice_rows(a: Node, b: Node, c: Node, q: Seq<usize>, hidden: Seq<Seq<char>>, ls: Seq<Listing>)
    requires
        changed_at(a, b, q, true, hidden, ls),
        changed_at(b, c, q, true, hidden, ls),
        node_at(a, q).expanded && node_at(a, q).is_dir ==> node_at(a, q).loaded,
    ensures
        forall|p: Seq<usize>| #[trigger] rows_at(c, p) == rows_at(a, p),
    decreases q.len(),
{
    if q.len() == 0 {
        assert forall|p: Seq<usize>| #[trigger] rows_at(c, p) == rows_at(a, p) by {
            assert(node_at(a, q) == a);
            if a.is_dir && !(!a.expanded && !a.loaded) {
                assert(c == a);
            }
        }
    } else {
        let k = q[0] as int;
        assert(node_at(a.children@[k], q.skip(1)) == node_at(a, q));
        law_activate_twice_rows(a.children@[k], b.children@[k], c.children@[k], q.skip(1), hidden, ls);
        assert forall|j: int, r: Seq<usize>|
            0 <= j < a.children@.len() implies #[trigger] rows_at(c.children@[j], r) == rows_at(a.children@[j], r) by {
            if j != k {
                assert(c.children@[j] == b.children@[j]);
            }
        }
        assert forall|p: Seq<usize>| #[trigger] rows_at(c, p) == rows_at(a, p) by {
            lemma_kid_rows_same(a.children@, c.children@, p, 0);
        }
    }
}

/// Rooting the tree afresh at a folder shows the same rows and selection however it was done:
/// `set_root` to a new root gives what `Explorer::new` gives.
pub proof fn law_fresh_trees_agree(a: Explorer, b: Explorer, root: Seq<char>, hidden: Seq<Seq<char>>, ls: Seq<Listing>)
    requires
        fresh_explorer(a, root, hidden, ls),
        fresh_explorer(b, root, hidden, ls),
    ensures
        rows_at(a.root, Seq::empty()) == rows_at(b.root, Seq::empty()),
        a.list == b.list,
{
    let es = tree_entries(hidden, listing_for(ls, root));
    assert(a.root.children@.len() == es.len());
    assert(b.root.children@.len() == es.len());
    assert forall|j: int, r: Seq<usize>|
        0 <= j < a.root.children@.len() implies #[trigger] rows_at(b.root.children@[j], r) == rows_at(a.root.children@[j], r) by {
        assert(fresh(a.root.children@[j]));
        assert(fresh(b.root.children@[j]));
    }
    lemma_kid_rows_same(a.root.children@, b.root.children@, Seq::empty(), 0);
}

/// Setting the same hidden names a second time reports no change and changes nothing.
pub proof fn law_set_hidden_twice(hidden: Seq<Seq<char>>, names: Seq<Seq<char>>)
    ensures
        spec_set_hidden(spec_set_hidden(hidden, names).0, names) == (spec_set_hidden(hidden, names).0, false),
{
}

} // verus!
