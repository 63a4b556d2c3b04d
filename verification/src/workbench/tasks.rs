//! Background work for the chrome: what ripgrep and git print, read into hits and changes;
//! and the fuzzy matching the palette filters with.

use vstd::prelude::*;

use crate::editor::words::{bytes_len, char_utf8_len, chars_for, lemma_bytes_len_push};
use crate::text::{chars_of, string_from_chars, trim, trimmed};
use crate::workbench::split_at_char;

verus! {

/// What Unicode lower-casing makes of a string.
pub uninterp spec fn spec_lowercase(s: Seq<char>) -> Seq<char>;

/// `str::to_lowercase`: the string with every character lower-cased by Unicode's rules.
#[verifier::external_body]
pub(crate) fn lowercase(s: &str) -> (r: String)
    ensures
        r@ == spec_lowercase(s@),
{
    s.to_lowercase()
}

/// The first position from `k` on where `q` occurs in `t`.
pub open spec fn find_from(t: Seq<char>, q: Seq<char>, k: int) -> Option<int>
    decreases t.len() + 1 - k,
{
    if k < 0 || k + q.len() > t.len() {
        None
    } else if t.subrange(k, k + q.len()) == q {
        Some(k)
    } else {
        find_from(t, q, k + 1)
    }
}

proof fn lemma_find_from_bounds(t: Seq<char>, q: Seq<char>, j: int)
    requires
        find_from(t, q, j) is Some,
    ensures
        j <= find_from(t, q, j).unwrap(),
        find_from(t, q, j).unwrap() + q.len() <= t.len(),
    decreases t.len() + 1 - j,
{
    if j >= 0 && j + q.len() <= t.len() && t.subrange(j, j + q.len()) != q {
        lemma_find_from_bounds(t, q, j + 1);
    }
}

/// The positions a greedy left-to-right match of `q[qi..]` takes in `t[ti..]`.
pub open spec fn greedy_from(t: Seq<char>, q: Seq<char>, ti: int, qi: int) -> Seq<int>
    decreases t.len() - ti,
{
    if ti < 0 || ti >= t.len() {
        Seq::empty()
    } else if 0 <= qi < q.len() && t[ti] == q[qi] {
        seq![ti] + greedy_from(t, q, ti + 1, qi + 1)
    } else {
        greedy_from(t, q, ti + 1, qi)
    }
}

/// The score of a subsequence match: 100, four per position spanned, and where it starts;
/// kept in 32 bits as the shell does.
pub open spec fn subsequence_score(hits: Seq<int>, start: int) -> i32 {
    (100 + 4 * (hits.last() - hits[0]) + start) as i32
}

/// The best subsequence match among the starts from `start` on: every place the first
/// character of `q` occurs is tried, the first lower score wins, and the search stops at the
/// first start from which `q` cannot be completed.
pub open spec fn best_from(t: Seq<char>, q: Seq<char>, start: int, best: Option<(i32, Seq<int>)>) -> Option<(i32, Seq<int>)>
    decreases t.len() - start,
{
    if start < 0 || start >= t.len() || q.len() == 0 {
        best
    } else if t[start] != q[0] {
        best_from(t, q, start + 1, best)
    } else {
        let hits = greedy_from(t, q, start, 0);
        if hits.len() < q.len() {
            best
        } else {
            let score = subsequence_score(hits, start);
            let next = match best {
                Some(b) => if score < b.0 {
                    Some((score, hits))
                } else {
                    best
                },
                None => Some((score, hits)),
            };
            best_from(t, q, start + 1, next)
        }
    }
}

/// The characters of `target` before the byte where the lower-cased match starts, if that
/// byte starts a character of `target`.
pub open spec fn substring_start(query: Seq<char>, target: Seq<char>) -> Option<nat> {
    match find_from(spec_lowercase(target), spec_lowercase(query), 0) {
        Some(k) => chars_for(target, 0, bytes_len(spec_lowercase(target).take(k)) as int),
        None => None,
    }
}

/// Can `fuzzy` take these inputs? The substring match, if there is one, must start on a
/// character of `target` (the shell slices `target` there) and its positions must be counted.
pub open spec fn fuzzy_defined(query: Seq<char>, target: Seq<char>) -> bool {
    query.len() == 0 || match find_from(spec_lowercase(target), spec_lowercase(query), 0) {
        Some(k) => match substring_start(query, target) {
            Some(start) => start + spec_lowercase(query).len() <= usize::MAX,
            None => false,
        },
        None => true,
    }
}

/// Subsequence fuzzy match: lower score is better; none if no match. An empty query matches
/// with score 0; a case-insensitive substring scores its start (in characters of `target`)
/// and hits its characters; otherwise the best subsequence.
pub open spec fn spec_fuzzy(query: Seq<char>, target: Seq<char>) -> Option<(i32, Seq<int>)> {
    if query.len() == 0 {
        Some((0, Seq::empty()))
    } else {
        let q = spec_lowercase(query);
        let t = spec_lowercase(target);
        match find_from(t, q, 0) {
            Some(k) => {
                let start = substring_start(query, target).unwrap();
                Some((start as i32, Seq::new(q.len(), |i: int| start + i)))
            },
            None => best_from(t, q, 0, None),
        }
    }
}

pub open spec fn hits_view(h: Seq<usize>) -> Seq<int> {
    Seq::new(h.len(), |i: int| h[i] as int)
}

pub open spec fn match_view(m: Option<(i32, Vec<usize>)>) -> Option<(i32, Seq<int>)> {
    match m {
        Some(x) => Some((x.0, hits_view(x.1@))),
        None => None,
    }
}

/// Where `q` first occurs in `t`.
pub(crate) fn find_chars(t: &Vec<char>, q: &Vec<char>) -> (r: Option<usize>)
    ensures
        match r {
            Some(k) => find_from(t@, q@, 0) == Some(k as int),
            None => find_from(t@, q@, 0) is None,
        },
{
    if q.len() == 0 {
        proof {
            assert(t@.subrange(0, 0) =~= q@);
        }
        return Some(0);
    }
    if q.len() > t.len() {
        return None;
    }
    let mut k: usize = 0;
    let last = t.len() - q.len();
    while k <= last
        invariant
            1 <= q@.len() <= t@.len(),
            t@.len() <= usize::MAX,
            last == t@.len() - q@.len(),
            k <= last + 1,
            find_from(t@, q@, 0) == find_from(t@, q@, k as int),
        decreases last + 1 - k,
    {
        let mut j: usize = 0;
        let mut same = true;
        while j < q.len()
            invariant
                k <= last,
                1 <= q@.len() <= t@.len(),
                t@.len() <= usize::MAX,
                last == t@.len() - q@.len(),
                j <= q@.len(),
                same == (forall|m: int| 0 <= m < j ==> t@[k + m] == q@[m]),
            decreases q@.len() - j,
        {
            if t[k + j] != q[j] {
                same = false;
            }
            j += 1;
        }
        proof {
            if same {
                assert(t@.subrange(k as int, k + q@.len()) =~= q@);
            } else {
                let m = choose|m: int| 0 <= m < q@.len() && !(t@[k + m] == q@[m]);
                assert(t@.subrange(k as int, k + q@.len())[m] != q@[m]);
            }
        }
        if same {
            return Some(k);
        }
        k += 1;
    }
    None
}

/// The UTF-8 length of the first `k` characters.
fn prefix_bytes(t: &Vec<char>, k: usize) -> (n: u128)
    requires
        k <= t@.len(),
    ensures
        n == bytes_len(t@.take(k as int)),
{
    let mut n: u128 = 0;
    let mut i: usize = 0;
    while i < k
        invariant
            i <= k <= t@.len(),
            n == bytes_len(t@.take(i as int)),
            n <= 4 * i,
        decreases k - i,
    {
        proof {
            assert(t@.take(i + 1) =~= t@.take(i as int).push(t@[i as int]));
            lemma_bytes_len_push(t@.take(i as int), t@[i as int]);
        }
        n = n + char_utf8_len(t[i]) as u128;
        i += 1;
    }
    n
}

/// How many characters of `s` make up its first `n` bytes, if `n` ends on a character.
fn chars_within(s: &Vec<char>, n: u128) -> (r: Option<usize>)
    ensures
        match r {
            Some(c) => chars_for(s@, 0, n as int) == Some(c as nat),
            None => chars_for(s@, 0, n as int) is None,
        },
{
    let mut j: usize = 0;
    let mut left: u128 = n;
    while left > 0
        invariant
            j <= s@.len(),
            left <= n,
            chars_for(s@, 0, n as int) == match chars_for(s@, j as int, left as int) {
                Some(k) => Some((k + j) as nat),
                None => None,
            },
        decreases left,
    {
        if j >= s.len() {
            return None;
        }
        let b = char_utf8_len(s[j]) as u128;
        if b > left {
            return None;
        }
        left = left - b;
        j = j + 1;
    }
    Some(j)
}

/// The greedy match of `q` from `start`.
fn greedy(t: &Vec<char>, q: &Vec<char>, start: usize) -> (hits: Vec<usize>)
    requires
        start <= t@.len(),
    ensures
        hits_view(hits@) == greedy_from(t@, q@, start as int, 0),
        hits@.len() <= q@.len(),
        forall|i: int| 0 <= i < hits@.len() ==> start <= #[trigger] hits@[i] < t@.len(),
        forall|i: int, j: int| 0 <= i <= j < hits@.len() ==> hits@[i] <= hits@[j],
{
    let mut hits: Vec<usize> = Vec::new();
    let mut qi: usize = 0;
    let mut ti: usize = start;
    proof {
        assert(hits_view(hits@) + greedy_from(t@, q@, start as int, 0) =~= greedy_from(t@, q@, start as int, 0));
    }
    while ti < t.len()
        invariant
            start <= ti <= t@.len(),
            qi <= q@.len(),
            hits@.len() == qi,
            forall|i: int| 0 <= i < hits@.len() ==> start <= #[trigger] hits@[i] < ti,
            forall|i: int, j: int| 0 <= i <= j < hits@.len() ==> hits@[i] <= hits@[j],
            greedy_from(t@, q@, start as int, 0) == hits_view(hits@) + greedy_from(t@, q@, ti as int, qi as int),
        decreases t@.len() - ti,
    {
        let ghost before = hits@;
        if qi < q.len() && t[ti] == q[qi] {
            hits.push(ti);
            qi += 1;
            proof {
                assert(hits_view(hits@) =~= hits_view(before).push(ti as int));
                assert(hits_view(hits@) + greedy_from(t@, q@, ti + 1, qi as int) =~= hits_view(before) + (seq![ti as int]
                    + greedy_from(t@, q@, ti + 1, qi as int)));
            }
        }
        ti += 1;
    }
    proof {
        assert(hits_view(hits@) + greedy_from(t@, q@, ti as int, qi as int) =~= hits_view(hits@));
    }
    hits
}

/// Subsequence fuzzy match (see `spec_fuzzy`).
pub fn fuzzy(query: &str, target: &str) -> (r: Option<(i32, Vec<usize>)>)
    requires
        fuzzy_defined(query@, target@),
    ensures
        match_view(r) == spec_fuzzy(query@, target@),
{
    if query.is_empty() {
        let v: Vec<usize> = Vec::new();
        proof {
            assert(hits_view(v@) =~= Seq::<int>::empty());
        }
        return Some((0, v));
    }
    let lq = lowercase(query);
    let lt = lowercase(target);
    let q = chars_of(lq.as_str());
    let t = chars_of(lt.as_str());
    match find_chars(&t, &q) {
        Some(k) => {
            proof {
                lemma_find_from_bounds(t@, q@, 0);
            }
            let n = prefix_bytes(&t, k);
            let tc = chars_of(target);
            let start = match chars_within(&tc, n) {
                Some(s) => s,
                None => {
                    proof {
                        assert(false);
                    }
                    0
                },
            };
            let mut hits: Vec<usize> = Vec::new();
            let mut i: usize = 0;
            while i < q.len()
                invariant
                    i <= q@.len(),
                    start + q@.len() <= usize::MAX,
                    hits_view(hits@) == Seq::new(i as nat, |m: int| start + m),
                decreases q@.len() - i,
            {
                let ghost before = hits@;
                hits.push(start + i);
                i += 1;
                proof {
                    assert(hits_view(hits@) =~= hits_view(before).push(start + i - 1));
                    assert(hits_view(hits@) =~= Seq::new(i as nat, |m: int| start + m));
                }
            }
            Some((start as i32, hits))
        },
        None => {
            let ghost tv = t@;
            let ghost qv = q@;
            proof {
                if qv.len() == 0 {
                    assert(tv.subrange(0, 0) =~= qv);
                }
            }
            let mut best: Option<(i32, Vec<usize>)> = None;
            let mut start: usize = 0;
            while start < t.len()
                invariant
                    tv == t@,
                    qv == q@,
                    qv.len() > 0,
                    start <= tv.len(),
                    best_from(tv, qv, 0, None) == best_from(tv, qv, start as int, match_view(best)),
                ensures
                    best_from(tv, qv, 0, None) == match_view(best),
                decreases tv.len() - start,
            {
                if t[start] != q[0] {
                    start += 1;
                } else {
                    let hits = greedy(&t, &q, start);
                    if hits.len() < q.len() {
                        break;
                    }
                    let first = hits[0];
                    let last = hits[hits.len() - 1];
                    let score = ((100 + 4 * (last as u128 - first as u128) + start as u128) as i128) as i32;
                    proof {
                        let hv = hits_view(hits@);
                        assert(hv.last() == last as int);
                        assert(hv[0] == first as int);
                        assert(score == subsequence_score(hv, start as int));
                    }
                    let better = match &best {
                        Some(b) => score < b.0,
                        None => true,
                    };
                    if better {
                        best = Some((score, hits));
                    }
                    start += 1;
                }
            }
            best
        },
    }
}

/// `fuzzy` where it is defined; `None` where the substring it finds does not start on a
/// character of `target`.
pub fn fuzzy_checked(query: &str, target: &str) -> (r: Option<Option<(i32, Vec<usize>)>>)
    ensures
        match r {
            Some(m) => fuzzy_defined(query@, target@) && match_view(m) == spec_fuzzy(query@, target@),
            None => !fuzzy_defined(query@, target@),
        },
{
    if query.is_empty() {
        return Some(fuzzy(query, target));
    }
    let lq = lowercase(query);
    let lt = lowercase(target);
    let q = chars_of(lq.as_str());
    let t = chars_of(lt.as_str());
    match find_chars(&t, &q) {
        Some(k) => {
            proof {
                lemma_find_from_bounds(t@, q@, 0);
            }
            let n = prefix_bytes(&t, k);
            let tc = chars_of(target);
            match chars_within(&tc, n) {
                Some(s) => if s <= usize::MAX - q.len() {
                    Some(fuzzy(query, target))
                } else {
                    None
                },
                None => None,
            }
        },
        None => Some(fuzzy(query, target)),
    }
}


// ---- tasks and results ----

/// Background work the chrome asks for.
#[derive(Clone, Debug)]
pub enum Task {
    Search { generation: u64, cwd: String, query: String, args: Vec<String> },
    GitStatus { cwd: String },
    GitStage { cwd: String, path: String, stage: bool },
    GitCommit { cwd: String, message: String },
    ListFiles { cwd: String },
}

#[derive(Clone, Debug)]
pub struct SearchHit {
    pub path: String,
    pub file: String,
    pub line: u64,
    pub col: u64,
    pub text: String,
}

#[derive(Clone, Debug)]
pub struct GitStatus {
    pub branch: String,
    pub staged: Vec<GitEntry>,
    pub unstaged: Vec<GitEntry>,
    pub error: Option<String>,
}

#[derive(Clone, Debug)]
pub struct GitEntry {
    pub path: String,
    /// One letter: M, A, D, R, ?, etc.
    pub status: char,
}

#[derive(Clone, Debug)]
pub enum TaskResult {
    Search { generation: u64, hits: Vec<SearchHit>, error: Option<String> },
    GitStatus(GitStatus),
    GitDone { error: Option<String> },
    Files { cwd: String, files: Vec<String> },
}

impl GitStatus {
    pub fn new() -> (s: GitStatus)
        ensures
            s.branch@ == Seq::<char>::empty(),
            s.staged@.len() == 0,
            s.unstaged@.len() == 0,
            s.error is None,
    {
        GitStatus { branch: String::new(), staged: Vec::new(), unstaged: Vec::new(), error: None }
    }
}


/// `hits` picks `q` out of `t`: one increasing position per character of `q`, each showing it.
pub open spec fn spells(t: Seq<char>, q: Seq<char>, hits: Seq<int>) -> bool {
    &&& hits.len() == q.len()
    &&& forall|k: int| 0 <= k < hits.len() ==> 0 <= #[trigger] hits[k] < t.len() && t[hits[k]] == q[k]
    &&& forall|a: int, b: int| 0 <= a < b < hits.len() ==> #[trigger] hits[a] < #[trigger] hits[b]
}

proof fn lemma_greedy_spells(t: Seq<char>, q: Seq<char>, ti: int, qi: int)
    requires
        0 <= ti,
        0 <= qi <= q.len(),
    ensures
        ({
            let g = greedy_from(t, q, ti, qi);
            &&& g.len() <= q.len() - qi
            &&& forall|k: int| 0 <= k < g.len() ==> ti <= #[trigger] g[k] < t.len() && t[g[k]] == q[qi + k]
            &&& forall|a: int, b: int| 0 <= a < b < g.len() ==> #[trigger] g[a] < #[trigger] g[b]
        }),
    decreases t.len() - ti,
{
    if ti < t.len() {
        if qi < q.len() && t[ti] == q[qi] {
            lemma_greedy_spells(t, q, ti + 1, qi + 1);
            let rest = greedy_from(t, q, ti + 1, qi + 1);
            let g = seq![ti] + rest;
            assert forall|k: int| 0 < k < g.len() implies #[trigger] g[k] == rest[k - 1] by {}
        } else {
            lemma_greedy_spells(t, q, ti + 1, qi);
        }
    }
}

proof fn lemma_best_spells(t: Seq<char>, q: Seq<char>, start: int, best: Option<(i32, Seq<int>)>)
    requires
        0 <= start,
        best matches Some(b) ==> spells(t, q, b.1),
    ensures
        best_from(t, q, start, best) matches Some(b) ==> spells(t, q, b.1),
    decreases t.len() - start,
{
    if start < t.len() && q.len() > 0 {
        if t[start] != q[0] {
            lemma_best_spells(t, q, start + 1, best);
        } else {
            let hits = greedy_from(t, q, start, 0);
            lemma_greedy_spells(t, q, start, 0);
            if hits.len() >= q.len() {
                let score = subsequence_score(hits, start);
                let next = match best {
                    Some(b) => if score < b.0 {
                        Some((score, hits))
                    } else {
                        best
                    },
                    None => Some((score, hits)),
                };
                lemma_best_spells(t, q, start + 1, next);
            }
        }
    }
}

/// When the query is not a substring of the target (ignoring case), a fuzzy match is a
/// subsequence: its hits are increasing positions of the lower-cased target that spell the
/// lower-cased query.
pub proof fn law_fuzzy_hits_spell_query(query: Seq<char>, target: Seq<char>)
    requires
        query.len() > 0,
        find_from(spec_lowercase(target), spec_lowercase(query), 0) is None,
    ensures
        spec_fuzzy(query, target) matches Some(m) ==> spells(spec_lowercase(target), spec_lowercase(query), m.1),
{
    lemma_best_spells(spec_lowercase(target), spec_lowercase(query), 0, None);
}


// ---- what ripgrep and git print ----

/// `s` without one `\r` at its end.
pub open spec fn strip_cr(s: Seq<char>) -> Seq<char> {
    if s.len() > 0 && s.last() == '\r' { s.drop_last() } else { s }
}

/// The lines of `t`, as `str::lines` gives them: split after each `\n`, which is dropped with
/// a `\r` just before it; a last line with no `\n` after it counts when it is not empty.
pub open spec fn spec_lines(t: Seq<char>) -> Seq<Seq<char>> {
    let parts = split_at_char(t, '\n');
    let full = Seq::new((parts.len() - 1) as nat, |i: int| strip_cr(parts[i]));
    if parts.last().len() > 0 { full.push(parts.last()) } else { full }
}

pub open spec fn strings_view(v: Seq<String>) -> Seq<Seq<char>> {
    Seq::new(v.len(), |i: int| v[i]@)
}

fn strip_cr_chars(cur: &Vec<char>) -> (s: String)
    ensures
        s@ == strip_cr(cur@),
{
    if cur.len() > 0 && cur[cur.len() - 1] == '\r' {
        let mut v: Vec<char> = Vec::new();
        let mut i: usize = 0;
        let last = cur.len() - 1;
        while i < last
            invariant
                last == cur@.len() - 1,
                cur@.len() > 0,
                i <= cur@.len() - 1,
                v@ == cur@.take(i as int),
            decreases cur@.len() - i,
        {
            v.push(cur[i]);
            i += 1;
            proof {
                assert(cur@.take(i as int) =~= cur@.take(i - 1).push(cur@[i - 1]));
            }
        }
        proof {
            assert(cur@.take(i as int) =~= cur@.drop_last());
        }
        string_from_chars(v.as_slice())
    } else {
        string_from_chars(cur.as_slice())
    }
}

/// The lines of `t` (see `spec_lines`).
pub fn lines_of(t: &str) -> (lines: Vec<String>)
    ensures
        strings_view(lines@) == spec_lines(t@),
{
    let cs = chars_of(t);
    let mut out: Vec<String> = Vec::new();
    let mut cur: Vec<char> = Vec::new();
    let ghost mut done: Seq<Seq<char>> = Seq::empty();
    let mut i: usize = 0;
    proof {
        assert(cs@.take(0) =~= Seq::<char>::empty());
        assert(done.push(cur@) =~= seq![Seq::<char>::empty()]);
        assert(strings_view(out@) =~= Seq::new(done.len(), |k: int| strip_cr(done[k])));
    }
    while i < cs.len()
        invariant
            cs@ == t@,
            i <= cs@.len(),
            split_at_char(cs@.take(i as int), '\n') == done.push(cur@),
            strings_view(out@) == Seq::new(done.len(), |k: int| strip_cr(done[k])),
        decreases cs@.len() - i,
    {
        proof {
            assert(cs@.take(i + 1).drop_last() =~= cs@.take(i as int));
        }
        if cs[i] == '\n' {
            let line = strip_cr_chars(&cur);
            let ghost before = strings_view(out@);
            out.push(line);
            proof {
                assert(done.push(cur@).drop_last() =~= done);
                let nd = done.push(cur@);
                assert(strings_view(out@) =~= before.push(strip_cr(cur@)));
                assert(before.push(strip_cr(cur@)) =~= Seq::new(nd.len(), |k: int| strip_cr(nd[k])));
                done = nd;
                assert(done.push(Seq::<char>::empty()) =~= split_at_char(cs@.take(i + 1), '\n'));
            }
            cur = Vec::new();
        } else {
            let ghost old_cur = cur@;
            cur.push(cs[i]);
            proof {
                assert(done.push(old_cur).update(done.len() as int, old_cur.push(cs@[i as int])) =~= done.push(cur@));
            }
        }
        i += 1;
    }
    proof {
        assert(cs@.take(i as int) =~= cs@);
        let parts = done.push(cur@);
        assert(Seq::new((parts.len() - 1) as nat, |k: int| strip_cr(parts[k])) =~= Seq::new(done.len(), |k: int| strip_cr(done[k])));
    }
    if cur.len() > 0 {
        let ghost before = strings_view(out@);
        out.push(string_from_chars(cur.as_slice()));
        proof {
            assert(strings_view(out@) =~= before.push(cur@));
        }
    }
    out
}

/// The value of a run of decimal digits.
pub open spec fn digits_value(d: Seq<char>) -> nat
    decreases d.len(),
{
    if d.len() == 0 { 0 } else { digits_value(d.drop_last()) * 10 + ((d.last() as u32) - 48) as nat }
}

pub open spec fn all_digits(d: Seq<char>) -> bool {
    forall|i: int| 0 <= i < d.len() ==> '0' <= #[trigger] d[i] <= '9'
}

/// `str::parse::<u64>`: an optional `+` and at least one decimal digit, with a value that fits.
pub open spec fn spec_parse_u64(s: Seq<char>) -> Option<u64> {
    let d = if s.len() > 0 && s[0] == '+' { s.skip(1) } else { s };
    if d.len() > 0 && all_digits(d) && digits_value(d) <= u64::MAX {
        Some(digits_value(d) as u64)
    } else {
        None
    }
}

proof fn lemma_digits_grow(d: Seq<char>, c: char)
    requires
        '0' <= c <= '9',
    ensures
        digits_value(d.push(c)) >= digits_value(d),
{
    assert(d.push(c).drop_last() =~= d);
}

proof fn lemma_digits_prefix_bound(d: Seq<char>, i: int)
    requires
        0 <= i <= d.len(),
        all_digits(d),
    ensures
        digits_value(d.take(i)) <= digits_value(d),
    decreases d.len() - i,
{
    if i < d.len() {
        lemma_digits_prefix_bound(d, i + 1);
        assert(d.take(i + 1).drop_last() =~= d.take(i));
        lemma_digits_grow(d.take(i), d[i]);
        assert(d.take(i).push(d[i]) =~= d.take(i + 1));
    } else {
        assert(d.take(i) =~= d);
    }
}

/// Read a `u64` as `str::parse` does (see `spec_parse_u64`).
pub fn parse_u64(s: &Vec<char>) -> (r: Option<u64>)
    ensures
        r == spec_parse_u64(s@),
{
    let start: usize = if s.len() > 0 && s[0] == '+' { 1 } else { 0 };
    let ghost d = if s@.len() > 0 && s@[0] == '+' { s@.skip(1) } else { s@ };
    proof {
        assert(d =~= s@.skip(start as int));
    }
    if start >= s.len() {
        return None;
    }
    let mut v: u64 = 0;
    let mut i: usize = start;
    while i < s.len()
        invariant
            start <= i <= s@.len(),
            d == s@.skip(start as int),
            d == (if s@.len() > 0 && s@[0] == '+' { s@.skip(1) } else { s@ }),
            all_digits(d.take(i - start)),
            v == digits_value(d.take(i - start)),
        decreases s@.len() - i,
    {
        let c = s[i];
        proof {
            assert(d.take(i + 1 - start).drop_last() =~= d.take(i - start));
            assert(d[i - start] == c);
        }
        if !('0' <= c && c <= '9') {
            proof {
                assert(d.len() == s@.len() - start);
                assert(0 <= i - start < d.len());
                assert(!('0' <= d[i - start] <= '9'));
                assert(!all_digits(d));
            }
            return None;
        }
        let digit: u64 = (c as u32 - 48) as u64;
        proof {
            let p = d.take(i + 1 - start);
            assert(p.last() == c);
            assert(p.drop_last() =~= d.take(i - start));
            assert(digits_value(p) == digits_value(p.drop_last()) * 10 + ((p.last() as u32) - 48) as nat);
            assert(digits_value(p) == v * 10 + digit);
            assert forall|k: int| 0 <= k < p.len() implies '0' <= #[trigger] p[k] <= '9' by {
                if k < p.len() - 1 {
                    assert(p[k] == d.take(i - start)[k]);
                }
            }
        }
        if v > (u64::MAX - digit) / 10 {
            proof {
                assert(all_digits(d.take(i + 1 - start)));
                assert(digits_value(d.take(i + 1 - start)) > u64::MAX) by (nonlinear_arith)
                    requires
                        digits_value(d.take(i + 1 - start)) == v * 10 + digit,
                        v > (u64::MAX - digit) / 10,
                        digit <= 9,
                ;
                if all_digits(d) {
                    lemma_digits_prefix_bound(d, i + 1 - start);
                }
            }
            return None;
        }
        proof {
            assert(v * 10 + digit <= u64::MAX) by (nonlinear_arith)
                requires
                    v <= (u64::MAX - digit) / 10,
                    digit <= 9,
            ;
        }
        v = v * 10 + digit;
        i += 1;
    }
    proof {
        assert(d.take(i - start) =~= d);
    }
    Some(v)
}


/// The first position from `k` on where `c` is.
pub open spec fn index_from(s: Seq<char>, c: char, k: int) -> Option<int>
    decreases s.len() - k,
{
    if k < 0 || k >= s.len() {
        None
    } else if s[k] == c {
        Some(k)
    } else {
        index_from(s, c, k + 1)
    }
}

proof fn lemma_index_from_bounds(s: Seq<char>, c: char, k: int)
    requires
        index_from(s, c, k) is Some,
    ensures
        k <= index_from(s, c, k).unwrap() < s.len(),
    decreases s.len() - k,
{
    if 0 <= k < s.len() && s[k] != c {
        lemma_index_from_bounds(s, c, k + 1);
    }
}

fn find_char(s: &Vec<char>, c: char, k: usize) -> (r: Option<usize>)
    ensures
        match r {
            Some(i) => index_from(s@, c, k as int) == Some(i as int),
            None => index_from(s@, c, k as int) is None,
        },
{
    let mut i = k;
    while i < s.len()
        invariant
            k <= i,
            index_from(s@, c, k as int) == index_from(s@, c, i as int),
        decreases s@.len() - i,
    {
        if s[i] == c {
            return Some(i);
        }
        i += 1;
    }
    None
}

/// The four fields of `path:line:col:text` (`splitn(4, ':')`: the text keeps its colons),
/// when there are all four.
pub open spec fn colon_fields(s: Seq<char>) -> Option<(Seq<char>, Seq<char>, Seq<char>, Seq<char>)> {
    match index_from(s, ':', 0) {
        Some(a) => match index_from(s, ':', a + 1) {
            Some(b) => match index_from(s, ':', b + 1) {
                Some(c) => Some((s.take(a), s.subrange(a + 1, b), s.subrange(b + 1, c), s.skip(c + 1))),
                None => None,
            },
            None => None,
        },
        None => None,
    }
}

/// A line without the `./` or `.\` ripgrep puts before paths.
pub open spec fn strip_dot(line: Seq<char>) -> Seq<char> {
    if line.len() >= 2 && line[0] == '.' && (line[1] == '\\' || line[1] == '/') {
        line.skip(2)
    } else {
        line
    }
}

/// `p` with every backslash turned into a slash.
pub open spec fn slashes(p: Seq<char>) -> Seq<char> {
    Seq::new(p.len(), |i: int| if p[i] == '\\' { '/' } else { p[i] })
}

/// One line of `rg --vimgrep`: the path (as printed), the path with slashes, the line, the
/// column and the trimmed text; none when the line is not `path:line:col:text` with numbers.
pub open spec fn spec_rg_hit(line: Seq<char>) -> Option<(Seq<char>, Seq<char>, u64, u64, Seq<char>)> {
    match colon_fields(strip_dot(line)) {
        Some((p, l, c, t)) => match (spec_parse_u64(l), spec_parse_u64(c)) {
            (Some(l), Some(c)) => Some((p, slashes(p), l, c, trimmed(t))),
            _ => None,
        },
        None => None,
    }
}

/// The hits of some lines, in order.
pub open spec fn spec_rg_hits(lines: Seq<Seq<char>>) -> Seq<(Seq<char>, Seq<char>, u64, u64, Seq<char>)>
    decreases lines.len(),
{
    if lines.len() == 0 {
        Seq::empty()
    } else {
        let before = spec_rg_hits(lines.drop_last());
        match spec_rg_hit(lines.last()) {
            Some(h) => before.push(h),
            None => before,
        }
    }
}

fn sub_chars(cs: &Vec<char>, start: usize, end: usize) -> (r: Vec<char>)
    requires
        start <= end <= cs@.len(),
    ensures
        r@ == cs@.subrange(start as int, end as int),
{
    let mut r: Vec<char> = Vec::new();
    let mut i = start;
    while i < end
        invariant
            start <= i <= end <= cs@.len(),
            r@ == cs@.subrange(start as int, i as int),
        decreases end - i,
    {
        r.push(cs[i]);
        i += 1;
        proof {
            assert(cs@.subrange(start as int, i as int) =~= cs@.subrange(start as int, i - 1).push(cs@[i - 1]));
        }
    }
    r
}

/// One line of `rg --vimgrep` read (see `spec_rg_hit`): the path as printed, and the hit.
fn rg_hit(line: &str) -> (r: Option<(String, String, u64, u64, String)>)
    ensures
        match r {
            Some((p, f, l, c, t)) => spec_rg_hit(line@) == Some((p@, f@, l, c, t@)),
            None => spec_rg_hit(line@) is None,
        },
{
    let raw = chars_of(line);
    let s = if raw.len() >= 2 && raw[0] == '.' && (raw[1] == '\\' || raw[1] == '/') {
        sub_chars(&raw, 2, raw.len())
    } else {
        proof {
            assert(raw@.subrange(0, raw@.len() as int) =~= raw@);
        }
        sub_chars(&raw, 0, raw.len())
    };
    proof {
        assert(s@ == strip_dot(line@));
    }
    let a = match find_char(&s, ':', 0) {
        Some(a) => a,
        None => return None,
    };
    proof {
        lemma_index_from_bounds(s@, ':', 0);
    }
    let b = match find_char(&s, ':', a + 1) {
        Some(b) => b,
        None => return None,
    };
    proof {
        lemma_index_from_bounds(s@, ':', a + 1);
    }
    let c = match find_char(&s, ':', b + 1) {
        Some(c) => c,
        None => return None,
    };
    proof {
        lemma_index_from_bounds(s@, ':', b + 1);
    }
    let p = sub_chars(&s, 0, a);
    let l = parse_u64(&sub_chars(&s, a + 1, b));
    let col = parse_u64(&sub_chars(&s, b + 1, c));
    let t = sub_chars(&s, c + 1, s.len());
    proof {
        assert(s@.take(a as int) =~= p@);
        assert(s@.skip(c + 1) =~= t@);
    }
    match (l, col) {
        (Some(l), Some(col)) => {
            let mut f: Vec<char> = Vec::new();
            let mut i: usize = 0;
            while i < p.len()
                invariant
                    i <= p@.len(),
                    f@ == slashes(p@).take(i as int),
                decreases p@.len() - i,
            {
                f.push(if p[i] == '\\' { '/' } else { p[i] });
                i += 1;
                proof {
                    assert(slashes(p@).take(i as int) =~= slashes(p@).take(i - 1).push(slashes(p@)[i - 1]));
                }
            }
            proof {
                assert(slashes(p@).take(i as int) =~= slashes(p@));
            }
            let text = trim(string_from_chars(t.as_slice()).as_str());
            Some((string_from_chars(p.as_slice()), string_from_chars(f.as_slice()), l, col, text))
        },
        _ => None,
    }
}

/// The hits of the first 2000 lines of `stdout`.
pub open spec fn spec_search_hits(stdout: Seq<char>) -> Seq<(Seq<char>, Seq<char>, u64, u64, Seq<char>)> {
    let lines = spec_lines(stdout);
    spec_rg_hits(if lines.len() > 2000 { lines.take(2000) } else { lines })
}

/// Is `h` the hit read from a line, but for its full path (the path under the folder searched,
/// joined the way the platform joins paths)?
pub open spec fn hit_is(h: SearchHit, v: (Seq<char>, Seq<char>, u64, u64, Seq<char>)) -> bool {
    h.file@ == v.1 && h.line == v.2 && h.col == v.3 && h.text@ == v.4
}

/// The hits in what `rg --vimgrep` printed: the first 2000 lines are read and those that are
/// not `path:line:col:text` with numbers are skipped. Each hit's full path is `cwd` joined
/// with the path ripgrep printed.
pub fn rg_hits(cwd: &str, stdout: &str) -> (hits: Vec<SearchHit>)
    ensures
        hits@.len() == spec_search_hits(stdout@).len(),
        forall|k: int| 0 <= k < hits@.len() ==> #[trigger] hit_is(hits@[k], spec_search_hits(stdout@)[k]),
{
    let lines = lines_of(stdout);
    let ghost lv = strings_view(lines@);
    let n = if lines.len() > 2000 { 2000 } else { lines.len() };
    let mut hits: Vec<SearchHit> = Vec::new();
    let mut i: usize = 0;
    while i < n
        invariant
            n <= lines@.len(),
            lv == strings_view(lines@),
            i <= n,
            hits@.len() == spec_rg_hits(lv.take(i as int)).len(),
            forall|k: int| 0 <= k < hits@.len() ==> #[trigger] hit_is(hits@[k], spec_rg_hits(lv.take(i as int))[k]),
        decreases n - i,
    {
        proof {
            assert(lv.take(i + 1).drop_last() =~= lv.take(i as int));
            assert(lv.take(i + 1).last() == lines@[i as int]@);
        }
        match rg_hit(lines[i].as_str()) {
            Some((p, file, line, col, text)) => {
                let path = crate::workbench::join_path(cwd, p.as_str());
                hits.push(SearchHit { path, file, line, col, text });
            },
            None => {},
        }
        i += 1;
    }
    proof {
        if lines@.len() > 2000 {
            assert(lv.take(i as int) =~= lv.take(2000));
        } else {
            assert(lv.take(i as int) =~= lv);
        }
    }
    hits
}

/// Is the search query blank? Then no search runs and the result is empty.
pub fn search_is_blank(query: &str) -> (b: bool)
    ensures
        b == (trimmed(query@).len() == 0),
{
    trim(query).as_str().is_empty()
}

/// The result of a search ripgrep ran: its hits, and its error (the trimmed text it printed on
/// stderr) when it failed and found nothing.
pub fn search_result(generation: u64, cwd: &str, success: bool, stdout: &str, stderr: &str) -> (r: TaskResult)
    ensures
        r matches TaskResult::Search { generation: g, hits, error } && g == generation
            && hits@.len() == spec_search_hits(stdout@).len()
            && (forall|k: int| 0 <= k < hits@.len() ==> #[trigger] hit_is(hits@[k], spec_search_hits(stdout@)[k]))
            && match error {
                Some(e) => !success && spec_search_hits(stdout@).len() == 0 && stderr@.len() > 0 && e@ == trimmed(stderr@),
                None => success || spec_search_hits(stdout@).len() > 0 || stderr@.len() == 0,
            },
{
    let hits = rg_hits(cwd, stdout);
    let error = if !success && hits.len() == 0 && !stderr.is_empty() { Some(trim(stderr)) } else { None };
    TaskResult::Search { generation, hits, error }
}


/// A `git status` as values: the branch, and the staged and unstaged changes (path, letter).
pub struct GitStatusView {
    pub branch: Seq<char>,
    pub staged: Seq<(Seq<char>, char)>,
    pub unstaged: Seq<(Seq<char>, char)>,
}

pub open spec fn entries_view(v: Seq<GitEntry>) -> Seq<(Seq<char>, char)> {
    Seq::new(v.len(), |i: int| (v[i].path@, v[i].status))
}

/// The part of `rest` before its first `...` (the upstream branch follows it).
pub open spec fn before_dots(rest: Seq<char>) -> Seq<char> {
    match find_from(rest, "..."@, 0) {
        Some(k) => rest.take(k),
        None => rest,
    }
}

pub open spec fn starts_with_branch(line: Seq<char>) -> bool {
    line.len() >= 3 && line[0] == '#' && line[1] == '#' && line[2] == ' '
}

/// The text after the first three bytes of `line` (the two status letters and a space).
pub open spec fn after_status(line: Seq<char>) -> Seq<char> {
    vstd::utf8::decode_utf8(vstd::utf8::encode_utf8(line).skip(3))
}

/// Can the shell read `line`? A change line (not a branch line, four bytes or more) must have
/// a character start after its third byte, where the shell cuts the path off.
pub open spec fn git_line_ok(line: Seq<char>) -> bool {
    !starts_with_branch(line) && vstd::utf8::encode_utf8(line).len() >= 4 ==> vstd::utf8::is_char_boundary(
        vstd::utf8::encode_utf8(line),
        3,
    )
}

/// One line of `git status --porcelain=v1 -b`: `## branch...upstream` names the branch; a
/// change line `XY path` with `X` = `?` is untracked (unstaged `?`); otherwise a letter other
/// than a space in `X` is a staged change and one in `Y` an unstaged one. `X` and `Y` are read
/// as bytes; shorter lines are skipped.
pub open spec fn git_step(st: GitStatusView, line: Seq<char>) -> GitStatusView {
    if starts_with_branch(line) {
        GitStatusView { branch: before_dots(line.skip(3)), ..st }
    } else if vstd::utf8::encode_utf8(line).len() < 4 {
        st
    } else {
        let bytes = vstd::utf8::encode_utf8(line);
        let x = bytes[0] as char;
        let y = bytes[1] as char;
        let path = after_status(line);
        if x == '?' {
            GitStatusView { unstaged: st.unstaged.push((path, '?')), ..st }
        } else {
            let st1 = if x != ' ' { GitStatusView { staged: st.staged.push((path, x)), ..st } } else { st };
            if y != ' ' { GitStatusView { unstaged: st1.unstaged.push((path, y)), ..st1 } } else { st1 }
        }
    }
}

pub open spec fn git_fold(lines: Seq<Seq<char>>) -> GitStatusView
    decreases lines.len(),
{
    if lines.len() == 0 {
        GitStatusView { branch: Seq::empty(), staged: Seq::empty(), unstaged: Seq::empty() }
    } else {
        git_step(git_fold(lines.drop_last()), lines.last())
    }
}

pub open spec fn git_view(s: &GitStatus) -> GitStatusView {
    GitStatusView { branch: s.branch@, staged: entries_view(s.staged@), unstaged: entries_view(s.unstaged@) }
}

fn push_entry(v: &mut Vec<GitEntry>, path: &String, status: char)
    ensures
        entries_view(final(v)@) == entries_view(old(v)@).push((path@, status)),
{
    let ghost before = entries_view(v@);
    v.push(GitEntry { path: string_from_chars(chars_of(path.as_str()).as_slice()), status });
    proof {
        assert(entries_view(v@) =~= before.push((path@, status)));
    }
}

fn git_line(st: &mut GitStatus, line: &String)
    requires
        git_line_ok(line@),
    ensures
        git_view(final(st)) == git_step(git_view(old(st)), line@),
        final(st).error == old(st).error,
{
    let cs = chars_of(line.as_str());
    if cs.len() >= 3 && cs[0] == '#' && cs[1] == '#' && cs[2] == ' ' {
        let rest = crate::text::substring(&cs, 3, cs.len());
        let rc = chars_of(rest.as_str());
        let dots = chars_of("...");
        proof {
            reveal_strlit("...");
            assert(rest@ =~= line@.skip(3));
        }
        match find_chars(&rc, &dots) {
            Some(k) => {
                proof {
                    lemma_find_from_bounds(rc@, dots@, 0);
                }
                st.branch = crate::text::substring(&rc, 0, k);
                proof {
                    assert(rc@.subrange(0, k as int) =~= rc@.take(k as int));
                    assert(st.branch@ == before_dots(line@.skip(3)));
                }
            },
            None => {
                st.branch = rest;
                proof {
                    assert(st.branch@ == before_dots(line@.skip(3)));
                }
            },
        }
        proof {
            assert(starts_with_branch(line@));
        }
        return;
    }
    let s = line.as_str();
    proof {
        assert(!starts_with_branch(line@));
    }
    let b = s.as_bytes();
    if b.len() < 4 {
        return;
    }
    let x = b[0] as char;
    let y = b[1] as char;
    let (_, rest) = s.split_at(3);
    let path = rest.to_owned();
    proof {
        vstd::utf8::encode_utf8_decode_utf8(path@);
        assert(path@ == after_status(line@));
    }
    if x == '?' {
        push_entry(&mut st.unstaged, &path, '?');
        return;
    }
    if x != ' ' {
        push_entry(&mut st.staged, &path, x);
    }
    if y != ' ' {
        push_entry(&mut st.unstaged, &path, y);
    }
}

/// What `git status --porcelain=v1 -b` reported: on success the branch and the changes, read
/// line by line (see `git_step`); on failure the trimmed text git printed on stderr as the
/// error.
pub fn parse_git_status(success: bool, stdout: &str, stderr: &str) -> (st: GitStatus)
    requires
        success ==> forall|i: int| 0 <= i < spec_lines(stdout@).len() ==> git_line_ok(#[trigger] spec_lines(stdout@)[i]),
    ensures
        success ==> git_view(&st) == git_fold(spec_lines(stdout@)) && st.error is None,
        !success ==> st.branch@.len() == 0 && st.staged@.len() == 0 && st.unstaged@.len() == 0 && (st.error matches Some(
            e,
        ) && e@ == trimmed(stderr@)),
{
    let mut st = GitStatus::new();
    if !success {
        st.error = Some(trim(stderr));
        return st;
    }
    let lines = lines_of(stdout);
    let ghost lv = strings_view(lines@);
    let mut i: usize = 0;
    proof {
        assert(entries_view(st.staged@) =~= Seq::<(Seq<char>, char)>::empty());
        assert(entries_view(st.unstaged@) =~= Seq::<(Seq<char>, char)>::empty());
        assert(lv.take(0) =~= Seq::<Seq<char>>::empty());
    }
    while i < lines.len()
        invariant
            i <= lines@.len(),
            lv == strings_view(lines@),
            lv == spec_lines(stdout@),
            forall|j: int| 0 <= j < lv.len() ==> git_line_ok(#[trigger] lv[j]),
            git_view(&st) == git_fold(lv.take(i as int)),
            st.error is None,
        decreases lines@.len() - i,
    {
        proof {
            assert(lv.take(i + 1).drop_last() =~= lv.take(i as int));
            assert(lv[i as int] == lines@[i as int]@);
        }
        git_line(&mut st, &lines[i]);
        i += 1;
    }
    proof {
        assert(lv.take(i as int) =~= lv);
    }
    st
}


/// Can `parse_git_status` read this output (its `requires`): does every change line have a
/// character start after its third byte?
pub fn git_output_readable(stdout: &str) -> (b: bool)
    ensures
        b == forall|i: int| 0 <= i < spec_lines(stdout@).len() ==> git_line_ok(#[trigger] spec_lines(stdout@)[i]),
{
    let lines = lines_of(stdout);
    let ghost lv = strings_view(lines@);
    let mut i: usize = 0;
    while i < lines.len()
        invariant
            i <= lines@.len(),
            lv == strings_view(lines@),
            lv == spec_lines(stdout@),
            forall|j: int| 0 <= j < i ==> git_line_ok(#[trigger] lv[j]),
        decreases lines@.len() - i,
    {
        let cs = chars_of(lines[i].as_str());
        let branch = cs.len() >= 3 && cs[0] == '#' && cs[1] == '#' && cs[2] == ' ';
        let s = lines[i].as_str();
        let b = s.as_bytes();
        proof {
            assert(lv[i as int] == lines@[i as int]@);
        }
        if !branch && b.len() >= 4 && !s.is_char_boundary(3) {
            proof {
                assert(!git_line_ok(lv[i as int]));
            }
            return false;
        }
        i += 1;
    }
    true
}

} // verus!
