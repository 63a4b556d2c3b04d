//! Words of a rendered line: the text of neighbouring non-blank cells, with the UTF-8 size
//! of each cell's cluster so the renderer can place every cluster in its own cell.

use vstd::prelude::*;

use crate::text::{chars_of, push_char};

verus! {

/// How many bytes UTF-8 takes for `c`.
pub open spec fn utf8_len(c: char) -> nat {
    if (c as u32) < 0x80 {
        1
    } else if (c as u32) < 0x800 {
        2
    } else if (c as u32) < 0x10000 {
        3
    } else {
        4
    }
}

/// How many bytes UTF-8 takes for `s`.
pub open spec fn bytes_len(s: Seq<char>) -> nat
    decreases s.len(),
{
    if s.len() == 0 {
        0
    } else {
        bytes_len(s.drop_last()) + utf8_len(s.last())
    }
}

/// Unicode's `White_Space` characters, as `char::is_whitespace` knows them.
pub open spec fn is_white_space(c: char) -> bool {
    let n = c as u32;
    (0x09 <= n <= 0x0d) || n == 0x20 || n == 0x85 || n == 0xa0 || n == 0x1680 || (0x2000 <= n <= 0x200a) || n
        == 0x2028 || n == 0x2029 || n == 0x202f || n == 0x205f || n == 0x3000
}

pub fn char_utf8_len(c: char) -> (n: u64)
    ensures
        n == utf8_len(c),
{
    let n = c as u32;
    if n < 0x80 {
        1
    } else if n < 0x800 {
        2
    } else if n < 0x10000 {
        3
    } else {
        4
    }
}

pub fn is_whitespace(c: char) -> (b: bool)
    ensures
        b == is_white_space(c),
{
    let n = c as u32;
    (0x09 <= n && n <= 0x0d) || n == 0x20 || n == 0x85 || n == 0xa0 || n == 0x1680 || (0x2000 <= n && n <= 0x200a)
        || n == 0x2028 || n == 0x2029 || n == 0x202f || n == 0x205f || n == 0x3000
}

pub proof fn lemma_bytes_len_push(s: Seq<char>, c: char)
    ensures
        bytes_len(s.push(c)) == bytes_len(s) + utf8_len(c),
{
    assert(s.push(c).drop_last() =~= s);
}

/// The byte length of `s`, or 256 when it is longer than 255 bytes.
pub fn capped_bytes_len(s: &str) -> (n: u64)
    ensures
        n == if bytes_len(s@) > 255 { 256 } else { bytes_len(s@) },
{
    let cs = chars_of(s);
    let mut total: u64 = 0;
    let mut i: usize = 0;
    while i < cs.len()
        invariant
            cs@ == s@,
            i <= cs@.len(),
            total == bytes_len(cs@.take(i as int)),
            total <= 255,
        decreases cs@.len() - i,
    {
        proof {
            assert(cs@.take(i + 1) =~= cs@.take(i as int).push(cs@[i as int]));
            lemma_bytes_len_push(cs@.take(i as int), cs@[i as int]);
        }
        total = total + char_utf8_len(cs[i]);
        i += 1;
        if total > 255 {
            proof {
                lemma_bytes_len_prefix(cs@, i as int);
            }
            return 256;
        }
    }
    proof {
        assert(cs@.take(i as int) =~= cs@);
    }
    total
}

/// A prefix takes no more bytes than the whole.
pub proof fn lemma_bytes_len_prefix(s: Seq<char>, i: int)
    requires
        0 <= i <= s.len(),
    ensures
        bytes_len(s.take(i)) <= bytes_len(s),
    decreases s.len() - i,
{
    if i < s.len() {
        lemma_bytes_len_prefix(s, i + 1);
        assert(s.take(i + 1).drop_last() =~= s.take(i));
    } else {
        assert(s.take(i) =~= s);
    }
}

/// How many characters of `s`, from position `i`, make up exactly `n` bytes; none when `n`
/// bytes do not end on a character.
pub open spec fn chars_for(s: Seq<char>, i: int, n: int) -> Option<nat>
    decreases n,
{
    if n == 0 {
        Some(0)
    } else if n < 0 || i < 0 || i >= s.len() || utf8_len(s[i]) > n {
        None
    } else {
        match chars_for(s, i + 1, n - utf8_len(s[i])) {
            Some(k) => Some(k + 1),
            None => None,
        }
    }
}

/// The clusters of a word from cell `cell` and character `pos` on: each non-zero size takes
/// that many bytes of the text; none when a size does not end on a character.
pub open spec fn clusters_from(s: Seq<char>, sizes: Seq<u8>, cell: int, pos: int) -> Option<Seq<(int, Seq<char>)>>
    decreases sizes.len() - cell,
{
    if cell < 0 || cell >= sizes.len() {
        Some(Seq::empty())
    } else if sizes[cell] == 0 {
        clusters_from(s, sizes, cell + 1, pos)
    } else {
        match chars_for(s, pos, sizes[cell] as int) {
            None => None,
            Some(k) => match clusters_from(s, sizes, cell + 1, pos + k) {
                None => None,
                Some(rest) => Some(seq![(cell, s.subrange(pos, pos + k))] + rest),
            },
        }
    }
}

/// The text of neighbouring non-blank cells of one style.
#[derive(Debug)]
pub struct Word {
    pub text: String,
    /// The cell (relative to the fragment start) where this word begins.
    pub cell: u32,
    /// Byte length of each grapheme cluster; 0 marks the empty right half of a double-width char.
    pub cluster_sizes: Vec<u8>,
}

/// `n` bytes of `cs` from character `i`: the number of characters, if they end on one.
fn take_chars(cs: &Vec<char>, i: usize, n: u64) -> (r: Option<usize>)
    requires
        i <= cs@.len(),
    ensures
        match r {
            Some(k) => chars_for(cs@, i as int, n as int) == Some(k as nat) && i + k <= cs@.len(),
            None => chars_for(cs@, i as int, n as int) is None,
        },
{
    let mut j: usize = i;
    let mut left: u64 = n;
    while left > 0
        invariant
            i <= j <= cs@.len(),
            left <= n,
            chars_for(cs@, i as int, n as int) == match chars_for(cs@, j as int, left as int) {
                Some(k) => Some((k + (j - i)) as nat),
                None => None,
            },
        decreases left,
    {
        if j >= cs.len() {
            return None;
        }
        let b = char_utf8_len(cs[j]);
        if b > left {
            return None;
        }
        left = left - b;
        j = j + 1;
    }
    Some(j - i)
}

impl Word {
    /// (cell offset within the word, cluster text) pairs, skipping the size-0 right halves.
    pub fn clusters(&self) -> (r: Vec<(usize, String)>)
        requires
            clusters_from(self.text@, self.cluster_sizes@, 0, 0) is Some,
        ensures
            r@.len() == clusters_from(self.text@, self.cluster_sizes@, 0, 0).unwrap().len(),
            forall|k: int|
                0 <= k < r@.len() ==> (#[trigger] r@[k]).0 == clusters_from(self.text@, self.cluster_sizes@, 0, 0).unwrap()[k].0
                    && r@[k].1@ == clusters_from(self.text@, self.cluster_sizes@, 0, 0).unwrap()[k].1,
    {
        let ghost all = clusters_from(self.text@, self.cluster_sizes@, 0, 0).unwrap();
        let cs = chars_of(self.text.as_str());
        let mut out: Vec<(usize, String)> = Vec::new();
        let mut pos: usize = 0;
        let mut cell: usize = 0;
        while cell < self.cluster_sizes.len()
            invariant
                cs@ == self.text@,
                cell <= self.cluster_sizes@.len(),
                pos <= cs@.len(),
                clusters_from(cs@, self.cluster_sizes@, cell as int, pos as int) is Some,
                all == clusters_from(self.text@, self.cluster_sizes@, 0, 0).unwrap(),
                all.len() == out@.len() + clusters_from(cs@, self.cluster_sizes@, cell as int, pos as int).unwrap().len(),
                forall|k: int| 0 <= k < out@.len() ==> (#[trigger] out@[k]).0 == all[k].0 && out@[k].1@ == all[k].1,
                forall|k: int|
                    0 <= k < clusters_from(cs@, self.cluster_sizes@, cell as int, pos as int).unwrap().len() ==> all[out@.len() + k]
                        == #[trigger] clusters_from(cs@, self.cluster_sizes@, cell as int, pos as int).unwrap()[k],
            decreases self.cluster_sizes@.len() - cell,
        {
            let size = self.cluster_sizes[cell];
            if size == 0 {
                cell += 1;
            } else {
                let k = match take_chars(&cs, pos, size as u64) {
                    Some(k) => k,
                    None => {
                        proof {
                            assert(false);
                        }
                        0
                    },
                };
                let ghost rest = clusters_from(cs@, self.cluster_sizes@, cell + 1, pos + k);
                let end = pos + k;
                let mut piece = String::new();
                let mut j: usize = pos;
                while j < end
                    invariant
                        pos <= j <= end,
                        end == pos + k,
                        end <= cs@.len(),
                        piece@ == cs@.subrange(pos as int, j as int),
                    decreases end - j,
                {
                    push_char(&mut piece, cs[j]);
                    proof {
                        assert(cs@.subrange(pos as int, j + 1) =~= cs@.subrange(pos as int, j as int).push(cs@[j as int]));
                    }
                    j += 1;
                }
                let ghost before = out@;
                out.push((cell, piece));
                proof {
                    let cur = clusters_from(cs@, self.cluster_sizes@, cell as int, pos as int).unwrap();
                    assert(cur == seq![(cell as int, cs@.subrange(pos as int, pos + k))] + rest.unwrap());
                    assert(cur[0] == (cell as int, cs@.subrange(pos as int, pos + k)));
                    assert(all[before.len() as int] == cur[0]);
                    assert forall|q: int| 0 <= q < rest.unwrap().len() implies all[out@.len() + q] == #[trigger] rest.unwrap()[q] by {
                        assert(cur[q + 1] == rest.unwrap()[q]);
                    }
                }
                pos = pos + k;
                cell += 1;
            }
        }
        out
    }
}


impl Word {
    /// Do the cluster sizes cut the text into whole characters (what `clusters` needs)?
    pub fn clusters_well_formed(&self) -> (b: bool)
        ensures
            b == clusters_from(self.text@, self.cluster_sizes@, 0, 0) is Some,
    {
        let cs = chars_of(self.text.as_str());
        let mut pos: usize = 0;
        let mut cell: usize = 0;
        while cell < self.cluster_sizes.len()
            invariant
                cs@ == self.text@,
                cell <= self.cluster_sizes@.len(),
                pos <= cs@.len(),
                (clusters_from(cs@, self.cluster_sizes@, cell as int, pos as int) is Some) == (clusters_from(
                    self.text@,
                    self.cluster_sizes@,
                    0,
                    0,
                ) is Some),
            decreases self.cluster_sizes@.len() - cell,
        {
            let size = self.cluster_sizes[cell];
            if size == 0 {
                cell += 1;
            } else {
                match take_chars(&cs, pos, size as u64) {
                    Some(k) => {
                        pos = pos + k;
                        cell += 1;
                    },
                    None => {
                        return false;
                    },
                }
            }
        }
        true
    }
}

} // verus!
