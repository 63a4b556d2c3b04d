//! Character-level string helpers shared by the parsers and widgets.

use vstd::prelude::*;

verus! {

/// The characters of `s`, in order.
pub fn chars_of(s: &str) -> (v: Vec<char>)
    ensures
        v@ == s@,
{
    let mut v: Vec<char> = Vec::new();
    for c in it: s.chars()
        invariant
            v@ == it.seq().take(it.index() as int),
            it.seq() == s@,
    {
        v.push(c);
    }
    v
}

} // verus!

verus! {

/// `String::push`: appends one character.
#[verifier::external_body]
pub(crate) fn push_char(s: &mut String, c: char)
    ensures
        final(s)@ == old(s)@.push(c),
{
    s.push(c);
}

/// A string holding exactly `chars`.
pub fn string_from_chars(chars: &[char]) -> (s: String)
    ensures
        s@ == chars@,
{
    let mut s = String::new();
    let mut i: usize = 0;
    while i < chars.len()
        invariant
            i <= chars.len(),
            s@ == chars@.take(i as int),
        decreases chars.len() - i,
    {
        push_char(&mut s, chars[i]);
        i += 1;
        proof {
            assert(chars@.take(i as int) =~= chars@.take(i - 1).push(chars@[i - 1]));
        }
    }
    proof {
        assert(chars@.take(chars@.len() as int) =~= chars@);
    }
    s
}

/// The characters of `cs` from `start` to `end`, as a string.
pub fn substring(cs: &Vec<char>, start: usize, end: usize) -> (s: String)
    requires
        start <= end <= cs@.len(),
    ensures
        s@ == cs@.subrange(start as int, end as int),
{
    let mut s = String::new();
    let mut i: usize = start;
    while i < end
        invariant
            start <= i <= end <= cs@.len(),
            s@ == cs@.subrange(start as int, i as int),
        decreases end - i,
    {
        push_char(&mut s, cs[i]);
        i += 1;
        proof {
            assert(s@ =~= cs@.subrange(start as int, i as int));
        }
    }
    s
}

/// `a` followed by `b`.
pub fn concat(a: &str, b: &str) -> (s: String)
    ensures
        s@ == a@ + b@,
{
    let ac = chars_of(a);
    let bc = chars_of(b);
    let mut all: Vec<char> = Vec::new();
    let mut i: usize = 0;
    while i < ac.len()
        invariant
            i <= ac@.len(),
            all@ == ac@.take(i as int),
        decreases ac@.len() - i,
    {
        all.push(ac[i]);
        i += 1;
        proof {
            assert(all@ =~= ac@.take(i as int));
        }
    }
    let mut j: usize = 0;
    while j < bc.len()
        invariant
            j <= bc@.len(),
            all@ == ac@ + bc@.take(j as int),
        decreases bc@.len() - j,
    {
        all.push(bc[j]);
        j += 1;
        proof {
            assert(all@ =~= ac@ + bc@.take(j as int));
        }
    }
    proof {
        assert(ac@.take(ac@.len() as int) =~= ac@);
        assert(bc@.take(bc@.len() as int) =~= bc@);
    }
    string_from_chars(all.as_slice())
}

/// The decimal digits of `n`.
pub open spec fn decimal(n: nat) -> Seq<char>
    decreases n,
{
    if n < 10 {
        seq![digit_char((n % 10) as u8)]
    } else {
        decimal(n / 10).push(digit_char((n % 10) as u8))
    }
}

pub open spec fn digit_char(d: u8) -> char {
    (('0' as u8) + d) as char
}

/// `n` written in decimal.
pub fn decimal_string(n: u64) -> (s: String)
    ensures
        s@ == decimal(n as nat),
    decreases n,
{
    let d: u8 = (n % 10) as u8;
    let c = (48u8 + d) as char;
    proof {
        assert(('0' as u8) == 48u8);
    }
    if n < 10 {
        let mut s = String::new();
        push_char(&mut s, c);
        proof {
            assert(s@ =~= seq![c]);
        }
        s
    } else {
        let mut s = decimal_string(n / 10);
        push_char(&mut s, c);
        s
    }
}

pub open spec fn trim_start_from(s: Seq<char>, i: int) -> int
    decreases s.len() - i,
{
    if 0 <= i < s.len() && crate::editor::words::is_white_space(s[i]) {
        trim_start_from(s, i + 1)
    } else {
        i
    }
}

pub open spec fn trim_end_from(s: Seq<char>, lo: int, j: int) -> int
    decreases j - lo,
{
    if lo < j && j <= s.len() && crate::editor::words::is_white_space(s[j - 1]) {
        trim_end_from(s, lo, j - 1)
    } else {
        j
    }
}

/// `s` without its leading and trailing whitespace.
pub open spec fn trimmed(s: Seq<char>) -> Seq<char> {
    let lo = trim_start_from(s, 0);
    s.subrange(lo, trim_end_from(s, lo, s.len() as int))
}

proof fn lemma_trim_bounds(s: Seq<char>, i: int, lo: int, j: int)
    requires
        0 <= i <= s.len(),
        0 <= lo <= j <= s.len(),
    ensures
        i <= trim_start_from(s, i) <= s.len(),
        lo <= trim_end_from(s, lo, j) <= j,
    decreases s.len() - i + j - lo,
{
    if i < s.len() && crate::editor::words::is_white_space(s[i]) {
        lemma_trim_bounds(s, i + 1, lo, j);
    } else if lo < j && crate::editor::words::is_white_space(s[j - 1]) {
        lemma_trim_bounds(s, i, lo, j - 1);
    }
}

/// `str::trim`: without leading and trailing whitespace.
pub fn trim(s: &str) -> (t: String)
    ensures
        t@ == trimmed(s@),
{
    let cs = chars_of(s);
    let mut lo: usize = 0;
    proof {
        lemma_trim_bounds(cs@, 0, 0, cs@.len() as int);
    }
    while lo < cs.len() && crate::editor::words::is_whitespace(cs[lo])
        invariant
            lo <= cs@.len(),
            cs@ == s@,
            trim_start_from(cs@, 0) == trim_start_from(cs@, lo as int),
        decreases cs@.len() - lo,
    {
        lo += 1;
    }
    let mut hi: usize = cs.len();
    while hi > lo && crate::editor::words::is_whitespace(cs[hi - 1])
        invariant
            lo <= hi <= cs@.len(),
            cs@ == s@,
            lo == trim_start_from(cs@, 0),
            trim_end_from(cs@, lo as int, cs@.len() as int) == trim_end_from(cs@, lo as int, hi as int),
        decreases hi - lo,
    {
        hi -= 1;
    }
    substring(&cs, lo, hi)
}

/// A one-space string: the text of an empty grid cell.
pub fn space() -> (s: String)
    ensures
        s@ == seq![' '],
{
    let mut s = String::new();
    push_char(&mut s, ' ');
    proof {
        assert(s@ =~= seq![' ']);
    }
    s
}

} // verus!

verus! {

/// Do two strings hold the same text?
pub fn str_eq(a: &str, b: &str) -> (r: bool)
    ensures
        r == (a@ == b@),
{
    let ac = chars_of(a);
    let bc = chars_of(b);
    if ac.len() != bc.len() {
        return false;
    }
    let mut i: usize = 0;
    while i < ac.len()
        invariant
            ac@ == a@,
            bc@ == b@,
            ac@.len() == bc@.len(),
            i <= ac@.len(),
            forall|j: int| 0 <= j < i ==> ac@[j] == bc@[j],
        decreases ac@.len() - i,
    {
        if ac[i] != bc[i] {
            return false;
        }
        i += 1;
    }
    proof {
        assert(ac@ =~= bc@);
    }
    true
}


/// A signed integer in decimal, with a `-` before a negative one.
pub open spec fn signed_decimal(n: int) -> Seq<char> {
    if n < 0 {
        "-"@ + decimal((-n) as nat)
    } else {
        decimal(n as nat)
    }
}

pub fn signed_decimal_string(n: i64) -> (s: String)
    ensures
        s@ == signed_decimal(n as int),
{
    if n < 0 {
        let m: u64 = (-(n as i128)) as u64;
        proof {
            reveal_strlit("-");
        }
        concat("-", decimal_string(m).as_str())
    } else {
        decimal_string(n as u64)
    }
}

} // verus!
