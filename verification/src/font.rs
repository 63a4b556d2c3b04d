//! 'guifont': the font families it lists and the size and width options it gives them.
//!
//! `:h<n>` and `:w<n>` carry numbers the window reads as points and extra pixels; this module
//! finds them in the option text and hands on their text, in order.

use vstd::prelude::*;

use crate::text::{chars_of, string_from_chars, substring, trim, trimmed};

verus! {

/// The pieces of `s` split at every `sep` that no backslash escapes, reading from position `i`
/// with `cur` the piece so far and `out` the pieces before it. A backslash keeps itself and the
/// character after it; a backslash at the very end is dropped.
pub open spec fn split_from(s: Seq<char>, sep: char, i: int, cur: Seq<char>, out: Seq<Seq<char>>) -> Seq<Seq<char>>
    decreases s.len() - i,
{
    if i < 0 || i >= s.len() {
        out.push(cur)
    } else if s[i] == '\\' {
        if i + 1 < s.len() {
            split_from(s, sep, i + 2, cur.push('\\').push(s[i + 1]), out)
        } else {
            split_from(s, sep, i + 1, cur, out)
        }
    } else if s[i] == sep {
        split_from(s, sep, i + 1, Seq::empty(), out.push(cur))
    } else {
        split_from(s, sep, i + 1, cur.push(s[i]), out)
    }
}

/// `s` split at every unescaped `sep`.
pub open spec fn spec_split_unescaped(s: Seq<char>, sep: char) -> Seq<Seq<char>> {
    split_from(s, sep, 0, Seq::empty(), Seq::empty())
}

pub open spec fn pieces_view(v: Seq<String>) -> Seq<Seq<char>> {
    Seq::new(v.len(), |i: int| v[i]@)
}

proof fn lemma_split_len(s: Seq<char>, sep: char, i: int, cur: Seq<char>, out: Seq<Seq<char>>)
    ensures
        split_from(s, sep, i, cur, out).len() >= out.len() + 1,
    decreases s.len() - i,
{
    if 0 <= i < s.len() {
        if s[i] == '\\' {
            if i + 1 < s.len() {
                lemma_split_len(s, sep, i + 2, cur.push('\\').push(s[i + 1]), out);
            } else {
                lemma_split_len(s, sep, i + 1, cur, out);
            }
        } else if s[i] == sep {
            lemma_split_len(s, sep, i + 1, Seq::empty(), out.push(cur));
        } else {
            lemma_split_len(s, sep, i + 1, cur.push(s[i]), out);
        }
    }
}

/// Split `s` at every `sep` that is not escaped by a backslash (see `split_from`); there is
/// always at least one piece.
pub fn split_unescaped(s: &str, sep: char) -> (parts: Vec<String>)
    ensures
        pieces_view(parts@) == spec_split_unescaped(s@, sep),
        parts@.len() >= 1,
{
    let cs = chars_of(s);
    let mut out: Vec<String> = Vec::new();
    let mut cur: Vec<char> = Vec::new();
    let mut i: usize = 0;
    proof {
        assert(pieces_view(out@) =~= Seq::<Seq<char>>::empty());
    }
    while i < cs.len()
        invariant
            cs@ == s@,
            i <= cs@.len(),
            split_from(cs@, sep, i as int, cur@, pieces_view(out@)) == spec_split_unescaped(s@, sep),
        decreases cs@.len() - i,
    {
        let c = cs[i];
        if c == '\\' {
            if i + 1 < cs.len() {
                cur.push('\\');
                cur.push(cs[i + 1]);
                i += 2;
            } else {
                i += 1;
            }
        } else if c == sep {
            let piece = string_from_chars(cur.as_slice());
            let ghost before = out@;
            out.push(piece);
            proof {
                assert(pieces_view(out@) =~= pieces_view(before).push(cur@));
            }
            cur = Vec::new();
            i += 1;
        } else {
            cur.push(c);
            i += 1;
        }
    }
    let piece = string_from_chars(cur.as_slice());
    let ghost before = out@;
    out.push(piece);
    proof {
        assert(pieces_view(out@) =~= pieces_view(before).push(cur@));
        lemma_split_len(s@, sep, 0, Seq::empty(), Seq::empty());
    }
    out
}

/// `s` with every escaped space (a backslash and a space) turned into a space, left to right.
pub open spec fn unescape_spaces(s: Seq<char>) -> Seq<char>
    decreases s.len(),
{
    if s.len() == 0 {
        s
    } else if s.len() >= 2 && s[0] == '\\' && s[1] == ' ' {
        seq![' '] + unescape_spaces(s.skip(2))
    } else {
        seq![s[0]] + unescape_spaces(s.skip(1))
    }
}

/// `str::replace("\\ ", " ")`: escaped spaces turned into spaces.
fn unescape(s: &str) -> (r: String)
    ensures
        r@ == unescape_spaces(s@),
{
    let cs = chars_of(s);
    let mut out: Vec<char> = Vec::new();
    let mut i: usize = 0;
    proof {
        assert(cs@.skip(0) =~= cs@);
        assert(out@ + unescape_spaces(cs@.skip(0)) =~= unescape_spaces(s@));
    }
    while i < cs.len()
        invariant
            cs@ == s@,
            i <= cs@.len(),
            out@ + unescape_spaces(cs@.skip(i as int)) == unescape_spaces(s@),
        decreases cs@.len() - i,
    {
        let ghost rest = cs@.skip(i as int);
        if i + 1 < cs.len() && cs[i] == '\\' && cs[i + 1] == ' ' {
            proof {
                assert(rest.skip(2) =~= cs@.skip(i + 2));
                assert(out@.push(' ') + unescape_spaces(rest.skip(2)) =~= out@ + unescape_spaces(rest));
            }
            out.push(' ');
            i += 2;
        } else {
            proof {
                assert(rest.skip(1) =~= cs@.skip(i + 1));
                assert(out@.push(cs@[i as int]) + unescape_spaces(rest.skip(1)) =~= out@ + unescape_spaces(rest));
            }
            out.push(cs[i]);
            i += 1;
        }
    }
    proof {
        assert(out@ + unescape_spaces(cs@.skip(i as int)) =~= out@);
    }
    string_from_chars(out.as_slice())
}

/// A parsed 'guifont': the families, in order, and the text after each `h` and `w` option, in
/// order. The last size and width that read as numbers win.
pub struct FontOptions {
    pub families: Vec<String>,
    pub size_options: Vec<String>,
    pub width_options: Vec<String>,
}

pub struct FontOptionsView {
    pub families: Seq<Seq<char>>,
    pub size_options: Seq<Seq<char>>,
    pub width_options: Seq<Seq<char>>,
}

pub open spec fn font_options_view(o: FontOptions) -> FontOptionsView {
    FontOptionsView {
        families: pieces_view(o.families@),
        size_options: pieces_view(o.size_options@),
        width_options: pieces_view(o.width_options@),
    }
}

pub open spec fn no_options() -> FontOptionsView {
    FontOptionsView { families: Seq::empty(), size_options: Seq::empty(), width_options: Seq::empty() }
}

/// One option of an entry: `h...` is a size, `w...` a width, anything else is ignored.
pub open spec fn option_step(acc: FontOptionsView, opt: Seq<char>) -> FontOptionsView {
    if opt.len() > 0 && opt[0] == 'h' {
        FontOptionsView { size_options: acc.size_options.push(opt.skip(1)), ..acc }
    } else if opt.len() > 0 && opt[0] == 'w' {
        FontOptionsView { width_options: acc.width_options.push(opt.skip(1)), ..acc }
    } else {
        acc
    }
}

pub open spec fn options_fold(acc: FontOptionsView, opts: Seq<Seq<char>>) -> FontOptionsView
    decreases opts.len(),
{
    if opts.len() == 0 {
        acc
    } else {
        option_step(options_fold(acc, opts.drop_last()), opts.last())
    }
}

/// The family of an entry: its first `:` piece, escaped spaces unescaped, trimmed.
pub open spec fn entry_family(entry: Seq<char>) -> Seq<char> {
    trimmed(unescape_spaces(spec_split_unescaped(entry, ':')[0]))
}

/// One `Family:h9:w1` entry: its family (if not empty) and its options.
pub open spec fn entry_step(acc: FontOptionsView, entry: Seq<char>) -> FontOptionsView {
    let family = entry_family(entry);
    let acc1 = if family.len() > 0 {
        FontOptionsView { families: acc.families.push(family), ..acc }
    } else {
        acc
    };
    options_fold(acc1, spec_split_unescaped(entry, ':').skip(1))
}

pub open spec fn entries_fold(acc: FontOptionsView, entries: Seq<Seq<char>>) -> FontOptionsView
    decreases entries.len(),
{
    if entries.len() == 0 {
        acc
    } else {
        entry_step(entries_fold(acc, entries.drop_last()), entries.last())
    }
}

/// 'guifont' read: none for an empty value, `*` (the font picker) or no family; else the
/// entries between unescaped commas, each a family and its options.
pub open spec fn spec_parse_guifont(guifont: Seq<char>) -> Option<FontOptionsView> {
    let t = trimmed(guifont);
    if t.len() == 0 || t == seq!['*'] {
        None
    } else {
        let r = entries_fold(no_options(), spec_split_unescaped(t, ','));
        if r.families.len() == 0 {
            None
        } else {
            Some(r)
        }
    }
}


pub open spec fn font_view(fam: Seq<String>, hs: Seq<String>, ws: Seq<String>) -> FontOptionsView {
    FontOptionsView { families: pieces_view(fam), size_options: pieces_view(hs), width_options: pieces_view(ws) }
}

/// Read the options of one entry (the pieces after its family) into `hs` and `ws`.
fn read_options(parts: &Vec<String>, fam: &Vec<String>, hs: &mut Vec<String>, ws: &mut Vec<String>)
    requires
        parts@.len() >= 1,
    ensures
        font_view(fam@, final(hs)@, final(ws)@) == options_fold(font_view(fam@, old(hs)@, old(ws)@), pieces_view(parts@).skip(1)),
{
    let ghost opts = pieces_view(parts@).skip(1);
    let ghost start = font_view(fam@, hs@, ws@);
    let mut j: usize = 1;
    while j < parts.len()
        invariant
            1 <= j <= parts@.len(),
            opts == pieces_view(parts@).skip(1),
            font_view(fam@, hs@, ws@) == options_fold(start, opts.take(j - 1)),
        decreases parts@.len() - j,
    {
        proof {
            assert(opts.take(j as int).drop_last() =~= opts.take(j - 1));
            assert(opts[j - 1] == parts@[j as int]@);
        }
        let oc = chars_of(parts[j].as_str());
        if oc.len() > 0 && oc[0] == 'h' {
            let ghost before = hs@;
            hs.push(substring(&oc, 1, oc.len()));
            proof {
                assert(pieces_view(hs@) =~= pieces_view(before).push(oc@.skip(1)));
            }
        } else if oc.len() > 0 && oc[0] == 'w' {
            let ghost before = ws@;
            ws.push(substring(&oc, 1, oc.len()));
            proof {
                assert(pieces_view(ws@) =~= pieces_view(before).push(oc@.skip(1)));
            }
        }
        j += 1;
    }
    proof {
        assert(opts.take(j - 1) =~= opts);
    }
}

impl FontOptions {
    /// Parse "Family One:h9,Family Two:h9:w1" (see `spec_parse_guifont`). Escaped spaces
    /// (`\ `) in a family are unescaped.
    pub fn parse(guifont: &str) -> (r: Option<FontOptions>)
        ensures
            match r {
                Some(o) => spec_parse_guifont(guifont@) == Some(font_options_view(o)),
                None => spec_parse_guifont(guifont@) is None,
            },
    {
        let t = trim(guifont);
        let tc = chars_of(t.as_str());
        if tc.len() == 0 || (tc.len() == 1 && tc[0] == '*') {
            proof {
                if tc.len() == 1 {
                    assert(tc@ =~= seq!['*']);
                }
            }
            return None;
        }
        proof {
            if tc@ == seq!['*'] {
                assert(tc@[0] == '*');
            }
        }
        let entries = split_unescaped(t.as_str(), ',');
        let ghost es = pieces_view(entries@);
        let mut fam: Vec<String> = Vec::new();
        let mut hs: Vec<String> = Vec::new();
        let mut ws: Vec<String> = Vec::new();
        let mut k: usize = 0;
        proof {
            assert(pieces_view(fam@) =~= Seq::<Seq<char>>::empty());
            assert(pieces_view(hs@) =~= Seq::<Seq<char>>::empty());
            assert(pieces_view(ws@) =~= Seq::<Seq<char>>::empty());
            assert(es.take(0) =~= Seq::<Seq<char>>::empty());
        }
        while k < entries.len()
            invariant
                k <= entries@.len(),
                es == pieces_view(entries@),
                font_view(fam@, hs@, ws@) == entries_fold(no_options(), es.take(k as int)),
            decreases entries@.len() - k,
        {
            proof {
                assert(es.take(k + 1).drop_last() =~= es.take(k as int));
                assert(es[k as int] == entries@[k as int]@);
            }
            let parts = split_unescaped(entries[k].as_str(), ':');
            let family = trim(unescape(parts[0].as_str()).as_str());
            if !family.as_str().is_empty() {
                let ghost before = fam@;
                fam.push(family);
                proof {
                    assert(pieces_view(fam@) =~= pieces_view(before).push(entry_family(es[k as int])));
                }
            }
            read_options(&parts, &fam, &mut hs, &mut ws);
            k += 1;
        }
        proof {
            assert(es.take(k as int) =~= es);
        }
        if fam.len() == 0 {
            return None;
        }
        Some(FontOptions { families: fam, size_options: hs, width_options: ws })
    }
}

/// `parts` joined with `sep` between each two.
pub open spec fn joined_with(parts: Seq<Seq<char>>, sep: char) -> Seq<char>
    decreases parts.len(),
{
    if parts.len() == 0 {
        Seq::empty()
    } else if parts.len() == 1 {
        parts[0]
    } else {
        joined_with(parts.drop_last(), sep) + seq![sep] + parts.last()
    }
}

/// How many `sep` from position `i` on no backslash escapes.
pub open spec fn unescaped_count(s: Seq<char>, sep: char, i: int) -> nat
    decreases s.len() - i,
{
    if i < 0 || i >= s.len() {
        0
    } else if s[i] == '\\' {
        if i + 1 < s.len() {
            unescaped_count(s, sep, i + 2)
        } else {
            unescaped_count(s, sep, i + 1)
        }
    } else if s[i] == sep {
        1 + unescaped_count(s, sep, i + 1)
    } else {
        unescaped_count(s, sep, i + 1)
    }
}

/// From position `i` on, every backslash has a character after it to escape.
pub open spec fn escapes_paired(s: Seq<char>, i: int) -> bool
    decreases s.len() - i,
{
    if i < 0 || i >= s.len() {
        true
    } else if s[i] == '\\' {
        i + 1 < s.len() && escapes_paired(s, i + 2)
    } else {
        escapes_paired(s, i + 1)
    }
}

proof fn lemma_joined_push_append(out: Seq<Seq<char>>, x: Seq<char>, y: Seq<char>, sep: char)
    ensures
        joined_with(out.push(x + y), sep) == joined_with(out.push(x), sep) + y,
{
    assert(out.push(x + y).drop_last() =~= out);
    assert(out.push(x).drop_last() =~= out);
    if out.len() == 0 {
        assert(out.push(x + y)[0] == x + y);
    } else {
        assert(joined_with(out.push(x + y), sep) =~= joined_with(out, sep) + seq![sep] + (x + y));
        assert(joined_with(out.push(x), sep) =~= joined_with(out, sep) + seq![sep] + x);
    }
}

proof fn lemma_split_from_joins(s: Seq<char>, sep: char, i: int, cur: Seq<char>, out: Seq<Seq<char>>)
    requires
        sep != '\\',
        0 <= i <= s.len(),
        escapes_paired(s, i),
    ensures
        joined_with(split_from(s, sep, i, cur, out), sep) == joined_with(out.push(cur), sep) + s.skip(i),
        split_from(s, sep, i, cur, out).len() == out.len() + 1 + unescaped_count(s, sep, i),
    decreases s.len() - i,
{
    if i == s.len() {
        assert(s.skip(i) =~= Seq::<char>::empty());
        assert(joined_with(out.push(cur), sep) + s.skip(i) =~= joined_with(out.push(cur), sep));
    } else if s[i] == '\\' {
        let cur2 = cur.push('\\').push(s[i + 1]);
        lemma_split_from_joins(s, sep, i + 2, cur2, out);
        assert(cur2 =~= cur + seq!['\\', s[i + 1]]);
        lemma_joined_push_append(out, cur, seq!['\\', s[i + 1]], sep);
        assert(s.skip(i) =~= seq!['\\', s[i + 1]] + s.skip(i + 2));
    } else if s[i] == sep {
        lemma_split_from_joins(s, sep, i + 1, Seq::empty(), out.push(cur));
        let o2 = out.push(cur).push(Seq::<char>::empty());
        assert(o2.drop_last() =~= out.push(cur));
        assert(joined_with(o2, sep) =~= joined_with(out.push(cur), sep) + seq![sep]);
        assert(s.skip(i) =~= seq![sep] + s.skip(i + 1));
    } else {
        lemma_split_from_joins(s, sep, i + 1, cur.push(s[i]), out);
        assert(cur.push(s[i]) =~= cur + seq![s[i]]);
        lemma_joined_push_append(out, cur, seq![s[i]], sep);
        assert(s.skip(i) =~= seq![s[i]] + s.skip(i + 1));
    }
}

/// Where no backslash is left without a character to escape, the pieces of `s` joined back
/// with `sep` give `s`, and there is one piece more than there are unescaped `sep`s.
pub proof fn law_split_joins_back(s: Seq<char>, sep: char)
    requires
        sep != '\\',
        escapes_paired(s, 0),
    ensures
        joined_with(spec_split_unescaped(s, sep), sep) == s,
        spec_split_unescaped(s, sep).len() == 1 + unescaped_count(s, sep, 0),
{
    lemma_split_from_joins(s, sep, 0, Seq::empty(), Seq::empty());
    assert(Seq::<Seq<char>>::empty().push(Seq::<char>::empty())[0] == Seq::<char>::empty());
    assert(s.skip(0) =~= s);
    assert(Seq::<char>::empty() + s =~= s);
}

} // verus!
