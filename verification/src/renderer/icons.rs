//! Pixel icons, drawn rather than emoji: small bitmaps rasterised into the glyph atlas as
//! tiles, so an icon is one quad.

use vstd::prelude::*;
use vstd::arithmetic::div_mod::lemma_fundamental_div_mod_converse;

use crate::text::{chars_of, str_eq};

verus! {

/// An icon: its name and its rows, `#` for a set pixel.
pub struct Icon {
    pub name: &'static str,
    pub rows: Vec<&'static str>,
}

/// How many icons there are.
pub const ICON_COUNT: u16 = 24;

/// The name of icon `i`.
pub open spec fn icon_name(i: int) -> Seq<char> {
    if i == 0 {
        "explorer"@
    } else     if i == 1 {
        "search"@
    } else     if i == 2 {
        "git"@
    } else     if i == 3 {
        "debug"@
    } else     if i == 4 {
        "plugins"@
    } else     if i == 5 {
        "ask"@
    } else     if i == 6 {
        "learn"@
    } else     if i == 7 {
        "settings"@
    } else     if i == 8 {
        "file"@
    } else     if i == 9 {
        "folder"@
    } else     if i == 10 {
        "x"@
    } else     if i == 11 {
        "min"@
    } else     if i == 12 {
        "max"@
    } else     if i == 13 {
        "logo"@
    } else     if i == 14 {
        "play"@
    } else     if i == 15 {
        "stop"@
    } else     if i == 16 {
        "step"@
    } else     if i == 17 {
        "pkg"@
    } else     if i == 18 {
        "gear"@
    } else     if i == 19 {
        "dot"@
    } else     if i == 20 {
        "check"@
    } else     if i == 21 {
        "cross"@
    } else     if i == 22 {
        "chevron-right"@
    } else     if i == 23 {
        "chevron-down"@
    } else {
        Seq::empty()
    }
}

/// The rows of icon `i`, top first.
pub open spec fn icon_rows(i: int) -> Seq<Seq<char>> {
    if i == 0 {
        seq!["..#####..."@, "..#...##.."@, "..#....#.."@, "#####..#.."@, "#...##.#.."@, "#....#.#.."@, "#....#.#.."@, "#....###.."@, "#....#...."@, "######...."@]
    } else     if i == 1 {
        seq![".####....."@, "#....#...."@, "#....#...."@, "#....#...."@, "#....#...."@, ".####....."@, ".....##..."@, "......##.."@, ".......##."@, "........##"@]
    } else     if i == 2 {
        seq![".##....##."@, ".##....##."@, "..#....#.."@, "..#...#..."@, "..#..#...."@, "..#.#....."@, "..##......"@, "..#......."@, ".##......."@, ".##......."@]
    } else     if i == 3 {
        seq!["#........."@, "##........"@, "###......."@, "####......"@, "#####....."@, "######...."@, "#####....."@, "####......"@, "###......."@, "##........"@]
    } else     if i == 4 {
        seq!["####......"@, "#..#.####."@, "####.#..#."@, ".....####."@, "####......"@, "#..#.####."@, "####.#..#."@, ".....####."@, ".........."@, ".........."@]
    } else     if i == 5 {
        seq!["..####...."@, ".#....#..."@, "......#..."@, ".....#...."@, "....#....."@, "....#....."@, ".........."@, "....#....."@, ".........."@, ".........."@]
    } else     if i == 6 {
        seq![".........."@, "####..####"@, "#..#..#..#"@, "#..####..#"@, "#........#"@, "#........#"@, "#........#"@, "##########"@, "....##...."@, ".........."@]
    } else     if i == 7 {
        seq![".#...#..#."@, "###..#..#."@, ".#...#..#."@, ".#..###.#."@, ".#...#..#."@, ".#...#.###"@, ".#...#..#."@, ".#...#..#."@, ".#...#..#."@, ".........."@]
    } else     if i == 8 {
        seq!["#####..."@, "#...##.."@, "#....#.."@, "#....#.."@, "#....#.."@, "#....#.."@, "######.."@]
    } else     if i == 9 {
        seq!["###....."@, "#######."@, "#.....#."@, "#.....#."@, "#.....#."@, "#######."@]
    } else     if i == 10 {
        seq!["#...#"@, ".#.#."@, "..#.."@, ".#.#."@, "#...#"@]
    } else     if i == 11 {
        seq!["....."@, "....."@, "....."@, "....."@, "#####"@]
    } else     if i == 12 {
        seq!["#####"@, "#####"@, "#...#"@, "#...#"@, "#####"@]
    } else     if i == 13 {
        seq!["#...#"@, "##..#"@, "#.#.#"@, "#..##"@, "#...#"@]
    } else     if i == 14 {
        seq!["#..."@, "##.."@, "###."@, "##.."@, "#..."@]
    } else     if i == 15 {
        seq!["####"@, "####"@, "####"@, "####"@]
    } else     if i == 16 {
        seq!["#..#"@, "##.#"@, "####"@, "##.#"@, "#..#"@]
    } else     if i == 17 {
        seq!["..####.."@, ".#....#."@, "########"@, "#......#"@, "#..##..#"@, "#......#"@, "########"@]
    } else     if i == 18 {
        seq![".#.##.#."@, "########"@, ".##..##."@, "##....##"@, "##....##"@, ".##..##."@, "########"@, ".#.##.#."@]
    } else     if i == 19 {
        seq![".##."@, "####"@, "####"@, ".##."@]
    } else     if i == 20 {
        seq![".......#"@, "......##"@, ".....##."@, "#...##.."@, "##.##..."@, ".###...."@, "..#....."@]
    } else     if i == 21 {
        seq!["##....##"@, ".##..##."@, "..####.."@, "...##..."@, "..####.."@, ".##..##."@, "##....##"@]
    } else     if i == 22 {
        seq!["#...."@, "##..."@, ".##.."@, "..##."@, ".##.."@, "##..."@, "#...."@]
    } else     if i == 23 {
        seq!["#.....#"@, "##...##"@, ".##.##."@, "..###.."@, "...#..."@]
    } else {
        Seq::empty()
    }
}

/// The name of icon `index`.
pub fn name_of(index: u16) -> (n: &'static str)
    requires
        index < ICON_COUNT,
    ensures
        n@ == icon_name(index as int),
{
    match index {
        0 => "explorer",
        1 => "search",
        2 => "git",
        3 => "debug",
        4 => "plugins",
        5 => "ask",
        6 => "learn",
        7 => "settings",
        8 => "file",
        9 => "folder",
        10 => "x",
        11 => "min",
        12 => "max",
        13 => "logo",
        14 => "play",
        15 => "stop",
        16 => "step",
        17 => "pkg",
        18 => "gear",
        19 => "dot",
        20 => "check",
        21 => "cross",
        22 => "chevron-right",
        23 => "chevron-down",
        _ => "chevron-down",
    }
}

/// The rows of icon `index`, top first.
pub fn rows_of(index: u16) -> (rows: Vec<&'static str>)
    requires
        index < ICON_COUNT,
    ensures
        rows@.len() == icon_rows(index as int).len(),
        forall|k: int| 0 <= k < rows@.len() ==> #[trigger] rows@[k]@ == icon_rows(index as int)[k],
{
    match index {
        0 => {
            let v = vec!["..#####...", "..#...##..", "..#....#..", "#####..#..", "#...##.#..", "#....#.#..", "#....#.#..", "#....###..", "#....#....", "######...."];
            assert(v@ == seq!["..#####...", "..#...##..", "..#....#..", "#####..#..", "#...##.#..", "#....#.#..", "#....#.#..", "#....###..", "#....#....", "######...."]);
            v
        },
        1 => {
            let v = vec![".####.....", "#....#....", "#....#....", "#....#....", "#....#....", ".####.....", ".....##...", "......##..", ".......##.", "........##"];
            assert(v@ == seq![".####.....", "#....#....", "#....#....", "#....#....", "#....#....", ".####.....", ".....##...", "......##..", ".......##.", "........##"]);
            v
        },
        2 => {
            let v = vec![".##....##.", ".##....##.", "..#....#..", "..#...#...", "..#..#....", "..#.#.....", "..##......", "..#.......", ".##.......", ".##......."];
            assert(v@ == seq![".##....##.", ".##....##.", "..#....#..", "..#...#...", "..#..#....", "..#.#.....", "..##......", "..#.......", ".##.......", ".##......."]);
            v
        },
        3 => {
            let v = vec!["#.........", "##........", "###.......", "####......", "#####.....", "######....", "#####.....", "####......", "###.......", "##........"];
            assert(v@ == seq!["#.........", "##........", "###.......", "####......", "#####.....", "######....", "#####.....", "####......", "###.......", "##........"]);
            v
        },
        4 => {
            let v = vec!["####......", "#..#.####.", "####.#..#.", ".....####.", "####......", "#..#.####.", "####.#..#.", ".....####.", "..........", ".........."];
            assert(v@ == seq!["####......", "#..#.####.", "####.#..#.", ".....####.", "####......", "#..#.####.", "####.#..#.", ".....####.", "..........", ".........."]);
            v
        },
        5 => {
            let v = vec!["..####....", ".#....#...", "......#...", ".....#....", "....#.....", "....#.....", "..........", "....#.....", "..........", ".........."];
            assert(v@ == seq!["..####....", ".#....#...", "......#...", ".....#....", "....#.....", "....#.....", "..........", "....#.....", "..........", ".........."]);
            v
        },
        6 => {
            let v = vec!["..........", "####..####", "#..#..#..#", "#..####..#", "#........#", "#........#", "#........#", "##########", "....##....", ".........."];
            assert(v@ == seq!["..........", "####..####", "#..#..#..#", "#..####..#", "#........#", "#........#", "#........#", "##########", "....##....", ".........."]);
            v
        },
        7 => {
            let v = vec![".#...#..#.", "###..#..#.", ".#...#..#.", ".#..###.#.", ".#...#..#.", ".#...#.###", ".#...#..#.", ".#...#..#.", ".#...#..#.", ".........."];
            assert(v@ == seq![".#...#..#.", "###..#..#.", ".#...#..#.", ".#..###.#.", ".#...#..#.", ".#...#.###", ".#...#..#.", ".#...#..#.", ".#...#..#.", ".........."]);
            v
        },
        8 => {
            let v = vec!["#####...", "#...##..", "#....#..", "#....#..", "#....#..", "#....#..", "######.."];
            assert(v@ == seq!["#####...", "#...##..", "#....#..", "#....#..", "#....#..", "#....#..", "######.."]);
            v
        },
        9 => {
            let v = vec!["###.....", "#######.", "#.....#.", "#.....#.", "#.....#.", "#######."];
            assert(v@ == seq!["###.....", "#######.", "#.....#.", "#.....#.", "#.....#.", "#######."]);
            v
        },
        10 => {
            let v = vec!["#...#", ".#.#.", "..#..", ".#.#.", "#...#"];
            assert(v@ == seq!["#...#", ".#.#.", "..#..", ".#.#.", "#...#"]);
            v
        },
        11 => {
            let v = vec![".....", ".....", ".....", ".....", "#####"];
            assert(v@ == seq![".....", ".....", ".....", ".....", "#####"]);
            v
        },
        12 => {
            let v = vec!["#####", "#####", "#...#", "#...#", "#####"];
            assert(v@ == seq!["#####", "#####", "#...#", "#...#", "#####"]);
            v
        },
        13 => {
            let v = vec!["#...#", "##..#", "#.#.#", "#..##", "#...#"];
            assert(v@ == seq!["#...#", "##..#", "#.#.#", "#..##", "#...#"]);
            v
        },
        14 => {
            let v = vec!["#...", "##..", "###.", "##..", "#..."];
            assert(v@ == seq!["#...", "##..", "###.", "##..", "#..."]);
            v
        },
        15 => {
            let v = vec!["####", "####", "####", "####"];
            assert(v@ == seq!["####", "####", "####", "####"]);
            v
        },
        16 => {
            let v = vec!["#..#", "##.#", "####", "##.#", "#..#"];
            assert(v@ == seq!["#..#", "##.#", "####", "##.#", "#..#"]);
            v
        },
        17 => {
            let v = vec!["..####..", ".#....#.", "########", "#......#", "#..##..#", "#......#", "########"];
            assert(v@ == seq!["..####..", ".#....#.", "########", "#......#", "#..##..#", "#......#", "########"]);
            v
        },
        18 => {
            let v = vec![".#.##.#.", "########", ".##..##.", "##....##", "##....##", ".##..##.", "########", ".#.##.#."];
            assert(v@ == seq![".#.##.#.", "########", ".##..##.", "##....##", "##....##", ".##..##.", "########", ".#.##.#."]);
            v
        },
        19 => {
            let v = vec![".##.", "####", "####", ".##."];
            assert(v@ == seq![".##.", "####", "####", ".##."]);
            v
        },
        20 => {
            let v = vec![".......#", "......##", ".....##.", "#...##..", "##.##...", ".###....", "..#....."];
            assert(v@ == seq![".......#", "......##", ".....##.", "#...##..", "##.##...", ".###....", "..#....."]);
            v
        },
        21 => {
            let v = vec!["##....##", ".##..##.", "..####..", "...##...", "..####..", ".##..##.", "##....##"];
            assert(v@ == seq!["##....##", ".##..##.", "..####..", "...##...", "..####..", ".##..##.", "##....##"]);
            v
        },
        22 => {
            let v = vec!["#....", "##...", ".##..", "..##.", ".##..", "##...", "#...."];
            assert(v@ == seq!["#....", "##...", ".##..", "..##.", ".##..", "##...", "#...."]);
            v
        },
        23 => {
            let v = vec!["#.....#", "##...##", ".##.##.", "..###..", "...#..."];
            assert(v@ == seq!["#.....#", "##...##", ".##.##.", "..###..", "...#..."]);
            v
        },
        _ => {
            let v = vec!["#.....#", "##...##", ".##.##.", "..###..", "...#..."];
            v
        },
    }
}


/// The widest row of `rows`, in pixels.
pub open spec fn widest(rows: Seq<Seq<char>>) -> nat
    decreases rows.len(),
{
    if rows.len() == 0 {
        0
    } else {
        let rest = widest(rows.drop_last());
        if rows.last().len() > rest {
            rows.last().len()
        } else {
            rest
        }
    }
}

/// The alpha of pixel (`x`, `y`) of `rows` drawn at `scale` pixels per source pixel: opaque
/// where the source pixel is `#`, clear elsewhere (also past the end of a short row).
pub open spec fn pixel(rows: Seq<Seq<char>>, scale: int, y: int, x: int) -> u8 {
    let row = rows[y / scale];
    let c = x / scale;
    if c < row.len() && row[c] == '#' {
        255
    } else {
        0
    }
}

/// The alpha mask of `rows` at `scale`: `widest * scale` pixels wide, `rows * scale` high,
/// row-major from the top left.
pub open spec fn mask(rows: Seq<Seq<char>>, scale: int) -> Seq<u8> {
    let w = widest(rows) * scale;
    let h = rows.len() * scale;
    Seq::new((w * h) as nat, |k: int| pixel(rows, scale, k / w, k % w))
}

/// The index of the first icon named `name`.
pub open spec fn spec_index_of(name: Seq<char>) -> Option<u16> {
    if exists|i: int| 0 <= i < ICON_COUNT && icon_name(i) == name {
        let i = choose|i: int| 0 <= i < ICON_COUNT && icon_name(i) == name
            && forall|j: int| 0 <= j < i ==> icon_name(j) != name;
        Some(i as u16)
    } else {
        None
    }
}

/// The icon at `index`, if there is one.
pub fn icon(index: u16) -> (r: Option<Icon>)
    ensures
        r is Some <==> index < ICON_COUNT,
        r matches Some(ic) ==> ic.name@ == icon_name(index as int) && ic.rows@.len() == icon_rows(index as int).len()
            && forall|k: int| 0 <= k < ic.rows@.len() ==> #[trigger] ic.rows@[k]@ == icon_rows(index as int)[k],
{
    if index < ICON_COUNT {
        Some(Icon { name: name_of(index), rows: rows_of(index) })
    } else {
        None
    }
}

/// The index of the icon named `name`: the first whose name is `name`, `None` when none is.
pub fn index_of(name: &str) -> (r: Option<u16>)
    ensures
        match r {
            Some(i) => i < ICON_COUNT && icon_name(i as int) == name@
                && forall|j: int| 0 <= j < i ==> icon_name(j) != name@,
            None => forall|j: int| 0 <= j < ICON_COUNT ==> icon_name(j) != name@,
        },
{
    let mut i: u16 = 0;
    while i < ICON_COUNT
        invariant
            i <= ICON_COUNT,
            forall|j: int| 0 <= j < i ==> icon_name(j) != name@,
        decreases ICON_COUNT - i,
    {
        if str_eq(name_of(i), name) {
            return Some(i);
        }
        i += 1;
    }
    None
}

/// The widest of `rows`, as characters.
fn widest_of(rows: &Vec<Vec<char>>) -> (w: usize)
    ensures
        w == widest(rows@.map_values(|r: Vec<char>| r@)),
{
    let ghost v = rows@.map_values(|r: Vec<char>| r@);
    let mut w: usize = 0;
    let mut k: usize = 0;
    while k < rows.len()
        invariant
            k <= rows@.len(),
            v == rows@.map_values(|r: Vec<char>| r@),
            w == widest(v.take(k as int)),
        decreases rows@.len() - k,
    {
        proof {
            assert(v.take(k as int + 1).drop_last() =~= v.take(k as int));
        }
        if rows[k].len() > w {
            w = rows[k].len();
        }
        k += 1;
    }
    proof {
        assert(v.take(k as int) =~= v);
    }
    w
}

/// Rasterise icon `index` at `scale` pixels per source pixel into an alpha mask: its width,
/// its height and the mask (see `mask`); `None` when there is no such icon.
pub fn rasterize(index: u16, scale: u32) -> (r: Option<(u32, u32, Vec<u8>)>)
    requires
        index < ICON_COUNT ==> widest(icon_rows(index as int)) * scale <= u32::MAX
            && icon_rows(index as int).len() * scale <= u32::MAX
            && widest(icon_rows(index as int)) * scale * (icon_rows(index as int).len() * scale) <= u32::MAX,
    ensures
        match r {
            Some((w, h, data)) => index < ICON_COUNT && w == widest(icon_rows(index as int)) * scale
                && h == icon_rows(index as int).len() * scale && data@ == mask(icon_rows(index as int), scale as int),
            None => index >= ICON_COUNT,
        },
{
    if index >= ICON_COUNT {
        return None;
    }
    let names = rows_of(index);
    let ghost rows = icon_rows(index as int);
    let mut chars: Vec<Vec<char>> = Vec::new();
    let mut k: usize = 0;
    while k < names.len()
        invariant
            k <= names@.len(),
            names@.len() == rows.len(),
            forall|j: int| 0 <= j < names@.len() ==> #[trigger] names@[j]@ == rows[j],
            chars@.len() == k,
            forall|j: int| 0 <= j < k ==> #[trigger] chars@[j]@ == rows[j],
        decreases names@.len() - k,
    {
        chars.push(chars_of(names[k]));
        k += 1;
    }
    proof {
        assert(chars@.map_values(|r: Vec<char>| r@) =~= rows);
    }
    let cols = widest_of(&chars);
    let n = chars.len();
    proof {
        assert(scale > 0 ==> cols <= cols * scale && n <= n * scale) by (nonlinear_arith);
    }
    let w: u32 = if scale == 0 {
        0
    } else {
        (cols as u32) * scale
    };
    let h: u32 = if scale == 0 {
        0
    } else {
        (n as u32) * scale
    };
    let mut data: Vec<u8> = Vec::new();
    let mut y: u32 = 0;
    while y < h
        invariant
            w == widest(rows) * scale,
            h == rows.len() * scale,
            w * h <= u32::MAX,
            chars@.len() == rows.len(),
            forall|j: int| 0 <= j < chars@.len() ==> #[trigger] chars@[j]@ == rows[j],
            y <= h,
            data@ =~= Seq::new((y * w) as nat, |k: int| pixel(rows, scale as int, k / w as int, k % w as int)),
        decreases h - y,
    {
        proof {
            assert(y / scale < rows.len()) by (nonlinear_arith)
                requires
                    y < h,
                    h == rows.len() * scale,
                    scale > 0,
            ;
        }
        let ry: usize = (y / scale) as usize;
        let row = &chars[ry];
        let mut x: u32 = 0;
        while x < w
            invariant
                w == widest(rows) * scale,
                h == rows.len() * scale,
                w * h <= u32::MAX,
                chars@.len() == rows.len(),
                forall|j: int| 0 <= j < chars@.len() ==> #[trigger] chars@[j]@ == rows[j],
                y < h,
                ry == y / scale,
                row@ == rows[ry as int],
                x <= w,
                data@ =~= Seq::new((y * w + x) as nat, |k: int| pixel(rows, scale as int, k / w as int, k % w as int)),
            decreases w - x,
        {
            let c: usize = (x / scale) as usize;
            let a: u8 = if c < row.len() && row[c] == '#' {
                255
            } else {
                0
            };
            proof {
                lemma_fundamental_div_mod_converse((y * w + x) as int, w as int, y as int, x as int);
            }
            data.push(a);
            x += 1;
        }
        proof {
            assert((y + 1) * w == y * w + w) by (nonlinear_arith);
        }
        y += 1;
    }
    proof {
        assert(y * w == w * h) by (nonlinear_arith)
            requires
                y == h,
        ;
    }
    Some((w, h, data))
}


/// Does icon `index` at `scale` fit the sizes `rasterize` computes in (its `requires`)?
pub fn rasterize_fits(index: u16, scale: u32) -> (b: bool)
    ensures
        b == (index < ICON_COUNT ==> widest(icon_rows(index as int)) * scale <= u32::MAX
            && icon_rows(index as int).len() * scale <= u32::MAX
            && widest(icon_rows(index as int)) * scale * (icon_rows(index as int).len() * scale) <= u32::MAX),
{
    if index >= ICON_COUNT {
        return true;
    }
    let names = rows_of(index);
    let ghost rows = icon_rows(index as int);
    let mut chars: Vec<Vec<char>> = Vec::new();
    let mut k: usize = 0;
    while k < names.len()
        invariant
            k <= names@.len(),
            names@.len() == rows.len(),
            forall|j: int| 0 <= j < names@.len() ==> #[trigger] names@[j]@ == rows[j],
            chars@.len() == k,
            forall|j: int| 0 <= j < k ==> #[trigger] chars@[j]@ == rows[j],
        decreases names@.len() - k,
    {
        chars.push(chars_of(names[k]));
        k += 1;
    }
    proof {
        assert(chars@.map_values(|r: Vec<char>| r@) =~= rows);
    }
    let cols = widest_of(&chars) as u128;
    let n = chars.len() as u128;
    let s = scale as u128;
    let m = u32::MAX as u128;
    if cols > m || n > m {
        proof {
            assert(s > 0 ==> (cols * s >= cols && n * s >= n)) by (nonlinear_arith);
        }
        return scale == 0;
    }
    proof {
        assert(cols * s <= m * m) by (nonlinear_arith)
            requires
                cols <= m,
                s <= m,
        ;
        assert(n * s <= m * m) by (nonlinear_arith)
            requires
                n <= m,
                s <= m,
        ;
    }
    let w = cols * s;
    let h = n * s;
    if w > m || h > m {
        return false;
    }
    proof {
        assert(w * h <= m * m) by (nonlinear_arith)
            requires
                w <= m,
                h <= m,
        ;
    }
    w * h <= m
}

} // verus!
