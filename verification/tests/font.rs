use nvs_shell::font::{split_unescaped, FontOptions};

/// What the window makes of the option texts: the last one that reads as a number wins.
fn last_number(options: &[String], default: f32) -> f32 {
    options.iter().rev().find_map(|o| o.parse::<f32>().ok()).unwrap_or(default)
}

/// Points to pixels at 96 dpi, then the window scale, rounded to whole pixels.
fn size_px(size_pt: f32, scale: f32) -> f32 {
    (size_pt * 96.0 / 72.0 * scale).round().max(4.0)
}

#[test]
fn parses_guifont_with_escapes_and_sizes() {
    let o = FontOptions::parse("BigBlueTerm437\\ Nerd\\ Font\\ Mono:h9,Consolas:h9:w1").unwrap();
    assert_eq!(o.families, vec!["BigBlueTerm437 Nerd Font Mono", "Consolas"]);
    let size_pt = last_number(&o.size_options, 9.0);
    let width_extra = last_number(&o.width_options, 0.0);
    assert_eq!(size_pt, 9.0);
    assert_eq!(width_extra, 1.0);
    assert_eq!(size_px(size_pt, 1.0), 12.0);
    assert_eq!(size_px(size_pt, 2.0), 24.0);
    assert!(FontOptions::parse("").is_none());
    assert!(FontOptions::parse("*").is_none());
}

#[test]
fn options_are_kept_in_order() {
    let o = FontOptions::parse("A:h10:w2:h11:x3").unwrap();
    assert_eq!(o.families, vec!["A"]);
    assert_eq!(o.size_options, vec!["10", "11"]);
    assert_eq!(o.width_options, vec!["2"]);
}

#[test]
fn entries_without_a_family_add_none() {
    let o = FontOptions::parse(" :h12, B ").unwrap();
    assert_eq!(o.families, vec!["B"]);
    assert_eq!(o.size_options, vec!["12"]);
    assert!(FontOptions::parse(":h12").is_none());
    assert!(FontOptions::parse("  *  ").is_none());
}

#[test]
fn escaped_separators_do_not_split() {
    assert_eq!(split_unescaped("a\\,b,c", ','), vec!["a\\,b", "c"]);
    assert_eq!(split_unescaped("", ','), vec![""]);
    assert_eq!(split_unescaped("x,", ','), vec!["x", ""]);
    assert_eq!(split_unescaped("end\\", ','), vec!["end"]);
}
