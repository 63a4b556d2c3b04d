use nvs_shell::editor::style::{Color, Colors, Style};

const WHITE: Color = Color::Rgb(0xff_ffff);

#[test]
fn reverse_swaps_colours_and_falls_back_to_defaults() {
    let default = Colors::new(Some(Color::Rgb(0x1a_334d)), Some(Color::Rgb(0x66_8099)), None);
    let mut style = Style::new(Colors::new(Some(WHITE), None, None));
    assert_eq!(style.foreground(&default), WHITE);
    assert_eq!(style.background(&default), default.background.unwrap());
    style.reverse = true;
    assert_eq!(style.foreground(&default), default.background.unwrap());
    assert_eq!(style.background(&default), WHITE);
    assert_eq!(style.special(&default), default.background.unwrap());
}

#[test]
fn reversing_twice_gives_the_colours_back() {
    let default = Colors::new(Some(Color::Rgb(1)), Some(Color::Rgb(2)), None);
    let mut style = Style::new(Colors::new(Some(Color::Rgb(3)), Some(Color::Rgb(4)), None));
    let (f, b) = (style.foreground(&default), style.background(&default));
    style.reverse = true;
    assert_eq!((style.foreground(&default), style.background(&default)), (b, f));
    style.reverse = false;
    assert_eq!((style.foreground(&default), style.background(&default)), (f, b));
}

#[test]
fn packed_colours_keep_their_low_24_bits() {
    assert_eq!(Color::from_packed(0x12_345678), Color::Rgb(0x34_5678));
    assert_eq!(Color::from_packed(0xff_ffff), WHITE);
}

#[test]
fn special_falls_back_to_the_foreground() {
    let default = Colors::new(Some(Color::Rgb(7)), Some(Color::Rgb(8)), Some(Color::Rgb(9)));
    let style = Style::new(Colors::new(None, None, None));
    assert_eq!(style.special(&default), Color::Rgb(7));
    let style = Style::new(Colors::new(None, None, Some(Color::Rgb(5))));
    assert_eq!(style.special(&default), Color::Rgb(5));
}
