use vju::geometry::{compute_position, parse_screen_bounds, place, BoundsError, ScreenBounds, WidgetGeometry};
use vju::ingest::{Tick, Vju};
use vju::parse::{field, parse_u16, strip_line_feeds};
use vju::startup::{platform_name, Settings, DEFAULT_BACKGROUND_COLOR, DEFAULT_HEIGHT, DEFAULT_WIDTH};
use vju::text::{is_space_char, trim};

fn chars(s: &str) -> Vec<char> {
    s.chars().collect()
}

#[test]
fn bounds_from_finder_output() {
    let b = parse_screen_bounds("0, 0, 1920, 1080\n").unwrap();
    assert_eq!(b, ScreenBounds { width: 1920, height: 1080 });
}

#[test]
fn bounds_take_right_and_bottom_not_differences() {
    let b = parse_screen_bounds("100, 50, 1920, 1080").unwrap();
    assert_eq!(b.width, 1920);
    assert_eq!(b.height, 1080);
}

#[test]
fn bounds_ignore_extra_fields() {
    let b = parse_screen_bounds("0,0,2560,1440,7").unwrap();
    assert_eq!(b, ScreenBounds { width: 2560, height: 1440 });
}

#[test]
fn bounds_drop_inner_line_feeds() {
    let b = parse_screen_bounds("0,0,19\n20,10\n80").unwrap();
    assert_eq!(b, ScreenBounds { width: 1920, height: 1080 });
}

#[test]
fn bounds_accept_plus_sign() {
    let b = parse_screen_bounds("0,0,+800,+600").unwrap();
    assert_eq!(b, ScreenBounds { width: 800, height: 600 });
}

#[test]
fn bounds_missing_fields() {
    assert_eq!(parse_screen_bounds(""), Err(BoundsError::MissingField));
    assert_eq!(parse_screen_bounds("0, 0"), Err(BoundsError::MissingField));
    assert_eq!(parse_screen_bounds("0, 0, 1920"), Err(BoundsError::MissingField));
}

#[test]
fn bounds_invalid_numbers() {
    assert_eq!(parse_screen_bounds("0, 0, abc, 1080"), Err(BoundsError::InvalidNumber));
    assert_eq!(parse_screen_bounds("0, 0, 1920, "), Err(BoundsError::InvalidNumber));
    assert_eq!(parse_screen_bounds("0, 0, 65536, 1080"), Err(BoundsError::InvalidNumber));
    assert_eq!(parse_screen_bounds("0, 0, -1, 1080"), Err(BoundsError::InvalidNumber));
    assert_eq!(parse_screen_bounds("0, 0, 19 20, 1080"), Err(BoundsError::InvalidNumber));
    assert_eq!(parse_screen_bounds("0, 0, abc"), Err(BoundsError::InvalidNumber));
}

#[test]
fn bounds_largest_value() {
    let b = parse_screen_bounds("0,0,65535,65535").unwrap();
    assert_eq!(b, ScreenBounds { width: 65535, height: 65535 });
}

#[test]
fn bounds_zero_size() {
    assert_eq!(parse_screen_bounds("0, 0, 0, 1080"), Err(BoundsError::ZeroSize));
    assert_eq!(parse_screen_bounds("0, 0, 1920, 0"), Err(BoundsError::ZeroSize));
}

#[test]
fn fields_split_at_commas() {
    assert_eq!(field("a,bc,,d", 0), Some("a"));
    assert_eq!(field("a,bc,,d", 1), Some("bc"));
    assert_eq!(field("a,bc,,d", 2), Some(""));
    assert_eq!(field("a,bc,,d", 3), Some("d"));
    assert_eq!(field("a,bc,,d", 4), None);
    assert_eq!(field("", 0), Some(""));
}

#[test]
fn u16_parsing() {
    assert_eq!(parse_u16(&chars("0")), Some(0));
    assert_eq!(parse_u16(&chars("007")), Some(7));
    assert_eq!(parse_u16(&chars("+42")), Some(42));
    assert_eq!(parse_u16(&chars("65535")), Some(65535));
    assert_eq!(parse_u16(&chars("65536")), None);
    assert_eq!(parse_u16(&chars("99999999999")), None);
    assert_eq!(parse_u16(&chars("")), None);
    assert_eq!(parse_u16(&chars("+")), None);
    assert_eq!(parse_u16(&chars("1x")), None);
    for s in ["0", "1", "+9", "12345", "65535", "65536", "", "+", "-3", "4a"] {
        assert_eq!(parse_u16(&chars(s)), s.parse::<u16>().ok());
    }
}

#[test]
fn line_feeds_removed() {
    assert_eq!(strip_line_feeds("a\nb\n\nc"), vec!['a', 'b', 'c']);
    assert_eq!(strip_line_feeds("\n"), Vec::<char>::new());
}

#[test]
fn trimming() {
    assert_eq!(trim("  Darwin\n"), "Darwin");
    assert_eq!(trim("\u{3000}Linux\t\r\n"), "Linux");
    assert_eq!(trim(" \n\t "), "");
    assert_eq!(trim(""), "");
    assert_eq!(trim("a b"), "a b");
    for s in [" x ", "\u{85}y\u{a0}", "\u{2028}z\u{200a}", "\u{200b}w"] {
        assert_eq!(trim(s), s.trim());
    }
}

#[test]
fn whitespace_matches_char_is_whitespace() {
    for c in ['\t', '\n', '\u{b}', '\u{c}', '\r', ' ', '\u{85}', '\u{a0}', '\u{1680}', '\u{2000}',
        '\u{200a}', '\u{2028}', '\u{2029}', '\u{202f}', '\u{205f}', '\u{3000}', 'a', '\u{200b}',
        '\u{180e}', '\u{feff}', '0']
    {
        assert_eq!(is_space_char(c), c.is_whitespace());
    }
}

#[test]
fn platform_name_is_trimmed() {
    assert_eq!(platform_name("Darwin\n"), "Darwin");
    assert_eq!(platform_name("  Linux  \n"), "Linux");
    assert_eq!(platform_name("\n"), "");
}

#[test]
fn position_formula() {
    assert_eq!(compute_position(1920, 1080, 800, 500), (1520, 830));
    assert_eq!(compute_position(1920, 1080, 801, 501), (1520, 830));
    assert_eq!(compute_position(800, 500, 800, 500), (400, 250));
}

#[test]
fn position_is_repeatable() {
    let a = compute_position(1366, 768, 300, 200);
    let b = compute_position(1366, 768, 300, 200);
    assert_eq!(a, b);
    assert_eq!(a, (1216, 668));
}

#[test]
fn position_does_not_wrap() {
    assert_eq!(compute_position(100, 100, 800, 500), (0, 0));
    assert_eq!(compute_position(0, 0, 65535, 65535), (0, 0));
    assert_eq!(compute_position(400, 100, 800, 500), (0, 0));
}

#[test]
fn place_keeps_size() {
    let g = place(ScreenBounds { width: 1920, height: 1080 }, 640, 480);
    assert_eq!(g, WidgetGeometry { x: 1600, y: 840, width: 640, height: 480 });
}

#[test]
fn default_size_when_flags_omitted() {
    let s = Settings::from_flags(None, None, None, None, None);
    assert_eq!((s.width, s.height), (800, 500));
    assert_eq!((DEFAULT_WIDTH, DEFAULT_HEIGHT), (800, 500));
    let g = s.geometry(ScreenBounds { width: 1920, height: 1080 });
    assert_eq!((g.width, g.height), (800, 500));
    assert_eq!((g.x, g.y), (1520, 830));
}

#[test]
fn default_background_color() {
    let s = Settings::from_flags(None, None, None, None, None);
    assert_eq!(s.background_color, "#666699");
    assert_eq!(DEFAULT_BACKGROUND_COLOR, "#666699");
    assert_eq!(s.fill_rgba(), Some([0x66, 0x66, 0x99, 0xff]));
    assert_eq!(s.position, None);
    assert_eq!(s.text_color, None);
}

#[test]
fn flags_override_defaults() {
    let s = Settings::from_flags(
        Some(300),
        Some(120),
        Some("top".to_string()),
        Some("#ff0000".to_string()),
        Some("#ffffff".to_string()),
    );
    assert_eq!(s.width, 300);
    assert_eq!(s.height, 120);
    assert_eq!(s.position.as_deref(), Some("top"));
    assert_eq!(s.background_color, "#ff0000");
    assert_eq!(s.text_color.as_deref(), Some("#ffffff"));
    assert_eq!(s.fill_rgba(), Some([0xff, 0x00, 0x00, 0xff]));
}

#[test]
fn invalid_background_color() {
    let s = Settings::from_flags(None, None, None, Some("666699".to_string()), None);
    assert_eq!(s.fill_rgba(), None);
    let s = Settings::from_flags(None, None, None, Some("#66669".to_string()), None);
    assert_eq!(s.fill_rgba(), None);
    let s = Settings::from_flags(None, None, None, Some("#fff".to_string()), None);
    assert_eq!(s.fill_rgba(), Some([0xff, 0xff, 0xff, 0xff]));
}

#[test]
fn one_tick_reads_whole_input() {
    let mut v = Vju::new();
    assert_eq!(v.tick("hello\n"), Tick::Refreshing);
    assert_eq!(v.displayed(), "hello\n");
    assert_eq!(v.buffer, "hello\n");
}

#[test]
fn empty_input_stays_idle() {
    let mut v = Vju::default();
    assert_eq!(v.tick(""), Tick::Idle);
    assert_eq!(v.displayed(), "");
    assert_eq!(v.buffer, "");
}

#[test]
fn empty_tick_keeps_displayed_text() {
    let mut v = Vju::new();
    assert_eq!(v.tick("first"), Tick::Refreshing);
    assert_eq!(v.tick(""), Tick::Idle);
    assert_eq!(v.tick(""), Tick::Idle);
    assert_eq!(v.displayed(), "first");
}

#[test]
fn chunks_accumulate_into_displayed_text() {
    let mut v = Vju::new();
    for chunk in ["ab", "", "c\n", "", "déf"] {
        v.tick(chunk);
    }
    assert_eq!(v.displayed(), "abc\ndéf");
    assert_eq!(v.output, v.buffer);
}

#[test]
fn fill_colour_forms() {
    let fill = |c: &str| Settings::from_flags(None, None, None, Some(c.to_string()), None).fill_rgba();
    assert_eq!(fill("#abc"), Some([0xaa, 0xbb, 0xcc, 0xff]));
    assert_eq!(fill("#A0b1C2"), Some([0xa0, 0xb1, 0xc2, 0xff]));
    assert_eq!(fill("#f00f"), Some([0xff, 0x00, 0x00, 0xff]));
    assert_eq!(fill("#f000"), Some([0, 0, 0, 0]));
    assert_eq!(fill("#ff0000ff"), Some([0xff, 0x00, 0x00, 0xff]));
    assert_eq!(fill("#ff000000"), Some([0, 0, 0, 0]));
    assert_eq!(fill("#ff000080").map(|c| c[3]), Some(0x80));
    assert_eq!(fill("#f008").map(|c| c[3]), Some(0x88));
    assert_eq!(fill("#abcde"), None);
    assert_eq!(fill("#ggg"), None);
    assert_eq!(fill(""), None);
}

#[test]
fn whitespace_around_sizes_is_ignored() {
    let plain = parse_screen_bounds("0,0,1920,1080");
    assert_eq!(parse_screen_bounds("0,0,\t 1920 \n, \u{3000}1080\n\r"), plain);
    assert_eq!(parse_screen_bounds("0,0,  1920,1080  "), plain);
    assert_eq!(plain, Ok(ScreenBounds { width: 1920, height: 1080 }));
}

#[test]
fn printed_bounds_read_back() {
    for (w, h) in [(1, 1), (9, 10), (800, 600), (1920, 1080), (65535, 65535)] {
        let line = format!("0, 0, {}, {}\n", w, h);
        assert_eq!(parse_screen_bounds(&line), Ok(ScreenBounds { width: w, height: h }));
    }
}
