use omablue_bt::ui::theme::{hex_to_color, parse_hex_u32, ThemeColor, ThemeColors};

#[test]
fn test_hex_to_color() {
    assert_eq!(hex_to_color("#FF0000"), ThemeColor::Rgb(255, 0, 0));
    assert_eq!(hex_to_color("#00FF00"), ThemeColor::Rgb(0, 255, 0));
    assert_eq!(hex_to_color("0000FF"), ThemeColor::Rgb(0, 0, 255));
}

#[test]
fn test_fallback_theme() {
    let theme = ThemeColors::fallback();
    assert_eq!(theme.background, "#1e1e2e");
    assert_eq!(theme.foreground, "#cdd6f4");
}

#[test]
fn hex_lowercase_and_mixed_case() {
    assert_eq!(hex_to_color("#1e1e2e"), ThemeColor::Rgb(0x1e, 0x1e, 0x2e));
    assert_eq!(hex_to_color("#CdD6f4"), ThemeColor::Rgb(0xcd, 0xd6, 0xf4));
}

#[test]
fn hex_all_leading_hashes_are_dropped() {
    assert_eq!(hex_to_color("##89b4fa"), hex_to_color("89b4fa"));
    assert_eq!(hex_to_color("###000001"), ThemeColor::Rgb(0, 0, 1));
}

#[test]
fn hex_short_values_fill_from_the_right() {
    assert_eq!(hex_to_color("#FFF"), ThemeColor::Rgb(0, 0x0f, 0xff));
    assert_eq!(hex_to_color("#1"), ThemeColor::Rgb(0, 0, 1));
}

#[test]
fn hex_top_byte_is_ignored() {
    assert_eq!(hex_to_color("#12345678"), ThemeColor::Rgb(0x34, 0x56, 0x78));
    assert_eq!(hex_to_color("FFFFFFFF"), ThemeColor::Rgb(255, 255, 255));
}

#[test]
fn hex_invalid_text_resets() {
    assert_eq!(hex_to_color(""), ThemeColor::Reset);
    assert_eq!(hex_to_color("#"), ThemeColor::Reset);
    assert_eq!(hex_to_color("#GG0000"), ThemeColor::Reset);
    assert_eq!(hex_to_color("#-10000"), ThemeColor::Reset);
    assert_eq!(hex_to_color("#100000000"), ThemeColor::Reset);
    assert_eq!(hex_to_color(" #FF0000"), ThemeColor::Reset);
    assert_eq!(hex_to_color("#FF 000"), ThemeColor::Reset);
}

#[test]
fn hex_plus_sign_is_accepted_once() {
    assert_eq!(hex_to_color("#+FF0000"), ThemeColor::Rgb(255, 0, 0));
    assert_eq!(hex_to_color("#+"), ThemeColor::Reset);
    assert_eq!(hex_to_color("#++FF"), ThemeColor::Reset);
}

#[test]
fn parse_hex_matches_std() {
    for s in ["0", "ff", "FF", "+ff", "ffffffff", "100000000", "", "+", "-1", "0000000000ff", "xyz", "é"] {
        assert_eq!(parse_hex_u32(s), u32::from_str_radix(s, 16).ok(), "input {:?}", s);
    }
}

#[test]
fn fallback_theme_colors() {
    let theme = ThemeColors::fallback();
    assert_eq!(theme.bg_color(), ThemeColor::Rgb(0x1e, 0x1e, 0x2e));
    assert_eq!(theme.fg_color(), ThemeColor::Rgb(0xcd, 0xd6, 0xf4));
    assert_eq!(theme.accent_color(), ThemeColor::Rgb(0x89, 0xb4, 0xfa));
    assert_eq!(theme.success_color(), ThemeColor::Rgb(0xa6, 0xe3, 0xa1));
    assert_eq!(theme.error_color(), ThemeColor::Rgb(0xf3, 0x8b, 0xa8));
    assert_eq!(theme.warning_color(), ThemeColor::Rgb(0xf9, 0xe2, 0xaf));
    assert_eq!(theme.info_color(), ThemeColor::Rgb(0x89, 0xb4, 0xfa));
    assert_eq!(theme.accent, "#89b4fa");
    assert_eq!(theme.cursor.as_deref(), Some("#f5e0dc"));
    assert_eq!(theme.color15.as_deref(), Some("#f5f5f5"));
}

#[test]
fn missing_palette_entries_use_defaults() {
    let mut theme = ThemeColors::fallback();
    theme.color1 = None;
    theme.color2 = None;
    theme.color3 = None;
    theme.color4 = None;
    assert_eq!(theme.success_color(), ThemeColor::Green);
    assert_eq!(theme.error_color(), ThemeColor::Red);
    assert_eq!(theme.warning_color(), ThemeColor::Yellow);
    assert_eq!(theme.info_color(), ThemeColor::Cyan);
    theme.color2 = Some("not a colour".to_string());
    assert_eq!(theme.success_color(), ThemeColor::Reset);
}
