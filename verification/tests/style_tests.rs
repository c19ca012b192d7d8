use tui_bridge::{parse_color, parse_modifier_str, parse_style, Color, Modifiers, Style, StyleInput};

#[test]
fn lib_test_parse_color() {
    assert_eq!(parse_color("red"), Some(Color::Red));
    assert_eq!(parse_color("blue"), Some(Color::Blue));
    assert_eq!(parse_color("#ffffff"), Some(Color::Rgb(255, 255, 255)));
    assert_eq!(parse_color("#000000"), Some(Color::Rgb(0, 0, 0)));
    assert_eq!(parse_color("invalid"), None);
}

#[test]
fn style_test_parse_color() {
    assert_eq!(parse_color("red"), Some(Color::Red));
    assert_eq!(parse_color("blue"), Some(Color::Blue));
    assert_eq!(parse_color("black"), Some(Color::Black));
    assert_eq!(parse_color("white"), Some(Color::White));
    assert_eq!(parse_color("green"), Some(Color::Green));
    assert_eq!(parse_color("yellow"), Some(Color::Yellow));
    assert_eq!(parse_color("magenta"), Some(Color::Magenta));
    assert_eq!(parse_color("cyan"), Some(Color::Cyan));
    assert_eq!(parse_color("gray"), Some(Color::Gray));
    assert_eq!(parse_color("dark_gray"), Some(Color::DarkGray));
    assert_eq!(parse_color("light_red"), Some(Color::LightRed));
    assert_eq!(parse_color("light_green"), Some(Color::LightGreen));
    assert_eq!(parse_color("light_yellow"), Some(Color::LightYellow));
    assert_eq!(parse_color("light_blue"), Some(Color::LightBlue));
    assert_eq!(parse_color("light_magenta"), Some(Color::LightMagenta));
    assert_eq!(parse_color("light_cyan"), Some(Color::LightCyan));

    assert_eq!(parse_color("#ffffff"), Some(Color::Rgb(255, 255, 255)));
    assert_eq!(parse_color("#000000"), Some(Color::Rgb(0, 0, 0)));
    assert_eq!(parse_color("#FF0000"), Some(Color::Rgb(255, 0, 0)));

    assert_eq!(parse_color("255"), Some(Color::Indexed(255)));

    assert_eq!(parse_color("invalid"), None);
    assert_eq!(parse_color(""), None);
}

#[test]
fn color_tokens_normalise() {
    assert_eq!(parse_color("Dark Gray"), Some(Color::DarkGray));
    assert_eq!(parse_color("LIGHT-BLUE"), Some(Color::LightBlue));
    assert_eq!(parse_color("reset"), Some(Color::Reset));
    assert_eq!(parse_color("0"), Some(Color::Indexed(0)));
    assert_eq!(parse_color("256"), None);
    assert_eq!(parse_color("#ff00"), None);
    assert_eq!(parse_color("#ggffff"), None);
}

#[test]
fn modifier_tokens() {
    let bold = parse_modifier_str("bold").unwrap();
    assert!(bold.bold && !bold.italic);
    assert!(parse_modifier_str("italic").unwrap().italic);
    assert!(parse_modifier_str("dim").unwrap().dim);
    assert!(parse_modifier_str("reversed").unwrap().reversed);
    assert!(parse_modifier_str("underlined").unwrap().underlined);
    assert!(parse_modifier_str("slow_blink").unwrap().slow_blink);
    assert!(parse_modifier_str("rapid_blink").unwrap().rapid_blink);
    assert!(parse_modifier_str("crossed_out").unwrap().crossed_out);
    assert!(parse_modifier_str("hidden").unwrap().hidden);
    assert_eq!(parse_modifier_str("sparkly"), None);
}

#[test]
fn style_descriptor_resolves() {
    let style = parse_style(&Some(StyleInput {
        fg: Some("red".to_string()),
        bg: Some("#0000ff".to_string()),
        modifiers: vec!["bold".to_string(), "underlined".to_string(), "nope".to_string()],
    }));
    assert_eq!(style.fg, Some(Color::Red));
    assert_eq!(style.bg, Some(Color::Rgb(0, 0, 255)));
    assert!(style.modifiers.bold && style.modifiers.underlined);
    assert!(!style.modifiers.italic);

    // An absent descriptor is the default style; bad colour tokens are
    // dropped silently.
    assert_eq!(parse_style(&None), Style { fg: None, bg: None, modifiers: Modifiers::empty() });
    let lax = parse_style(&Some(StyleInput {
        fg: Some("not-a-colour".to_string()),
        bg: None,
        modifiers: vec![],
    }));
    assert_eq!(lax.fg, None);
}
