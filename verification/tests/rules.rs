use opcuasim::theme::{toggled, widget_colors};
use opcuasim::master_events::MethodArgInfo;
use opcuasim::numtext::{float_text, i64_text, u64_text};
use opcuasim::panels::{access_str, default_for_type, default_input_for, format_hms, parse_check, quality_color};
use opcuasim::text::{chars_of, contains_exec, decimal_exec, is_blank_str, replace_char_exec, str_eq, trim_string};
use opcuasim::theme::{self, current_mode, pick, set_mode, Rgb, ThemeMode, ThemeSwitch};
use opcuasim::widgets::{connection_state_chip, server_status_bar_chip, server_toolbar_chip, OBJECTS_ROOT_ID};

fn arg(ty: &str) -> MethodArgInfo {
    MethodArgInfo { name: "x".to_string(), data_type: ty.to_string(), description: String::new() }
}

#[test]
fn trim_and_blank_follow_unicode_whitespace() {
    assert_eq!(trim_string("  a b \t\n"), "a b");
    assert_eq!(trim_string("\u{3000}x\u{a0}"), "x");
    assert_eq!(trim_string(""), "");
    assert!(is_blank_str(" \t\r\n"));
    assert!(is_blank_str(""));
    assert!(!is_blank_str(" x "));
    for s in ["", " ", " a", "a ", "\u{2003}mid dle\u{2029}", "\u{85}z"] {
        assert_eq!(trim_string(s), s.trim());
        assert_eq!(is_blank_str(s), s.trim().is_empty());
    }
}


#[test]
fn contains_and_helpers() {
    let h = chars_of("hello world");
    assert!(contains_exec(&h, &chars_of("lo w")));
    assert!(contains_exec(&h, &chars_of("")));
    assert!(!contains_exec(&h, &chars_of("worlds")));
    assert!(str_eq("a", "a"));
    assert!(!str_eq("a", "b"));
    assert_eq!(replace_char_exec("a b c", ' ', '_'), vec!['a', '_', 'b', '_', 'c']);
    assert_eq!(decimal_exec(0), vec!['0']);
    assert_eq!(decimal_exec(4096), vec!['4', '0', '9', '6']);
}

#[test]
fn number_texts_agree_with_std_parse() {
    let samples = [
        "0", "-0", "+0", "12", "-12", "+12", "", "+", "-", "1.", ".5", ".", "1e5", "1E5", "1e", "e5",
        "1e+5", "1e-5", "1.5e3", "inf", "-inf", "+Infinity", "NaN", "nan", "infin", "1_000", " 1",
        "9223372036854775807", "9223372036854775808", "-9223372036854775808", "-9223372036854775809",
        "18446744073709551615", "18446744073709551616", "0x10", "1..2", "--1", "+-1", "١",
    ];
    for s in samples {
        let v = chars_of(s);
        assert_eq!(i64_text(&v), s.parse::<i64>().is_ok(), "i64 {s:?}");
        assert_eq!(u64_text(&v), s.parse::<u64>().is_ok(), "u64 {s:?}");
        assert_eq!(float_text(&v), s.parse::<f64>().is_ok(), "f64 {s:?}");
    }
}

#[test]
fn parse_check_messages() {
    assert_eq!(parse_check("Boolean", "  "), None);
    assert_eq!(parse_check("Boolean", " TRUE "), None);
    assert_eq!(parse_check("Boolean", "0"), None);
    assert_eq!(parse_check("Boolean", "yes"), Some("需要 true/false 或 0/1"));
    assert_eq!(parse_check("Double", "1.5e3"), None);
    assert_eq!(parse_check("Float", "abc"), Some("需要浮点数"));
    assert_eq!(parse_check("Int16", "-42"), None);
    assert_eq!(parse_check("Int32", "4.2"), Some("需要整数"));
    assert_eq!(parse_check("UInt64", "-1"), Some("需要非负整数"));
    assert_eq!(parse_check("Byte", "255"), None);
    assert_eq!(parse_check("String", "anything"), None);
    assert_eq!(parse_check("SByte", "300"), Some("需要整数"));
    assert_eq!(parse_check("SByte", "-128"), None);
    assert_eq!(parse_check("SByte", "-129"), Some("需要整数"));
    assert_eq!(parse_check("Int16", "32768"), Some("需要整数"));
    assert_eq!(parse_check("Int32", " 2147483647 "), None);
    assert_eq!(parse_check("Int32", "2147483648"), Some("需要整数"));
    assert_eq!(parse_check("Int64", "9223372036854775808"), Some("需要整数"));
    assert_eq!(parse_check("Byte", "256"), Some("需要非负整数"));
    assert_eq!(parse_check("UInt16", "+65535"), None);
    assert_eq!(parse_check("UInt32", "4294967296"), Some("需要非负整数"));
    assert_eq!(parse_check("UInt64", "18446744073709551615"), None);
}

#[test]
fn format_hms_takes_the_time_part() {
    assert_eq!(format_hms(Some("2024-01-02T03:04:05Z")), "03:04:05");
    assert_eq!(format_hms(Some("2024-01-02T03:04:05.123+08:00")), "03:04:05");
    assert_eq!(format_hms(Some("short")), "short");
    assert_eq!(format_hms(Some("")), "—");
    assert_eq!(format_hms(None), "—");
}

#[test]
fn access_levels() {
    assert_eq!(access_str(0), "0x00");
    assert_eq!(access_str(1), "R");
    assert_eq!(access_str(2), "W");
    assert_eq!(access_str(3), "R · W");
    assert_eq!(access_str(0x7c), "0x7c");
    assert_eq!(access_str(0xff), "R · W");
}

#[test]
fn default_argument_texts() {
    assert_eq!(default_for_type(&arg("Boolean")), "false");
    assert_eq!(default_for_type(&arg("String")), "");
    assert_eq!(default_for_type(&arg("Double")), "0.0");
    assert_eq!(default_for_type(&arg("Float")), "0.0");
    assert_eq!(default_for_type(&arg("Int32")), "0");
    assert_eq!(default_input_for(&arg("Boolean")), "false");
    assert_eq!(default_input_for(&arg("UInt16")), "0");
}

#[test]
fn theme_switch_reads_back_what_was_set() {
    let mut sw = ThemeSwitch::new();
    assert_eq!(current_mode(&sw), ThemeMode::Dark);
    assert_eq!(ThemeMode::default(), ThemeMode::Dark);
    set_mode(&mut sw, ThemeMode::Light);
    assert_eq!(current_mode(&sw), ThemeMode::Light);
    assert_eq!(sw.code, theme::MODE_LIGHT);
    set_mode(&mut sw, ThemeMode::Dark);
    assert_eq!(current_mode(&sw), ThemeMode::Dark);
    let d = Rgb { r: 1, g: 2, b: 3 };
    let l = Rgb { r: 4, g: 5, b: 6 };
    assert_eq!(pick(&sw, d, l), d);
    set_mode(&mut sw, ThemeMode::Light);
    assert_eq!(pick(&sw, d, l), l);
}

#[test]
fn palettes() {
    let mut sw = ThemeSwitch::new();
    assert_eq!(theme::accent(&sw), Rgb { r: 64, g: 188, b: 184 });
    assert_eq!(theme::ACCENT(&sw), theme::accent(&sw));
    set_mode(&mut sw, ThemeMode::Light);
    assert_eq!(theme::accent(&sw), Rgb { r: 32, g: 134, b: 130 });
    assert_ne!(theme::status_ok(&sw), theme::status_bad(&sw));
}

#[test]
fn quality_colours() {
    let sw = ThemeSwitch::new();
    assert_eq!(quality_color(&sw, ""), theme::status_idle(&sw));
    assert_eq!(quality_color(&sw, "Good"), theme::status_ok(&sw));
    assert_eq!(quality_color(&sw, "BadNodeIdUnknown"), theme::status_bad(&sw));
    assert_eq!(quality_color(&sw, "SomeError"), theme::status_bad(&sw));
    assert_eq!(quality_color(&sw, "UncertainInitialValue"), theme::status_warn(&sw));
    assert_eq!(quality_color(&sw, "Other"), theme::text_muted(&sw));
}

#[test]
fn state_chips() {
    let sw = ThemeSwitch::new();
    assert_eq!(connection_state_chip(&sw, "Connected"), ("●", theme::status_ok(&sw), "在线"));
    assert_eq!(connection_state_chip(&sw, "Connecting"), ("◐", theme::status_warn(&sw), "连接中"));
    assert_eq!(connection_state_chip(&sw, "Disconnected"), ("○", theme::status_bad(&sw), "离线"));
    assert_eq!(connection_state_chip(&sw, "Weird"), ("·", theme::status_idle(&sw), "未知"));
    assert_eq!(server_toolbar_chip(&sw, "Running"), ("●", theme::status_ok(&sw), "运行中"));
    assert_eq!(server_toolbar_chip(&sw, "Stopping"), ("◑", theme::status_warn(&sw), "停止中"));
    assert_eq!(server_toolbar_chip(&sw, "Paused"), ("·", theme::status_idle(&sw), "Paused"));
    assert_eq!(server_status_bar_chip(&sw, "Stopped"), ("○", theme::status_bad(&sw), "Stopped"));
    assert_eq!(server_status_bar_chip(&sw, "Starting"), ("◐", theme::status_warn(&sw), "Starting"));
    assert_eq!(OBJECTS_ROOT_ID, "Objects");
}

#[test]
fn theme_toggle_and_widget_colours() {
    assert_eq!(toggled(ThemeMode::Dark), ThemeMode::Light);
    assert_eq!(toggled(toggled(ThemeMode::Light)), ThemeMode::Light);
    let mut sw = ThemeSwitch::new();
    let dark = widget_colors(&sw);
    assert_eq!(dark.panel_fill, theme::bg_panel(&sw));
    assert_eq!(dark.hovered_stroke, theme::accent(&sw));
    assert_eq!(dark.hovered_text, Rgb { r: 255, g: 255, b: 255 });
    assert_eq!(dark.faint_bg, Rgb { r: 32, g: 35, b: 42 });
    set_mode(&mut sw, ThemeMode::Light);
    let light = widget_colors(&sw);
    assert_eq!(light.active_text, Rgb { r: 8, g: 16, b: 28 });
    assert_eq!(light.inactive_bg, Rgb { r: 248, g: 250, b: 253 });
    assert_eq!(light.selection_bg, theme::accent_soft(&sw));
}

#[test]
fn default_argument_text_is_accepted() {
    for ty in [
        "Boolean", "SByte", "Byte", "Int16", "UInt16", "Int32", "UInt32", "Int64", "UInt64", "Float",
        "Double", "String",
    ] {
        let d = default_for_type(&arg(ty));
        assert!(opcuasim::method_args::string_to_variant(ty, &d).is_ok(), "{ty}");
        assert_eq!(parse_check(ty, &d), None, "{ty}");
    }
}
