use zjstatus_hints::hints::{Colour, Part, PartStyle};
use zjstatus_hints::plugin::{fit_to_width, load_config, pipe_payload, Mode, ViewState};

#[test]
fn config_defaults() {
    let c = load_config(None, None, None, None);
    assert_eq!(c.max_length, 0);
    assert_eq!(c.overflow_str, "...");
    assert_eq!(c.pipe_name, "zjstatus_hints");
    assert!(!c.hide_in_base_mode);
}

#[test]
fn config_reads_settings() {
    let c = load_config(Some("12"), Some(">"), Some("bar"), Some("TRUE"));
    assert_eq!(c.max_length, 12);
    assert_eq!(c.overflow_str, ">");
    assert_eq!(c.pipe_name, "bar");
    assert!(c.hide_in_base_mode);
}

#[test]
fn config_bad_values_fall_back() {
    let c = load_config(Some("twelve"), None, None, Some("yes"));
    assert_eq!(c.max_length, 0);
    assert!(!c.hide_in_base_mode);
    let c = load_config(Some("-3"), None, None, Some("False"));
    assert_eq!(c.max_length, 0);
    assert!(!c.hide_in_base_mode);
}

#[test]
fn fit_zero_budget_means_no_limit() {
    assert_eq!(fit_to_width("a long line", 0, "..."), "a long line");
}

#[test]
fn fit_cuts_long_lines() {
    assert_eq!(fit_to_width(" \x1b[1mabcdefgh\x1b[0m", 6, ".."), " \x1b[1mabc..");
    assert_eq!(fit_to_width("short", 6, ".."), "short");
}

#[test]
fn payload_names_the_pipe() {
    assert_eq!(pipe_payload("hints", " x"), "zjstatus::pipe::pipe_hints:: x");
}

#[test]
fn state_draws_until_initialized() {
    let mut s = ViewState::new();
    assert!(s.on_other_event());
    assert!(s.on_mode_update(Mode::Pane, Some(Mode::Normal), false));
    assert!(!s.base_mode_is_locked);
    let config = load_config(None, None, None, None);
    let style = PartStyle { fg: None, bg: None, bold: false };
    let parts = vec![Part { text: "hint".to_string(), style }];
    assert_eq!(s.render(&config, &parts), " hint");
    assert!(s.initialized);
    assert!(!s.on_other_event());
    assert!(!s.on_mode_update(Mode::Pane, Some(Mode::Normal), false));
    assert!(s.on_mode_update(Mode::Tab, Some(Mode::Locked), true));
    assert!(s.base_mode_is_locked);
}

#[test]
fn state_stays_uninitialized_in_base_mode() {
    let mut s = ViewState::new();
    s.on_mode_update(Mode::Normal, Some(Mode::Normal), true);
    let config = load_config(None, None, None, None);
    let parts = vec![Part { text: "hint".to_string(), style: PartStyle { fg: None, bg: None, bold: false } }];
    assert_eq!(s.render(&config, &parts), " hint");
    assert!(!s.initialized);
}

#[test]
fn state_hides_in_base_mode() {
    let mut s = ViewState::new();
    s.on_mode_update(Mode::Normal, Some(Mode::Normal), true);
    let config = load_config(None, None, None, Some("true"));
    let parts = vec![Part { text: "hint".to_string(), style: PartStyle { fg: None, bg: None, bold: false } }];
    assert_eq!(s.render(&config, &parts), "");
    assert!(!s.initialized);
}

#[test]
fn state_render_truncates_to_budget() {
    let mut s = ViewState::new();
    s.on_mode_update(Mode::Pane, Some(Mode::Normal), true);
    let config = load_config(Some("5"), Some("~"), None, None);
    let parts = vec![Part { text: "abcdefgh".to_string(), style: PartStyle { fg: None, bg: None, bold: false } }];
    assert_eq!(s.render(&config, &parts), " abc~");
}

fn drawn(parts: Vec<Part>) -> String {
    let mut s = ViewState::new();
    s.on_mode_update(Mode::Pane, None, true);
    s.render(&load_config(None, None, None, None), &parts)
}

#[test]
fn render_paints_escape_codes() {
    let style = PartStyle { fg: Some(Colour::Fixed(2)), bg: Some(Colour::Fixed(4)), bold: true };
    let parts = vec![Part { text: "hi".to_string(), style }];
    assert_eq!(drawn(parts), " \x1b[1;48;5;4;38;5;2mhi\x1b[0m");
}

#[test]
fn render_shares_codes_between_equal_styles() {
    let style = PartStyle { fg: Some(Colour::Rgb(1, 2, 3)), bg: None, bold: false };
    let parts = vec![
        Part { text: "a".to_string(), style },
        Part { text: "b".to_string(), style },
    ];
    assert_eq!(drawn(parts), " \x1b[38;2;1;2;3mab\x1b[0m");
}

#[test]
fn render_switches_styles_between_parts() {
    let bold = PartStyle { fg: None, bg: None, bold: true };
    let plain = PartStyle { fg: None, bg: None, bold: false };
    let parts = vec![
        Part { text: "a".to_string(), style: bold },
        Part { text: "b".to_string(), style: plain },
    ];
    assert_eq!(drawn(parts), " \x1b[1ma\x1b[0mb");
}
