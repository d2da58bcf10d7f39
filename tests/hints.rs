use zjstatus_hints::hints::{
    add_description_only, add_hint, normal_mode_hints, style_description,
    style_key_with_modifier, Colour, Part, PartStyle, Theme,
};
use zjstatus_hints::keys::{Key, Modifier};

fn theme() -> Theme {
    Theme {
        ribbon_fg: Colour::Fixed(0),
        ribbon_bg: Colour::Fixed(2),
        text_fg: Colour::Fixed(7),
        text_bg: Colour::Rgb(10, 20, 30),
        highlight_fg: Colour::Fixed(3),
    }
}

fn plain() -> PartStyle {
    PartStyle { fg: None, bg: None, bold: false }
}

fn ribbon(bold: bool) -> PartStyle {
    PartStyle { fg: Some(Colour::Fixed(0)), bg: Some(Colour::Fixed(2)), bold }
}

fn text() -> PartStyle {
    PartStyle { fg: Some(Colour::Fixed(7)), bg: Some(Colour::Rgb(10, 20, 30)), bold: false }
}

fn highlighted() -> PartStyle {
    PartStyle { fg: Some(Colour::Fixed(3)), bg: Some(Colour::Rgb(10, 20, 30)), bold: true }
}

fn key(bare: &str, modifiers: &[Modifier]) -> Key {
    Key { bare: bare.to_string(), is_char: bare.chars().count() == 1, modifiers: modifiers.to_vec() }
}

fn views(parts: &[Part]) -> Vec<(String, PartStyle)> {
    parts.iter().map(|p| (p.text.clone(), p.style)).collect()
}

fn expect(items: &[(&str, PartStyle)]) -> Vec<(String, PartStyle)> {
    items.iter().map(|(t, s)| (t.to_string(), *s)).collect()
}

#[test]
fn key_ribbon_with_shared_modifier() {
    let keys = vec![key("p", &[Modifier::Ctrl]), key("t", &[Modifier::Ctrl])];
    let parts = style_key_with_modifier(&keys, &theme());
    assert_eq!(
        views(&parts),
        expect(&[
            (" ", plain()),
            (" ctrl-", ribbon(true)),
            ("p", ribbon(true)),
            ("|", ribbon(false)),
            ("t", ribbon(true)),
            (" ", ribbon(false)),
        ])
    );
}

#[test]
fn key_ribbon_compact_run_has_no_separator() {
    let keys = vec![key("h", &[]), key("j", &[]), key("k", &[]), key("l", &[])];
    let parts = style_key_with_modifier(&keys, &theme());
    assert_eq!(
        views(&parts),
        expect(&[
            (" ", plain()),
            (" ", ribbon(false)),
            ("h", ribbon(true)),
            ("j", ribbon(true)),
            ("k", ribbon(true)),
            ("l", ribbon(true)),
            (" ", ribbon(false)),
        ])
    );
}

#[test]
fn key_ribbon_for_no_keys_is_empty() {
    assert!(style_key_with_modifier(&vec![], &theme()).is_empty());
}

#[test]
fn description_highlights_key_letter() {
    let parts = style_description("select", &theme(), &vec![key("ENTER", &[])]);
    assert_eq!(
        views(&parts),
        expect(&[(" ", text()), ("s", text()), ("e", highlighted()), ("lect", text()), (" ", text())])
    );
}

#[test]
fn description_highlight_ignores_case() {
    let parts = style_description("Quit", &theme(), &vec![key("q", &[Modifier::Ctrl])]);
    assert_eq!(
        views(&parts),
        expect(&[(" ", text()), ("Q", highlighted()), ("uit", text()), (" ", text())])
    );
}

#[test]
fn description_without_key_letter_is_plain() {
    let parts = style_description("scroll", &theme(), &vec![key("ENTER", &[])]);
    assert_eq!(views(&parts), expect(&[(" ", text()), ("scroll", text()), (" ", text())]));
}

#[test]
fn description_without_keys_highlights_first_letter() {
    let parts = style_description("tab", &theme(), &vec![]);
    assert_eq!(
        views(&parts),
        expect(&[(" ", text()), ("t", highlighted()), ("ab", text()), (" ", text())])
    );
}

#[test]
fn empty_description_is_two_spaces() {
    let parts = style_description("", &theme(), &vec![]);
    assert_eq!(views(&parts), expect(&[(" ", text()), (" ", text())]));
}

#[test]
fn hint_adds_ribbon_and_description() {
    let mut parts = vec![];
    add_hint(&mut parts, &vec![key("n", &[])], "new", &theme());
    assert_eq!(
        views(&parts),
        expect(&[
            (" ", plain()),
            (" ", ribbon(false)),
            ("n", ribbon(true)),
            (" ", ribbon(false)),
            (" ", text()),
            ("n", highlighted()),
            ("ew", text()),
            (" ", text()),
        ])
    );
    add_hint(&mut parts, &vec![], "nothing", &theme());
    assert_eq!(parts.len(), 8);
    add_description_only(&mut parts, "x", &theme());
    assert_eq!(parts.len(), 11);
}

#[test]
fn normal_mode_writes_shared_modifier_once() {
    let keys = vec![key("p", &[Modifier::Ctrl]), key("t", &[Modifier::Ctrl])];
    let labels = vec!["pane".to_string(), "tab".to_string()];
    let parts = normal_mode_hints(&keys, &labels, &theme());
    assert_eq!(
        views(&parts),
        expect(&[
            (" ", plain()),
            (" ctrl ", ribbon(true)),
            (" ", text()),
            ("p", highlighted()),
            ("ane", text()),
            (" ", text()),
            (" ", text()),
            ("t", highlighted()),
            ("ab", text()),
            (" ", text()),
        ])
    );
}

#[test]
fn normal_mode_without_keys_is_empty() {
    let labels = vec!["pane".to_string()];
    assert!(normal_mode_hints(&vec![], &labels, &theme()).is_empty());
}
