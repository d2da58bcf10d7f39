use zjstatus_hints::keys::{
    arrow_keys_or_all, format_key_display, format_modifier_string, get_common_modifiers,
    get_key_separator, get_select_key, Key, Modifier,
};

fn key(bare: &str, modifiers: &[Modifier]) -> Key {
    Key { bare: bare.to_string(), is_char: bare.chars().count() == 1, modifiers: modifiers.to_vec() }
}

fn named(bare: &str) -> Key {
    Key { bare: bare.to_string(), is_char: false, modifiers: vec![] }
}

#[test]
fn common_modifiers_of_no_keys() {
    assert!(get_common_modifiers(&vec![]).is_empty());
}

#[test]
fn common_modifiers_intersect_in_host_order() {
    let keys = vec![
        key("h", &[Modifier::Alt, Modifier::Ctrl]),
        key("j", &[Modifier::Ctrl, Modifier::Shift, Modifier::Alt]),
        key("k", &[Modifier::Alt, Modifier::Ctrl, Modifier::Super]),
    ];
    assert_eq!(get_common_modifiers(&keys), vec![Modifier::Ctrl, Modifier::Alt]);
}

#[test]
fn common_modifiers_none_shared() {
    let keys = vec![key("a", &[Modifier::Ctrl]), key("b", &[Modifier::Alt])];
    assert!(get_common_modifiers(&keys).is_empty());
}

#[test]
fn modifier_string_joins_with_dash() {
    assert_eq!(format_modifier_string(&vec![Modifier::Ctrl, Modifier::Shift]), "Ctrl-Shift");
    assert_eq!(format_modifier_string(&vec![Modifier::Super]), "Super");
    assert_eq!(format_modifier_string(&vec![]), "");
}

#[test]
fn key_display_drops_common_modifiers() {
    let keys = vec![
        key("p", &[Modifier::Ctrl]),
        key("t", &[Modifier::Ctrl, Modifier::Alt, Modifier::Shift]),
    ];
    let shown = format_key_display(&keys, &vec![Modifier::Ctrl]);
    assert_eq!(shown, vec!["p".to_string(), "Alt Shift t".to_string()]);
}

#[test]
fn key_display_without_common_modifiers_is_full_label() {
    let keys = vec![key("ENTER", &[]), key("q", &[Modifier::Ctrl, Modifier::Alt])];
    let shown = format_key_display(&keys, &vec![]);
    assert_eq!(shown, vec!["ENTER".to_string(), "Ctrl Alt q".to_string()]);
}

#[test]
fn separator_for_compact_runs() {
    let hjkl: Vec<String> = ["h", "j", "k", "l"].iter().map(|s| s.to_string()).collect();
    assert_eq!(get_key_separator(&hjkl), "");
    let arrows: Vec<String> = ["←", "↓", "↑", "→"].iter().map(|s| s.to_string()).collect();
    assert_eq!(get_key_separator(&arrows), "");
    let brackets: Vec<String> = ["[", "]"].iter().map(|s| s.to_string()).collect();
    assert_eq!(get_key_separator(&brackets), "");
    let other: Vec<String> = ["n", "x"].iter().map(|s| s.to_string()).collect();
    assert_eq!(get_key_separator(&other), "|");
    assert_eq!(get_key_separator(&vec![]), "|");
}

#[test]
fn select_key_prefers_enter() {
    let keys = vec![named("ESC"), named("ENTER")];
    let r = get_select_key(&keys);
    assert_eq!(r.len(), 1);
    assert_eq!(r[0].bare, "ENTER");
    assert!(r[0].modifiers.is_empty());
}

#[test]
fn select_key_falls_back_to_first() {
    let keys = vec![named("ESC"), key("ENTER", &[Modifier::Ctrl])];
    let r = get_select_key(&keys);
    assert_eq!(r.len(), 1);
    assert_eq!(r[0].bare, "ESC");
    assert!(get_select_key(&vec![]).is_empty());
}

#[test]
fn tab_arrows_replace_the_group() {
    let keys = vec![key("h", &[]), named("←"), key("l", &[]), named("→")];
    let r = arrow_keys_or_all(keys);
    let labels: Vec<&str> = r.iter().map(|k| k.bare.as_str()).collect();
    assert_eq!(labels, vec!["←", "→"]);
}

#[test]
fn tab_keys_kept_without_both_arrows() {
    let keys = vec![key("h", &[]), named("←")];
    let r = arrow_keys_or_all(keys);
    let labels: Vec<&str> = r.iter().map(|k| k.bare.as_str()).collect();
    assert_eq!(labels, vec!["h", "←"]);
}
