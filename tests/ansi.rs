use zjstatus_hints::ansi::{calculate_visible_length, truncate_ansi_string, AnsiParser, AnsiSegment};

#[test]
fn visible_length_skips_escape_sequences() {
    assert_eq!(calculate_visible_length("\x1b[1mHello\x1b[0m"), 5);
}

#[test]
fn visible_length_of_plain_text_is_char_count() {
    let s = "plain text, no escapes";
    assert_eq!(calculate_visible_length(s), s.chars().count());
}

#[test]
fn visible_length_counts_characters_not_bytes() {
    assert_eq!(calculate_visible_length("\x1b[32m←↓↑→\x1b[0m"), 4);
}

#[test]
fn visible_length_of_empty_text() {
    assert_eq!(calculate_visible_length(""), 0);
}

#[test]
fn unterminated_escape_absorbs_the_rest() {
    assert_eq!(calculate_visible_length("ab\x1b[1;32xyz"), 2);
}

#[test]
fn escape_contents_do_not_change_visible_length() {
    let a = calculate_visible_length("\x1b[1mHi\x1b[0m there");
    let b = calculate_visible_length("\x1b[38;5;196;48;5;4mHi\x1b[m there");
    assert_eq!(a, 8);
    assert_eq!(a, b);
}

#[test]
fn truncate_keeps_escapes_before_the_cut() {
    // A budget of 5 less a marker of 3 leaves 2 visible characters; the
    // closing escape comes after the cut and is not reached.
    assert_eq!(
        truncate_ansi_string("\x1b[1mHello World\x1b[0m", "...", 5),
        "\x1b[1mHe..."
    );
}

#[test]
fn truncate_keeps_escapes_up_to_the_next_visible_character() {
    assert_eq!(
        truncate_ansi_string("\x1b[1mHello\x1b[0m World", "...", 8),
        "\x1b[1mHello\x1b[0m..."
    );
}

#[test]
fn truncate_within_budget_is_unchanged() {
    assert_eq!(truncate_ansi_string("Hello", "...", 10), "Hello");
    assert_eq!(truncate_ansi_string("Hello", "...", 5), "Hello");
}

#[test]
fn truncate_small_budget_gives_marker_alone() {
    assert_eq!(truncate_ansi_string("Hello World", "...", 2), "...");
    assert_eq!(truncate_ansi_string("Hello World", "...", 3), "...");
    assert_eq!(truncate_ansi_string("Hello World", "...", 0), "...");
}

#[test]
fn truncate_empty_text() {
    assert_eq!(truncate_ansi_string("", "...", 0), "");
}

#[test]
fn truncate_ends_with_marker_and_fits_budget() {
    let out = truncate_ansi_string("\x1b[31mabcdefghij\x1b[0m", "~", 4);
    assert!(out.ends_with('~'));
    assert_eq!(out, "\x1b[31mabc~");
    assert_eq!(calculate_visible_length(&out[..out.len() - 1]), 3);
}

#[test]
fn truncate_marker_length_counts_characters() {
    // The marker "…" is one character (three bytes): two characters of
    // the text fit beside it in a budget of 3.
    assert_eq!(truncate_ansi_string("abcdef", "…", 3), "ab…");
}

#[test]
fn truncate_output_has_no_open_escape() {
    let out = truncate_ansi_string("\x1b[1ma\x1b[2mb\x1b[3mc\x1b[4md", ".", 3);
    assert_eq!(out, "\x1b[1ma\x1b[2mb\x1b[3m.");
    let open = out.matches('\x1b').count();
    let after_last_esc = &out[out.rfind('\x1b').unwrap()..];
    assert_eq!(open, 3);
    assert!(after_last_esc.contains('m'));
}

#[test]
fn parser_yields_segments_in_order() {
    let mut p = AnsiParser::new("a\x1b[1mb");
    match p.next_segment() {
        Some(AnsiSegment::VisibleChar(c)) => assert_eq!(c, 'a'),
        _ => panic!("expected a visible character"),
    }
    match p.next_segment() {
        Some(AnsiSegment::EscapeSequence(s)) => assert_eq!(s, "\x1b[1m"),
        _ => panic!("expected an escape sequence"),
    }
    match p.next_segment() {
        Some(AnsiSegment::VisibleChar(c)) => assert_eq!(c, 'b'),
        _ => panic!("expected a visible character"),
    }
    assert!(p.next_segment().is_none());
}

#[test]
fn parser_unterminated_escape_runs_to_end() {
    let mut p = AnsiParser::new("\x1b[1x");
    match p.next_segment() {
        Some(AnsiSegment::EscapeSequence(s)) => assert_eq!(s, "\x1b[1x"),
        _ => panic!("expected an escape sequence"),
    }
    assert!(p.next_segment().is_none());
}
