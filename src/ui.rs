//! Short messages that take the place of the hints: text copied, a clipboard
//! error, a pane shown full screen, floating panes shown.
use vstd::prelude::*;
use crate::hints::{paint_parts, painted, Colour, Part, PartStyle};

verus! {

broadcast use vstd::string::group_string_axioms;

/// Where copied text was sent.
#[derive(PartialEq, Eq, Structural, Clone, Copy, Debug)]
pub enum CopyDestination {
    Command,
    Primary,
    System,
}

/// A piece of the status line and the number of columns it takes.
#[derive(Debug)]
pub struct LinePart {
    pub part: String,
    pub len: usize,
}

/// The colours that messages are drawn in.
#[derive(PartialEq, Eq, Structural, Clone, Copy, Debug)]
pub struct MessagePalette {
    /// Ordinary message text.
    pub base: Colour,
    /// First emphasis (orange in the default theme).
    pub emphasis_0: Colour,
    /// Third emphasis (green in the default theme).
    pub emphasis_2: Colour,
    /// Fourth emphasis (red in the default theme).
    pub emphasis_3: Colour,
}

/// What zellij_tile's `serialize_text` gives for `s` as an opaque text
/// drawn wholly in the third emphasis colour.
pub uninterp spec fn emphasised_text(s: Seq<char>) -> Seq<char>;

/// Each part painted on its own, the results one after another.
pub open spec fn painted_each(parts: Seq<(Seq<char>, PartStyle)>) -> Seq<char>
    decreases parts.len(),
{
    if parts.len() == 0 {
        seq![]
    } else {
        painted_each(parts.drop_last()) + painted(seq![parts.last()])
    }
}

/// Bold, in colour `c`, on no background.
pub open spec fn bold_in(c: Colour) -> PartStyle {
    PartStyle { fg: Some(c), bg: None, bold: true }
}

/// The decimal digit `d`.
pub open spec fn digit_char(d: nat) -> char {
    if d == 0 { '0' }
    else if d == 1 { '1' }
    else if d == 2 { '2' }
    else if d == 3 { '3' }
    else if d == 4 { '4' }
    else if d == 5 { '5' }
    else if d == 6 { '6' }
    else if d == 7 { '7' }
    else if d == 8 { '8' }
    else { '9' }
}

/// `n` written in decimal, without leading zeros.
pub open spec fn decimal(n: nat) -> Seq<char>
    decreases n,
{
    if n < 10 {
        seq![digit_char(n)]
    } else {
        decimal(n / 10).push(digit_char(n % 10))
    }
}

/// The message for text copied to `dest`.
pub open spec fn copied_message(dest: CopyDestination) -> Seq<char> {
    match dest {
        CopyDestination::Command => "Text piped to external command"@,
        CopyDestination::Primary => "Text copied to system primary selection"@,
        CopyDestination::System => "Text copied to system clipboard"@,
    }
}

/// The message shown when the system clipboard fails.
pub open spec fn clipboard_error_message() -> Seq<char> {
    " Error using the system clipboard."@
}

/// The parts of the full-screen notice.
pub open spec fn fullscreen_parts(palette: MessagePalette, panes: Seq<char>) -> Seq<
    (Seq<char>, PartStyle),
> {
    seq![
        (" ("@, bold_in(palette.base)),
        ("FULLSCREEN"@, bold_in(palette.emphasis_0)),
        ("): "@, bold_in(palette.base)),
        ("+ "@, bold_in(palette.base)),
        (panes, bold_in(palette.emphasis_2)),
        (" hidden panes"@, bold_in(palette.base)),
    ]
}

/// The parts of the floating-panes notice, naming the key that enters pane
/// mode and the key that then hides the floating panes.
pub open spec fn floating_parts(palette: MessagePalette, pane_mode: Seq<char>, toggle: Seq<char>) -> Seq<
    (Seq<char>, PartStyle),
> {
    seq![
        (" ("@, bold_in(palette.base)),
        ("FLOATING PANES VISIBLE"@, bold_in(palette.emphasis_0)),
        ("): "@, bold_in(palette.base)),
        ("Press "@, bold_in(palette.base)),
        (pane_mode, bold_in(palette.emphasis_2)),
        (", "@, bold_in(palette.base)),
        ("<"@, bold_in(palette.base)),
        (toggle, bold_in(palette.emphasis_2)),
        ("> "@, bold_in(palette.base)),
        ("to hide."@, bold_in(palette.base)),
    ]
}

/// Relies on zellij_tile's `serialize_text`, given the text as an opaque
/// `Text` coloured from index 0 to its end at emphasis level 2.
#[verifier::external_body]
fn serialize_emphasised(s: &str) -> (r: String)
    ensures
        r@ == emphasised_text(s@),
{
    zellij_tile::prelude::serialize_text(&zellij_tile::prelude::Text::new(s).color_range(2, ..).opaque())
}

/// Bold, in colour `c`, on no background.
fn bold(c: Colour) -> (r: PartStyle)
    ensures
        r == bold_in(c),
{
    PartStyle { fg: Some(c), bg: None, bold: true }
}

/// Each part painted on its own, the results one after another.
pub fn paint_each(parts: &Vec<(&str, PartStyle)>) -> (r: String)
    ensures
        r@ == painted_each(parts@.map_values(|p: (&str, PartStyle)| (p.0@, p.1))),
{
    let ghost views = parts@.map_values(|p: (&str, PartStyle)| (p.0@, p.1));
    let mut r = String::new();
    let mut i: usize = 0;
    assert(views.take(0) =~= Seq::<(Seq<char>, PartStyle)>::empty());
    while i < parts.len()
        invariant
            i <= parts@.len(),
            views == parts@.map_values(|p: (&str, PartStyle)| (p.0@, p.1)),
            r@ == painted_each(views.take(i as int)),
        decreases parts@.len() - i,
    {
        let (text, style) = parts[i];
        let mut one: Vec<Part> = Vec::new();
        one.push(Part { text: text.to_string(), style });
        let p = paint_parts(&one);
        assert(crate::hints::part_views(one@) =~= seq![views[i as int]]);
        r.append(p.as_str());
        assert(views.take(i + 1).drop_last() =~= views.take(i as int));
        i = i + 1;
    }
    assert(views.take(parts@.len() as int) =~= views);
    r
}

/// `n` written in decimal.
pub fn decimal_string(n: usize) -> (r: String)
    ensures
        r@ == decimal(n as nat),
{
    let mut digits: Vec<char> = Vec::new();
    let mut m: usize = n;
    // digits holds the last digits of n, least significant first.
    loop
        invariant_except_break
            decimal(n as nat) == decimal(m as nat) + digits@.reverse(),
        ensures
            decimal(n as nat) == digits@.reverse(),
        decreases m,
    {
        let d = m % 10;
        let c = if d == 0 { '0' } else if d == 1 { '1' } else if d == 2 { '2' } else if d == 3 {
            '3'
        } else if d == 4 { '4' } else if d == 5 { '5' } else if d == 6 { '6' } else if d == 7 {
            '7'
        } else if d == 8 { '8' } else { '9' };
        assert(c == digit_char(d as nat));
        let ghost before = digits@;
        digits.push(c);
        assert(digits@.reverse() =~= seq![c] + before.reverse());
        if m < 10 {
            assert(decimal(n as nat) =~= digits@.reverse());
            break;
        }
        assert(decimal(m as nat) == decimal((m / 10) as nat).push(c));
        assert(decimal((m / 10) as nat).push(c) + before.reverse() =~= decimal((m / 10) as nat)
            + digits@.reverse());
        m = m / 10;
    }
    let mut r = String::new();
    let mut i: usize = digits.len();
    assert(digits@.reverse().take(0) =~= Seq::<char>::empty());
    while i > 0
        invariant
            i <= digits@.len(),
            r@ == digits@.reverse().take(digits@.len() - i),
        decreases i,
    {
        i = i - 1;
        crate::ansi::push_char(&mut r, digits[i]);
        assert(r@ =~= digits@.reverse().take(digits@.len() - i));
    }
    assert(digits@.reverse().take(digits@.len() as int) =~= digits@.reverse());
    r
}

proof fn lemma_decimal_short(n: nat)
    ensures
        decimal(n).len() <= n / 2 + 1,
    decreases n,
{
    if n >= 10 {
        lemma_decimal_short(n / 10);
        assert(n / 10 / 2 + 2 <= n / 2 + 1) by (nonlinear_arith)
            requires
                n >= 10,
        ;
    }
}

/// The message for text copied to `copy_destination`, as the host draws it.
pub fn text_copied_hint(copy_destination: CopyDestination) -> (r: LinePart)
    ensures
        r.part@ == emphasised_text(copied_message(copy_destination)),
        r.len == copied_message(copy_destination).len(),
{
    let hint = match copy_destination {
        CopyDestination::Command => "Text piped to external command",
        CopyDestination::Primary => "Text copied to system primary selection",
        CopyDestination::System => "Text copied to system clipboard",
    };
    LinePart { part: serialize_emphasised(hint), len: hint.unicode_len() }
}

/// The message shown when the system clipboard fails, bold in the fourth
/// emphasis colour.
pub fn system_clipboard_error(palette: &MessagePalette) -> (r: LinePart)
    ensures
        r.part@ == painted(seq![(clipboard_error_message(), bold_in(palette.emphasis_3))]),
        r.len == clipboard_error_message().len(),
{
    let hint = " Error using the system clipboard.";
    let mut one: Vec<Part> = Vec::new();
    one.push(Part { text: hint.to_string(), style: bold(palette.emphasis_3) });
    let part = paint_parts(&one);
    assert(crate::hints::part_views(one@) =~= seq![(clipboard_error_message(), bold_in(palette.emphasis_3))]);
    LinePart { part, len: hint.unicode_len() }
}

/// The notice that a pane is shown full screen, hiding `panes_to_hide`
/// others.
pub fn fullscreen_panes_to_hide(palette: &MessagePalette, panes_to_hide: usize) -> (r: LinePart)
    ensures
        r.part@ == painted_each(fullscreen_parts(*palette, decimal(panes_to_hide as nat))),
        r.len == 30 + decimal(panes_to_hide as nat).len(),
{
    let panes = decimal_string(panes_to_hide);
    let mut parts: Vec<(&str, PartStyle)> = Vec::new();
    parts.push((" (", bold(palette.base)));
    parts.push(("FULLSCREEN", bold(palette.emphasis_0)));
    parts.push(("): ", bold(palette.base)));
    parts.push(("+ ", bold(palette.base)));
    parts.push((panes.as_str(), bold(palette.emphasis_2)));
    parts.push((" hidden panes", bold(palette.base)));
    let part = paint_each(&parts);
    assert(parts@.map_values(|p: (&str, PartStyle)| (p.0@, p.1)) =~= fullscreen_parts(
        *palette,
        decimal(panes_to_hide as nat),
    ));
    proof {
        reveal_strlit("FULLSCREEN");
        reveal_strlit("+ ");
        reveal_strlit(" hidden panes");
        lemma_decimal_short(panes_to_hide as nat);
    }
    let len = "FULLSCREEN".unicode_len() + "+ ".unicode_len() + panes.as_str().unicode_len()
        + " hidden panes".unicode_len() + 5;
    LinePart { part, len }
}

/// The notice that floating panes are shown, with `pane_mode`, the key that
/// enters pane mode, and `toggle`, the key that then hides them.
pub fn floating_panes_are_visible(palette: &MessagePalette, pane_mode: &str, toggle: &str) -> (r:
    LinePart)
    requires
        pane_mode@.len() + toggle@.len() + 46 <= usize::MAX,
    ensures
        r.part@ == painted_each(floating_parts(*palette, pane_mode@, toggle@)),
        r.len == 46 + pane_mode@.len() + toggle@.len(),
{
    let mut parts: Vec<(&str, PartStyle)> = Vec::new();
    parts.push((" (", bold(palette.base)));
    parts.push(("FLOATING PANES VISIBLE", bold(palette.emphasis_0)));
    parts.push(("): ", bold(palette.base)));
    parts.push(("Press ", bold(palette.base)));
    parts.push((pane_mode, bold(palette.emphasis_2)));
    parts.push((", ", bold(palette.base)));
    parts.push(("<", bold(palette.base)));
    parts.push((toggle, bold(palette.emphasis_2)));
    parts.push(("> ", bold(palette.base)));
    parts.push(("to hide.", bold(palette.base)));
    let part = paint_each(&parts);
    assert(parts@.map_values(|p: (&str, PartStyle)| (p.0@, p.1)) =~= floating_parts(
        *palette,
        pane_mode@,
        toggle@,
    ));
    proof {
        reveal_strlit("FLOATING PANES VISIBLE");
        reveal_strlit("Press ");
        reveal_strlit(", ");
        reveal_strlit("<");
        reveal_strlit("> ");
        reveal_strlit("to hide.");
    }
    let len = "FLOATING PANES VISIBLE".unicode_len() + "Press ".unicode_len()
        + pane_mode.unicode_len() + ", ".unicode_len() + "<".unicode_len() + toggle.unicode_len()
        + "> ".unicode_len() + "to hide.".unicode_len() + 5;
    LinePart { part, len }
}

/// In locked mode a full-screen pane is not announced.
pub fn locked_fullscreen_panes_to_hide(palette: &MessagePalette, panes_to_hide: usize) -> (r:
    LinePart)
    ensures
        r.part@.len() == 0,
        r.len == 0,
{
    LinePart { part: String::new(), len: 0 }
}

/// In locked mode floating panes are not announced.
pub fn locked_floating_panes_are_visible(palette: &MessagePalette) -> (r: LinePart)
    ensures
        r.part@.len() == 0,
        r.len == 0,
{
    LinePart { part: String::new(), len: 0 }
}

} // verus!
