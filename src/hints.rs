//! Hints as styled parts: each part a piece of text and the style it is
//! drawn in, the colours taken from the host's theme.
use vstd::prelude::*;
use crate::ansi::chars_of;
use crate::keys::{
    common_modifiers, format_key_display, format_modifier_string, get_common_modifiers,
    get_key_separator, joined_names, key_labels, separator_for, string_views, Key,
};

verus! {

broadcast use vstd::string::group_string_axioms;

/// A terminal colour: true colour, or an index into the 256-colour palette.
#[derive(PartialEq, Eq, Structural, Clone, Copy, Debug)]
pub enum Colour {
    Rgb(u8, u8, u8),
    Fixed(u8),
}

/// The colours that hints are drawn in.
#[derive(PartialEq, Eq, Structural, Clone, Copy, Debug)]
pub struct Theme {
    /// Text on the key ribbons.
    pub ribbon_fg: Colour,
    /// Background of the key ribbons.
    pub ribbon_bg: Colour,
    /// Text of the descriptions.
    pub text_fg: Colour,
    /// Background of the descriptions.
    pub text_bg: Colour,
    /// The highlighted letter of a description.
    pub highlight_fg: Colour,
}

/// How a part is drawn.
#[derive(PartialEq, Eq, Structural, Clone, Copy, Debug)]
pub struct PartStyle {
    pub fg: Option<Colour>,
    pub bg: Option<Colour>,
    pub bold: bool,
}

/// A piece of text and its style.
#[derive(Debug)]
pub struct Part {
    pub text: String,
    pub style: PartStyle,
}

/// What a list of parts holds: each part's text and style.
pub open spec fn part_views(parts: Seq<Part>) -> Seq<(Seq<char>, PartStyle)> {
    parts.map_values(|p: Part| (p.text@, p.style))
}

/// `s` in lower case, as std's `str::to_lowercase` gives it.
pub uninterp spec fn lowercase_of(s: Seq<char>) -> Seq<char>;

/// The parts painted one after another, as ansi_term writes them.
pub uninterp spec fn painted(parts: Seq<(Seq<char>, PartStyle)>) -> Seq<char>;

/// No colour, not bold.
pub open spec fn plain_style() -> PartStyle {
    PartStyle { fg: None, bg: None, bold: false }
}

/// Ribbon text on the ribbon background.
pub open spec fn ribbon_style(theme: Theme, bold: bool) -> PartStyle {
    PartStyle { fg: Some(theme.ribbon_fg), bg: Some(theme.ribbon_bg), bold }
}

/// Description text on the description background.
pub open spec fn text_style(theme: Theme) -> PartStyle {
    PartStyle { fg: Some(theme.text_fg), bg: Some(theme.text_bg), bold: false }
}

/// The highlighted letter: bold, on the description background.
pub open spec fn highlight_style(theme: Theme) -> PartStyle {
    PartStyle { fg: Some(theme.highlight_fg), bg: Some(theme.text_bg), bold: true }
}

/// The key labels on a ribbon, bold, with `sep` between each two where
/// there is a separator.
pub open spec fn key_run(labels: Seq<Seq<char>>, sep: Seq<char>, theme: Theme) -> Seq<
    (Seq<char>, PartStyle),
>
    decreases labels.len(),
{
    if labels.len() == 0 {
        seq![]
    } else {
        let gap = if labels.len() > 1 && sep.len() > 0 {
            seq![(sep, ribbon_style(theme, false))]
        } else {
            seq![]
        };
        key_run(labels.drop_last(), sep, theme) + gap + seq![(labels.last(), ribbon_style(theme, true))]
    }
}

/// The ribbon for a group of keys: a plain space, then the shared modifiers
/// (lower case, with a trailing `-`) or a space, the key labels, and a
/// closing space. Nothing for no keys.
pub open spec fn key_parts(keys: Seq<Key>, theme: Theme) -> Seq<(Seq<char>, PartStyle)> {
    if keys.len() == 0 {
        seq![]
    } else {
        let common = common_modifiers(keys);
        let names = joined_names(common, "-"@);
        let labels = key_labels(keys, common);
        let head = if names.len() > 0 {
            (" "@ + lowercase_of(names) + "-"@, ribbon_style(theme, true))
        } else {
            (" "@, ribbon_style(theme, false))
        };
        seq![(" "@, plain_style()), head] + key_run(labels, separator_for(labels), theme) + seq![
            (" "@, ribbon_style(theme, false)),
        ]
    }
}

/// Index of the first `c` in `s` at or after `i`.
pub open spec fn first_index_from(s: Seq<char>, c: char, i: int) -> Option<int>
    decreases s.len() - i,
{
    if i < 0 || i >= s.len() {
        None
    } else if s[i] == c {
        Some(i)
    } else {
        first_index_from(s, c, i + 1)
    }
}

/// Which character of `desc` is highlighted: where the first key's label,
/// in lower case, starts with a letter, the first place of that letter in
/// `desc` in lower case; the first character where there is no key.
pub open spec fn highlight_at(desc: Seq<char>, keys: Seq<Key>) -> Option<int> {
    if keys.len() == 0 || lowercase_of(keys[0].bare@).len() == 0 {
        Some(0)
    } else {
        match first_index_from(lowercase_of(desc), lowercase_of(keys[0].bare@)[0], 0) {
            Some(j) => if j < desc.len() {
                Some(j)
            } else {
                None
            },
            None => None,
        }
    }
}

/// A description between two spaces, its highlighted letter drawn apart.
pub open spec fn description_parts(desc: Seq<char>, keys: Seq<Key>, theme: Theme) -> Seq<
    (Seq<char>, PartStyle),
> {
    let t = text_style(theme);
    let middle = if desc.len() == 0 {
        seq![]
    } else {
        match highlight_at(desc, keys) {
            Some(j) => (if j > 0 {
                seq![(desc.take(j), t)]
            } else {
                seq![]
            }) + seq![(desc.subrange(j, j + 1), highlight_style(theme))] + (if j + 1 < desc.len() {
                seq![(desc.skip(j + 1), t)]
            } else {
                seq![]
            }),
            None => seq![(desc, t)],
        }
    };
    seq![(" "@, t)] + middle + seq![(" "@, t)]
}

/// A hint: the keys' ribbon, then the description. Nothing for no keys.
pub open spec fn hint_parts(keys: Seq<Key>, desc: Seq<char>, theme: Theme) -> Seq<
    (Seq<char>, PartStyle),
> {
    if keys.len() == 0 {
        seq![]
    } else {
        key_parts(keys, theme) + description_parts(desc, keys, theme)
    }
}

/// Descriptions without keys, one after another.
pub open spec fn labels_parts(labels: Seq<Seq<char>>, theme: Theme) -> Seq<(Seq<char>, PartStyle)>
    decreases labels.len(),
{
    if labels.len() == 0 {
        seq![]
    } else {
        labels_parts(labels.drop_last(), theme) + description_parts(labels.last(), seq![], theme)
    }
}

/// The hints of normal mode: the modifier that all mode keys share, once,
/// then each mode's label. Nothing where no mode has a key.
pub open spec fn normal_mode_parts(all_keys: Seq<Key>, labels: Seq<Seq<char>>, theme: Theme) -> Seq<
    (Seq<char>, PartStyle),
> {
    if all_keys.len() == 0 {
        seq![]
    } else {
        let common = common_modifiers(all_keys);
        let head = if common.len() > 0 {
            seq![
                (" "@, plain_style()),
                (" "@ + lowercase_of(joined_names(common, "-"@)) + " "@, ribbon_style(theme, true)),
            ]
        } else {
            seq![]
        };
        head + labels_parts(labels, theme)
    }
}

/// Relies on str::to_lowercase: the result depends on the text alone.
#[verifier::external_body]
pub(crate) fn to_lowercase(s: &str) -> (r: String)
    ensures
        r@ == lowercase_of(s@),
{
    s.to_lowercase()
}

/// Relies on ansi_term's `ANSIStrings`: the parts written in their styles,
/// in order, with the escape codes that ansi_term puts between them.
#[verifier::external_body]
pub(crate) fn paint_parts(parts: &Vec<Part>) -> (r: String)
    ensures
        r@ == painted(part_views(parts@)),
{
    let colour = |c: Colour| match c {
        Colour::Rgb(r, g, b) => ansi_term::Colour::RGB(r, g, b),
        Colour::Fixed(n) => ansi_term::Colour::Fixed(n),
    };
    let strings: Vec<ansi_term::ANSIString<'static>> = parts.iter().map(|p| ansi_term::Style {
        foreground: p.style.fg.map(colour),
        background: p.style.bg.map(colour),
        is_bold: p.style.bold,
        ..ansi_term::Style::new()
    }.paint(p.text.clone())).collect();
    format!("{}", ansi_term::ANSIStrings(&strings))
}

/// No colour, not bold.
pub fn plain() -> (r: PartStyle)
    ensures
        r == plain_style(),
{
    PartStyle { fg: None, bg: None, bold: false }
}

/// Ribbon text on the ribbon background.
pub fn ribbon(theme: &Theme, bold: bool) -> (r: PartStyle)
    ensures
        r == ribbon_style(*theme, bold),
{
    PartStyle { fg: Some(theme.ribbon_fg), bg: Some(theme.ribbon_bg), bold }
}

/// Description text on the description background.
pub fn text(theme: &Theme) -> (r: PartStyle)
    ensures
        r == text_style(*theme),
{
    PartStyle { fg: Some(theme.text_fg), bg: Some(theme.text_bg), bold: false }
}

/// The highlighted letter: bold, on the description background.
pub fn highlight(theme: &Theme) -> (r: PartStyle)
    ensures
        r == highlight_style(*theme),
{
    PartStyle { fg: Some(theme.highlight_fg), bg: Some(theme.text_bg), bold: true }
}

/// Adds a part holding `text` to the end of `parts`.
fn push_part(parts: &mut Vec<Part>, text: &str, style: PartStyle)
    ensures
        part_views(final(parts)@) == part_views(old(parts)@).push((text@, style)),
{
    parts.push(Part { text: text.to_string(), style });
    assert(part_views(parts@) =~= part_views(old(parts)@).push((text@, style)));
}

/// Moves the parts of `more` to the end of `parts`.
fn extend_parts(parts: &mut Vec<Part>, more: Vec<Part>)
    ensures
        part_views(final(parts)@) == part_views(old(parts)@) + part_views(more@),
{
    let ghost added = more@;
    let mut more = more;
    parts.append(&mut more);
    assert(part_views(parts@) =~= part_views(old(parts)@) + part_views(added));
}

/// The ribbon for a group of keys.
pub fn style_key_with_modifier(key_bindings: &Vec<Key>, theme: &Theme) -> (r: Vec<Part>)
    ensures
        part_views(r@) == key_parts(key_bindings@, *theme),
{
    let mut parts: Vec<Part> = Vec::new();
    if key_bindings.len() == 0 {
        assert(part_views(parts@) =~= key_parts(key_bindings@, *theme));
        return parts;
    }
    let common = get_common_modifiers(key_bindings);
    let modifier_str = format_modifier_string(&common);
    let key_display = format_key_display(key_bindings, &common);
    let key_separator = get_key_separator(&key_display);
    let ghost labels = string_views(key_display@);
    let ghost head = part_views(parts@);

    push_part(&mut parts, " ", plain());
    if !modifier_str.as_str().is_empty() {
        let mut prefix = " ".to_string();
        let lower = to_lowercase(modifier_str.as_str());
        prefix.append(lower.as_str());
        prefix.append("-");
        push_part(&mut parts, prefix.as_str(), ribbon(theme, true));
    } else {
        push_part(&mut parts, " ", ribbon(theme, false));
    }
    let ghost opening = part_views(parts@);
    assert(labels.take(0) =~= Seq::<Seq<char>>::empty());
    let mut idx: usize = 0;
    while idx < key_display.len()
        invariant
            idx <= key_display@.len(),
            labels == string_views(key_display@),
            part_views(parts@) == opening + key_run(labels.take(idx as int), key_separator@, *theme),
        decreases key_display@.len() - idx,
    {
        if idx > 0 && !key_separator.is_empty() {
            push_part(&mut parts, key_separator, ribbon(theme, false));
        }
        push_part(&mut parts, key_display[idx].as_str(), ribbon(theme, true));
        assert(labels.take(idx + 1).drop_last() =~= labels.take(idx as int));
        idx = idx + 1;
    }
    push_part(&mut parts, " ", ribbon(theme, false));
    assert(labels.take(key_display@.len() as int) =~= labels);
    assert(part_views(parts@) =~= key_parts(key_bindings@, *theme));
    parts
}

/// Index of the first `c` in `s`.
pub fn first_index(s: &Vec<char>, c: char) -> (r: Option<usize>)
    ensures
        match r {
            Some(j) => first_index_from(s@, c, 0) == Some(j as int),
            None => first_index_from(s@, c, 0) is None,
        },
{
    let mut i: usize = 0;
    while i < s.len()
        invariant
            i <= s@.len(),
            first_index_from(s@, c, 0) == first_index_from(s@, c, i as int),
        decreases s@.len() - i,
    {
        if s[i] == c {
            return Some(i);
        }
        i = i + 1;
    }
    None
}

/// The character of `description` to highlight for `keys`, if any.
pub fn highlight_position(description: &str, keys: &Vec<Key>) -> (r: Option<usize>)
    ensures
        match r {
            Some(j) => highlight_at(description@, keys@) == Some(j as int),
            None => highlight_at(description@, keys@) is None,
        },
{
    if keys.len() == 0 {
        return Some(0);
    }
    let label = to_lowercase(keys[0].bare.as_str());
    let label_chars = chars_of(label.as_str());
    if label_chars.len() == 0 {
        return Some(0);
    }
    let lowered = to_lowercase(description);
    let lowered_chars = chars_of(lowered.as_str());
    match first_index(&lowered_chars, label_chars[0]) {
        Some(j) => {
            if j < description.unicode_len() {
                Some(j)
            } else {
                None
            }
        },
        None => None,
    }
}

/// A description between two spaces, the letter of the first key's label
/// highlighted in it.
pub fn style_description(description: &str, theme: &Theme, keys: &Vec<Key>) -> (r: Vec<Part>)
    ensures
        part_views(r@) == description_parts(description@, keys@, *theme),
{
    let ghost desc = description@;
    let mut parts: Vec<Part> = Vec::new();
    push_part(&mut parts, " ", text(theme));
    let len = description.unicode_len();
    if len > 0 {
        match highlight_position(description, keys) {
            Some(pos) => {
                if pos > 0 {
                    push_part(&mut parts, description.substring_char(0, pos), text(theme));
                }
                push_part(&mut parts, description.substring_char(pos, pos + 1), highlight(theme));
                if pos + 1 < len {
                    push_part(&mut parts, description.substring_char(pos + 1, len), text(theme));
                }
            },
            None => {
                push_part(&mut parts, description, text(theme));
            },
        }
    }
    push_part(&mut parts, " ", text(theme));
    assert(desc.subrange(0, 0) =~= desc.take(0));
    assert(part_views(parts@) =~= description_parts(desc, keys@, *theme)) by {
        if len > 0 {
            match highlight_at(desc, keys@) {
                Some(j) => {
                    assert(desc.subrange(0, j) =~= desc.take(j));
                    assert(desc.subrange(j + 1, len as int) =~= desc.skip(j + 1));
                },
                None => {},
            }
        }
    }
    parts
}

/// Adds the hint for `keys` to `parts`; nothing where there are no keys.
pub fn add_hint(parts: &mut Vec<Part>, keys: &Vec<Key>, description: &str, theme: &Theme)
    ensures
        part_views(final(parts)@) == part_views(old(parts)@) + hint_parts(
            keys@,
            description@,
            *theme,
        ),
{
    if keys.len() > 0 {
        let styled_keys = style_key_with_modifier(keys, theme);
        extend_parts(parts, styled_keys);
        let styled_desc = style_description(description, theme, keys);
        extend_parts(parts, styled_desc);
        assert(part_views(parts@) =~= part_views(old(parts)@) + hint_parts(keys@, description@, *theme));
    } else {
        assert(part_views(parts@) =~= part_views(old(parts)@) + hint_parts(keys@, description@, *theme));
    }
}

/// Adds a description with no key to `parts`.
pub fn add_description_only(parts: &mut Vec<Part>, description: &str, theme: &Theme)
    ensures
        part_views(final(parts)@) == part_views(old(parts)@) + description_parts(
            description@,
            seq![],
            *theme,
        ),
{
    let no_keys: Vec<Key> = Vec::new();
    assert(no_keys@ =~= Seq::<Key>::empty());
    let styled_desc = style_description(description, theme, &no_keys);
    extend_parts(parts, styled_desc);
}

/// The hints of normal mode, for the keys `all_keys` that switch to the
/// other modes and the labels of those modes.
pub fn normal_mode_hints(all_keys: &Vec<Key>, labels: &Vec<String>, theme: &Theme) -> (r: Vec<Part>)
    ensures
        part_views(r@) == normal_mode_parts(all_keys@, string_views(labels@), *theme),
{
    let mut parts: Vec<Part> = Vec::new();
    if all_keys.len() == 0 {
        assert(part_views(parts@) =~= normal_mode_parts(all_keys@, string_views(labels@), *theme));
        return parts;
    }
    let common = get_common_modifiers(all_keys);
    if common.len() > 0 {
        let modifier_str = format_modifier_string(&common);
        push_part(&mut parts, " ", plain());
        let mut label = " ".to_string();
        let lower = to_lowercase(modifier_str.as_str());
        label.append(lower.as_str());
        label.append(" ");
        push_part(&mut parts, label.as_str(), ribbon(theme, true));
    }
    let ghost head = part_views(parts@);
    let ghost names = string_views(labels@);
    assert(names.take(0) =~= Seq::<Seq<char>>::empty());
    let mut i: usize = 0;
    while i < labels.len()
        invariant
            i <= labels@.len(),
            names == string_views(labels@),
            part_views(parts@) == head + labels_parts(names.take(i as int), *theme),
        decreases labels@.len() - i,
    {
        add_description_only(&mut parts, labels[i].as_str(), theme);
        assert(names.take(i + 1).drop_last() =~= names.take(i as int));
        i = i + 1;
    }
    assert(names.take(labels@.len() as int) =~= names);
    assert(part_views(parts@) =~= normal_mode_parts(all_keys@, names, *theme));
    parts
}

} // verus!
