//! Text interleaved with SGR escape sequences (`ESC [ ... m`): counting the
//! characters that a terminal shows, and cutting such text to a budget of
//! shown characters without breaking an escape sequence.
//!
//! The model is a two-state scanner. In the normal state `ESC` opens an escape
//! sequence and every other character is visible; inside an escape sequence
//! every character is swallowed, and `m` closes it.
use vstd::prelude::*;

verus! {

broadcast use vstd::string::group_string_axioms;

/// The character that opens an escape sequence.
pub const ESC: char = '\x1b';

/// Scanner state after reading `c` in state `in_escape`.
pub open spec fn next_state(in_escape: bool, c: char) -> bool {
    if in_escape {
        c != 'm'
    } else {
        c == ESC
    }
}

/// Whether `c`, read in state `in_escape`, is a visible character.
pub open spec fn is_visible(in_escape: bool, c: char) -> bool {
    !in_escape && c != ESC
}

/// Scanner state after the first `k` characters of `s` (false: normal).
pub open spec fn state_at(s: Seq<char>, k: int) -> bool
    decreases k,
{
    if k <= 0 {
        false
    } else {
        next_state(state_at(s, k - 1), s[k - 1])
    }
}

/// Number of visible characters among the first `k` characters of `s`.
pub open spec fn visible_upto(s: Seq<char>, k: int) -> nat
    decreases k,
{
    if k <= 0 {
        0
    } else {
        visible_upto(s, k - 1) + if is_visible(state_at(s, k - 1), s[k - 1]) {
            1nat
        } else {
            0nat
        }
    }
}

/// Number of characters of `s` that a terminal shows.
pub open spec fn visible_length(s: Seq<char>) -> nat {
    visible_upto(s, s.len() as int)
}

/// Whether every escape sequence opened in `s` is closed within `s`: each
/// `ESC` has an `m` somewhere after it.
pub open spec fn escapes_closed(s: Seq<char>) -> bool {
    !state_at(s, s.len() as int)
}

/// End of the escape sequence whose body starts at `j`: just past the first
/// `m` at or after `j`, or the end of `s` if there is none.
pub open spec fn escape_end(s: Seq<char>, j: int) -> int
    decreases s.len() - j,
{
    if j >= s.len() {
        s.len() as int
    } else if s[j] == 'm' {
        j + 1
    } else {
        escape_end(s, j + 1)
    }
}

/// End of the segment that starts at `i`: one visible character, or a whole
/// escape sequence.
pub open spec fn segment_end(s: Seq<char>, i: int) -> int {
    if s[i] == ESC {
        escape_end(s, i + 1)
    } else {
        i + 1
    }
}

/// Whether the first `k` characters of `s` form the longest prefix of `s`
/// that shows at most `budget` characters.
pub open spec fn is_kept_len(s: Seq<char>, budget: nat, k: int) -> bool {
    &&& 0 <= k <= s.len()
    &&& visible_upto(s, k) <= budget
    &&& k < s.len() ==> visible_upto(s, k + 1) > budget
}

/// Length of the longest prefix of `s` that shows at most `budget` characters.
pub open spec fn kept_len(s: Seq<char>, budget: nat) -> int {
    choose|k: int| is_kept_len(s, budget, k)
}

/// `s` cut to show at most `max_visible` characters, `marker` marking the cut.
/// Text within the budget is left as it is; where the marker alone fills the
/// budget, the marker alone is the result.
pub open spec fn truncated(s: Seq<char>, marker: Seq<char>, max_visible: nat) -> Seq<char> {
    if visible_length(s) <= max_visible {
        s
    } else if max_visible <= marker.len() {
        marker
    } else {
        s.take(kept_len(s, (max_visible - marker.len()) as nat)) + marker
    }
}

/// A prefix never shows more characters than it has.
pub proof fn lemma_visible_upto_bounded(s: Seq<char>, k: int)
    requires
        0 <= k,
    ensures
        visible_upto(s, k) <= k,
    decreases k,
{
    if k > 0 {
        lemma_visible_upto_bounded(s, k - 1);
    }
}

/// A longer prefix shows at least as many characters.
pub proof fn lemma_visible_upto_monotone(s: Seq<char>, a: int, b: int)
    requires
        a <= b,
    ensures
        visible_upto(s, a) <= visible_upto(s, b),
    decreases b - a,
{
    if a < b {
        lemma_visible_upto_monotone(s, a, b - 1);
    }
}

/// At most one prefix length is the longest within a budget.
proof fn lemma_kept_len_unique(s: Seq<char>, budget: nat, k1: int, k2: int)
    requires
        is_kept_len(s, budget, k1),
        is_kept_len(s, budget, k2),
    ensures
        k1 == k2,
{
    if k1 < k2 {
        lemma_visible_upto_monotone(s, k1 + 1, k2);
    } else if k2 < k1 {
        lemma_visible_upto_monotone(s, k2 + 1, k1);
    }
}

/// Some prefix length at or after `k` is the longest within the budget.
proof fn lemma_kept_len_from(s: Seq<char>, budget: nat, k: int)
    requires
        0 <= k <= s.len(),
        visible_upto(s, k) <= budget,
    ensures
        exists|j: int| is_kept_len(s, budget, j),
    decreases s.len() - k,
{
    if k < s.len() && visible_upto(s, k + 1) <= budget {
        lemma_kept_len_from(s, budget, k + 1);
    } else {
        assert(is_kept_len(s, budget, k));
    }
}

/// `kept_len` is the one longest prefix length within the budget.
pub proof fn lemma_kept_len(s: Seq<char>, budget: nat)
    ensures
        is_kept_len(s, budget, kept_len(s, budget)),
        forall|k: int| is_kept_len(s, budget, k) ==> k == kept_len(s, budget),
{
    lemma_kept_len_from(s, budget, 0);
    assert forall|k: int| is_kept_len(s, budget, k) implies k == kept_len(s, budget) by {
        lemma_kept_len_unique(s, budget, k, kept_len(s, budget));
    }
}

/// The segments among the first `k` characters of `s`, in order: `Some(c)`
/// for a visible character `c`, `None` for an escape sequence, whatever the
/// sequence holds.
pub open spec fn shape_upto(s: Seq<char>, k: int) -> Seq<Option<char>>
    decreases k,
{
    if k <= 0 {
        seq![]
    } else if state_at(s, k - 1) {
        shape_upto(s, k - 1)
    } else if s[k - 1] == ESC {
        shape_upto(s, k - 1).push(None)
    } else {
        shape_upto(s, k - 1).push(Some(s[k - 1]))
    }
}

/// The segments of `s`; two texts with one shape differ at most in what
/// their escape sequences hold.
pub open spec fn shape(s: Seq<char>) -> Seq<Option<char>> {
    shape_upto(s, s.len() as int)
}

/// Number of visible characters in a shape.
pub open spec fn count_shown(q: Seq<Option<char>>) -> nat
    decreases q.len(),
{
    if q.len() == 0 {
        0
    } else {
        count_shown(q.drop_last()) + if q.last() is Some {
            1nat
        } else {
            0nat
        }
    }
}

/// The visible characters are the visible entries of the shape.
proof fn lemma_shape_counts(s: Seq<char>, k: int)
    ensures
        visible_upto(s, k) == count_shown(shape_upto(s, k)),
    decreases k,
{
    if k > 0 {
        lemma_shape_counts(s, k - 1);
        let prev = shape_upto(s, k - 1);
        assert(prev.push(None).drop_last() =~= prev);
        assert(prev.push(Some(s[k - 1])).drop_last() =~= prev);
    }
}

/// Two texts that agree on their first `k` characters are in one state, and
/// have shown as many characters, after them.
proof fn lemma_prefix_agrees(s1: Seq<char>, s2: Seq<char>, k: int)
    requires
        0 <= k <= s1.len(),
        k <= s2.len(),
        forall|i: int| 0 <= i < k ==> s1[i] == s2[i],
    ensures
        state_at(s1, k) == state_at(s2, k),
        visible_upto(s1, k) == visible_upto(s2, k),
    decreases k,
{
    if k > 0 {
        lemma_prefix_agrees(s1, s2, k - 1);
    }
}

/// Text read after a prefix whose escape sequences are closed is scanned as
/// if it stood alone.
proof fn lemma_after_closed_prefix(a: Seq<char>, b: Seq<char>, j: int)
    requires
        escapes_closed(a),
        0 <= j <= b.len(),
    ensures
        state_at(a + b, a.len() + j) == state_at(b, j),
        visible_upto(a + b, a.len() + j) == visible_upto(a, a.len() as int) + visible_upto(b, j),
    decreases j,
{
    if j == 0 {
        lemma_prefix_agrees(a + b, a, a.len() as int);
    } else {
        lemma_after_closed_prefix(a, b, j - 1);
        assert((a + b)[a.len() + j - 1] == b[j - 1]);
    }
}

/// What the cut keeps of `s` shows exactly `budget` characters, and ends in
/// the normal state, when `s` shows more than `budget`.
proof fn lemma_kept_prefix(s: Seq<char>, budget: nat)
    requires
        visible_length(s) > budget,
    ensures
        0 <= kept_len(s, budget) < s.len(),
        s.take(kept_len(s, budget)).len() == kept_len(s, budget),
        visible_length(s.take(kept_len(s, budget))) == budget,
        escapes_closed(s.take(kept_len(s, budget))),
{
    lemma_kept_len(s, budget);
    let k = kept_len(s, budget);
    lemma_prefix_agrees(s, s.take(k), k);
}

/// Text that fits the budget comes back unchanged, whatever the marker.
pub proof fn lemma_truncate_within_budget(s: Seq<char>, marker: Seq<char>, max_visible: nat)
    requires
        visible_length(s) <= max_visible,
    ensures
        truncated(s, marker, max_visible) == s,
{
}

/// Texts that differ only in what their escape sequences hold show as many
/// characters.
pub proof fn lemma_escape_contents_ignored(a: Seq<char>, b: Seq<char>)
    requires
        shape(a) == shape(b),
    ensures
        visible_length(a) == visible_length(b),
{
    lemma_shape_counts(a, a.len() as int);
    lemma_shape_counts(b, b.len() as int);
}

/// Where the text is over budget and the budget is no longer than the
/// marker, the marker alone is the result.
pub proof fn lemma_truncate_marker_only(s: Seq<char>, marker: Seq<char>, max_visible: nat)
    requires
        visible_length(s) > max_visible,
        max_visible <= marker.len(),
    ensures
        truncated(s, marker, max_visible) == marker,
{
}

/// Where the text is cut, the result ends with the marker.
pub proof fn lemma_truncate_ends_with_marker(s: Seq<char>, marker: Seq<char>, max_visible: nat)
    requires
        visible_length(s) > max_visible,
        max_visible > marker.len(),
    ensures
        truncated(s, marker, max_visible).len() >= marker.len(),
        truncated(s, marker, max_visible).skip(
            truncated(s, marker, max_visible).len() - marker.len(),
        ) == marker,
{
    let budget = (max_visible - marker.len()) as nat;
    lemma_kept_prefix(s, budget);
    let kept = s.take(kept_len(s, budget));
    assert((kept + marker).skip(kept.len() as int) =~= marker);
}

/// The result leaves no escape sequence open, provided that what it is made
/// of closes its own: the text where it fits the budget, the marker where
/// the text does not.
pub proof fn lemma_truncate_closes_escapes(s: Seq<char>, marker: Seq<char>, max_visible: nat)
    requires
        visible_length(s) <= max_visible ==> escapes_closed(s),
        visible_length(s) > max_visible ==> escapes_closed(marker),
    ensures
        escapes_closed(truncated(s, marker, max_visible)),
{
    if visible_length(s) > max_visible && max_visible > marker.len() {
        let budget = (max_visible - marker.len()) as nat;
        lemma_kept_prefix(s, budget);
        let kept = s.take(kept_len(s, budget));
        lemma_after_closed_prefix(kept, marker, marker.len() as int);
    }
}

/// Where the text is over budget, what stands before the marker shows
/// exactly the budget less the marker's length, and so never more.
pub proof fn lemma_truncate_respects_budget(s: Seq<char>, marker: Seq<char>, max_visible: nat)
    requires
        visible_length(s) > max_visible,
        marker.len() <= max_visible,
    ensures
        ({
            let r = truncated(s, marker, max_visible);
            &&& r.len() >= marker.len()
            &&& visible_length(r.take(r.len() - marker.len())) == max_visible - marker.len()
            &&& visible_length(r.take(r.len() - marker.len())) <= max_visible - marker.len()
        }),
{
    let r = truncated(s, marker, max_visible);
    if max_visible == marker.len() {
        assert(r.take(0) =~= Seq::<char>::empty());
    } else {
        let budget = (max_visible - marker.len()) as nat;
        lemma_kept_prefix(s, budget);
        let kept = s.take(kept_len(s, budget));
        assert((kept + marker).take(kept.len() as int) =~= kept);
    }
}

/// One piece of styled text: a whole escape sequence, or one visible character.
pub enum AnsiSegment {
    EscapeSequence(String),
    VisibleChar(char),
}

/// Reads styled text one segment at a time.
pub struct AnsiParser {
    chars: Vec<char>,
    pos: usize,
}

impl AnsiParser {
    /// The text being read.
    pub closed spec fn source(&self) -> Seq<char> {
        self.chars@
    }

    /// How many characters of the text have been read.
    pub closed spec fn position(&self) -> int {
        self.pos as int
    }

    /// The parser stands at the end of the text, or between two segments in
    /// the normal state.
    pub closed spec fn wf(&self) -> bool {
        &&& self.pos <= self.chars.len()
        &&& self.pos < self.chars.len() ==> !state_at(self.chars@, self.pos as int)
    }

    /// A parser at the start of `text`.
    pub fn new(text: &str) -> (r: AnsiParser)
        ensures
            r.wf(),
            r.source() == text@,
            r.position() == 0,
    {
        AnsiParser { chars: chars_of(text), pos: 0 }
    }

    /// The next segment, or `None` at the end of the text. An escape sequence
    /// runs from `ESC` through the first `m`, or to the end of the text.
    pub fn next_segment(&mut self) -> (r: Option<AnsiSegment>)
        requires
            old(self).wf(),
        ensures
            final(self).wf(),
            final(self).source() == old(self).source(),
            old(self).position() == old(self).source().len() ==> r is None
                && final(self).position() == old(self).position(),
            old(self).position() < old(self).source().len() ==> {
                let s = old(self).source();
                let p = old(self).position();
                &&& final(self).position() == segment_end(s, p)
                &&& p < final(self).position() <= s.len()
                &&& match r {
                    Some(AnsiSegment::VisibleChar(c)) => s[p] != ESC && c == s[p],
                    Some(AnsiSegment::EscapeSequence(e)) => s[p] == ESC && e@ == s.subrange(
                        p,
                        final(self).position(),
                    ),
                    None => false,
                }
                &&& visible_upto(s, final(self).position()) == visible_upto(s, p) + if s[p]
                    == ESC {
                    0nat
                } else {
                    1nat
                }
            },
    {
        if self.pos >= self.chars.len() {
            return None;
        }
        let ghost s = self.chars@;
        let ghost start = self.pos as int;
        let ch = self.chars[self.pos];
        self.pos = self.pos + 1;
        if ch == ESC {
            let mut escape_seq = String::new();
            push_char(&mut escape_seq, ch);
            assert(escape_seq@ =~= s.subrange(start, start + 1));
            while self.pos < self.chars.len()
                invariant_except_break
                    0 <= start < self.pos <= self.chars.len(),
                    self.chars@ == s,
                    s[start] == ESC,
                    state_at(s, self.pos as int),
                    escape_seq@ == s.subrange(start, self.pos as int),
                    visible_upto(s, self.pos as int) == visible_upto(s, start),
                    escape_end(s, self.pos as int) == escape_end(s, start + 1),
                ensures
                    0 <= start < self.pos <= self.chars.len(),
                    self.chars@ == s,
                    !state_at(s, self.pos as int) || self.pos == self.chars.len(),
                    escape_seq@ == s.subrange(start, self.pos as int),
                    visible_upto(s, self.pos as int) == visible_upto(s, start),
                    self.pos == escape_end(s, start + 1),
                decreases self.chars.len() - self.pos,
            {
                let escape_ch = self.chars[self.pos];
                push_char(&mut escape_seq, escape_ch);
                self.pos = self.pos + 1;
                assert(escape_seq@ =~= s.subrange(start, self.pos as int));
                if escape_ch == 'm' {
                    break;
                }
            }
            Some(AnsiSegment::EscapeSequence(escape_seq))
        } else {
            Some(AnsiSegment::VisibleChar(ch))
        }
    }
}

/// The characters of `text`, in order.
pub fn chars_of(text: &str) -> (r: Vec<char>)
    ensures
        r@ == text@,
{
    let mut chars: Vec<char> = Vec::new();
    for c in it: text.chars()
        invariant
            chars@ == it.seq().take(it.index() as int),
    {
        chars.push(c);
    }
    chars
}

/// Number of characters of `text` that a terminal shows.
pub fn calculate_visible_length(text: &str) -> (r: usize)
    ensures
        r == visible_length(text@),
{
    let mut parser = AnsiParser::new(text);
    let mut len: usize = 0;
    loop
        invariant
            parser.wf(),
            parser.source() == text@,
            0 <= parser.position() <= text@.len(),
            len == visible_upto(text@, parser.position()),
        ensures
            len == visible_length(text@),
        decreases text@.len() - parser.position(),
    {
        let ghost p = parser.position();
        proof {
            lemma_visible_upto_bounded(text@, p);
        }
        match parser.next_segment() {
            Some(AnsiSegment::VisibleChar(_)) => {
                len = len + 1;
            },
            Some(AnsiSegment::EscapeSequence(_)) => {},
            None => {
                break;
            },
        }
    }
    len
}

/// `text` cut to show at most `max_len` characters, with `overflow_str`
/// appended where it was cut. Escape sequences before the cut are kept whole.
pub fn truncate_ansi_string(text: &str, overflow_str: &str, max_len: usize) -> (r: String)
    ensures
        r@ == truncated(text@, overflow_str@, max_len as nat),
{
    let visible_len = calculate_visible_length(text);
    let overflow_len = overflow_str.unicode_len();

    if visible_len <= max_len {
        return text.to_string();
    }
    if max_len <= overflow_len {
        return overflow_str.to_string();
    }

    let target_len = max_len - overflow_len;
    let ghost s = text@;
    let mut result = String::new();
    let mut visible_count: usize = 0;
    let mut parser = AnsiParser::new(text);
    assert(result@ =~= s.take(0));

    loop
        invariant_except_break
            parser.wf(),
            parser.source() == s,
            0 <= parser.position() <= s.len(),
            result@ == s.take(parser.position()),
            visible_count == visible_upto(s, parser.position()),
            visible_count <= target_len,
        ensures
            result@.len() <= s.len(),
            result@ == s.take(result@.len() as int),
            is_kept_len(s, target_len as nat, result@.len() as int),
        decreases s.len() - parser.position(),
    {
        let ghost p = parser.position();
        match parser.next_segment() {
            Some(AnsiSegment::EscapeSequence(seq)) => {
                result.append(seq.as_str());
                assert(result@ =~= s.take(parser.position()));
            },
            Some(AnsiSegment::VisibleChar(ch)) => {
                if visible_count >= target_len {
                    break;
                }
                push_char(&mut result, ch);
                visible_count = visible_count + 1;
                assert(result@ =~= s.take(parser.position()));
            },
            None => {
                assert(s.take(p) =~= s);
                break;
            },
        }
    }
    proof {
        lemma_kept_len(s, target_len as nat);
    }
    result.append(overflow_str);
    result
}

/// Relies on String::push: the character is appended at the end.
#[verifier::external_body]
pub(crate) fn push_char(s: &mut String, c: char)
    ensures
        final(s)@ == old(s)@.push(c),
{
    s.push(c)
}

} // verus!
