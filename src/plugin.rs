//! The plugin's own state: its settings, what it remembers of the host's
//! input mode, and the status line it writes each frame.
use vstd::prelude::*;
use crate::ansi::{calculate_visible_length, truncate_ansi_string, truncated, visible_length};
use crate::hints::{lowercase_of, paint_parts, painted, part_views, to_lowercase, Part};

verus! {

broadcast use vstd::string::group_string_axioms;

/// Budget of visible characters when none is set: no limit.
pub const DEFAULT_MAX_LENGTH: usize = 0;

/// Marker appended where the line is cut, when none is set.
pub const DEFAULT_OVERFLOW_STR: &'static str = "...";

/// Name of the pipe that the line is sent on, when none is set.
pub const DEFAULT_PIPE_NAME: &'static str = "zjstatus_hints";

/// The host's input modes.
#[derive(PartialEq, Eq, Structural, Clone, Copy, Debug)]
pub enum Mode {
    Normal,
    Locked,
    Resize,
    Pane,
    Tab,
    Scroll,
    EnterSearch,
    Search,
    RenameTab,
    RenamePane,
    Session,
    Move,
    Prompt,
    Tmux,
}

/// The plugin's settings.
#[derive(Debug)]
pub struct Config {
    /// Budget of visible characters for the line; 0 for no limit.
    pub max_length: usize,
    /// Marker appended where the line is cut.
    pub overflow_str: String,
    /// Name of the pipe that the line is sent on.
    pub pipe_name: String,
    /// Whether to write nothing while the host is in its base mode.
    pub hide_in_base_mode: bool,
}

/// `s` read as a decimal `usize`, as std's `str::parse` reads it.
pub uninterp spec fn parsed_usize(s: Seq<char>) -> Option<usize>;

/// The budget that a `max_length` setting gives: its number, else none.
pub open spec fn max_length_setting(s: Option<Seq<char>>) -> usize {
    match s {
        Some(t) => match parsed_usize(t) {
            Some(n) => n,
            None => DEFAULT_MAX_LENGTH,
        },
        None => DEFAULT_MAX_LENGTH,
    }
}

/// Whether a `hide_in_base_mode` setting asks to hide: `true` in any case.
pub open spec fn hide_setting(s: Option<Seq<char>>) -> bool {
    match s {
        Some(t) => lowercase_of(t) == "true"@,
        None => false,
    }
}

/// What a setting holds, if it is there.
pub open spec fn setting(s: Option<&str>) -> Option<Seq<char>> {
    match s {
        Some(t) => Some(t@),
        None => None,
    }
}

/// `line` cut to a budget of `max_length` visible characters, or left as it
/// is where the budget is 0 (no limit) or the line fits.
pub open spec fn fitted(line: Seq<char>, max_length: nat, overflow: Seq<char>) -> Seq<char> {
    if max_length > 0 && visible_length(line) > max_length {
        truncated(line, overflow, max_length)
    } else {
        line
    }
}

/// Relies on str::parse for usize: the number that `s` spells in decimal,
/// or none.
#[verifier::external_body]
fn parse_usize(s: &str) -> (r: Option<usize>)
    ensures
        r == parsed_usize(s@),
{
    s.parse::<usize>().ok()
}

/// The settings from what the host handed over, the defaults filling in
/// what is missing or does not read as a number.
pub fn load_config(
    max_length: Option<&str>,
    overflow_str: Option<&str>,
    pipe_name: Option<&str>,
    hide_in_base_mode: Option<&str>,
) -> (r: Config)
    ensures
        r.max_length == max_length_setting(setting(max_length)),
        r.overflow_str@ == match overflow_str {
            Some(s) => s@,
            None => DEFAULT_OVERFLOW_STR@,
        },
        r.pipe_name@ == match pipe_name {
            Some(s) => s@,
            None => DEFAULT_PIPE_NAME@,
        },
        r.hide_in_base_mode == hide_setting(setting(hide_in_base_mode)),
{
    let max_length = match max_length {
        Some(s) => match parse_usize(s) {
            Some(n) => n,
            None => DEFAULT_MAX_LENGTH,
        },
        None => DEFAULT_MAX_LENGTH,
    };
    let overflow_str = match overflow_str {
        Some(s) => s.to_string(),
        None => DEFAULT_OVERFLOW_STR.to_string(),
    };
    let pipe_name = match pipe_name {
        Some(s) => s.to_string(),
        None => DEFAULT_PIPE_NAME.to_string(),
    };
    let hide_in_base_mode = match hide_in_base_mode {
        Some(s) => to_lowercase(s) == "true".to_string(),
        None => false,
    };
    Config { max_length, overflow_str, pipe_name, hide_in_base_mode }
}

/// `line` cut to a budget of `max_length` visible characters, or left as it
/// is where the budget is 0 (no limit) or the line fits.
pub fn fit_to_width(line: &str, max_length: usize, overflow_str: &str) -> (r: String)
    ensures
        r@ == fitted(line@, max_length as nat, overflow_str@),
{
    let visible_len = calculate_visible_length(line);
    if max_length > 0 && visible_len > max_length {
        truncate_ansi_string(line, overflow_str, max_length)
    } else {
        line.to_string()
    }
}

/// What is sent on the pipe named `pipe_name` to carry `output`.
pub fn pipe_payload(pipe_name: &str, output: &str) -> (r: String)
    ensures
        r@ == "zjstatus::pipe::pipe_"@ + pipe_name@ + "::"@ + output@,
{
    let mut r = "zjstatus::pipe::pipe_".to_string();
    r.append(pipe_name);
    r.append("::");
    r.append(output);
    r
}

/// What the plugin remembers of the host between frames.
#[derive(Debug)]
pub struct ViewState {
    /// Whether a line has been written outside the base mode, after which
    /// the receiving end is taken to be listening.
    pub initialized: bool,
    pub mode: Mode,
    pub base_mode: Option<Mode>,
    pub base_mode_is_locked: bool,
}

/// Whether `mode` is the base mode `base_mode`.
pub open spec fn is_base_mode(mode: Mode, base_mode: Option<Mode>) -> bool {
    base_mode == Some(mode)
}

/// The line for a frame: nothing where it is hidden in the base mode, else
/// the painted hints after a space, fitted to the budget.
pub open spec fn frame_line(
    config_hide: bool,
    mode: Mode,
    base_mode: Option<Mode>,
    hints: Seq<char>,
    max_length: nat,
    overflow: Seq<char>,
) -> Seq<char> {
    if config_hide && is_base_mode(mode, base_mode) {
        seq![]
    } else {
        fitted(" "@ + hints, max_length, overflow)
    }
}

fn same_mode(mode: Mode, base_mode: Option<Mode>) -> (r: bool)
    ensures
        r == is_base_mode(mode, base_mode),
{
    match base_mode {
        Some(b) => b == mode,
        None => false,
    }
}

impl ViewState {
    /// Before the host has said anything: normal mode, no base mode.
    pub fn new() -> (r: ViewState)
        ensures
            !r.initialized,
            r.mode == Mode::Normal,
            r.base_mode is None,
            !r.base_mode_is_locked,
    {
        ViewState { initialized: false, mode: Mode::Normal, base_mode: None, base_mode_is_locked: false }
    }

    /// Takes in the host's new mode and base mode; `changed` says whether
    /// anything the host reported about modes differs from before. Returns
    /// whether to draw again.
    pub fn on_mode_update(&mut self, mode: Mode, base_mode: Option<Mode>, changed: bool) -> (r: bool)
        ensures
            r == (!old(self).initialized || changed),
            final(self).initialized == old(self).initialized,
            final(self).mode == mode,
            final(self).base_mode == base_mode,
            final(self).base_mode_is_locked == (base_mode == Some(Mode::Locked)),
    {
        let should_render = !self.initialized || changed;
        self.mode = mode;
        self.base_mode = base_mode;
        self.base_mode_is_locked = same_mode(Mode::Locked, base_mode);
        should_render
    }

    /// Whether to draw again after any other event.
    pub fn on_other_event(&self) -> (r: bool)
        ensures
            r == !self.initialized,
    {
        !self.initialized
    }

    /// The line for this frame from the hints `parts`; marks the state as
    /// initialized once a line has been written outside the base mode.
    pub fn render(&mut self, config: &Config, parts: &Vec<Part>) -> (r: String)
        ensures
            r@ == frame_line(
                config.hide_in_base_mode,
                old(self).mode,
                old(self).base_mode,
                painted(part_views(parts@)),
                config.max_length as nat,
                config.overflow_str@,
            ),
            final(self).initialized == (old(self).initialized || (r@.len() > 0
                && !is_base_mode(old(self).mode, old(self).base_mode))),
            final(self).mode == old(self).mode,
            final(self).base_mode == old(self).base_mode,
            final(self).base_mode_is_locked == old(self).base_mode_is_locked,
    {
        let in_base_mode = same_mode(self.mode, self.base_mode);
        let output = if !(config.hide_in_base_mode && in_base_mode) {
            let mut formatted = " ".to_string();
            let painted_hints = paint_parts(parts);
            formatted.append(painted_hints.as_str());
            fit_to_width(formatted.as_str(), config.max_length, config.overflow_str.as_str())
        } else {
            String::new()
        };
        if !output.as_str().is_empty() && !in_base_mode {
            self.initialized = true;
        }
        output
    }
}

} // verus!
