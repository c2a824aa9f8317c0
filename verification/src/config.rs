//! Prompt configuration and the segments each configured element produces.
use vstd::prelude::*;

use crate::segment::{Segment, SegmentModel, Span, SpanModel};
use crate::style::{plain_style, resolve_spec, Color, ColorMap, Style, StyleConfig};
use crate::text::chars_of;

verus! {

/// How the prompt is laid out.
#[derive(Clone, Copy, Debug, PartialEq, Eq, Structural)]
pub enum PromptLayout {
    /// An information line above an input line.
    TwoLine,
    /// A single line, fish style.
    Fish,
}

/// The prompt line a module is shown on.
#[derive(Clone, Copy, Debug, PartialEq, Eq, Structural)]
pub enum ModuleSlot {
    Line1,
    Line2,
}

/// The side of the terminal a module is shown on.
#[derive(Clone, Copy, Debug, PartialEq, Eq, Structural)]
pub enum PromptSide {
    Left,
    Right,
}

impl Default for ModuleSlot {
    /// Modules go on the first line unless configured otherwise.
    fn default() -> (s: Self)
        ensures
            s == ModuleSlot::Line1,
    {
        ModuleSlot::Line1
    }
}

/// The glyph and style of the character shown in one keymap mode.
#[derive(Clone, Debug)]
pub struct CharacterModeConfig {
    pub glyph: String,
    /// When absent, the glyph takes the success or error style of the last command.
    pub style: Option<StyleConfig>,
}

/// The prompt character.
#[derive(Clone, Debug)]
pub struct CharacterConfig {
    pub disabled: bool,
    pub glyph: String,
    pub success_style: StyleConfig,
    pub error_style: StyleConfig,
    /// The character shown in vi command mode.
    pub vicmd: CharacterModeConfig,
}

/// The clock.
#[derive(Clone, Debug)]
pub struct TimeConfig {
    pub disabled: bool,
    pub with_seconds: bool,
    pub slot: ModuleSlot,
    pub side: PromptSide,
    pub connector: String,
    pub style: StyleConfig,
}

/// The working directory.
#[derive(Clone, Debug)]
pub struct DirectoryConfig {
    pub disabled: bool,
    pub style: StyleConfig,
    pub read_only_style: StyleConfig,
    pub read_only_icon: String,
}

/// The duration of the last command.
#[derive(Clone, Debug)]
pub struct CmdDurationConfig {
    pub disabled: bool,
    /// Durations below this many milliseconds are not shown.
    pub threshold_ms: u64,
    pub connector: String,
    pub style: StyleConfig,
}

/// The git branch and status.
#[derive(Clone, Debug)]
pub struct GitConfig {
    pub connector: String,
    pub icon: String,
    pub style: StyleConfig,
    /// The style of the status indicator that follows the branch name.
    pub indicator_style: StyleConfig,
}

/// The connector words such as "on", "via" and "at".
#[derive(Clone, Debug)]
pub struct ConnectorsConfig {
    pub style: StyleConfig,
}

/// The whole prompt configuration.
#[derive(Clone, Debug)]
pub struct Config {
    pub layout: PromptLayout,
    pub character: CharacterConfig,
    pub time: TimeConfig,
    pub directory: DirectoryConfig,
    pub cmd_duration: CmdDurationConfig,
    pub git: GitConfig,
    pub connectors: ConnectorsConfig,
    pub color_map: ColorMap,
}

/// The output of a custom module (a toolchain version, for instance).
#[derive(Clone, Debug, PartialEq, Eq)]
pub struct CustomModuleInfo {
    pub name: String,
    pub value: String,
    pub icon: Option<String>,
    pub style: Style,
    pub connector: Option<String>,
    pub slot: ModuleSlot,
}

// ---------------------------------------------------------------------------
// Segment models
// ---------------------------------------------------------------------------

/// A span model of `text` in `style`.
pub open spec fn span_m(text: Seq<char>, style: Style) -> SpanModel {
    SpanModel { text, style }
}

/// A span of the optional text, when present.
pub open spec fn opt_string_span(s: Option<String>, style: Style) -> Option<SpanModel> {
    match s {
        Some(t) => Some(span_m(t@, style)),
        None => None,
    }
}

/// The style of the prompt character after a command that exited with `exit_code`.
pub open spec fn character_style_spec(c: CharacterConfig, exit_code: i32) -> Style {
    if exit_code == 0 {
        resolve_spec(c.success_style, plain_style())
    } else {
        resolve_spec(c.error_style, plain_style())
    }
}

/// The prompt character segment showing `glyph`.
pub open spec fn character_segment_spec(
    c: CharacterConfig,
    glyph: Seq<char>,
    exit_code: i32,
) -> SegmentModel {
    SegmentModel {
        connector: None,
        icon: None,
        body: seq![span_m(glyph, character_style_spec(c, exit_code))],
    }
}

/// The prompt character segment for a keymap mode: its own style when set,
/// else the style of the last command's outcome.
pub open spec fn mode_segment_spec(
    c: CharacterConfig,
    mode: CharacterModeConfig,
    exit_code: i32,
) -> SegmentModel {
    let style = match mode.style {
        Some(s) => resolve_spec(s, plain_style()),
        None => character_style_spec(c, exit_code),
    };
    SegmentModel { connector: None, icon: None, body: seq![span_m(mode.glyph@, style)] }
}

/// The clock segment: the connector word, then the time.
pub open spec fn time_segment_spec(t: TimeConfig, time: Seq<char>, connector_style: Style) -> SegmentModel {
    SegmentModel {
        connector: Some(span_m(t.connector@, connector_style)),
        icon: None,
        body: seq![span_m(time, resolve_spec(t.style, plain_style()))],
    }
}

/// The directory segment; a read-only directory is followed by the lock icon.
pub open spec fn directory_segment_spec(
    d: DirectoryConfig,
    dir: Seq<char>,
    read_only: bool,
) -> SegmentModel {
    let main = span_m(dir, resolve_spec(d.style, plain_style()));
    SegmentModel {
        connector: None,
        icon: None,
        body: if read_only {
            seq![
                main,
                span_m(seq![' '], plain_style()),
                span_m(d.read_only_icon@, resolve_spec(d.read_only_style, plain_style())),
            ]
        } else {
            seq![main]
        },
    }
}

/// The command-duration segment: the connector word, then the duration.
pub open spec fn duration_segment_spec(
    cd: CmdDurationConfig,
    duration: Seq<char>,
    connector_style: Style,
) -> SegmentModel {
    SegmentModel {
        connector: Some(span_m(cd.connector@, connector_style)),
        icon: None,
        body: seq![span_m(duration, resolve_spec(cd.style, plain_style()))],
    }
}

/// Position of the first space of `s`, or its length when it has none.
pub open spec fn first_space(s: Seq<char>) -> nat
    decreases s.len(),
{
    if s.len() == 0 {
        0
    } else if s[0] == ' ' {
        0
    } else {
        1 + first_space(s.skip(1))
    }
}

/// The git text is a branch name, optionally followed by a space and a status indicator.
pub open spec fn git_segment_spec(g: GitConfig, git: Seq<char>, connector_style: Style) -> SegmentModel {
    let k = first_space(git);
    let style = resolve_spec(g.style, plain_style());
    let branch = span_m(git.take(k as int), style);
    let indicator = if k < git.len() { git.skip((k + 1) as int) } else { Seq::empty() };
    SegmentModel {
        connector: Some(span_m(g.connector@, connector_style)),
        icon: Some(span_m(g.icon@, style)),
        body: if indicator.len() > 0 {
            seq![
                branch,
                span_m(seq![' '], plain_style()),
                span_m(indicator, resolve_spec(g.indicator_style, plain_style())),
            ]
        } else {
            seq![branch]
        },
    }
}

/// A custom module's segment: optional connector, optional icon, then the value.
pub open spec fn custom_segment_spec(m: CustomModuleInfo, connector_style: Style) -> SegmentModel {
    SegmentModel {
        connector: opt_string_span(m.connector, connector_style),
        icon: opt_string_span(m.icon, m.style),
        body: seq![span_m(m.value@, m.style)],
    }
}

// ---------------------------------------------------------------------------
// Segment construction
// ---------------------------------------------------------------------------

fn span_of(text: &str, style: Style) -> (s: Span)
    ensures
        s@ == span_m(text@, style),
{
    Span::new(chars_of(text), style)
}

fn single_body(span: Span) -> (v: Vec<Span>)
    ensures
        v@.map_values(|s: Span| s@) == seq![span@],
{
    let mut v: Vec<Span> = Vec::new();
    v.push(span);
    proof {
        assert(v@.map_values(|s: Span| s@) =~= seq![span@]);
    }
    v
}

fn triple_body(a: Span, b: Span, c: Span) -> (v: Vec<Span>)
    ensures
        v@.map_values(|s: Span| s@) == seq![a@, b@, c@],
{
    let mut v: Vec<Span> = Vec::new();
    v.push(a);
    v.push(b);
    v.push(c);
    proof {
        assert(v@.map_values(|s: Span| s@) =~= seq![a@, b@, c@]);
    }
    v
}

fn space_span() -> (s: Span)
    ensures
        s@ == span_m(seq![' '], plain_style()),
{
    let mut text: Vec<char> = Vec::new();
    text.push(' ');
    proof {
        assert(text@ =~= seq![' ']);
    }
    Span::new(text, Style::new())
}

impl CharacterConfig {
    /// The style of the character after a command that exited with `exit_code`.
    pub fn style_for(&self, exit_code: i32) -> (s: Style)
        ensures
            s == character_style_spec(*self, exit_code),
    {
        if exit_code == 0 {
            self.success_style.resolve(Style::new())
        } else {
            self.error_style.resolve(Style::new())
        }
    }

    /// The character segment showing `glyph`.
    pub fn to_segment(&self, glyph: &str, exit_code: i32) -> (seg: Segment)
        ensures
            seg@ == character_segment_spec(*self, glyph@, exit_code),
    {
        let span = span_of(glyph, self.style_for(exit_code));
        Segment { connector: None, icon: None, body: single_body(span) }
    }

    /// The character segment for a keymap mode.
    pub fn mode_segment(&self, mode: &CharacterModeConfig, exit_code: i32) -> (seg: Segment)
        ensures
            seg@ == mode_segment_spec(*self, *mode, exit_code),
    {
        let style = match &mode.style {
            Some(s) => s.resolve(Style::new()),
            None => self.style_for(exit_code),
        };
        let span = span_of(mode.glyph.as_str(), style);
        Segment { connector: None, icon: None, body: single_body(span) }
    }
}

impl TimeConfig {
    /// Whether the clock shows seconds.
    pub fn show_seconds(&self) -> (b: bool)
        ensures
            b == self.with_seconds,
    {
        self.with_seconds
    }

    /// The clock segment showing `time`.
    pub fn to_segment(&self, time: &str, connector_style: Style) -> (seg: Segment)
        ensures
            seg@ == time_segment_spec(*self, time@, connector_style),
    {
        let connector = span_of(self.connector.as_str(), connector_style);
        let span = span_of(time, self.style.resolve(Style::new()));
        Segment { connector: Some(connector), icon: None, body: single_body(span) }
    }
}

impl DirectoryConfig {
    /// The directory segment showing `dir`, with a lock icon when it is read-only.
    pub fn to_segment(&self, dir: &str, read_only: bool) -> (seg: Segment)
        ensures
            seg@ == directory_segment_spec(*self, dir@, read_only),
    {
        let main = span_of(dir, self.style.resolve(Style::new()));
        let body = if read_only {
            let lock = span_of(self.read_only_icon.as_str(), self.read_only_style.resolve(Style::new()));
            triple_body(main, space_span(), lock)
        } else {
            single_body(main)
        };
        Segment { connector: None, icon: None, body }
    }
}

impl CmdDurationConfig {
    /// The segment showing the duration of the last command.
    pub fn to_segment(&self, duration: &str, connector_style: Style) -> (seg: Segment)
        ensures
            seg@ == duration_segment_spec(*self, duration@, connector_style),
    {
        let connector = span_of(self.connector.as_str(), connector_style);
        let span = span_of(duration, self.style.resolve(Style::new()));
        Segment { connector: Some(connector), icon: None, body: single_body(span) }
    }
}

impl GitConfig {
    /// The git segment for `git`, a branch name optionally followed by a space
    /// and a status indicator.
    pub fn to_segment(&self, git: &str, connector_style: Style) -> (seg: Segment)
        ensures
            seg@ == git_segment_spec(*self, git@, connector_style),
    {
        let chars = chars_of(git);
        let mut k: usize = 0;
        proof {
            assert(chars@.skip(0) =~= chars@);
        }
        while k < chars.len() && chars[k] != ' '
            invariant
                k <= chars@.len(),
                first_space(chars@) == k + first_space(chars@.skip(k as int)),
            decreases chars@.len() - k,
        {
            proof {
                assert(chars@.skip(k as int).skip(1) =~= chars@.skip(k + 1));
            }
            k = k + 1;
        }
        proof {
            if k < chars@.len() {
                assert(chars@.skip(k as int)[0] == chars@[k as int]);
            }
        }
        let mut branch: Vec<char> = Vec::new();
        let mut i: usize = 0;
        while i < k
            invariant
                i <= k <= chars@.len(),
                branch@ == chars@.take(i as int),
            decreases k - i,
        {
            branch.push(chars[i]);
            i = i + 1;
            assert(chars@.take(i as int) =~= chars@.take((i - 1) as int).push(chars@[i - 1]));
        }
        let mut indicator: Vec<char> = Vec::new();
        if k < chars.len() {
            let mut j: usize = k + 1;
            while j < chars.len()
                invariant
                    k + 1 <= j <= chars@.len(),
                    indicator@ == chars@.subrange(k + 1, j as int),
                decreases chars@.len() - j,
            {
                indicator.push(chars[j]);
                j = j + 1;
                assert(chars@.subrange(k + 1, j as int) =~= chars@.subrange(k + 1, (j - 1) as int).push(chars@[j - 1]));
            }
            assert(chars@.subrange(k + 1, j as int) =~= chars@.skip(k + 1));
        } else {
            assert(indicator@ =~= Seq::<char>::empty());
        }
        let style = self.style.resolve(Style::new());
        let connector = span_of(self.connector.as_str(), connector_style);
        let icon = span_of(self.icon.as_str(), style);
        let main = Span::new(branch, style);
        let body = if indicator.len() > 0 {
            let ind = Span::new(indicator, self.indicator_style.resolve(Style::new()));
            triple_body(main, space_span(), ind)
        } else {
            single_body(main)
        };
        Segment { connector: Some(connector), icon: Some(icon), body }
    }
}

impl ConnectorsConfig {
    /// The style connector words are drawn in.
    pub fn prompt_style(&self) -> (s: Style)
        ensures
            s == resolve_spec(self.style, plain_style()),
    {
        self.style.resolve(Style::new())
    }
}

fn opt_span_of(s: &Option<String>, style: Style) -> (r: Option<Span>)
    ensures
        crate::segment::opt_span_view(r) == opt_string_span(*s, style),
{
    match s {
        Some(t) => Some(span_of(t.as_str(), style)),
        None => None,
    }
}

impl CustomModuleInfo {
    /// The segment showing this module's value.
    pub fn to_segment(&self, connector_style: Style) -> (seg: Segment)
        ensures
            seg@ == custom_segment_spec(*self, connector_style),
    {
        let span = span_of(self.value.as_str(), self.style);
        Segment {
            connector: opt_span_of(&self.connector, connector_style),
            icon: opt_span_of(&self.icon, self.style),
            body: single_body(span),
        }
    }
}

// ---------------------------------------------------------------------------
// Defaults
// ---------------------------------------------------------------------------

fn owned(s: &str) -> (r: String)
    ensures
        r@ == s@,
{
    s.to_owned()
}

fn style_config(fg: Color, bold: bool) -> (s: StyleConfig)
    ensures
        s == (StyleConfig { fg: Some(fg), bold: if bold { Some(true) } else { None }, dimmed: None }),
{
    StyleConfig { fg: Some(fg), bold: if bold { Some(true) } else { None }, dimmed: None }
}

impl Default for CharacterModeConfig {
    /// The vi command-mode character: a left-pointing angle, styled like the
    /// insert-mode character.
    fn default() -> (c: Self)
        ensures
            c.glyph@ == "\u{276e}"@,
            c.style is None,
    {
        CharacterModeConfig { glyph: owned("\u{276e}"), style: None }
    }
}

impl Default for CharacterConfig {
    /// A right-pointing angle, green after success and red after failure.
    fn default() -> (c: Self)
        ensures
            !c.disabled,
            c.glyph@ == "\u{276f}"@,
            c.success_style == StyleConfig::fg_spec(Color::Green),
            c.error_style == StyleConfig::fg_spec(Color::Red),
            c.vicmd.glyph@ == "\u{276e}"@,
            c.vicmd.style is None,
    {
        CharacterConfig {
            disabled: false,
            glyph: owned("\u{276f}"),
            success_style: StyleConfig::fg(Color::Green),
            error_style: StyleConfig::fg(Color::Red),
            vicmd: CharacterModeConfig::default(),
        }
    }
}

impl Default for TimeConfig {
    /// A yellow clock with seconds, on the left of the second line, after "at".
    fn default() -> (c: Self)
        ensures
            !c.disabled,
            c.with_seconds,
            c.slot == ModuleSlot::Line2,
            c.side == PromptSide::Left,
            c.connector@ == "at"@,
            c.style == StyleConfig::fg_spec(Color::Yellow),
    {
        TimeConfig {
            disabled: false,
            with_seconds: true,
            slot: ModuleSlot::Line2,
            side: PromptSide::Left,
            connector: owned("at"),
            style: StyleConfig::fg(Color::Yellow),
        }
    }
}

impl Default for DirectoryConfig {
    /// Bold cyan, with a red lock icon for read-only directories.
    fn default() -> (c: Self)
        ensures
            !c.disabled,
            c.style == (StyleConfig { fg: Some(Color::Cyan), bold: Some(true), dimmed: None }),
            c.read_only_style == StyleConfig::fg_spec(Color::Red),
            c.read_only_icon@ == "\u{f023}"@,
    {
        DirectoryConfig {
            disabled: false,
            style: style_config(Color::Cyan, true),
            read_only_style: StyleConfig::fg(Color::Red),
            read_only_icon: owned("\u{f023}"),
        }
    }
}

impl Default for CmdDurationConfig {
    /// Bold yellow after "took", for commands that ran at least two seconds.
    fn default() -> (c: Self)
        ensures
            !c.disabled,
            c.threshold_ms == 2000,
            c.connector@ == "took"@,
            c.style == (StyleConfig { fg: Some(Color::Yellow), bold: Some(true), dimmed: None }),
    {
        CmdDurationConfig {
            disabled: false,
            threshold_ms: 2000,
            connector: owned("took"),
            style: style_config(Color::Yellow, true),
        }
    }
}

impl Default for GitConfig {
    /// A bold magenta branch icon and name after "on", with a bold red status indicator.
    fn default() -> (c: Self)
        ensures
            c.connector@ == "on"@,
            c.icon@ == "\u{f418}"@,
            c.style == (StyleConfig { fg: Some(Color::Magenta), bold: Some(true), dimmed: None }),
            c.indicator_style == (StyleConfig { fg: Some(Color::Red), bold: Some(true), dimmed: None }),
    {
        GitConfig {
            connector: owned("on"),
            icon: owned("\u{f418}"),
            style: style_config(Color::Magenta, true),
            indicator_style: style_config(Color::Red, true),
        }
    }
}

impl Default for ConnectorsConfig {
    /// Connector words in the terminal's default style.
    fn default() -> (c: Self)
        ensures
            c.style == (StyleConfig { fg: None, bold: None, dimmed: None }),
    {
        ConnectorsConfig { style: StyleConfig::default() }
    }
}

impl Default for Config {
    /// The two-line layout with every element's default.
    fn default() -> (c: Self)
        ensures
            c.layout == PromptLayout::TwoLine,
            c.color_map == ColorMap::default_spec(),
            !c.character.disabled,
            c.character.glyph@ == "\u{276f}"@,
            c.character.success_style == StyleConfig::fg_spec(Color::Green),
            c.character.error_style == StyleConfig::fg_spec(Color::Red),
            c.character.vicmd.glyph@ == "\u{276e}"@,
            c.character.vicmd.style is None,
            !c.time.disabled,
            c.time.with_seconds,
            c.time.slot == ModuleSlot::Line2,
            c.time.side == PromptSide::Left,
            c.time.connector@ == "at"@,
            c.time.style == StyleConfig::fg_spec(Color::Yellow),
            !c.directory.disabled,
            c.directory.style == (StyleConfig { fg: Some(Color::Cyan), bold: Some(true), dimmed: None }),
            c.directory.read_only_style == StyleConfig::fg_spec(Color::Red),
            c.directory.read_only_icon@ == "\u{f023}"@,
            !c.cmd_duration.disabled,
            c.cmd_duration.threshold_ms == 2000,
            c.cmd_duration.connector@ == "took"@,
            c.cmd_duration.style == (StyleConfig { fg: Some(Color::Yellow), bold: Some(true), dimmed: None }),
            c.git.connector@ == "on"@,
            c.git.icon@ == "\u{f418}"@,
            c.git.style == (StyleConfig { fg: Some(Color::Magenta), bold: Some(true), dimmed: None }),
            c.git.indicator_style == (StyleConfig { fg: Some(Color::Red), bold: Some(true), dimmed: None }),
            c.connectors.style == (StyleConfig { fg: None, bold: None, dimmed: None }),
    {
        Config {
            layout: PromptLayout::TwoLine,
            character: CharacterConfig::default(),
            time: TimeConfig::default(),
            directory: DirectoryConfig::default(),
            cmd_duration: CmdDurationConfig::default(),
            git: GitConfig::default(),
            connectors: ConnectorsConfig::default(),
            color_map: ColorMap::default(),
        }
    }
}

} // verus!
