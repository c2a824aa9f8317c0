//! The fast built-in modules besides the directory (exit status, command
//! duration and clock) and the presets of custom modules.
use vstd::prelude::*;

use crate::directory::{ModuleOutput, RenderContext};
use crate::style::{Color, StyleConfig};
use crate::text::{decimal, decimal_chars, push_all, signed_decimal, signed_decimal_chars, string_of};

verus! {

/// A time of day on the wall clock, as the caller reads it.
#[derive(Clone, Copy, Debug, PartialEq, Eq, Structural)]
pub struct ClockTime {
    pub hour: u8,
    pub minute: u8,
    pub second: u8,
}

/// Shows the exit status of the last command when it is not zero.
#[derive(Debug, Default)]
pub struct StatusModule;

/// Shows how long the last command ran when it ran at least the threshold.
#[derive(Debug)]
pub struct CmdDurationModule {
    pub threshold_ms: u64,
}

/// Shows the time of day.
#[derive(Debug)]
pub struct TimeModule {
    pub show_seconds: bool,
}

/// A preset for a custom module: its name, icon and style.
#[derive(Clone, Debug)]
pub struct ModuleDef {
    pub name: String,
    pub icon: Option<String>,
    pub style: StyleConfig,
}

/// A number below 100 in two digits, with a leading zero when needed.
pub open spec fn two_digits(n: nat) -> Seq<char> {
    if n < 10 { seq!['0'] + decimal(n) } else { decimal(n) }
}

/// `HH:MM`, or `HH:MM:SS` when seconds are shown.
pub open spec fn clock_text(t: ClockTime, show_seconds: bool) -> Seq<char> {
    two_digits(t.hour as nat) + seq![':'] + two_digits(t.minute as nat) + if show_seconds {
        seq![':'] + two_digits(t.second as nat)
    } else {
        Seq::empty()
    }
}

/// A duration: milliseconds below one second, otherwise hours, minutes and
/// seconds, leaving out leading zero units (for instance `450ms`, `3s`, `2m5s`, `1h0m7s`).
pub open spec fn duration_text(ms: nat) -> Seq<char> {
    if ms < 1000 {
        decimal(ms) + seq!['m', 's']
    } else {
        let secs = ms / 1000;
        let h = secs / 3600;
        let m = (secs % 3600) / 60;
        let s = secs % 60;
        (if h > 0 { decimal(h) + seq!['h'] } else { Seq::empty() }) + (if h > 0 || m > 0 {
            decimal(m) + seq!['m']
        } else {
            Seq::empty()
        }) + decimal(s) + seq!['s']
    }
}

fn two_digit_chars(n: u8) -> (r: Vec<char>)
    ensures
        r@ == two_digits(n as nat),
{
    let mut out: Vec<char> = Vec::new();
    if n < 10 {
        out.push('0');
    }
    let digits = decimal_chars(n as u64);
    push_all(&mut out, &digits);
    proof {
        assert(out@ =~= two_digits(n as nat));
    }
    out
}

/// `HH:MM`, or `HH:MM:SS` when seconds are shown (see [`clock_text`]).
pub fn format_clock(t: ClockTime, show_seconds: bool) -> (r: String)
    ensures
        r@ == clock_text(t, show_seconds),
{
    let mut out = two_digit_chars(t.hour);
    out.push(':');
    let minute = two_digit_chars(t.minute);
    push_all(&mut out, &minute);
    if show_seconds {
        out.push(':');
        let second = two_digit_chars(t.second);
        push_all(&mut out, &second);
    }
    proof {
        assert(out@ =~= clock_text(t, show_seconds));
    }
    string_of(&out)
}

/// A duration in milliseconds as text (see [`duration_text`]).
pub fn format_duration(ms: u64) -> (r: String)
    ensures
        r@ == duration_text(ms as nat),
{
    let mut out: Vec<char> = Vec::new();
    if ms < 1000 {
        out = decimal_chars(ms);
        out.push('m');
        out.push('s');
        proof {
            assert(out@ =~= duration_text(ms as nat));
        }
        return string_of(&out);
    }
    let secs = ms / 1000;
    let h = secs / 3600;
    let m = (secs % 3600) / 60;
    let s = secs % 60;
    if h > 0 {
        push_all(&mut out, &decimal_chars(h));
        out.push('h');
    }
    if h > 0 || m > 0 {
        push_all(&mut out, &decimal_chars(m));
        out.push('m');
    }
    push_all(&mut out, &decimal_chars(s));
    out.push('s');
    proof {
        assert(out@ =~= duration_text(ms as nat));
    }
    string_of(&out)
}

impl StatusModule {
    /// Creates a new `StatusModule`.
    pub fn new() -> (m: Self)
        ensures
            m == StatusModule,
    {
        StatusModule
    }

    /// The exit status in decimal when it is not zero.
    pub fn render(&self, ctx: &RenderContext) -> (r: Option<ModuleOutput>)
        ensures
            r is Some <==> ctx.last_exit_code != 0,
            r matches Some(o) ==> o.content@ == signed_decimal(ctx.last_exit_code as int),
    {
        if ctx.last_exit_code == 0 {
            return None;
        }
        let text = signed_decimal_chars(ctx.last_exit_code as i64);
        Some(ModuleOutput { content: string_of(&text) })
    }
}

impl CmdDurationModule {
    /// A module that shows durations of at least `threshold_ms` milliseconds.
    pub fn with_threshold(threshold_ms: u64) -> (m: Self)
        ensures
            m.threshold_ms == threshold_ms,
    {
        CmdDurationModule { threshold_ms }
    }

    /// The duration of the last command, when it is known and reaches the threshold.
    pub fn render(&self, ctx: &RenderContext) -> (r: Option<ModuleOutput>)
        ensures
            r is Some <==> (ctx.duration_ms matches Some(d) && d >= self.threshold_ms),
            r matches Some(o) ==> o.content@ == duration_text(ctx.duration_ms->0 as nat),
    {
        match ctx.duration_ms {
            Some(d) => if d >= self.threshold_ms {
                Some(ModuleOutput { content: format_duration(d) })
            } else {
                None
            },
            None => None,
        }
    }
}

impl TimeModule {
    /// A clock module, with or without seconds.
    pub fn with_show_seconds(show_seconds: bool) -> (m: Self)
        ensures
            m.show_seconds == show_seconds,
    {
        TimeModule { show_seconds }
    }

    /// The time of day `now`.
    pub fn render(&self, now: ClockTime) -> (r: Option<ModuleOutput>)
        ensures
            r matches Some(o) && o.content@ == clock_text(now, self.show_seconds),
    {
        Some(ModuleOutput { content: format_clock(now, self.show_seconds) })
    }
}

fn owned(s: &str) -> (r: String)
    ensures
        r@ == s@,
{
    s.to_owned()
}

/// The built-in presets for toolchain modules.
pub fn preset_module_defs() -> (defs: Vec<ModuleDef>)
    ensures
        defs@.len() == 2,
        defs@[0].name@ == "rust"@,
        defs@[0].icon matches Some(i) && i@ == "\u{e7a8}"@,
        defs@[0].style == (StyleConfig { fg: Some(Color::Red), bold: Some(true), dimmed: None }),
        defs@[1].name@ == "node"@,
        defs@[1].icon matches Some(i) && i@ == "\u{e718}"@,
        defs@[1].style == (StyleConfig { fg: Some(Color::Green), bold: Some(true), dimmed: None }),
{
    let mut defs: Vec<ModuleDef> = Vec::new();
    defs.push(ModuleDef {
        name: owned("rust"),
        icon: Some(owned("\u{e7a8}")),
        style: StyleConfig { fg: Some(Color::Red), bold: Some(true), dimmed: None },
    });
    defs.push(ModuleDef {
        name: owned("node"),
        icon: Some(owned("\u{e718}")),
        style: StyleConfig { fg: Some(Color::Green), bold: Some(true), dimmed: None },
    });
    defs
}

} // verus!
