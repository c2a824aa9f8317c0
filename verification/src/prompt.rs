//! Composition of the prompt from the outputs of the fast modules (computed
//! for every prompt) and the slow modules (git and custom modules, which may
//! arrive later).
use vstd::prelude::*;

use crate::config::{
    character_segment_spec, custom_segment_spec, directory_segment_spec, duration_segment_spec,
    git_segment_spec, mode_segment_spec, span_m, time_segment_spec, Config, CustomModuleInfo,
    ModuleSlot, PromptLayout, PromptSide,
};
use crate::directory::{
    compact_spec, nearest_root_spec, search_trace, DirectoryModule, RenderContext,
};
use crate::modules::{
    clock_text, duration_text, ClockTime, CmdDurationModule, StatusModule, TimeModule,
};
use crate::path::components_spec;
use crate::render::{
    append_right_aligned, append_right_spec, compose_line_spec, compose_segment_line,
    compose_segments_with_widths, line_text, render_all, seg_views, LineTexts, PromptLines,
    PromptLinesModel,
};
use crate::segment::{render_segment_spec, Segment, SegmentModel, Span};
use crate::style::{plain_style, Color, ColorMap, Style};
use crate::text::{
    chars_of, display_width_of, join_nonempty, join_parts, join_sep, join_with, push_all,
    signed_decimal, truncate_chars, truncate_spec, width_of,
};

verus! {

/// ASCII Record Separator: delimits key from value in `char_meta` entries.
pub const RS: char = '\x1e';

/// ASCII Unit Separator: delimits entries in `char_meta`.
pub const US: char = '\x1f';

/// Columns kept free to the right of a right-aligned first-line prompt.
pub const RIGHT_PROMPT_INDENT: usize = 1;

/// The outputs of the modules computed for every prompt.
#[derive(Debug, Clone)]
pub struct FastOutputs {
    pub directory: Option<String>,
    pub cmd_duration: Option<String>,
    pub time: Option<String>,
    pub status: Option<String>,
    pub character: Option<String>,
    pub last_exit_code: i32,
    pub read_only: bool,
    pub custom_modules: Vec<CustomModuleInfo>,
}

/// The outputs of the modules that may take long to compute.
#[derive(Debug, Clone, PartialEq, Eq)]
pub struct SlowOutput {
    pub git: Option<String>,
    pub custom_modules: Vec<CustomModuleInfo>,
}

// ---------------------------------------------------------------------------
// Specification of the prompt
// ---------------------------------------------------------------------------

/// The slow output behind an optional reference.
pub open spec fn slow_model(slow: Option<&SlowOutput>) -> Option<SlowOutput> {
    match slow {
        Some(s) => Some(*s),
        None => None,
    }
}

/// The custom modules of the slow output, if there is one.
pub open spec fn slow_modules(slow: Option<SlowOutput>) -> Seq<CustomModuleInfo> {
    match slow {
        Some(s) => s.custom_modules@,
        None => Seq::empty(),
    }
}

/// The git text of the slow output, if there is one.
pub open spec fn slow_git(slow: Option<SlowOutput>) -> Option<String> {
    match slow {
        Some(s) => s.git,
        None => None,
    }
}

/// The segment as a list of zero or one segments.
pub open spec fn opt_seq(s: Option<SegmentModel>) -> Seq<SegmentModel> {
    match s {
        Some(x) => seq![x],
        None => Seq::empty(),
    }
}

/// The segments of the custom modules shown in `slot`, in order.
pub open spec fn custom_segs(mods: Seq<CustomModuleInfo>, slot: ModuleSlot, cs: Style) -> Seq<SegmentModel>
    decreases mods.len(),
{
    if mods.len() == 0 {
        Seq::empty()
    } else if mods.last().slot == slot {
        custom_segs(mods.drop_last(), slot, cs).push(custom_segment_spec(mods.last(), cs))
    } else {
        custom_segs(mods.drop_last(), slot, cs)
    }
}

/// The custom modules of both outputs shown in `slot`: fast ones first.
pub open spec fn all_custom_segs(fast: FastOutputs, slow: Option<SlowOutput>, slot: ModuleSlot, cs: Style) -> Seq<SegmentModel> {
    custom_segs(fast.custom_modules@ + slow_modules(slow), slot, cs)
}

/// The directory segment, when the directory was computed.
pub open spec fn directory_seg(fast: FastOutputs, config: Config) -> Option<SegmentModel> {
    match fast.directory {
        Some(d) => Some(directory_segment_spec(config.directory, d@, fast.read_only)),
        None => None,
    }
}

/// The command-duration segment, when a duration is shown.
pub open spec fn duration_seg(fast: FastOutputs, config: Config, cs: Style) -> Option<SegmentModel> {
    match fast.cmd_duration {
        Some(d) => Some(duration_segment_spec(config.cmd_duration, d@, cs)),
        None => None,
    }
}

/// The clock segment when the clock is configured for `slot` and `side`.
pub open spec fn time_seg_at(fast: FastOutputs, config: Config, cs: Style, slot: ModuleSlot, side: PromptSide) -> Seq<SegmentModel> {
    match fast.time {
        Some(t) => if config.time.slot == slot && config.time.side == side {
            seq![time_segment_spec(config.time, t@, cs)]
        } else {
            Seq::empty()
        },
        None => Seq::empty(),
    }
}

/// Bold red.
pub open spec fn status_style() -> Style {
    Style { fg: Some(Color::Red), bold: true, dimmed: false }
}

/// The exit status shown in brackets, bold red.
pub open spec fn status_segment_spec(status: Seq<char>) -> SegmentModel {
    SegmentModel {
        connector: None,
        icon: None,
        body: seq![span_m(seq!['['] + status + seq![']'], status_style())],
    }
}

/// The exit-status segment, when the status is shown.
pub open spec fn status_seg(fast: FastOutputs) -> Option<SegmentModel> {
    match fast.status {
        Some(s) => Some(status_segment_spec(s@)),
        None => None,
    }
}

/// The prompt character segment (the vi insert-mode character), when enabled.
pub open spec fn character_seg(fast: FastOutputs, config: Config) -> Option<SegmentModel> {
    match fast.character {
        Some(g) => Some(character_segment_spec(config.character, g@, fast.last_exit_code)),
        None => None,
    }
}

/// `a - b`, or 0 when `b > a`.
pub open spec fn sat_sub(a: nat, b: nat) -> nat {
    if a >= b { (a - b) as nat } else { 0 }
}

/// A `char_meta` entry: the key, the record separator, the value.
pub open spec fn entry(key: Seq<char>, value: Seq<char>) -> Seq<char> {
    key + seq![RS] + value
}

/// The `char_meta` entries: the non-empty right prompts, then, when there is
/// a character, its rendering in insert mode and in command mode.
pub open spec fn meta_entries(
    right1: Seq<char>,
    right2: Seq<char>,
    viins: Option<Seq<char>>,
    vicmd: Seq<char>,
) -> Seq<Seq<char>> {
    (if right1.len() > 0 { seq![entry("right1"@, right1)] } else { Seq::empty() }) + (if right2.len() > 0 {
        seq![entry("right2"@, right2)]
    } else {
        Seq::empty()
    }) + match viins {
        Some(v) => seq![entry("viins"@, v), entry("vicmd"@, vicmd)],
        None => Seq::empty(),
    }
}

/// The `char_meta` text: its entries joined by the unit separator.
pub open spec fn prompt_meta_spec(
    right1: Seq<char>,
    right2: Seq<char>,
    viins: Option<SegmentModel>,
    config: Config,
    exit_code: i32,
) -> Seq<char> {
    let map = config.color_map;
    let viins_text = match viins {
        Some(v) => Some(render_segment_spec(v, map)),
        None => None,
    };
    let vicmd = render_segment_spec(mode_segment_spec(config.character, config.character.vicmd, exit_code), map);
    join_with(meta_entries(right1, right2, viins_text, vicmd), US)
}

/// The git segment of the two-line layout, when there is a branch.
pub open spec fn git_segs(slow: Option<SlowOutput>, config: Config, cs: Style) -> Seq<SegmentModel> {
    match slow_git(slow) {
        Some(g) => seq![git_segment_spec(config.git, g@, cs)],
        None => Seq::empty(),
    }
}

/// Segments of the information line of the two-line layout, before the clock.
pub open spec fn two_line_line1_base(fast: FastOutputs, slow: Option<SlowOutput>, config: Config, cs: Style) -> Seq<SegmentModel> {
    opt_seq(directory_seg(fast, config)) + git_segs(slow, config, cs) + all_custom_segs(fast, slow, ModuleSlot::Line1, cs)
        + opt_seq(duration_seg(fast, config, cs))
}

/// Segments of the information line of the two-line layout.
pub open spec fn two_line_line1(fast: FastOutputs, slow: Option<SlowOutput>, config: Config) -> Seq<SegmentModel> {
    let cs = crate::style::resolve_spec(config.connectors.style, plain_style());
    two_line_line1_base(fast, slow, config, cs) + time_seg_at(fast, config, cs, ModuleSlot::Line1, PromptSide::Left)
}

/// Segments of the input line of the two-line layout.
pub open spec fn two_line_line2(fast: FastOutputs, slow: Option<SlowOutput>, config: Config) -> Seq<SegmentModel> {
    let cs = crate::style::resolve_spec(config.connectors.style, plain_style());
    all_custom_segs(fast, slow, ModuleSlot::Line2, cs) + time_seg_at(fast, config, cs, ModuleSlot::Line2, PromptSide::Left)
        + opt_seq(status_seg(fast)) + opt_seq(character_seg(fast, config))
}

/// The two-line prompt. The first line has `cols - line1_prefix_cols` columns;
/// a right-hand first-line prompt is drawn into it, ending one column early.
pub open spec fn two_line_spec(
    fast: FastOutputs,
    slow: Option<SlowOutput>,
    cols: nat,
    line1_prefix_cols: nat,
    config: Config,
) -> PromptLinesModel {
    let cs = crate::style::resolve_spec(config.connectors.style, plain_style());
    let map = config.color_map;
    let line1_cols = sat_sub(cols, line1_prefix_cols);
    let right1 = compose_line_spec(time_seg_at(fast, config, cs, ModuleSlot::Line1, PromptSide::Right), line1_cols, map);
    let render_cols = if right1.len() == 0 { line1_cols } else { sat_sub(line1_cols, 1) };
    let left1 = compose_line_spec(two_line_line1(fast, slow, config), render_cols, map);
    let right2 = compose_line_spec(time_seg_at(fast, config, cs, ModuleSlot::Line2, PromptSide::Right), cols, map);
    PromptLinesModel {
        left1: append_right_spec(left1, right1, line1_cols, 1),
        left2: compose_line_spec(two_line_line2(fast, slow, config), cols, map),
        right1: Seq::empty(),
        right2,
        char_meta: prompt_meta_spec(Seq::empty(), right2, character_seg(fast, config), config, fast.last_exit_code),
    }
}

/// The git branch, fish style: in parentheses, unstyled.
pub open spec fn fish_git_spec(git: Seq<char>) -> SegmentModel {
    SegmentModel {
        connector: None,
        icon: None,
        body: seq![span_m(seq!['('] + git + seq![')'], plain_style())],
    }
}

/// The one-line text with all core segments, the first `k` optional ones and all tail ones.
pub open spec fn fish_candidate(
    core: Seq<SegmentModel>,
    optional: Seq<SegmentModel>,
    tail: Seq<SegmentModel>,
    k: nat,
    map: ColorMap,
) -> Seq<char> {
    line_text(core + optional.take(k as int) + tail, map)
}

/// The core cut short so that the whole tail fits after it.
pub open spec fn preserved_tail_spec(
    core: Seq<SegmentModel>,
    tail: Seq<SegmentModel>,
    cols: nat,
    map: ColorMap,
) -> Seq<char> {
    let core_joined = line_text(core, map);
    let tail_joined = line_text(tail, map);
    if tail_joined.len() == 0 {
        truncate_spec(core_joined, cols)
    } else if display_width_of(tail_joined) >= cols {
        truncate_spec(tail_joined, cols)
    } else {
        let sep: nat = if core_joined.len() > 0 { 1 } else { 0 };
        let core_fit = truncate_spec(core_joined, sat_sub(cols, display_width_of(tail_joined) + sep));
        if core_fit.len() == 0 {
            tail_joined
        } else {
            core_fit + seq![' '] + tail_joined
        }
    }
}

/// The candidate with the most optional segments that fits, trying `k` first
/// and then fewer; the preserved-tail line when none fits.
pub open spec fn fish_search(
    core: Seq<SegmentModel>,
    optional: Seq<SegmentModel>,
    tail: Seq<SegmentModel>,
    cols: nat,
    map: ColorMap,
    k: nat,
) -> Seq<char>
    decreases k,
{
    if display_width_of(fish_candidate(core, optional, tail, k, map)) <= cols {
        fish_candidate(core, optional, tail, k, map)
    } else if k == 0 {
        preserved_tail_spec(core, tail, cols, map)
    } else {
        fish_search(core, optional, tail, cols, map, (k - 1) as nat)
    }
}

/// The fish-style line: empty for zero columns, else the widest candidate that fits.
pub open spec fn fish_line_spec(
    core: Seq<SegmentModel>,
    optional: Seq<SegmentModel>,
    tail: Seq<SegmentModel>,
    cols: nat,
    map: ColorMap,
) -> Seq<char> {
    if cols == 0 {
        Seq::empty()
    } else {
        fish_search(core, optional, tail, cols, map, optional.len())
    }
}

/// The segments the fish line keeps longest after the tail: directory and branch.
pub open spec fn fish_core(fast: FastOutputs, slow: Option<SlowOutput>, config: Config) -> Seq<SegmentModel> {
    opt_seq(directory_seg(fast, config)) + match slow_git(slow) {
        Some(g) => seq![fish_git_spec(g@)],
        None => Seq::empty(),
    }
}

/// The segments the fish line gives up first: first-line custom modules and duration.
pub open spec fn fish_optional(fast: FastOutputs, slow: Option<SlowOutput>, config: Config) -> Seq<SegmentModel> {
    let cs = crate::style::resolve_spec(config.connectors.style, plain_style());
    all_custom_segs(fast, slow, ModuleSlot::Line1, cs) + opt_seq(duration_seg(fast, config, cs))
}

/// The segments the fish line always keeps when they fit: status and character.
pub open spec fn fish_tail(fast: FastOutputs, config: Config) -> Seq<SegmentModel> {
    opt_seq(status_seg(fast)) + opt_seq(character_seg(fast, config))
}

/// The one-line fish-style prompt.
pub open spec fn fish_spec(fast: FastOutputs, slow: Option<SlowOutput>, cols: nat, config: Config) -> PromptLinesModel {
    PromptLinesModel {
        left1: fish_line_spec(fish_core(fast, slow, config), fish_optional(fast, slow, config), fish_tail(fast, config), cols, config.color_map),
        left2: Seq::empty(),
        right1: Seq::empty(),
        right2: Seq::empty(),
        char_meta: match character_seg(fast, config) {
            Some(v) => prompt_meta_spec(Seq::empty(), Seq::empty(), Some(v), config, fast.last_exit_code),
            None => Seq::empty(),
        },
    }
}

/// The prompt in the configured layout.
pub open spec fn prompt_spec(
    fast: FastOutputs,
    slow: Option<SlowOutput>,
    cols: nat,
    line1_prefix_cols: nat,
    config: Config,
) -> PromptLinesModel {
    match config.layout {
        PromptLayout::TwoLine => two_line_spec(fast, slow, cols, line1_prefix_cols, config),
        PromptLayout::Fish => fish_spec(fast, slow, cols, config),
    }
}

// ---------------------------------------------------------------------------
// Composition
// ---------------------------------------------------------------------------

/// Each segment rendered (see [`render_all`]).
pub fn render_prompt_segments(segments: &Vec<Segment>, map: &ColorMap) -> (r: Vec<Vec<char>>)
    ensures
        r@.map_values(|p: Vec<char>| p@) == render_all(seg_views(segments@), *map),
{
    let mut out: Vec<Vec<char>> = Vec::new();
    let mut i: usize = 0;
    while i < segments.len()
        invariant
            i <= segments@.len(),
            out@.len() == i,
            forall|j: int| 0 <= j < i ==> #[trigger] out@[j]@ == render_segment_spec(segments@[j]@, *map),
        decreases segments@.len() - i,
    {
        out.push(segments[i].render(map));
        i = i + 1;
    }
    proof {
        assert(out@.map_values(|p: Vec<char>| p@) =~= render_all(seg_views(segments@), *map));
    }
    out
}

/// Joins the non-empty parts with single spaces.
pub fn join_prompt_parts(parts: &Vec<Vec<char>>) -> (r: Vec<char>)
    ensures
        r@ == join_nonempty(parts@.map_values(|p: Vec<char>| p@)),
{
    join_parts(parts)
}

/// The exit status shown in brackets, bold red.
pub fn status_segment(status: &str) -> (seg: Segment)
    ensures
        seg@ == status_segment_spec(status@),
{
    let mut text: Vec<char> = Vec::new();
    text.push('[');
    push_all(&mut text, &chars_of(status));
    text.push(']');
    proof {
        assert(text@ =~= seq!['['] + status@ + seq![']']);
    }
    let mut body: Vec<Span> = Vec::new();
    body.push(Span::new(text, Style::new().fg(Color::Red).bold()));
    proof {
        assert(body@.map_values(|s: Span| s@) =~= seq![span_m(seq!['['] + status@ + seq![']'], status_style())]);
    }
    Segment { connector: None, icon: None, body }
}

/// The prompt character segment, when the character is enabled.
pub fn character_segment(fast: &FastOutputs, config: &Config) -> (seg: Option<Segment>)
    ensures
        match seg {
            Some(s) => character_seg(*fast, *config) == Some(s@),
            None => character_seg(*fast, *config) is None,
        },
{
    match &fast.character {
        Some(glyph) => Some(config.character.to_segment(glyph.as_str(), fast.last_exit_code)),
        None => None,
    }
}

proof fn lemma_seg_views_push(v: Seq<Segment>, s: Segment)
    ensures
        seg_views(v.push(s)) == seg_views(v).push(s@),
{
    assert(seg_views(v.push(s)) =~= seg_views(v).push(s@));
}

/// Appends to `line` the segments of the custom modules shown in `slot`,
/// fast modules first.
pub fn append_custom_modules(
    line: &mut Vec<Segment>,
    fast_modules: &Vec<CustomModuleInfo>,
    slow_modules: Option<&Vec<CustomModuleInfo>>,
    slot: ModuleSlot,
    connector_style: Style,
)
    ensures
        seg_views(final(line)@) == seg_views(old(line)@) + custom_segs(
            fast_modules@ + match slow_modules {
                Some(m) => m@,
                None => Seq::empty(),
            },
            slot,
            connector_style,
        ),
{
    let ghost start = seg_views(line@);
    let mut i: usize = 0;
    while i < fast_modules.len()
        invariant
            i <= fast_modules@.len(),
            seg_views(line@) == start + custom_segs(fast_modules@.take(i as int), slot, connector_style),
        decreases fast_modules@.len() - i,
    {
        let module = &fast_modules[i];
        proof {
            assert(fast_modules@.take(i + 1).drop_last() =~= fast_modules@.take(i as int));
            assert(fast_modules@.take(i + 1).last() == *module);
        }
        if module.slot == slot {
            let seg = module.to_segment(connector_style);
            proof {
                lemma_seg_views_push(line@, seg);
            }
            line.push(seg);
            proof {
                assert(start + custom_segs(fast_modules@.take(i as int), slot, connector_style).push(seg@)
                    =~= (start + custom_segs(fast_modules@.take(i as int), slot, connector_style)).push(seg@));
            }
        }
        i = i + 1;
    }
    proof {
        assert(fast_modules@.take(i as int) =~= fast_modules@);
    }
    let empty: Vec<CustomModuleInfo> = Vec::new();
    let slow: &Vec<CustomModuleInfo> = match slow_modules {
        Some(m) => m,
        None => &empty,
    };
    let ghost all = fast_modules@ + slow@;
    let mut j: usize = 0;
    proof {
        assert(all.take(fast_modules@.len() as int) =~= fast_modules@);
    }
    while j < slow.len()
        invariant
            j <= slow@.len(),
            all == fast_modules@ + slow@,
            seg_views(line@) == start + custom_segs(all.take(fast_modules@.len() + j), slot, connector_style),
        decreases slow@.len() - j,
    {
        let module = &slow[j];
        let ghost n = fast_modules@.len() + j;
        proof {
            assert(all.take(n + 1).drop_last() =~= all.take(n));
            assert(all.take(n + 1).last() == *module);
        }
        if module.slot == slot {
            let seg = module.to_segment(connector_style);
            proof {
                lemma_seg_views_push(line@, seg);
            }
            line.push(seg);
            proof {
                assert(start + custom_segs(all.take(n), slot, connector_style).push(seg@)
                    =~= (start + custom_segs(all.take(n), slot, connector_style)).push(seg@));
            }
        }
        j = j + 1;
    }
    proof {
        assert(all.take(fast_modules@.len() + j) =~= all);
        assert(slow@ == match slow_modules {
            Some(m) => m@,
            None => Seq::<CustomModuleInfo>::empty(),
        });
    }
}

fn key_value(key: &str, value: &Vec<char>) -> (r: Vec<char>)
    ensures
        r@ == entry(key@, value@),
{
    let mut out = chars_of(key);
    out.push(RS);
    push_all(&mut out, value);
    out
}

/// Fills `char_meta` with the right-hand prompts and, when there is a
/// character, its insert-mode and command-mode renderings (see [`prompt_meta_spec`]).
pub fn apply_prompt_meta(result: &mut LineTexts, viins: Option<&Segment>, config: &Config, exit_code: i32)
    ensures
        final(result)@ == (PromptLinesModel {
            char_meta: prompt_meta_spec(
                old(result)@.right1,
                old(result)@.right2,
                match viins {
                    Some(v) => Some(v@),
                    None => None,
                },
                *config,
                exit_code,
            ),
            ..old(result)@
        }),
{
    let map = config.color_map;
    let mut entries: Vec<Vec<char>> = Vec::new();
    if result.right1.len() > 0 {
        entries.push(key_value("right1", &result.right1));
    }
    if result.right2.len() > 0 {
        entries.push(key_value("right2", &result.right2));
    }
    let ghost vicmd = render_segment_spec(
        mode_segment_spec(config.character, config.character.vicmd, exit_code),
        map,
    );
    match viins {
        Some(v) => {
            let vicmd_seg = config.character.mode_segment(&config.character.vicmd, exit_code);
            let viins_styled = v.render(&map);
            let vicmd_styled = vicmd_seg.render(&map);
            entries.push(key_value("viins", &viins_styled));
            entries.push(key_value("vicmd", &vicmd_styled));
        },
        None => {},
    }
    proof {
        let viins_text = match viins {
            Some(v) => Some(render_segment_spec(v@, map)),
            None => None,
        };
        assert(entries@.map_values(|p: Vec<char>| p@) =~= meta_entries(
            result.right1@,
            result.right2@,
            viins_text,
            vicmd,
        ));
    }
    result.char_meta = join_sep(&entries, US);
}

fn sat_sub_usize(a: usize, b: usize) -> (r: usize)
    ensures
        r == sat_sub(a as nat, b as nat),
{
    if a >= b { a - b } else { 0 }
}

fn push_segment(line: &mut Vec<Segment>, seg: Segment)
    ensures
        seg_views(final(line)@) == seg_views(old(line)@).push(seg@),
{
    proof {
        lemma_seg_views_push(line@, seg);
    }
    line.push(seg);
}

fn slow_custom_modules(slow: Option<&SlowOutput>) -> (r: Option<&Vec<CustomModuleInfo>>)
    ensures
        match r {
            Some(m) => m@,
            None => Seq::empty(),
        } == slow_modules(slow_model(slow)),
{
    match slow {
        Some(output) => Some(&output.custom_modules),
        None => None,
    }
}

fn two_line_line1_segments(fast: &FastOutputs, slow: Option<&SlowOutput>, config: &Config, connector_style: Style) -> (line1: Vec<Segment>)
    ensures
        seg_views(line1@) == two_line_line1_base(*fast, slow_model(slow), *config, connector_style),
{
    let ghost sm = slow_model(slow);
    let mut line1: Vec<Segment> = Vec::new();
    if let Some(dir) = &fast.directory {
        push_segment(&mut line1, config.directory.to_segment(dir.as_str(), fast.read_only));
    }
    let ghost after_dir = seg_views(line1@);
    assert(after_dir =~= opt_seq(directory_seg(*fast, *config)));
    match slow {
        Some(output) => match &output.git {
            Some(git) => push_segment(&mut line1, config.git.to_segment(git.as_str(), connector_style)),
            None => {},
        },
        None => {},
    }
    assert(seg_views(line1@) =~= after_dir + git_segs(sm, *config, connector_style));
    let ghost after_git = seg_views(line1@);
    let slow_mods = slow_custom_modules(slow);
    append_custom_modules(&mut line1, &fast.custom_modules, slow_mods, ModuleSlot::Line1, connector_style);
    let ghost after_customs = seg_views(line1@);
    assert(after_customs == after_git + all_custom_segs(*fast, sm, ModuleSlot::Line1, connector_style));
    if let Some(duration) = &fast.cmd_duration {
        push_segment(&mut line1, config.cmd_duration.to_segment(duration.as_str(), connector_style));
    }
    assert(seg_views(line1@) =~= after_customs + opt_seq(duration_seg(*fast, *config, connector_style)));
    line1
}

/// The segment lists of the two-line prompt: left and right of each line,
/// and the character segment.
fn two_line_segments(fast: &FastOutputs, slow: Option<&SlowOutput>, config: &Config) -> (r: (
    Vec<Segment>,
    Vec<Segment>,
    Vec<Segment>,
    Vec<Segment>,
    Option<Segment>,
))
    ensures
        ({
            let cs = crate::style::resolve_spec(config.connectors.style, plain_style());
            &&& seg_views(r.0@) == two_line_line1(*fast, slow_model(slow), *config)
            &&& seg_views(r.1@) == two_line_line2(*fast, slow_model(slow), *config)
            &&& seg_views(r.2@) == time_seg_at(*fast, *config, cs, ModuleSlot::Line1, PromptSide::Right)
            &&& seg_views(r.3@) == time_seg_at(*fast, *config, cs, ModuleSlot::Line2, PromptSide::Right)
            &&& match r.4 {
                Some(s) => character_seg(*fast, *config) == Some(s@),
                None => character_seg(*fast, *config) is None,
            }
        }),
{
    let ghost sm = slow_model(slow);
    let connector_style = config.connectors.prompt_style();
    let mut line1 = two_line_line1_segments(fast, slow, config, connector_style);
    let ghost line1_before_time = seg_views(line1@);
    let mut line2: Vec<Segment> = Vec::new();
    let mut right1: Vec<Segment> = Vec::new();
    let mut right2: Vec<Segment> = Vec::new();

    let slow_mods = slow_custom_modules(slow);
    append_custom_modules(&mut line2, &fast.custom_modules, slow_mods, ModuleSlot::Line2, connector_style);
    let ghost line2_customs = seg_views(line2@);
    assert(line2_customs =~= all_custom_segs(*fast, sm, ModuleSlot::Line2, connector_style));

    if let Some(time) = &fast.time {
        let segment = config.time.to_segment(time.as_str(), connector_style);
        match (config.time.slot, config.time.side) {
            (ModuleSlot::Line1, PromptSide::Left) => push_segment(&mut line1, segment),
            (ModuleSlot::Line1, PromptSide::Right) => push_segment(&mut right1, segment),
            (ModuleSlot::Line2, PromptSide::Left) => push_segment(&mut line2, segment),
            (ModuleSlot::Line2, PromptSide::Right) => push_segment(&mut right2, segment),
        }
    }
    assert(seg_views(line1@) =~= line1_before_time + time_seg_at(*fast, *config, connector_style, ModuleSlot::Line1, PromptSide::Left));
    assert(seg_views(right1@) =~= time_seg_at(*fast, *config, connector_style, ModuleSlot::Line1, PromptSide::Right));
    assert(seg_views(right2@) =~= time_seg_at(*fast, *config, connector_style, ModuleSlot::Line2, PromptSide::Right));
    let ghost line2_before_status = seg_views(line2@);
    assert(line2_before_status =~= line2_customs + time_seg_at(*fast, *config, connector_style, ModuleSlot::Line2, PromptSide::Left));

    if let Some(status) = &fast.status {
        push_segment(&mut line2, status_segment(status.as_str()));
    }
    let ghost line2_before_char = seg_views(line2@);
    assert(line2_before_char =~= line2_before_status + opt_seq(status_seg(*fast)));

    let viins_seg = character_segment(fast, config);
    if let Some(seg) = &viins_seg {
        push_segment(&mut line2, seg.duplicate());
    }
    assert(seg_views(line2@) =~= line2_before_char + opt_seq(character_seg(*fast, *config)));
    (line1, line2, right1, right2, viins_seg)
}

/// The two-line prompt (see [`two_line_spec`]).
pub fn compose_two_line_prompt(
    fast: &FastOutputs,
    slow: Option<&SlowOutput>,
    cols: usize,
    line1_prefix_cols: usize,
    config: &Config,
) -> (r: PromptLines)
    ensures
        r@ == two_line_spec(*fast, slow_model(slow), cols as nat, line1_prefix_cols as nat, *config),
{
    let map = config.color_map;
    let (line1, line2, right1, right2, viins_seg) = two_line_segments(fast, slow, config);

    let line1_cols = sat_sub_usize(cols, line1_prefix_cols);
    let right1_rendered = compose_segment_line(&right1, line1_cols, &map);
    let line1_render_cols = if right1_rendered.len() == 0 {
        line1_cols
    } else {
        sat_sub_usize(line1_cols, RIGHT_PROMPT_INDENT)
    };

    let mut result = compose_segments_with_widths(&line1, &line2, line1_render_cols, cols, &map);
    result.right1 = right1_rendered;
    result.right2 = compose_segment_line(&right2, cols, &map);
    append_right_aligned(&mut result.left1, &result.right1, line1_cols, RIGHT_PROMPT_INDENT);
    result.right1.clear();

    match &viins_seg {
        Some(viins) => apply_prompt_meta(&mut result, Some(viins), config, fast.last_exit_code),
        None => apply_prompt_meta(&mut result, None, config, fast.last_exit_code),
    }
    result.into_lines()
}

fn copy_chars(v: &Vec<char>) -> (r: Vec<char>)
    ensures
        r@ == v@,
{
    let mut out: Vec<char> = Vec::new();
    push_all(&mut out, v);
    out
}

fn push_copies(dst: &mut Vec<Vec<char>>, src: &Vec<Vec<char>>, count: usize)
    requires
        count <= src@.len(),
    ensures
        final(dst)@.map_values(|p: Vec<char>| p@) == old(dst)@.map_values(|p: Vec<char>| p@)
            + src@.map_values(|p: Vec<char>| p@).take(count as int),
{
    let ghost start = dst@.map_values(|p: Vec<char>| p@);
    let mut i: usize = 0;
    while i < count
        invariant
            i <= count <= src@.len(),
            dst@.map_values(|p: Vec<char>| p@) == start + src@.map_values(|p: Vec<char>| p@).take(i as int),
        decreases count - i,
    {
        let ghost before = dst@;
        dst.push(copy_chars(&src[i]));
        i = i + 1;
        proof {
            assert(dst@.map_values(|p: Vec<char>| p@) =~= before.map_values(|p: Vec<char>| p@).push(src@[i - 1]@));
            assert(src@.map_values(|p: Vec<char>| p@).take(i as int) =~= src@.map_values(|p: Vec<char>| p@).take(
                (i - 1) as int,
            ).push(src@[i - 1]@));
        }
    }
}

proof fn lemma_render_all_concat(a: Seq<SegmentModel>, b: Seq<SegmentModel>, map: ColorMap)
    ensures
        render_all(a + b, map) == render_all(a, map) + render_all(b, map),
{
    assert(render_all(a + b, map) =~= render_all(a, map) + render_all(b, map));
}

proof fn lemma_render_all_take(a: Seq<SegmentModel>, k: int, map: ColorMap)
    requires
        0 <= k <= a.len(),
    ensures
        render_all(a.take(k), map) == render_all(a, map).take(k),
{
    assert(render_all(a.take(k), map) =~= render_all(a, map).take(k));
}

/// The widest fish-style line that fits in `cols` columns: optional segments
/// are dropped from the end first; when even the core and tail do not fit,
/// the core is cut short to keep the tail (see [`fish_line_spec`]).
pub fn compose_fish_line(
    core: &Vec<Segment>,
    optional: &Vec<Segment>,
    tail: &Vec<Segment>,
    cols: usize,
    map: &ColorMap,
) -> (r: Vec<char>)
    ensures
        r@ == fish_line_spec(seg_views(core@), seg_views(optional@), seg_views(tail@), cols as nat, *map),
        display_width_of(r@) <= cols,
{
    let ghost (c, o, t) = (seg_views(core@), seg_views(optional@), seg_views(tail@));
    if cols == 0 {
        return Vec::new();
    }
    let rendered_core = render_prompt_segments(core, map);
    let rendered_optional = render_prompt_segments(optional, map);
    let rendered_tail = render_prompt_segments(tail, map);
    assert(rendered_optional@.map_values(|p: Vec<char>| p@).len() == rendered_optional@.len());
    let mut optional_len = optional.len();
    loop
        invariant
            cols > 0,
            optional_len <= optional@.len(),
            c == seg_views(core@),
            o == seg_views(optional@),
            t == seg_views(tail@),
            rendered_core@.map_values(|p: Vec<char>| p@) == render_all(c, *map),
            rendered_optional@.map_values(|p: Vec<char>| p@) == render_all(o, *map),
            rendered_tail@.map_values(|p: Vec<char>| p@) == render_all(t, *map),
            rendered_optional@.len() == optional@.len(),
            fish_line_spec(c, o, t, cols as nat, *map) == fish_search(c, o, t, cols as nat, *map, optional_len as nat),
        ensures
            fish_line_spec(c, o, t, cols as nat, *map) == preserved_tail_spec(c, t, cols as nat, *map),
        decreases optional_len,
    {
        let mut parts: Vec<Vec<char>> = Vec::new();
        push_copies(&mut parts, &rendered_core, rendered_core.len());
        push_copies(&mut parts, &rendered_optional, optional_len);
        push_copies(&mut parts, &rendered_tail, rendered_tail.len());
        proof {
            let k = optional_len as int;
            lemma_render_all_take(o, k, *map);
            lemma_render_all_concat(c, o.take(k), *map);
            lemma_render_all_concat(c + o.take(k), t, *map);
            assert(render_all(c, *map).take(render_all(c, *map).len() as int) =~= render_all(c, *map));
            assert(render_all(t, *map).take(render_all(t, *map).len() as int) =~= render_all(t, *map));
            assert(parts@.map_values(|p: Vec<char>| p@) =~= render_all(c + o.take(k) + t, *map));
        }
        let joined = join_prompt_parts(&parts);
        if width_of(&joined) <= cols {
            return joined;
        }
        if optional_len == 0 {
            break;
        }
        optional_len = optional_len - 1;
    }
    let r = compose_with_preserved_tail(core, tail, cols, map);
    proof {
        lemma_preserved_tail_width(c, t, cols as nat, *map);
    }
    r
}

/// A preserved-tail line never exceeds `cols` columns.
pub proof fn lemma_preserved_tail_width(core: Seq<SegmentModel>, tail: Seq<SegmentModel>, cols: nat, map: ColorMap)
    ensures
        display_width_of(preserved_tail_spec(core, tail, cols, map)) <= cols,
{
    let core_joined = line_text(core, map);
    let tail_joined = line_text(tail, map);
    crate::text::lemma_truncate_width(core_joined, cols);
    crate::text::lemma_truncate_width(tail_joined, cols);
    if tail_joined.len() > 0 && display_width_of(tail_joined) < cols {
        let tw = display_width_of(tail_joined);
        let sep: nat = if core_joined.len() > 0 { 1 } else { 0 };
        let avail = sat_sub(cols, tw + sep);
        crate::text::lemma_truncate_width(core_joined, avail);
        let core_fit = truncate_spec(core_joined, avail);
        if core_fit.len() > 0 {
            if core_joined.len() == 0 {
                assert(core_joined =~= Seq::<char>::empty());
                assert(display_width_of(core_joined) == 0);
            }
            let rest = seq![' '] + tail_joined;
            assert(core_fit + seq![' '] + tail_joined =~= core_fit + rest);
            assert(rest[0] == ' ');
            crate::text::lemma_width_concat(core_fit, rest);
            crate::text::lemma_width_cons(' ', tail_joined);
        }
    }
}

/// The core cut short so that the whole tail fits after it (see [`preserved_tail_spec`]).
pub fn compose_with_preserved_tail(core: &Vec<Segment>, tail: &Vec<Segment>, cols: usize, map: &ColorMap) -> (r: Vec<char>)
    ensures
        r@ == preserved_tail_spec(seg_views(core@), seg_views(tail@), cols as nat, *map),
{
    let rendered_core = render_prompt_segments(core, map);
    let rendered_tail = render_prompt_segments(tail, map);
    let core_joined = join_prompt_parts(&rendered_core);
    let tail_joined = join_prompt_parts(&rendered_tail);

    if tail_joined.len() == 0 {
        return truncate_chars(&core_joined, cols);
    }
    let tail_width = width_of(&tail_joined);
    if tail_width >= cols {
        return truncate_chars(&tail_joined, cols);
    }
    let separator_width: usize = if core_joined.len() > 0 { 1 } else { 0 };
    let available_core_width = sat_sub_usize(cols, tail_width + separator_width);
    let core_fit = truncate_chars(&core_joined, available_core_width);

    if core_fit.len() == 0 {
        tail_joined
    } else {
        let mut out = core_fit;
        out.push(' ');
        push_all(&mut out, &tail_joined);
        out
    }
}

/// The one-line fish-style prompt (see [`fish_spec`]).
pub fn compose_fish_prompt(fast: &FastOutputs, slow: Option<&SlowOutput>, cols: usize, config: &Config) -> (r: PromptLines)
    ensures
        r@ == fish_spec(*fast, slow_model(slow), cols as nat, *config),
{
    let ghost sm = slow_model(slow);
    let connector_style = config.connectors.prompt_style();
    let map = config.color_map;
    let mut core: Vec<Segment> = Vec::new();

    if let Some(dir) = &fast.directory {
        push_segment(&mut core, config.directory.to_segment(dir.as_str(), fast.read_only));
    }
    let ghost after_dir = seg_views(core@);
    assert(after_dir =~= opt_seq(directory_seg(*fast, *config)));
    match slow {
        Some(output) => match &output.git {
            Some(git) => {
                let mut text: Vec<char> = Vec::new();
                text.push('(');
                push_all(&mut text, &chars_of(git.as_str()));
                text.push(')');
                assert(text@ =~= seq!['('] + git@ + seq![')']);
                let mut body: Vec<Span> = Vec::new();
                body.push(Span::new(text, Style::new()));
                assert(body@.map_values(|s: Span| s@) =~= fish_git_spec(git@).body);
                push_segment(&mut core, Segment { connector: None, icon: None, body });
            },
            None => {},
        },
        None => {},
    }
    assert(seg_views(core@) =~= fish_core(*fast, sm, *config));

    let slow_mods = slow_custom_modules(slow);
    let mut optional: Vec<Segment> = Vec::new();
    append_custom_modules(&mut optional, &fast.custom_modules, slow_mods, ModuleSlot::Line1, connector_style);
    let ghost opt_customs = seg_views(optional@);
    if let Some(duration) = &fast.cmd_duration {
        push_segment(&mut optional, config.cmd_duration.to_segment(duration.as_str(), connector_style));
    }
    assert(seg_views(optional@) =~= opt_customs + opt_seq(duration_seg(*fast, *config, connector_style)));
    assert(seg_views(optional@) =~= fish_optional(*fast, sm, *config));

    let mut tail: Vec<Segment> = Vec::new();
    if let Some(status) = &fast.status {
        push_segment(&mut tail, status_segment(status.as_str()));
    }
    let ghost tail_status = seg_views(tail@);
    let viins_seg = character_segment(fast, config);
    if let Some(seg) = &viins_seg {
        push_segment(&mut tail, seg.duplicate());
    }
    assert(seg_views(tail@) =~= tail_status + opt_seq(character_seg(*fast, *config)));
    assert(seg_views(tail@) =~= fish_tail(*fast, *config));

    let mut result = LineTexts {
        left1: compose_fish_line(&core, &optional, &tail, cols, &map),
        left2: Vec::new(),
        right1: Vec::new(),
        right2: Vec::new(),
        char_meta: Vec::new(),
    };

    if let Some(viins) = &viins_seg {
        apply_prompt_meta(&mut result, Some(viins), config, fast.last_exit_code);
    }
    result.into_lines()
}

/// The prompt in the configured layout, with the first line starting after
/// `line1_prefix_cols` columns already in use (see [`prompt_spec`]).
pub fn compose_prompt_with_prefix(
    fast: &FastOutputs,
    slow: Option<&SlowOutput>,
    cols: usize,
    line1_prefix_cols: usize,
    config: &Config,
) -> (r: PromptLines)
    ensures
        r@ == prompt_spec(*fast, slow_model(slow), cols as nat, line1_prefix_cols as nat, *config),
{
    match config.layout {
        PromptLayout::TwoLine => compose_two_line_prompt(fast, slow, cols, line1_prefix_cols, config),
        PromptLayout::Fish => compose_fish_prompt(fast, slow, cols, config),
    }
}

/// The prompt in the configured layout, with the whole first line available.
pub fn compose_prompt(fast: &FastOutputs, slow: Option<&SlowOutput>, cols: usize, config: &Config) -> (r: PromptLines)
    ensures
        r@ == prompt_spec(*fast, slow_model(slow), cols as nat, 0, *config),
{
    compose_prompt_with_prefix(fast, slow, cols, 0, config)
}

/// Computes the built-in fast modules and combines them with the custom
/// modules the caller detected. `now` is the wall-clock time the clock shows.
pub fn run_fast_modules(
    ctx: &RenderContext,
    config: &Config,
    read_only: bool,
    custom_modules: Vec<CustomModuleInfo>,
    now: ClockTime,
) -> (r: FastOutputs)
    ensures
        r.time is None <==> config.time.disabled,
        r.time matches Some(t) ==> t@ == clock_text(now, config.time.with_seconds),
        r.directory is None <==> config.directory.disabled,
        r.directory matches Some(d) ==> exists|answers: Seq<bool>, asked: Seq<Seq<char>>|
            #[trigger] search_trace(components_spec(ctx.cwd@), answers, asked) && d@ == compact_spec(
                components_spec(ctx.cwd@),
                components_spec(ctx.home_dir@),
                nearest_root_spec(components_spec(ctx.cwd@), answers),
            ),
        r.cmd_duration is Some <==> !config.cmd_duration.disabled && (ctx.duration_ms matches Some(d)
            && d >= config.cmd_duration.threshold_ms),
        r.cmd_duration matches Some(t) ==> t@ == duration_text(ctx.duration_ms->0 as nat),
        r.status is Some <==> ctx.last_exit_code != 0,
        r.status matches Some(t) ==> t@ == signed_decimal(ctx.last_exit_code as int),
        r.character is None <==> config.character.disabled,
        r.character matches Some(g) ==> g@ == config.character.glyph@,
        r.last_exit_code == ctx.last_exit_code,
        r.read_only == read_only,
        r.custom_modules == custom_modules,
{
    let time = if config.time.disabled {
        None
    } else {
        match TimeModule::with_show_seconds(config.time.show_seconds()).render(now) {
            Some(output) => Some(output.content),
            None => None,
        }
    };
    let directory = if config.directory.disabled {
        None
    } else {
        match DirectoryModule::new().render(ctx) {
            Some(output) => Some(output.content),
            None => None,
        }
    };
    let cmd_duration = if config.cmd_duration.disabled {
        None
    } else {
        match CmdDurationModule::with_threshold(config.cmd_duration.threshold_ms).render(ctx) {
            Some(output) => Some(output.content),
            None => None,
        }
    };
    let status = match StatusModule::new().render(ctx) {
        Some(output) => Some(output.content),
        None => None,
    };
    let character = if config.character.disabled {
        None
    } else {
        Some(config.character.glyph.clone())
    };
    FastOutputs {
        directory,
        cmd_duration,
        time,
        status,
        character,
        last_exit_code: ctx.last_exit_code,
        read_only,
        custom_modules,
    }
}

} // verus!
