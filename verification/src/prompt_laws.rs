//! Properties of the composed prompt that hold for every input.
use vstd::prelude::*;

use crate::config::{custom_segment_spec, CustomModuleInfo, ModuleSlot, PromptLayout};
use crate::prompt::{
    character_seg, custom_segs, entry, fish_candidate, fish_core, fish_line_spec, fish_optional,
    fish_search, fish_tail, lemma_preserved_tail_width, meta_entries, preserved_tail_spec, prompt_spec, sat_sub, slow_modules,
    time_seg_at, two_line_line1, two_line_line2, two_line_spec, FastOutputs, SlowOutput, US,
};
use crate::render::{append_right_spec, compose_line_spec, line_text, render_all};
use crate::segment::{render_segment_spec, SegmentModel};
use crate::style::{plain_style, resolve_spec, ColorMap, Style};
use crate::text::{
    display_width_of, ends_with, join2, join_nonempty, join_with, lemma_join_nonempty_concat,
    lemma_truncate_width, truncate_spec,
};

verus! {

proof fn lemma_join2_ends_with(a: Seq<char>, b: Seq<char>)
    ensures
        ends_with(join2(a, b), b),
{
    let j = join2(a, b);
    if b.len() > 0 && a.len() > 0 {
        assert(j.skip(j.len() - b.len()) =~= b);
    } else if b.len() == 0 {
        assert(j.skip(j.len() - b.len()) =~= b);
    } else {
        assert(j.skip(0) =~= b);
    }
}

proof fn lemma_ends_with_trans(s: Seq<char>, t: Seq<char>, u: Seq<char>)
    requires
        ends_with(s, t),
        ends_with(t, u),
    ensures
        ends_with(s, u),
{
    assert(s.skip(s.len() - u.len()) =~= t.skip(t.len() - u.len()));
}

/// A candidate fish line ends with the joined tail.
proof fn lemma_candidate_ends_with_tail(
    core: Seq<SegmentModel>,
    optional: Seq<SegmentModel>,
    tail: Seq<SegmentModel>,
    k: nat,
    map: ColorMap,
)
    ensures
        ends_with(fish_candidate(core, optional, tail, k, map), line_text(tail, map)),
{
    let front = core + optional.take(k as int);
    assert(render_all(front + tail, map) =~= render_all(front, map) + render_all(tail, map));
    lemma_join_nonempty_concat(render_all(front, map), render_all(tail, map));
    lemma_join2_ends_with(join_nonempty(render_all(front, map)), line_text(tail, map));
}

proof fn lemma_preserved_tail_ends_with_tail(core: Seq<SegmentModel>, tail: Seq<SegmentModel>, cols: nat, map: ColorMap)
    requires
        display_width_of(line_text(tail, map)) <= cols,
    ensures
        ends_with(preserved_tail_spec(core, tail, cols, map), line_text(tail, map)),
{
    let tj = line_text(tail, map);
    let r = preserved_tail_spec(core, tail, cols, map);
    lemma_truncate_width(tj, cols);
    if tj.len() == 0 {
        assert(r.skip(r.len() - tj.len()) =~= tj);
    } else if display_width_of(tj) >= cols {
        assert(r == tj);
        assert(r.skip(0) =~= tj);
    } else {
        let core_joined = line_text(core, map);
        let sep: nat = if core_joined.len() > 0 { 1 } else { 0 };
        let core_fit = truncate_spec(core_joined, sat_sub(cols, display_width_of(tj) + sep));
        if core_fit.len() == 0 {
            assert(r.skip(0) =~= tj);
        } else {
            assert(r.skip(r.len() - tj.len()) =~= tj);
        }
    }
}

proof fn lemma_fish_search_facts(
    core: Seq<SegmentModel>,
    optional: Seq<SegmentModel>,
    tail: Seq<SegmentModel>,
    cols: nat,
    map: ColorMap,
    k: nat,
)
    ensures
        display_width_of(fish_search(core, optional, tail, cols, map, k)) <= cols,
        display_width_of(line_text(tail, map)) <= cols ==> ends_with(
            fish_search(core, optional, tail, cols, map, k),
            line_text(tail, map),
        ),
    decreases k,
{
    lemma_candidate_ends_with_tail(core, optional, tail, k, map);
    if display_width_of(fish_candidate(core, optional, tail, k, map)) > cols {
        if k == 0 {
            lemma_preserved_tail_width(core, tail, cols, map);
            if display_width_of(line_text(tail, map)) <= cols {
                lemma_preserved_tail_ends_with_tail(core, tail, cols, map);
            }
        } else {
            lemma_fish_search_facts(core, optional, tail, cols, map, (k - 1) as nat);
        }
    }
}

/// A fish-style line never exceeds the terminal width, and whenever the
/// status and character fit, it ends with them: optional segments and then
/// the core are given up first.
pub proof fn law_fish_line_fits_and_keeps_tail(
    core: Seq<SegmentModel>,
    optional: Seq<SegmentModel>,
    tail: Seq<SegmentModel>,
    cols: nat,
    map: ColorMap,
)
    ensures
        display_width_of(fish_line_spec(core, optional, tail, cols, map)) <= cols,
        cols > 0 && display_width_of(line_text(tail, map)) <= cols ==> ends_with(
            fish_line_spec(core, optional, tail, cols, map),
            line_text(tail, map),
        ),
{
    if cols > 0 {
        lemma_fish_search_facts(core, optional, tail, cols, map, optional.len());
    }
}

/// Every line of the two-line prompt fits the terminal: the first line fits
/// in the columns left after its prefix, the others in `cols`.
pub proof fn law_two_line_prompt_fits(
    fast: FastOutputs,
    slow: Option<SlowOutput>,
    cols: nat,
    line1_prefix_cols: nat,
    config: crate::config::Config,
)
    ensures
        display_width_of(two_line_spec(fast, slow, cols, line1_prefix_cols, config).left1) <= sat_sub(cols, line1_prefix_cols),
        display_width_of(two_line_spec(fast, slow, cols, line1_prefix_cols, config).left2) <= cols,
        display_width_of(two_line_spec(fast, slow, cols, line1_prefix_cols, config).right2) <= cols,
        two_line_spec(fast, slow, cols, line1_prefix_cols, config).right1.len() == 0,
{
    let cs = resolve_spec(config.connectors.style, plain_style());
    let map = config.color_map;
    let line1_cols = sat_sub(cols, line1_prefix_cols);
    let r1segs = time_seg_at(fast, config, cs, ModuleSlot::Line1, crate::config::PromptSide::Right);
    let right1 = compose_line_spec(r1segs, line1_cols, map);
    let render_cols = if right1.len() == 0 { line1_cols } else { sat_sub(line1_cols, 1) };
    let left1 = compose_line_spec(two_line_line1(fast, slow, config), render_cols, map);
    lemma_truncate_width(line_text(two_line_line1(fast, slow, config), map), render_cols);
    lemma_truncate_width(line_text(two_line_line2(fast, slow, config), map), cols);
    lemma_truncate_width(
        line_text(time_seg_at(fast, config, cs, ModuleSlot::Line2, crate::config::PromptSide::Right), map),
        cols,
    );
    let appended = append_right_spec(left1, right1, line1_cols, 1);
    if appended != left1 {
        crate::text::lemma_width_spaces_prefix(0, Seq::empty());
        law_right_aligned_text_ends_at_indent(left1, right1, line1_cols, 1);
    }
}

/// When text is placed on the right, the line ends exactly `indent` columns
/// before `cols` and ends with that text.
pub proof fn law_right_aligned_text_ends_at_indent(left: Seq<char>, right: Seq<char>, cols: nat, indent: nat)
    requires
        append_right_spec(left, right, cols, indent) != left,
    ensures
        display_width_of(append_right_spec(left, right, cols, indent)) == sat_sub(cols, indent),
        ends_with(append_right_spec(left, right, cols, indent), right),
{
    let avail = sat_sub(cols, indent);
    let wl = display_width_of(left);
    let wr = display_width_of(right);
    let gap = (avail - wl - wr) as nat;
    let tail = crate::text::spaces(gap) + right;
    let r = append_right_spec(left, right, cols, indent);
    assert(r =~= left + tail);
    crate::text::lemma_width_spaces_prefix(gap, right);
    if gap > 0 {
        assert(tail[0] == ' ');
        crate::text::lemma_width_concat(left, tail);
    } else {
        assert(left.len() == 0);
        assert(left + tail =~= tail);
    }
    assert(r.skip(r.len() - right.len()) =~= right);
}

/// A slow output without a git branch and without custom modules changes
/// nothing: the prompt is the one composed without slow output.
pub proof fn law_empty_slow_output_is_neutral(
    fast: FastOutputs,
    slow: SlowOutput,
    cols: nat,
    line1_prefix_cols: nat,
    config: crate::config::Config,
)
    requires
        slow.git is None,
        slow.custom_modules@.len() == 0,
    ensures
        prompt_spec(fast, Some(slow), cols, line1_prefix_cols, config) == prompt_spec(
            fast,
            None,
            cols,
            line1_prefix_cols,
            config,
        ),
{
    assert(slow_modules(Some(slow)) =~= slow_modules(None));
    assert(fast.custom_modules@ + slow_modules(Some(slow)) =~= fast.custom_modules@ + slow_modules(None));
    assert(two_line_line1(fast, Some(slow), config) =~= two_line_line1(fast, None, config));
    assert(two_line_line2(fast, Some(slow), config) =~= two_line_line2(fast, None, config));
    assert(fish_core(fast, Some(slow), config) =~= fish_core(fast, None, config));
    assert(fish_optional(fast, Some(slow), config) =~= fish_optional(fast, None, config));
}

/// Without a prompt character and without a second-line right prompt, the
/// metadata is empty.
pub proof fn law_no_character_no_meta(
    fast: FastOutputs,
    slow: Option<SlowOutput>,
    cols: nat,
    line1_prefix_cols: nat,
    config: crate::config::Config,
)
    requires
        fast.character is None,
        prompt_spec(fast, slow, cols, line1_prefix_cols, config).right2.len() == 0,
    ensures
        prompt_spec(fast, slow, cols, line1_prefix_cols, config).char_meta.len() == 0,
{
    let r = prompt_spec(fast, slow, cols, line1_prefix_cols, config);
    let exit = fast.last_exit_code;
    let vicmd = render_segment_spec(
        crate::config::mode_segment_spec(config.character, config.character.vicmd, exit),
        config.color_map,
    );
    assert(meta_entries(Seq::empty(), r.right2, None, vicmd) =~= Seq::<Seq<char>>::empty());
}

/// With a prompt character, the metadata records its insert-mode rendering,
/// then its command-mode rendering, as its last two entries; and the line
/// that shows the character ends with that same insert-mode rendering, as
/// long as the line is not cut (two-line layout) or the status and character
/// fit (fish layout).
pub proof fn law_meta_viins_matches_prompt(
    fast: FastOutputs,
    slow: Option<SlowOutput>,
    cols: nat,
    line1_prefix_cols: nat,
    config: crate::config::Config,
)
    requires
        fast.character is Some,
    ensures
        ({
            let r = prompt_spec(fast, slow, cols, line1_prefix_cols, config);
            let map = config.color_map;
            let v = render_segment_spec(character_seg(fast, config)->0, map);
            let vc = render_segment_spec(
                crate::config::mode_segment_spec(config.character, config.character.vicmd, fast.last_exit_code),
                map,
            );
            &&& exists|pre: Seq<Seq<char>>|
                r.char_meta == join_with(pre + seq![entry("viins"@, v), entry("vicmd"@, vc)], US)
            &&& config.layout == PromptLayout::TwoLine && display_width_of(line_text(two_line_line2(fast, slow, config), map)) <= cols
                ==> ends_with(r.left2, v)
            &&& config.layout == PromptLayout::Fish && cols > 0 && display_width_of(line_text(fish_tail(fast, config), map)) <= cols
                ==> ends_with(r.left1, v)
        }),
{
    let r = prompt_spec(fast, slow, cols, line1_prefix_cols, config);
    let map = config.color_map;
    let ch = character_seg(fast, config)->0;
    let v = render_segment_spec(ch, map);
    let vc = render_segment_spec(
        crate::config::mode_segment_spec(config.character, config.character.vicmd, fast.last_exit_code),
        map,
    );
    let right2 = r.right2;
    let pre = if right2.len() > 0 { seq![entry("right2"@, right2)] } else { Seq::<Seq<char>>::empty() };
    assert(meta_entries(Seq::empty(), right2, Some(v), vc) =~= pre + seq![entry("viins"@, v), entry("vicmd"@, vc)]);
    if config.layout == PromptLayout::Fish {
        assert(meta_entries(Seq::empty(), Seq::empty(), Some(v), vc) =~= Seq::<Seq<char>>::empty() + seq![
            entry("viins"@, v),
            entry("vicmd"@, vc),
        ]);
    }
    // The rendered line ends with the character's rendering.
    if config.layout == PromptLayout::TwoLine {
        let segs = two_line_line2(fast, slow, config);
        if display_width_of(line_text(segs, map)) <= cols {
            lemma_truncate_width(line_text(segs, map), cols);
            let front = segs.drop_last();
            assert(segs =~= front + seq![ch]);
            assert(render_all(segs, map) =~= render_all(front, map) + render_all(seq![ch], map));
            lemma_join_nonempty_concat(render_all(front, map), render_all(seq![ch], map));
            assert(render_all(seq![ch], map) =~= seq![v]);
            assert(join_nonempty(seq![v]) == join2(join_nonempty(Seq::<Seq<char>>::empty()), v)) by {
                assert(seq![v].drop_last() =~= Seq::<Seq<char>>::empty());
            }
            assert(join_nonempty(Seq::<Seq<char>>::empty()) =~= Seq::<char>::empty());
            assert(join_nonempty(seq![v]) =~= v);
            lemma_join2_ends_with(join_nonempty(render_all(front, map)), v);
        }
    } else {
        let tail = fish_tail(fast, config);
        if cols > 0 && display_width_of(line_text(tail, map)) <= cols {
            law_fish_line_fits_and_keeps_tail(
                fish_core(fast, slow, config),
                fish_optional(fast, slow, config),
                tail,
                cols,
                map,
            );
            let front = tail.drop_last();
            assert(tail =~= front + seq![ch]);
            assert(render_all(tail, map) =~= render_all(front, map) + render_all(seq![ch], map));
            lemma_join_nonempty_concat(render_all(front, map), render_all(seq![ch], map));
            assert(render_all(seq![ch], map) =~= seq![v]);
            assert(seq![v].drop_last() =~= Seq::<Seq<char>>::empty());
            assert(join_nonempty(Seq::<Seq<char>>::empty()) =~= Seq::<char>::empty());
            assert(join_nonempty(seq![v]) =~= v);
            lemma_join2_ends_with(join_nonempty(render_all(front, map)), v);
            lemma_ends_with_trans(r.left1, line_text(tail, map), v);
        }
    }
}

/// Custom modules appear only on the line of their slot: every segment
/// listed for a slot comes from a module of that slot.
pub proof fn law_custom_modules_stay_in_slot(mods: Seq<CustomModuleInfo>, slot: ModuleSlot, cs: Style)
    ensures
        forall|i: int| 0 <= i < custom_segs(mods, slot, cs).len() ==> exists|j: int|
            0 <= j < mods.len() && mods[j].slot == slot && #[trigger] custom_segs(mods, slot, cs)[i]
                == custom_segment_spec(mods[j], cs),
    decreases mods.len(),
{
    if mods.len() > 0 {
        let front = mods.drop_last();
        law_custom_modules_stay_in_slot(front, slot, cs);
        let segs = custom_segs(mods, slot, cs);
        let prev = custom_segs(front, slot, cs);
        assert forall|i: int| 0 <= i < segs.len() implies exists|j: int|
            0 <= j < mods.len() && mods[j].slot == slot && #[trigger] segs[i] == custom_segment_spec(mods[j], cs) by {
            if i < prev.len() {
                let j = choose|j: int| 0 <= j < front.len() && front[j].slot == slot && prev[i] == custom_segment_spec(front[j], cs);
                assert(mods[j] == front[j]);
            } else {
                assert(segs[i] == custom_segment_spec(mods[mods.len() - 1], cs));
            }
        }
    }
}

/// The custom segments listed for a slot are exactly the segments of the
/// modules of that slot, in their order: as many segments as such modules,
/// the `i`-th being the segment of the `i`-th such module. Fast modules come
/// before slow ones.
pub proof fn law_custom_segments_are_slot_modules_in_order(
    fast_mods: Seq<CustomModuleInfo>,
    slow_mods: Seq<CustomModuleInfo>,
    slot: ModuleSlot,
    cs: Style,
)
    ensures
        custom_segs(fast_mods + slow_mods, slot, cs) == (fast_mods + slow_mods).filter(
            |m: CustomModuleInfo| m.slot == slot,
        ).map_values(|m: CustomModuleInfo| custom_segment_spec(m, cs)),
        custom_segs(fast_mods + slow_mods, slot, cs) == custom_segs(fast_mods, slot, cs) + custom_segs(
            slow_mods,
            slot,
            cs,
        ),
        custom_segs(fast_mods + slow_mods, slot, cs).len() == fast_mods.filter(
            |m: CustomModuleInfo| m.slot == slot,
        ).len() + slow_mods.filter(|m: CustomModuleInfo| m.slot == slot).len(),
{
    lemma_custom_segs_filter(fast_mods + slow_mods, slot, cs);
    lemma_custom_segs_filter(fast_mods, slot, cs);
    lemma_custom_segs_filter(slow_mods, slot, cs);
    let pred = |m: CustomModuleInfo| m.slot == slot;
    Seq::filter_distributes_over_add(fast_mods, slow_mods, pred);
    let f = |m: CustomModuleInfo| custom_segment_spec(m, cs);
    assert((fast_mods.filter(pred) + slow_mods.filter(pred)).map_values(f) =~= fast_mods.filter(pred).map_values(f)
        + slow_mods.filter(pred).map_values(f));
}

proof fn lemma_custom_segs_filter(mods: Seq<CustomModuleInfo>, slot: ModuleSlot, cs: Style)
    ensures
        custom_segs(mods, slot, cs) == mods.filter(|m: CustomModuleInfo| m.slot == slot).map_values(
            |m: CustomModuleInfo| custom_segment_spec(m, cs),
        ),
    decreases mods.len(),
{
    let pred = |m: CustomModuleInfo| m.slot == slot;
    let f = |m: CustomModuleInfo| custom_segment_spec(m, cs);
    reveal(Seq::<CustomModuleInfo>::filter);
    if mods.len() > 0 {
        lemma_custom_segs_filter(mods.drop_last(), slot, cs);
        let sub = mods.drop_last().filter(pred);
        if pred(mods.last()) {
            assert(sub.push(mods.last()).map_values(f) =~= sub.map_values(f).push(f(mods.last())));
        }
    } else {
        assert(mods.filter(pred).map_values(f) =~= Seq::<SegmentModel>::empty());
    }
}

/// Where the clock goes: on the left of line 1 it is the last segment of the
/// first line, and whenever that line fits, the rendered first line ends
/// with the rendered clock; on the left of line 2 it is one of the segments
/// of the second line; on the right of line 2 it is the right-hand second
/// line, cut to the terminal width.
pub proof fn law_clock_placement(
    fast: FastOutputs,
    slow: Option<SlowOutput>,
    cols: nat,
    line1_prefix_cols: nat,
    config: crate::config::Config,
    time: String,
)
    requires
        fast.time == Some(time),
    ensures
        ({
            let cs = resolve_spec(config.connectors.style, plain_style());
            let map = config.color_map;
            let ts = crate::config::time_segment_spec(config.time, time@, cs);
            let r = two_line_spec(fast, slow, cols, line1_prefix_cols, config);
            &&& (config.time.slot == ModuleSlot::Line1 && config.time.side == crate::config::PromptSide::Left) ==> {
                &&& two_line_line1(fast, slow, config).len() > 0
                &&& two_line_line1(fast, slow, config).last() == ts
                &&& (display_width_of(line_text(two_line_line1(fast, slow, config), map)) <= sat_sub(cols, line1_prefix_cols)
                    ==> ends_with(r.left1, render_segment_spec(ts, map)))
            }
            &&& (config.time.slot == ModuleSlot::Line2 && config.time.side == crate::config::PromptSide::Left)
                ==> two_line_line2(fast, slow, config).contains(ts)
            &&& (config.time.slot == ModuleSlot::Line2 && config.time.side == crate::config::PromptSide::Right)
                ==> r.right2 == truncate_spec(render_segment_spec(ts, map), cols)
        }),
{
    let cs = resolve_spec(config.connectors.style, plain_style());
    let map = config.color_map;
    let ts = crate::config::time_segment_spec(config.time, time@, cs);
    if config.time.slot == ModuleSlot::Line2 && config.time.side == crate::config::PromptSide::Right {
        let segs = seq![ts];
        assert(render_all(segs, map) =~= seq![render_segment_spec(ts, map)]);
        assert(seq![render_segment_spec(ts, map)].drop_last() =~= Seq::<Seq<char>>::empty());
        assert(join_nonempty(Seq::<Seq<char>>::empty()) =~= Seq::<char>::empty());
        assert(line_text(segs, map) =~= render_segment_spec(ts, map));
    }
    if config.time.slot == ModuleSlot::Line2 && config.time.side == crate::config::PromptSide::Left {
        let segs = two_line_line2(fast, slow, config);
        let front = all_custom_segs_of(fast, slow, cs);
        assert(segs[front.len() as int] == ts);
    }
    if config.time.slot == ModuleSlot::Line1 && config.time.side == crate::config::PromptSide::Left {
        let segs = two_line_line1(fast, slow, config);
        let line1_cols = sat_sub(cols, line1_prefix_cols);
        assert(segs.last() == ts);
        if display_width_of(line_text(segs, map)) <= line1_cols {
            // No right-hand first-line prompt.
            let r1segs = time_seg_at(fast, config, cs, ModuleSlot::Line1, crate::config::PromptSide::Right);
            assert(r1segs =~= Seq::<SegmentModel>::empty());
            assert(render_all(r1segs, map) =~= Seq::<Seq<char>>::empty());
            assert(line_text(r1segs, map) =~= Seq::<char>::empty());
            lemma_truncate_width(line_text(r1segs, map), line1_cols);
            lemma_truncate_width(line_text(segs, map), line1_cols);
            let front = segs.drop_last();
            assert(segs =~= front + seq![ts]);
            assert(render_all(segs, map) =~= render_all(front, map) + render_all(seq![ts], map));
            lemma_join_nonempty_concat(render_all(front, map), render_all(seq![ts], map));
            assert(render_all(seq![ts], map) =~= seq![render_segment_spec(ts, map)]);
            assert(seq![render_segment_spec(ts, map)].drop_last() =~= Seq::<Seq<char>>::empty());
            assert(join_nonempty(Seq::<Seq<char>>::empty()) =~= Seq::<char>::empty());
            lemma_join2_ends_with(join_nonempty(render_all(front, map)), render_segment_spec(ts, map));
        }
    }
}

spec fn all_custom_segs_of(fast: FastOutputs, slow: Option<SlowOutput>, cs: Style) -> Seq<SegmentModel> {
    custom_segs(fast.custom_modules@ + slow_modules(slow), ModuleSlot::Line2, cs)
}

proof fn lemma_search_reaches_preserved(
    core: Seq<SegmentModel>,
    optional: Seq<SegmentModel>,
    tail: Seq<SegmentModel>,
    cols: nat,
    map: ColorMap,
    k: nat,
)
    requires
        k <= optional.len(),
        forall|j: nat| j <= optional.len() ==> display_width_of(
            #[trigger] line_text(core + optional.take(j as int) + tail, map),
        ) > cols,
    ensures
        fish_search(core, optional, tail, cols, map, k) == preserved_tail_spec(core, tail, cols, map),
    decreases k,
{
    assert(display_width_of(line_text(core + optional.take(k as int) + tail, map)) > cols);
    if k > 0 {
        lemma_search_reaches_preserved(core, optional, tail, cols, map, (k - 1) as nat);
    }
}

/// When even the line without optional segments does not fit, the fish line
/// keeps the whole tail (status and character) and as much of the core
/// (directory and branch) as fits before it: the core cut to
/// `cols - width(tail) - 1` columns, a space, then the tail. The line then
/// takes exactly the columns of the cut core, the space and the tail.
pub proof fn law_fish_keeps_core_prefix_before_tail(
    core: Seq<SegmentModel>,
    optional: Seq<SegmentModel>,
    tail: Seq<SegmentModel>,
    cols: nat,
    map: ColorMap,
)
    requires
        forall|j: nat| j <= optional.len() ==> display_width_of(
            #[trigger] line_text(core + optional.take(j as int) + tail, map),
        ) > cols,
        line_text(core, map).len() > 0,
        line_text(tail, map).len() > 0,
        display_width_of(line_text(tail, map)) + 1 < cols,
    ensures
        ({
            let cj = line_text(core, map);
            let tj = line_text(tail, map);
            let avail = (cols - display_width_of(tj) - 1) as nat;
            let line = fish_line_spec(core, optional, tail, cols, map);
            &&& line == truncate_spec(cj, avail) + seq![' '] + tj
            &&& display_width_of(line) == (if display_width_of(cj) <= avail {
                display_width_of(cj)
            } else {
                avail
            }) + 1 + display_width_of(tj)
        }),
{
    let cj = line_text(core, map);
    let tj = line_text(tail, map);
    let tw = display_width_of(tj);
    let avail = (cols - tw - 1) as nat;
    lemma_search_reaches_preserved(core, optional, tail, cols, map, optional.len());
    let fit = truncate_spec(cj, avail);
    crate::text::law_truncate_keeps_width(cj, avail);
    lemma_truncate_width(cj, avail);
    // the cut core is not empty
    if display_width_of(cj) <= avail {
        assert(fit == cj);
    } else {
        assert(fit.len() >= crate::text::reset_seq().len());
    }
    let rest = seq![' '] + tj;
    assert(fit + seq![' '] + tj =~= fit + rest);
    assert(rest[0] == ' ');
    crate::text::lemma_width_concat(fit, rest);
    crate::text::lemma_width_cons(' ', tj);
}

} // verus!
