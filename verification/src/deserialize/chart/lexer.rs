//! The chart's token tree, as plain values.
//!
//! The chart reader walks a tree of tokens: each token is an instance of a grammar rule,
//! the text it matched, and the tokens inside it, in order.
use vstd::prelude::*;

verus! {

/// The grammar rules of a chart.
#[allow(non_camel_case_types)]
#[derive(Debug, Clone, Copy, PartialEq, Eq, Structural)]
pub enum Rule {
    chart,
    COMMENT,
    WHITESPACE,
    tempo_change,
    tempo,
    subdivision_change,
    subdivision_absolute,
    subdivision_beat,
    time_step,
    note_collection,
    tap_note,
    touch_note,
    hold_note,
    touch_hold_note,
    slide_note,
    each_divider_fake,
    each_divider_normal,
    location,
    decoration_break,
    decoration_ex,
    decoration_firework,
    decoration_fade_out,
    decoration_sudden_in,
    decoration_spinning_star,
    decoration_star,
    decoration_force_normal,
    decoration_hold,
    duration_hold,
    duration_with_bpm,
    duration_absolute,
    bpm,
    numerator,
    denominator,
    slide_branch,
    slide_joiner,
    slide_part,
    slide_part_with_time,
    duration_slide,
    duration_slide_with_delay,
    delay_duration_absolute,
    slide_location,
    slide_normal_locator,
    slide_grand_v_locator,
    slide_locator_straight,
    slide_locator_clockwise_arc,
    slide_locator_anti_clockwise_arc,
    slide_locator_short_arc,
    slide_locator_v,
    slide_locator_grand_v,
    slide_locator_thunderbolt_s,
    slide_locator_thunderbolt_z,
    slide_locator_p,
    slide_locator_q,
    slide_locator_grand_p,
    slide_locator_grand_q,
    slide_locator_fan,
}

/// One token: the rule it is an instance of, the text it matched, and its inner tokens.
#[derive(Debug)]
pub struct Token {
    pub rule: Rule,
    pub text: String,
    pub children: Vec<Token>,
}

} // verus!
