//! Whether a token tree has the shape that the note readers take: a reader is only called
//! on tokens that these checks accept.
use crate::deserialize::chart::lexer::{Rule, Token};
use crate::deserialize::element::notes::Location;
use crate::deserialize::parser::note_parser::{
    branch_parts, branch_token_ok, collection_item_ok, common_token_ok, decoration_rule_bits,
    hold_token_ok, is_common_rule, is_locator_rule, is_slide_duration_rule, location_token_ok,
    slide_location_ok, slide_part_of, slide_part_token_ok, slide_token_ok,
};
use vstd::prelude::*;

verus! {

/// Whether a token's text names a location.
pub fn location_readable(t: &Token) -> (r: bool)
    ensures
        r == location_token_ok(*t),
{
    match Location::parse(t.text.as_str()) {
        Ok(_) => true,
        Err(_) => false,
    }
}

fn decoration_rule(rule: Rule) -> (r: bool)
    ensures
        r == decoration_rule_bits(rule, 0) is Some,
{
    match rule {
        Rule::decoration_break | Rule::decoration_ex | Rule::decoration_firework
        | Rule::decoration_fade_out | Rule::decoration_sudden_in | Rule::decoration_spinning_star
        | Rule::decoration_star | Rule::decoration_force_normal => true,
        _ => false,
    }
}

/// Whether a token inside a note is a well-formed location or a decoration.
fn common_item_readable(c: &Token) -> (r: bool)
    ensures
        r == (is_common_rule(c.rule) && (c.rule == Rule::location ==> location_token_ok(*c))),
{
    if c.rule == Rule::location {
        location_readable(c)
    } else {
        decoration_rule(c.rule)
    }
}

/// Whether a tap or touch note token can be read.
pub fn common_token_readable(t: &Token) -> (r: bool)
    ensures
        r == common_token_ok(*t),
{
    let cs = &t.children;
    if cs.len() == 0 || !location_readable(&cs[0]) {
        return false;
    }
    let mut i: usize = 1;
    while i < cs.len()
        invariant
            cs@ == t.children@,
            1 <= i <= cs@.len(),
            location_token_ok(cs@[0]),
            forall|j: int|
                1 <= j < i ==> is_common_rule(#[trigger] cs@[j].rule) && (cs@[j].rule
                    == Rule::location ==> location_token_ok(cs@[j])),
        decreases cs@.len() - i,
    {
        if !common_item_readable(&cs[i]) {
            proof {
                assert(cs@[i as int].rule == t.children@[i as int].rule);
            }
            return false;
        }
        i = i + 1;
    }
    true
}

/// Whether a hold note token can be read.
pub fn hold_token_readable(t: &Token) -> (r: bool)
    ensures
        r == hold_token_ok(*t),
{
    let cs = &t.children;
    if cs.len() == 0 || !location_readable(&cs[0]) {
        return false;
    }
    let mut i: usize = 1;
    while i < cs.len()
        invariant
            cs@ == t.children@,
            1 <= i <= cs@.len(),
            location_token_ok(cs@[0]),
            forall|j: int|
                1 <= j < i ==> {
                    let c = #[trigger] cs@[j];
                    ||| is_common_rule(c.rule) && (c.rule == Rule::location ==> location_token_ok(
                        c,
                    ))
                    ||| c.rule == Rule::decoration_hold
                    ||| c.rule == Rule::duration_hold
                },
        decreases cs@.len() - i,
    {
        let c = &cs[i];
        if !(common_item_readable(c) || c.rule == Rule::decoration_hold || c.rule
            == Rule::duration_hold) {
            proof {
                assert(cs@[i as int] == t.children@[i as int]);
            }
            return false;
        }
        i = i + 1;
    }
    true
}

fn locator_rule(rule: Rule) -> (r: bool)
    ensures
        r == is_locator_rule(rule),
{
    match rule {
        Rule::slide_locator_straight | Rule::slide_locator_clockwise_arc
        | Rule::slide_locator_anti_clockwise_arc | Rule::slide_locator_short_arc
        | Rule::slide_locator_v | Rule::slide_locator_thunderbolt_s
        | Rule::slide_locator_thunderbolt_z | Rule::slide_locator_q | Rule::slide_locator_p
        | Rule::slide_locator_grand_p | Rule::slide_locator_grand_q | Rule::slide_locator_fan =>
            true,
        _ => false,
    }
}

/// Whether a slide location token can be read.
pub fn slide_location_readable(t: &Token) -> (r: bool)
    ensures
        r == slide_location_ok(*t),
{
    if t.children.len() == 0 {
        return false;
    }
    let shell = &t.children[0];
    if shell.rule == Rule::slide_normal_locator {
        shell.children.len() >= 1 && locator_rule(shell.children[0].rule) && t.children.len() >= 2
            && location_readable(&t.children[1])
    } else if shell.rule == Rule::slide_grand_v_locator {
        shell.children.len() >= 3 && shell.children[0].rule == Rule::slide_locator_grand_v
            && location_readable(&shell.children[1]) && location_readable(&shell.children[2])
    } else {
        false
    }
}

/// Whether a slide part token can be read.
pub fn slide_part_readable(t: &Token) -> (r: bool)
    ensures
        r == slide_part_token_ok(*t),
{
    let cs = &t.children;
    if cs.len() == 0 || !slide_location_readable(&cs[0]) {
        return false;
    }
    let mut i: usize = 1;
    while i < cs.len()
        invariant
            cs@ == t.children@,
            1 <= i <= cs@.len(),
            slide_location_ok(cs@[0]),
            forall|j: int|
                1 <= j < i ==> decoration_rule_bits(#[trigger] cs@[j].rule, 0) is Some
                    || is_slide_duration_rule(cs@[j].rule),
        decreases cs@.len() - i,
    {
        let rule = cs[i].rule;
        if !(decoration_rule(rule) || rule == Rule::duration_slide || rule
            == Rule::duration_slide_with_delay) {
            proof {
                assert(cs@[i as int].rule == t.children@[i as int].rule);
            }
            return false;
        }
        i = i + 1;
    }
    true
}

/// Whether a slide branch token can be read.
pub fn branch_readable(t: &Token) -> (r: bool)
    ensures
        r == branch_token_ok(*t),
{
    let cs = &t.children;
    let mut seen_part = false;
    let mut i: usize = 0;
    while i < cs.len()
        invariant
            cs@ == t.children@,
            i <= cs@.len(),
            seen_part == (branch_parts(cs@, i as int).len() > 0),
            forall|j: int|
                0 <= j < i ==> {
                    let c = #[trigger] cs@[j];
                    ||| (c.rule == Rule::slide_part || c.rule == Rule::slide_part_with_time)
                        && slide_part_token_ok(c)
                    ||| c.rule == Rule::duration_slide_with_delay && branch_parts(cs@, j).len()
                        > 0
                },
        decreases cs@.len() - i,
    {
        let c = &cs[i];
        let is_part = c.rule == Rule::slide_part || c.rule == Rule::slide_part_with_time;
        let ok = if is_part {
            slide_part_readable(c)
        } else {
            c.rule == Rule::duration_slide_with_delay && seen_part
        };
        if !ok {
            proof {
                assert(cs@[i as int] == t.children@[i as int]);
            }
            return false;
        }
        proof {
            assert(cs@[i as int] == *c);
            assert(branch_parts(cs@, i + 1) == {
                let ps = branch_parts(cs@, i as int);
                if is_part {
                    ps.push(slide_part_of(*c))
                } else if c.rule == Rule::duration_slide_with_delay && ps.len() > 0 {
                    ps.update(ps.len() - 1, (ps.last().0, Some(*c)))
                } else {
                    ps
                }
            });
        }
        if is_part {
            seen_part = true;
        }
        i = i + 1;
    }
    true
}

/// Whether a slide note token can be read.
pub fn slide_token_readable(t: &Token) -> (r: bool)
    ensures
        r == slide_token_ok(*t),
{
    let cs = &t.children;
    if cs.len() == 0 || !location_readable(&cs[0]) {
        return false;
    }
    let mut i: usize = 1;
    while i < cs.len()
        invariant
            cs@ == t.children@,
            1 <= i <= cs@.len(),
            location_token_ok(cs@[0]),
            forall|j: int|
                1 <= j < i ==> {
                    let c = #[trigger] cs@[j];
                    ||| is_common_rule(c.rule) && (c.rule == Rule::location ==> location_token_ok(
                        c,
                    ))
                    ||| c.rule == Rule::slide_branch && branch_token_ok(c)
                    ||| c.rule == Rule::slide_joiner
                },
        decreases cs@.len() - i,
    {
        let c = &cs[i];
        let ok = common_item_readable(c) || (c.rule == Rule::slide_branch && branch_readable(c))
            || c.rule == Rule::slide_joiner;
        if !ok {
            proof {
                assert(cs@[i as int] == t.children@[i as int]);
            }
            return false;
        }
        i = i + 1;
    }
    true
}

/// Whether one token inside a note collection can be read.
pub fn collection_item_readable(c: &Token) -> (r: bool)
    ensures
        r == collection_item_ok(*c),
{
    if c.rule == Rule::tap_note || c.rule == Rule::touch_note {
        common_token_readable(c)
    } else if c.rule == Rule::hold_note || c.rule == Rule::touch_hold_note {
        hold_token_readable(c)
    } else if c.rule == Rule::slide_note {
        slide_token_readable(c)
    } else {
        c.rule == Rule::each_divider_fake || c.rule == Rule::each_divider_normal
    }
}

/// Whether every token inside a note collection can be read, so that
/// [`read_note_collection`](crate::deserialize::parser::note_parser::read_note_collection)
/// takes it.
pub fn note_collection_readable(pair: &Token) -> (r: bool)
    ensures
        r == forall|i: int|
            0 <= i < pair.children@.len() ==> collection_item_ok(#[trigger] pair.children@[i]),
{
    let cs = &pair.children;
    let mut i: usize = 0;
    while i < cs.len()
        invariant
            cs@ == pair.children@,
            i <= cs@.len(),
            forall|j: int| 0 <= j < i ==> collection_item_ok(#[trigger] cs@[j]),
        decreases cs@.len() - i,
    {
        if !collection_item_readable(&cs[i]) {
            proof {
                assert(cs@[i as int] == pair.children@[i as int]);
            }
            return false;
        }
        i = i + 1;
    }
    true
}

} // verus!
