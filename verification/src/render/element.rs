//! The records that the renderer is handed, one per thing to draw.
//!
//! A record is laid out as a packed C struct of its fields in order: each `u8` and `bool`
//! one byte, each `u16` two bytes and each `f32` four bytes, little-endian, with no padding.
//! The `f32` fields are held here as their bit patterns (`f32::to_bits`).
use vstd::prelude::*;

verus! {

/// The kinds of records, as their first byte says.
pub const REND_TYPE_TAP: u8 = 1;

pub const REND_TYPE_TOUCH: u8 = 2;

pub const REND_TYPE_TOUCH_HOLD: u8 = 3;

pub const REND_TYPE_HOLD: u8 = 4;

pub const REND_TYPE_SLIDE_HEAD: u8 = 5;

pub const REND_TYPE_SLIDE_ARROW: u8 = 6;

pub const REND_TYPE_HINT: u8 = 7;

pub const REND_TYPE_EACH_HINT: u8 = 8;

pub const REND_TYPE_WIFI_PART: u8 = 9;

/// The two bytes of `v`, least significant first.
pub open spec fn le16(v: u16) -> Seq<u8> {
    seq![(v & 0xff) as u8, ((v >> 8) & 0xff) as u8]
}

/// The four bytes of `v`, least significant first.
pub open spec fn le32(v: u32) -> Seq<u8> {
    seq![
        (v & 0xff) as u8,
        ((v >> 8) & 0xff) as u8,
        ((v >> 16) & 0xff) as u8,
        ((v >> 24) & 0xff) as u8,
    ]
}

/// The byte that stands for a `bool`.
pub open spec fn bool_byte(b: bool) -> u8 {
    if b {
        1
    } else {
        0
    }
}

fn push_u16(out: &mut Vec<u8>, v: u16)
    ensures
        final(out)@ == old(out)@ + le16(v),
{
    out.push((v & 0xff) as u8);
    out.push(((v >> 8) & 0xff) as u8);
    proof {
        assert(final(out)@ =~= old(out)@ + le16(v));
    }
}

fn push_u32(out: &mut Vec<u8>, v: u32)
    ensures
        final(out)@ == old(out)@ + le32(v),
{
    out.push((v & 0xff) as u8);
    out.push(((v >> 8) & 0xff) as u8);
    out.push(((v >> 16) & 0xff) as u8);
    out.push(((v >> 24) & 0xff) as u8);
    proof {
        assert(final(out)@ =~= old(out)@ + le32(v));
    }
}

/// A value that the renderer reads as a packed sequence of bytes.
pub trait Dense {
    /// The bytes of this value.
    spec fn dense_bytes(&self) -> Seq<u8>;

    /// The bytes of this value, in a fresh buffer.
    fn to_bytes(&self) -> (r: Vec<u8>)
        ensures
            r@ == self.dense_bytes(),
    ;
}

/// A tap note or the head of a slide.
#[derive(Debug, Clone, Copy, PartialEq, Eq, Structural)]
pub struct RendTapNote {
    pub rend_type: u8,
    pub flags: u16,
    /// The bits of an `f32`.
    pub x: u32,
    /// The bits of an `f32`.
    pub y: u32,
    /// The bits of an `f32`.
    pub rotate: u32,
    /// The bits of an `f32`.
    pub scale: u32,
    /// The bits of an `f32`.
    pub alpha: u32,
}

impl Dense for RendTapNote {
    open spec fn dense_bytes(&self) -> Seq<u8> {
        seq![self.rend_type] + le16(self.flags) + le32(self.x) + le32(self.y) + le32(self.rotate) + le32(self.scale) + le32(self.alpha)
    }

    fn to_bytes(&self) -> (r: Vec<u8>) {
        let mut out: Vec<u8> = Vec::new();
        out.push(self.rend_type);
        push_u16(&mut out, self.flags);
        push_u32(&mut out, self.x);
        push_u32(&mut out, self.y);
        push_u32(&mut out, self.rotate);
        push_u32(&mut out, self.scale);
        push_u32(&mut out, self.alpha);
        proof {
            assert(out@ =~= self.dense_bytes());
        }
        out
    }
}

/// A touch note.
#[derive(Debug, Clone, Copy, PartialEq, Eq, Structural)]
pub struct RendTouchNote {
    pub rend_type: u8,
    pub flags: u16,
    /// The bits of an `f32`.
    pub x: u32,
    /// The bits of an `f32`.
    pub y: u32,
    /// The bits of an `f32`.
    pub progress: u32,
}

impl Dense for RendTouchNote {
    open spec fn dense_bytes(&self) -> Seq<u8> {
        seq![self.rend_type] + le16(self.flags) + le32(self.x) + le32(self.y) + le32(self.progress)
    }

    fn to_bytes(&self) -> (r: Vec<u8>) {
        let mut out: Vec<u8> = Vec::new();
        out.push(self.rend_type);
        push_u16(&mut out, self.flags);
        push_u32(&mut out, self.x);
        push_u32(&mut out, self.y);
        push_u32(&mut out, self.progress);
        proof {
            assert(out@ =~= self.dense_bytes());
        }
        out
    }
}

/// A hold note on a touch sensor.
#[derive(Debug, Clone, Copy, PartialEq, Eq, Structural)]
pub struct RendTouchHoldNote {
    pub rend_type: u8,
    pub flags: u16,
    /// The bits of an `f32`.
    pub x: u32,
    /// The bits of an `f32`.
    pub y: u32,
    /// The bits of an `f32`.
    pub show_progress: u32,
    /// The bits of an `f32`.
    pub hold_progress: u32,
}

impl Dense for RendTouchHoldNote {
    open spec fn dense_bytes(&self) -> Seq<u8> {
        seq![self.rend_type] + le16(self.flags) + le32(self.x) + le32(self.y) + le32(self.show_progress) + le32(self.hold_progress)
    }

    fn to_bytes(&self) -> (r: Vec<u8>) {
        let mut out: Vec<u8> = Vec::new();
        out.push(self.rend_type);
        push_u16(&mut out, self.flags);
        push_u32(&mut out, self.x);
        push_u32(&mut out, self.y);
        push_u32(&mut out, self.show_progress);
        push_u32(&mut out, self.hold_progress);
        proof {
            assert(out@ =~= self.dense_bytes());
        }
        out
    }
}

/// A hold note on a tap button.
#[derive(Debug, Clone, Copy, PartialEq, Eq, Structural)]
pub struct RendHoldNote {
    pub rend_type: u8,
    pub flags: u16,
    /// The bits of an `f32`.
    pub head_x: u32,
    /// The bits of an `f32`.
    pub head_y: u32,
    /// The bits of an `f32`.
    pub tail_x: u32,
    /// The bits of an `f32`.
    pub tail_y: u32,
    /// The bits of an `f32`.
    pub rotate: u32,
    /// The bits of an `f32`.
    pub scale: u32,
    pub holding: bool,
}

impl Dense for RendHoldNote {
    open spec fn dense_bytes(&self) -> Seq<u8> {
        seq![self.rend_type] + le16(self.flags) + le32(self.head_x) + le32(self.head_y) + le32(self.tail_x) + le32(self.tail_y) + le32(self.rotate) + le32(self.scale) + seq![bool_byte(self.holding)]
    }

    fn to_bytes(&self) -> (r: Vec<u8>) {
        let mut out: Vec<u8> = Vec::new();
        out.push(self.rend_type);
        push_u16(&mut out, self.flags);
        push_u32(&mut out, self.head_x);
        push_u32(&mut out, self.head_y);
        push_u32(&mut out, self.tail_x);
        push_u32(&mut out, self.tail_y);
        push_u32(&mut out, self.rotate);
        push_u32(&mut out, self.scale);
        out.push(if self.holding { 1u8 } else { 0u8 });
        proof {
            assert(out@ =~= self.dense_bytes());
        }
        out
    }
}

/// One arrow of a slide's path.
#[derive(Debug, Clone, Copy, PartialEq, Eq, Structural)]
pub struct RendSlideArrow {
    pub rend_type: u8,
    pub flags: u16,
    /// The bits of an `f32`.
    pub x: u32,
    /// The bits of an `f32`.
    pub y: u32,
    /// The bits of an `f32`.
    pub rotate: u32,
    /// The bits of an `f32`.
    pub alpha: u32,
}

impl Dense for RendSlideArrow {
    open spec fn dense_bytes(&self) -> Seq<u8> {
        seq![self.rend_type] + le16(self.flags) + le32(self.x) + le32(self.y) + le32(self.rotate) + le32(self.alpha)
    }

    fn to_bytes(&self) -> (r: Vec<u8>) {
        let mut out: Vec<u8> = Vec::new();
        out.push(self.rend_type);
        push_u16(&mut out, self.flags);
        push_u32(&mut out, self.x);
        push_u32(&mut out, self.y);
        push_u32(&mut out, self.rotate);
        push_u32(&mut out, self.alpha);
        proof {
            assert(out@ =~= self.dense_bytes());
        }
        out
    }
}

/// The hint line that shows where a note will arrive.
#[derive(Debug, Clone, Copy, PartialEq, Eq, Structural)]
pub struct RendHintLine {
    pub rend_type: u8,
    pub flags: u16,
    pub slide: bool,
    /// The bits of an `f32`.
    pub scale: u32,
    /// The bits of an `f32`.
    pub rotate: u32,
    /// The bits of an `f32`.
    pub alpha: u32,
}

impl Dense for RendHintLine {
    open spec fn dense_bytes(&self) -> Seq<u8> {
        seq![self.rend_type] + le16(self.flags) + seq![bool_byte(self.slide)] + le32(self.scale) + le32(self.rotate) + le32(self.alpha)
    }

    fn to_bytes(&self) -> (r: Vec<u8>) {
        let mut out: Vec<u8> = Vec::new();
        out.push(self.rend_type);
        push_u16(&mut out, self.flags);
        out.push(if self.slide { 1u8 } else { 0u8 });
        push_u32(&mut out, self.scale);
        push_u32(&mut out, self.rotate);
        push_u32(&mut out, self.alpha);
        proof {
            assert(out@ =~= self.dense_bytes());
        }
        out
    }
}

/// The hint line that joins notes sounding together.
#[derive(Debug, Clone, Copy, PartialEq, Eq, Structural)]
pub struct RendEachHintLine {
    pub rend_type: u8,
    pub serial: u8,
    /// The bits of an `f32`.
    pub scale: u32,
    /// The bits of an `f32`.
    pub rotate: u32,
}

impl Dense for RendEachHintLine {
    open spec fn dense_bytes(&self) -> Seq<u8> {
        seq![self.rend_type] + seq![self.serial] + le32(self.scale) + le32(self.rotate)
    }

    fn to_bytes(&self) -> (r: Vec<u8>) {
        let mut out: Vec<u8> = Vec::new();
        out.push(self.rend_type);
        out.push(self.serial);
        push_u32(&mut out, self.scale);
        push_u32(&mut out, self.rotate);
        proof {
            assert(out@ =~= self.dense_bytes());
        }
        out
    }
}

/// One arrow of a fan slide.
#[derive(Debug, Clone, Copy, PartialEq, Eq, Structural)]
pub struct RendSlideWifiArrow {
    pub rend_type: u8,
    pub flags: u16,
    pub index: u8,
    /// The bits of an `f32`.
    pub x: u32,
    /// The bits of an `f32`.
    pub y: u32,
    /// The bits of an `f32`.
    pub rotate: u32,
    /// The bits of an `f32`.
    pub alpha: u32,
}

impl Dense for RendSlideWifiArrow {
    open spec fn dense_bytes(&self) -> Seq<u8> {
        seq![self.rend_type] + le16(self.flags) + seq![self.index] + le32(self.x) + le32(self.y) + le32(self.rotate) + le32(self.alpha)
    }

    fn to_bytes(&self) -> (r: Vec<u8>) {
        let mut out: Vec<u8> = Vec::new();
        out.push(self.rend_type);
        push_u16(&mut out, self.flags);
        out.push(self.index);
        push_u32(&mut out, self.x);
        push_u32(&mut out, self.y);
        push_u32(&mut out, self.rotate);
        push_u32(&mut out, self.alpha);
        proof {
            assert(out@ =~= self.dense_bytes());
        }
        out
    }
}

/// The bytes of `le16` and `le32` are the value's bytes, least significant first: weighted
/// by 1, 256, 65536 and 16777216 they add up to the value, and each is below 256.
pub proof fn law_little_endian(a: u16, v: u32)
    ensures
        le16(a).len() == 2,
        le16(a)[0] + 256 * le16(a)[1] == a,
        le32(v).len() == 4,
        le32(v)[0] + 256 * le32(v)[1] + 65536 * le32(v)[2] + 16777216 * le32(v)[3] == v,
{
    assert(((a & 0xff) as u8) + 256 * (((a >> 8) & 0xff) as u8) == a) by (bit_vector);
    assert(((v & 0xff) as u8) + 256 * (((v >> 8) & 0xff) as u8) + 65536 * (((v >> 16) & 0xff)
        as u8) + 16777216 * (((v >> 24) & 0xff) as u8) == v) by (bit_vector);
}

/// A tap record is its fields in order: the kind at byte 0, the flags at 1..3, then `x`,
/// `y`, `rotate`, `scale` and `alpha` four bytes each from byte 3 on.
pub proof fn law_tap_layout(r: RendTapNote)
    ensures
        r.dense_bytes().len() == 23,
        r.dense_bytes()[0] == r.rend_type,
        r.dense_bytes().subrange(1, 3) == le16(r.flags),
        r.dense_bytes().subrange(3, 7) == le32(r.x),
        r.dense_bytes().subrange(7, 11) == le32(r.y),
        r.dense_bytes().subrange(11, 15) == le32(r.rotate),
        r.dense_bytes().subrange(15, 19) == le32(r.scale),
        r.dense_bytes().subrange(19, 23) == le32(r.alpha),
{
    let b = r.dense_bytes();
    assert(b.subrange(1, 3) =~= le16(r.flags));
    assert(b.subrange(3, 7) =~= le32(r.x));
    assert(b.subrange(7, 11) =~= le32(r.y));
    assert(b.subrange(11, 15) =~= le32(r.rotate));
    assert(b.subrange(15, 19) =~= le32(r.scale));
    assert(b.subrange(19, 23) =~= le32(r.alpha));
}

/// A touch record: the kind, the flags at 1..3, then `x` at 3..7, `y` at 7..11 and
/// `progress` at 11..15.
pub proof fn law_touch_layout(r: RendTouchNote)
    ensures
        r.dense_bytes().len() == 15,
        r.dense_bytes()[0] == r.rend_type,
        r.dense_bytes().subrange(1, 3) == le16(r.flags),
        r.dense_bytes().subrange(3, 7) == le32(r.x),
        r.dense_bytes().subrange(7, 11) == le32(r.y),
        r.dense_bytes().subrange(11, 15) == le32(r.progress),
{
    let b = r.dense_bytes();
    assert(b.subrange(1, 3) =~= le16(r.flags));
    assert(b.subrange(3, 7) =~= le32(r.x));
    assert(b.subrange(7, 11) =~= le32(r.y));
    assert(b.subrange(11, 15) =~= le32(r.progress));
}

/// A touch hold record: the kind, the flags, then `x`, `y`, `show_progress` and
/// `hold_progress` four bytes each from byte 3 on.
pub proof fn law_touch_hold_layout(r: RendTouchHoldNote)
    ensures
        r.dense_bytes().len() == 19,
        r.dense_bytes()[0] == r.rend_type,
        r.dense_bytes().subrange(1, 3) == le16(r.flags),
        r.dense_bytes().subrange(3, 7) == le32(r.x),
        r.dense_bytes().subrange(7, 11) == le32(r.y),
        r.dense_bytes().subrange(11, 15) == le32(r.show_progress),
        r.dense_bytes().subrange(15, 19) == le32(r.hold_progress),
{
    let b = r.dense_bytes();
    assert(b.subrange(1, 3) =~= le16(r.flags));
    assert(b.subrange(3, 7) =~= le32(r.x));
    assert(b.subrange(7, 11) =~= le32(r.y));
    assert(b.subrange(11, 15) =~= le32(r.show_progress));
    assert(b.subrange(15, 19) =~= le32(r.hold_progress));
}

/// A hold record: the kind, the flags, then `head_x`, `head_y`, `tail_x`, `tail_y`,
/// `rotate` and `scale` four bytes each from byte 3 on, and `holding` as the last byte
/// (1 for true, 0 for false).
pub proof fn law_hold_layout(r: RendHoldNote)
    ensures
        r.dense_bytes().len() == 28,
        r.dense_bytes()[0] == r.rend_type,
        r.dense_bytes().subrange(1, 3) == le16(r.flags),
        r.dense_bytes().subrange(3, 7) == le32(r.head_x),
        r.dense_bytes().subrange(7, 11) == le32(r.head_y),
        r.dense_bytes().subrange(11, 15) == le32(r.tail_x),
        r.dense_bytes().subrange(15, 19) == le32(r.tail_y),
        r.dense_bytes().subrange(19, 23) == le32(r.rotate),
        r.dense_bytes().subrange(23, 27) == le32(r.scale),
        r.dense_bytes()[27] == if r.holding { 1u8 } else { 0u8 },
{
    let b = r.dense_bytes();
    assert(b.subrange(1, 3) =~= le16(r.flags));
    assert(b.subrange(3, 7) =~= le32(r.head_x));
    assert(b.subrange(7, 11) =~= le32(r.head_y));
    assert(b.subrange(11, 15) =~= le32(r.tail_x));
    assert(b.subrange(15, 19) =~= le32(r.tail_y));
    assert(b.subrange(19, 23) =~= le32(r.rotate));
    assert(b.subrange(23, 27) =~= le32(r.scale));
}

/// A slide arrow record: the kind, the flags, then `x`, `y`, `rotate` and `alpha` four
/// bytes each from byte 3 on.
pub proof fn law_slide_arrow_layout(r: RendSlideArrow)
    ensures
        r.dense_bytes().len() == 19,
        r.dense_bytes()[0] == r.rend_type,
        r.dense_bytes().subrange(1, 3) == le16(r.flags),
        r.dense_bytes().subrange(3, 7) == le32(r.x),
        r.dense_bytes().subrange(7, 11) == le32(r.y),
        r.dense_bytes().subrange(11, 15) == le32(r.rotate),
        r.dense_bytes().subrange(15, 19) == le32(r.alpha),
{
    let b = r.dense_bytes();
    assert(b.subrange(1, 3) =~= le16(r.flags));
    assert(b.subrange(3, 7) =~= le32(r.x));
    assert(b.subrange(7, 11) =~= le32(r.y));
    assert(b.subrange(11, 15) =~= le32(r.rotate));
    assert(b.subrange(15, 19) =~= le32(r.alpha));
}

/// A hint line record: the kind, the flags, `slide` at byte 3 (1 for true, 0 for false),
/// then `scale`, `rotate` and `alpha` four bytes each from byte 4 on.
pub proof fn law_hint_layout(r: RendHintLine)
    ensures
        r.dense_bytes().len() == 16,
        r.dense_bytes()[0] == r.rend_type,
        r.dense_bytes().subrange(1, 3) == le16(r.flags),
        r.dense_bytes()[3] == if r.slide { 1u8 } else { 0u8 },
        r.dense_bytes().subrange(4, 8) == le32(r.scale),
        r.dense_bytes().subrange(8, 12) == le32(r.rotate),
        r.dense_bytes().subrange(12, 16) == le32(r.alpha),
{
    let b = r.dense_bytes();
    assert(b.subrange(1, 3) =~= le16(r.flags));
    assert(b.subrange(4, 8) =~= le32(r.scale));
    assert(b.subrange(8, 12) =~= le32(r.rotate));
    assert(b.subrange(12, 16) =~= le32(r.alpha));
}

/// An each hint line record: the kind, `serial` at byte 1, then `scale` at 2..6 and
/// `rotate` at 6..10.
pub proof fn law_each_hint_layout(r: RendEachHintLine)
    ensures
        r.dense_bytes().len() == 10,
        r.dense_bytes()[0] == r.rend_type,
        r.dense_bytes()[1] == r.serial,
        r.dense_bytes().subrange(2, 6) == le32(r.scale),
        r.dense_bytes().subrange(6, 10) == le32(r.rotate),
{
    let b = r.dense_bytes();
    assert(b.subrange(2, 6) =~= le32(r.scale));
    assert(b.subrange(6, 10) =~= le32(r.rotate));
}

/// A fan arrow record: the kind, the flags at 1..3, `index` at byte 3, then `x`, `y`,
/// `rotate` and `alpha` four bytes each from byte 4 on.
pub proof fn law_wifi_arrow_layout(r: RendSlideWifiArrow)
    ensures
        r.dense_bytes().len() == 20,
        r.dense_bytes()[0] == r.rend_type,
        r.dense_bytes().subrange(1, 3) == le16(r.flags),
        r.dense_bytes()[3] == r.index,
        r.dense_bytes().subrange(4, 8) == le32(r.x),
        r.dense_bytes().subrange(8, 12) == le32(r.y),
        r.dense_bytes().subrange(12, 16) == le32(r.rotate),
        r.dense_bytes().subrange(16, 20) == le32(r.alpha),
{
    let b = r.dense_bytes();
    assert(b.subrange(1, 3) =~= le16(r.flags));
    assert(b.subrange(4, 8) =~= le32(r.x));
    assert(b.subrange(8, 12) =~= le32(r.y));
    assert(b.subrange(12, 16) =~= le32(r.rotate));
    assert(b.subrange(16, 20) =~= le32(r.alpha));
}

/// Each record's bytes are as long as its packed struct: the sum of its fields' sizes.
pub proof fn law_record_sizes(
    tap: RendTapNote,
    touch: RendTouchNote,
    touch_hold: RendTouchHoldNote,
    hold: RendHoldNote,
    arrow: RendSlideArrow,
    hint: RendHintLine,
    each_hint: RendEachHintLine,
    wifi: RendSlideWifiArrow,
)
    ensures
        tap.dense_bytes().len() == 23,
        touch.dense_bytes().len() == 15,
        touch_hold.dense_bytes().len() == 19,
        hold.dense_bytes().len() == 28,
        arrow.dense_bytes().len() == 19,
        hint.dense_bytes().len() == 16,
        each_hint.dense_bytes().len() == 10,
        wifi.dense_bytes().len() == 20,
        tap.dense_bytes()[0] == tap.rend_type,
        hold.dense_bytes()[27] == bool_byte(hold.holding),
{
}

} // verus!
