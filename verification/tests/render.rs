use orbtiama_core::render::element::{
    Dense, RendEachHintLine, RendHintLine, RendHoldNote, RendTapNote, REND_TYPE_HOLD, REND_TYPE_TAP,
};
use orbtiama_core::render::state::setting::MirrorMode;

#[test]
fn tap_record_layout() {
    let r = RendTapNote {
        rend_type: REND_TYPE_TAP,
        flags: 0x0241,
        x: 1.0f32.to_bits(),
        y: (-0.5f32).to_bits(),
        rotate: 0,
        scale: 2.0f32.to_bits(),
        alpha: 1.0f32.to_bits(),
    };
    let bytes = r.to_bytes();
    assert_eq!(bytes.len(), 23);
    assert_eq!(bytes[0], 1);
    assert_eq!(&bytes[1..3], &0x0241u16.to_le_bytes());
    assert_eq!(&bytes[3..7], &1.0f32.to_le_bytes());
    assert_eq!(&bytes[7..11], &(-0.5f32).to_le_bytes());
    assert_eq!(&bytes[11..15], &[0, 0, 0, 0]);
    assert_eq!(&bytes[19..23], &1.0f32.to_le_bytes());
}

#[test]
fn hold_and_hint_records_end_with_their_flags() {
    let h = RendHoldNote {
        rend_type: REND_TYPE_HOLD,
        flags: 3,
        head_x: 0,
        head_y: 0,
        tail_x: 0,
        tail_y: 0,
        rotate: 0,
        scale: 0,
        holding: true,
    };
    let b = h.to_bytes();
    assert_eq!(b.len(), 28);
    assert_eq!(b[27], 1);
    let l = RendHintLine { rend_type: 7, flags: 0, slide: true, scale: 5, rotate: 6, alpha: 7 };
    let b = l.to_bytes();
    assert_eq!(b.len(), 16);
    assert_eq!(b[3], 1);
    assert_eq!(&b[4..8], &5u32.to_le_bytes());
    let e = RendEachHintLine { rend_type: 8, serial: 2, scale: 0x01020304, rotate: 0 };
    assert_eq!(e.to_bytes(), vec![8, 2, 4, 3, 2, 1, 0, 0, 0, 0]);
}

#[test]
fn mirror_modes() {
    assert_eq!(MirrorMode::default(), MirrorMode::NoMirror);
    assert!(!MirrorMode::NoMirror.flips_x() && !MirrorMode::NoMirror.keeps_y());
    assert!(MirrorMode::Horizontal.flips_x() && !MirrorMode::Horizontal.keeps_y());
    assert!(!MirrorMode::Vertical.flips_x() && MirrorMode::Vertical.keeps_y());
    assert!(MirrorMode::Both.flips_x() && MirrorMode::Both.keeps_y());
}
