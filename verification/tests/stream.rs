use infinigpu::viewer::decoder::Picture;
use infinigpu::viewer::stream::{
    cursor_change, on_read, plane_message, route, Arrival, CursorChange, CursorShape, CursorSlot,
    Decoded, DecodedFrame, End, FrameHeader, FrameSlot, PlaneCodes, PlaneHeader, Received, Route,
    Session, StreamDecoder, Sync, Turn,
};
use openh264::encoder::Encoder;
use openh264::formats::{RgbaSliceU8, YUVBuffer};

fn codes() -> PlaneCodes {
    PlaneCodes {
        magic: 0x4c50_4958,
        header_len: 8,
        cursor: 1,
        define: 10,
        moved: 11,
        destroy: 12,
        visible: 1,
        premultiplied: 2,
    }
}

fn header(op: u32, flags: u32, width: u16, height: u16) -> PlaneHeader {
    PlaneHeader { plane_kind: 1, op, flags, width, height, hot_x: 3, hot_y: 4 }
}

fn frame(seq: u32) -> DecodedFrame {
    DecodedFrame { rgba: vec![0; 4], width: 1, height: 1, seq, keyframe: false }
}

/// A plane message with `body` bytes of pixels.
fn message(body: usize) -> Vec<u8> {
    let mut m = 0x4c50_4958u32.to_le_bytes().to_vec();
    m.extend([9, 9, 9, 9]);
    m.extend((0..body).map(|i| i as u8));
    m
}

#[test]
fn the_newest_frame_wins_and_is_taken_once() {
    let mut s = FrameSlot::new();
    assert!(s.take().is_none());
    s.put(frame(1));
    s.put(frame(2));
    assert_eq!(s.take().unwrap().seq, 2);
    assert!(s.take().is_none());
}

#[test]
fn a_slot_counts_shapes_and_keeps_the_newest() {
    let mut s = CursorSlot::new();
    assert!(!s.has_shape());
    let (active, visible, shape, version) = s.snapshot();
    assert!(!active && !visible && shape.is_none());
    assert_eq!(version, 0);

    let shape = |w: u16| CursorShape {
        bgra: vec![w as u8; w as usize * 4],
        w,
        h: 1,
        hot_x: 0,
        hot_y: 0,
        premultiplied: true,
    };
    s.define(shape(1), true);
    s.define(shape(2), false);
    assert!(s.has_shape());
    let (active, visible, now, version) = s.snapshot();
    assert!(active && !visible);
    assert_eq!(now.unwrap().bgra, vec![2; 8]);
    assert_eq!(version, 2);
    s.set_visible(true);
    let (_, visible, _, version) = s.snapshot();
    assert!(visible);
    assert_eq!(version, 2);
    s.version = u64::MAX;
    s.define(shape(3), true);
    assert_eq!(s.version, 0);
}

#[test]
fn showing_a_cursor_without_a_shape_only_makes_it_active() {
    let mut s = CursorSlot::new();
    s.apply(CursorChange::Show { visible: true });
    let (active, visible, shape, version) = s.snapshot();
    assert!(active && visible && shape.is_none());
    assert_eq!(version, 0);
    s.apply(CursorChange::Nothing);
    assert!(s.active);
}

#[test]
fn plane_messages_are_told_by_their_first_word() {
    assert!(plane_message(&message(0), &codes()));
    assert!(!plane_message(&[0x58, 0x49, 0x50], &codes()));
    assert!(!plane_message(&[], &codes()));
    assert!(!plane_message(&[0x4c, 0x50, 0x49, 0x58], &codes()));
}

#[test]
fn a_new_shape_needs_all_its_pixels() {
    let h = header(10, 3, 2, 1);
    match cursor_change(&message(9), &codes(), &h) {
        CursorChange::Define { shape, visible } => {
            assert!(visible);
            assert_eq!(shape.bgra, vec![0, 1, 2, 3, 4, 5, 6, 7]);
            assert_eq!((shape.w, shape.h, shape.hot_x, shape.hot_y), (2, 1, 3, 4));
            assert!(shape.premultiplied);
        }
        _ => panic!("a shape was expected"),
    }
    assert!(matches!(cursor_change(&message(7), &codes(), &h), CursorChange::Nothing));
    for (w, height) in [(0, 1), (1, 0)] {
        let h = header(10, 3, w, height);
        assert!(matches!(cursor_change(&message(9), &codes(), &h), CursorChange::Nothing));
    }
    match cursor_change(&message(8), &codes(), &header(10, 0, 1, 1)) {
        CursorChange::Define { shape, visible } => {
            assert!(!visible && !shape.premultiplied);
        }
        _ => panic!("a shape was expected"),
    }
}

#[test]
fn moves_carry_visibility_and_a_destroyed_cursor_is_hidden() {
    let shown = |op, flags| match cursor_change(&message(0), &codes(), &header(op, flags, 1, 1)) {
        CursorChange::Show { visible } => Some(visible),
        _ => None,
    };
    assert_eq!(shown(11, 1), Some(true));
    assert_eq!(shown(11, 0), Some(false));
    assert_eq!(shown(12, 1), Some(false));
    assert_eq!(shown(13, 1), None);
    let other = PlaneHeader { plane_kind: 2, ..header(11, 1, 1, 1) };
    assert!(matches!(cursor_change(&message(0), &codes(), &other), CursorChange::Nothing));
}

#[test]
fn plane_messages_never_reach_the_decoder() {
    let video = Some(FrameHeader { frame_seq: 7, keyframe: true });
    let plane = Some(header(11, 1, 1, 1));
    assert!(matches!(route(&message(0), &codes(), plane, video), Route::Cursor(_)));
    assert!(matches!(route(&message(0), &codes(), None, video), Route::Unread));
    match route(&[1, 2, 3, 4], &codes(), None, video) {
        Route::Video(h) => assert_eq!(h.frame_seq, 7),
        _ => panic!("a frame was expected"),
    }
    assert!(matches!(route(&[1, 2, 3, 4], &codes(), None, None), Route::BadHeader));
}

#[test]
fn what_follows_a_read() {
    assert_eq!(on_read(Received::Binary), Turn::Handle);
    assert_eq!(on_read(Received::Ping), Turn::Pong);
    assert_eq!(on_read(Received::Close), Turn::Stop);
    assert_eq!(on_read(Received::Closed), Turn::Stop);
    assert_eq!(on_read(Received::Other), Turn::ReadOn);
    assert_eq!(on_read(Received::NotYet), Turn::ReadOn);
    assert_eq!(on_read(Received::Failed), Turn::Fail);
}

#[test]
fn decoding_waits_for_a_keyframe_and_again_after_a_failure() {
    let key = FrameHeader { frame_seq: 1, keyframe: true };
    let delta = FrameHeader { frame_seq: 2, keyframe: false };
    let picture = || Decoded::Picture(Picture { rgba: vec![1, 2, 3, 4], width: 1, height: 1 });
    let mut s = Sync::new();
    assert!(!s.wants(&delta));
    assert!(s.wants(&key));
    assert!(s.settle(&key, Decoded::Nothing).is_none());
    assert!(!s.wants(&delta));
    let f = s.settle(&key, picture()).unwrap();
    assert_eq!((f.width, f.height, f.seq, f.keyframe), (1, 1, 1, true));
    assert_eq!(f.rgba, vec![1, 2, 3, 4]);
    assert!(s.wants(&delta));
    assert!(s.settle(&delta, Decoded::Nothing).is_none());
    assert!(s.wants(&delta));
    assert!(s.settle(&delta, Decoded::Failed).is_none());
    assert!(!s.wants(&delta));
    assert!(s.wants(&key));
}

fn encoded(encoder: &mut Encoder, shade: u8) -> Vec<u8> {
    let rgba: Vec<u8> = (0..32 * 16).flat_map(|_| [shade, shade, shade, 255]).collect();
    let yuv = YUVBuffer::from_rgb_source(RgbaSliceU8::new(&rgba, (32, 16)));
    encoder.encode(&yuv).unwrap().to_vec()
}

#[test]
fn a_stream_decodes_to_pictures() {
    let mut encoder = Encoder::new().unwrap();
    let mut first = vec![0xaa; 32];
    first.extend(encoded(&mut encoder, 200));
    let mut second = vec![0xaa; 32];
    second.extend(encoded(&mut encoder, 210));

    let key = FrameHeader { frame_seq: 5, keyframe: true };
    let delta = FrameHeader { frame_seq: 6, keyframe: false };
    let mut d = StreamDecoder::new().unwrap();
    assert!(d.on_frame(&second, 32, &delta).is_none());
    let f = d.on_frame(&first, 32, &key).unwrap();
    assert_eq!((f.width, f.height, f.seq, f.keyframe), (32, 16, 5, true));
    assert_eq!(f.rgba.len(), 32 * 16 * 4);
    for p in f.rgba.chunks_exact(4) {
        assert!(p[..3].iter().all(|&c| (c as i32 - 200).abs() <= 8));
        assert_eq!(p[3], 255);
    }
    let f = d.on_frame(&second, 32, &delta).unwrap();
    assert_eq!((f.seq, f.keyframe), (6, false));
    assert!((f.rgba[0] as i32 - 210).abs() <= 8);
}

#[test]
fn a_stream_goes_on_until_its_end_and_no_further() {
    let mut encoder = Encoder::new().unwrap();
    let mut first = vec![0xaa; 32];
    first.extend(encoded(&mut encoder, 200));
    let mut second = vec![0xaa; 32];
    second.extend(encoded(&mut encoder, 210));
    let key = Some(FrameHeader { frame_seq: 5, keyframe: true });
    let delta = Some(FrameHeader { frame_seq: 6, keyframe: false });
    let plane = Some(header(11, 1, 1, 1));

    let mut s = Session::new().unwrap();
    assert_eq!(s.on_read(Received::Binary), Turn::Handle);
    assert!(matches!(s.on_message(&second, &codes(), None, delta, 32), Arrival::Nothing));
    assert!(matches!(s.on_message(&second, &codes(), None, None, 32), Arrival::BadHeader));
    assert!(matches!(
        s.on_message(&message(0), &codes(), plane, None, 32),
        Arrival::Cursor(CursorChange::Show { visible: true })
    ));
    assert!(matches!(s.on_message(&message(0), &codes(), None, None, 32), Arrival::Nothing));
    match s.on_message(&first, &codes(), None, key, 32) {
        Arrival::Frame(f) => assert_eq!((f.seq, f.keyframe, f.width), (5, true, 32)),
        _ => panic!("a frame was expected"),
    }
    s.on_shown(true);
    assert_eq!(s.on_read(Received::Ping), Turn::Pong);
    assert_eq!(s.on_read(Received::NotYet), Turn::ReadOn);
    assert_eq!(s.end(), None);
    assert!(matches!(s.on_message(&second, &codes(), None, delta, 32), Arrival::Frame(_)));
    s.on_shown(false);
    assert_eq!(s.end(), Some(End::Enough));
    assert!(matches!(s.on_message(&first, &codes(), None, key, 32), Arrival::Nothing));
    assert_eq!(s.on_read(Received::Failed), Turn::Stop);
    assert_eq!(s.end(), Some(End::Enough));

    let mut s = Session::new().unwrap();
    assert_eq!(s.on_read(Received::Close), Turn::Stop);
    assert_eq!(s.end(), Some(End::Closed));
    let mut s = Session::new().unwrap();
    assert_eq!(s.on_read(Received::Failed), Turn::Fail);
    assert_eq!(s.end(), Some(End::Broken));
}

#[test]
fn damaged_bytes_lose_the_sync() {
    let mut encoder = Encoder::new().unwrap();
    let first = encoded(&mut encoder, 100);
    let second = encoded(&mut encoder, 120);
    let key = FrameHeader { frame_seq: 1, keyframe: true };
    let delta = FrameHeader { frame_seq: 2, keyframe: false };
    let mut d = StreamDecoder::new().unwrap();
    assert!(d.on_frame(&second, 0, &key).is_none());
    assert!(d.on_frame(&first, 0, &delta).is_none());
    assert!(d.on_frame(&first, 0, &key).is_some());
    assert!(d.on_frame(&second, 0, &delta).is_some());
}
