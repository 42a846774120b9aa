use infinigpu::viewer::cli::{
    find_text, parse_args, resolve_url, set_ws_port, wants_debug, Options, Refusal,
};
use infinigpu::viewer::compose::{blend_sprite, ingest_frame};
use infinigpu::viewer::headless::{lit_pixels, verdict, ProbeError, Tally};
use infinigpu::viewer::input::{key, mouse_button, qcode, wheel, Held, Key, MouseButton};

#[test]
fn blend_sprite_composites_and_clips_safely() {
    // 4x4 opaque-black BGRA frame.
    let mut frame = vec![0u8; 4 * 4 * 4];
    // 2x2 sprite: top-left opaque white, top-right fully transparent, bottom row 50% white.
    let mut sprite = vec![0u8; 2 * 2 * 4];
    sprite[0..4].copy_from_slice(&[255, 255, 255, 255]);
    sprite[4..8].copy_from_slice(&[255, 255, 255, 0]);
    sprite[8..12].copy_from_slice(&[128, 128, 128, 128]);
    sprite[12..16].copy_from_slice(&[128, 128, 128, 128]);

    blend_sprite(&mut frame, 4, 4, &sprite, 2, 2, 1, 1, true);

    let px = |x: usize, y: usize| {
        let i = (y * 4 + x) * 4;
        [frame[i], frame[i + 1], frame[i + 2], frame[i + 3]]
    };
    assert_eq!(px(1, 1), [255, 255, 255, 0], "opaque white pasted at (1,1)");
    assert_eq!(px(2, 1), [0, 0, 0, 0], "transparent sprite pixel left the frame black");
    assert_eq!(px(1, 2), [128, 128, 128, 0], "premultiplied blend");
    assert_eq!(px(0, 0), [0, 0, 0, 0]);

    // A placement partly off the right/bottom edge must not panic or corrupt out-of-range.
    blend_sprite(&mut frame, 4, 4, &sprite, 2, 2, 3, 3, true);
    // A wholly off-screen placement is a no-op.
    let before = frame.clone();
    blend_sprite(&mut frame, 4, 4, &sprite, 2, 2, -10, -10, true);
    assert_eq!(frame, before);
    // A truncated sprite buffer is rejected (no OOB).
    blend_sprite(&mut frame, 4, 4, &[0u8; 3], 2, 2, 0, 0, true);
    assert_eq!(frame, before);
}

#[test]
fn a_sprite_off_the_frame_is_skipped_wherever_it_is() {
    let mut dst = [9u8; 4];
    blend_sprite(&mut dst, 1, 1, &[255u8; 8], 1, 2, 0, i32::MAX, true);
    blend_sprite(&mut dst, 1, 1, &[255u8; 8], 2, 1, i32::MAX, 0, true);
    blend_sprite(&mut dst, 1, 1, &[255u8; 8], 2, 1, i32::MIN, i32::MIN, false);
    blend_sprite(&mut dst, 1, 1, &[255u8; 8], usize::MAX, usize::MAX, 0, 0, false);
    assert_eq!(dst, [9; 4]);
    blend_sprite(&mut dst, 1, 1, &[255u8; 8], 1, 2, 0, -1, true);
    assert_eq!(dst, [255, 255, 255, 9]);
    // Of a frame of two rows only the first is there, and only that is painted.
    let mut short = [9u8; 4];
    blend_sprite(&mut short, 1, 2, &[1, 2, 3, 255, 7, 7, 7, 0], 1, 2, 0, 0, false);
    assert_eq!(short, [1, 2, 3, 9]);
}

#[test]
fn straight_alpha_scales_the_sprite() {
    let mut frame = vec![100, 50, 0, 7];
    blend_sprite(&mut frame, 1, 1, &[200, 0, 255, 51], 1, 1, 0, 0, false);
    // 51 of 255 is a fifth: (200 + 4*100)/5, (4*50)/5, 255/5.
    assert_eq!(frame, vec![120, 40, 51, 7]);
    let mut frame = vec![200, 200, 200, 7];
    blend_sprite(&mut frame, 1, 1, &[255, 0, 0, 128], 1, 1, 0, 0, true);
    // Premultiplied colours that are brighter than their alpha stop at white.
    assert_eq!(frame, vec![255, 99, 99, 7]);
}

#[test]
fn frames_come_in_with_red_and_blue_swapped() {
    let mut clean = vec![9; 12];
    ingest_frame(&mut clean, 2, 2, &[1, 2, 3, 4, 5, 6, 7, 8, 10, 11]);
    assert_eq!(clean, vec![3, 2, 1, 255, 7, 6, 5, 255, 9, 9, 9, 9, 0, 0, 0, 0]);
    ingest_frame(&mut clean, 1, 1, &[1, 2, 3, 4, 5, 6, 7, 8]);
    assert_eq!(clean, vec![3, 2, 1, 255]);
}

#[test]
fn button_messages() {
    assert_eq!(mouse_button(MouseButton::Left, true).unwrap(), r#"{"t":"b","b":"l","d":1}"#);
    assert_eq!(mouse_button(MouseButton::Right, false).unwrap(), r#"{"t":"b","b":"r","d":0}"#);
    assert_eq!(mouse_button(MouseButton::Middle, true).unwrap(), r#"{"t":"b","b":"m","d":1}"#);
    assert_eq!(mouse_button(MouseButton::Other, true), None);
}

#[test]
fn wheel_messages() {
    assert_eq!(wheel(0.0f32.to_bits()), None);
    assert_eq!(wheel((-0.0f32).to_bits()), None);
    let up = Some(r#"{"t":"w","d":1}"#.to_string());
    let down = Some(r#"{"t":"w","d":-1}"#.to_string());
    for y in [1.0f32, 0.25, f32::MIN_POSITIVE, f32::INFINITY] {
        assert_eq!(wheel(y.to_bits()), up);
        assert_eq!(wheel((-y).to_bits()), down);
    }
    assert_eq!(wheel(f32::NAN.to_bits()), down);
}

#[test]
fn key_messages() {
    assert_eq!(key(Key::KeyA, true).unwrap(), r#"{"t":"k","q":"a","d":1}"#);
    assert_eq!(key(Key::Enter, false).unwrap(), r#"{"t":"k","q":"ret","d":0}"#);
    assert_eq!(key(Key::Quote, true).unwrap(), r#"{"t":"k","q":"apostrophe","d":1}"#);
    assert_eq!(key(Key::Other, true), None);
}

#[test]
fn key_codes() {
    let all = [
        (Key::KeyZ, "z"), (Key::Digit0, "0"), (Key::Escape, "esc"), (Key::Space, "spc"),
        (Key::Backspace, "backspace"), (Key::Tab, "tab"), (Key::CapsLock, "caps_lock"),
        (Key::ShiftLeft, "shift"), (Key::ShiftRight, "shift_r"), (Key::ControlLeft, "ctrl"),
        (Key::ControlRight, "ctrl_r"), (Key::AltLeft, "alt"), (Key::AltRight, "alt_r"),
        (Key::SuperLeft, "meta_l"), (Key::SuperRight, "meta_r"), (Key::ContextMenu, "menu"),
        (Key::Minus, "minus"), (Key::Equal, "equal"), (Key::BracketLeft, "bracket_left"),
        (Key::BracketRight, "bracket_right"), (Key::Backslash, "backslash"),
        (Key::Semicolon, "semicolon"), (Key::Comma, "comma"), (Key::Period, "dot"),
        (Key::Slash, "slash"), (Key::Backquote, "grave_accent"), (Key::ArrowUp, "up"),
        (Key::ArrowDown, "down"), (Key::ArrowLeft, "left"), (Key::ArrowRight, "right"),
        (Key::Home, "home"), (Key::End, "end"), (Key::PageUp, "pgup"), (Key::PageDown, "pgdn"),
        (Key::Insert, "insert"), (Key::Delete, "delete"), (Key::F1, "f1"), (Key::F12, "f12"),
        (Key::Numpad0, "kp_0"), (Key::Numpad9, "kp_9"), (Key::NumpadAdd, "kp_add"),
        (Key::NumpadSubtract, "kp_subtract"), (Key::NumpadMultiply, "kp_multiply"),
        (Key::NumpadDivide, "kp_divide"), (Key::NumpadEnter, "kp_enter"),
        (Key::NumpadDecimal, "kp_decimal"),
    ];
    for (k, q) in all {
        assert_eq!(qcode(k), Some(q));
    }
    assert_eq!(qcode(Key::Other), None);
}

#[test]
fn losing_the_focus_releases_what_is_held() {
    let mut h = Held::new();
    assert!(h.key_event(Key::ControlLeft, true, false).is_some());
    assert!(h.key_event(Key::ControlLeft, true, true).is_none());
    assert!(h.key_event(Key::Other, true, false).is_none());
    assert!(h.key_event(Key::KeyC, true, false).is_some());
    assert!(h.key_event(Key::KeyC, true, false).is_some());
    assert!(h.key_event(Key::KeyX, true, false).is_some());
    assert!(h.key_event(Key::KeyX, false, false).is_some());
    assert!(h.button_event(MouseButton::Left, true).is_some());
    assert!(h.button_event(MouseButton::Right, true).is_some());
    assert!(h.button_event(MouseButton::Left, false).is_some());
    assert!(h.button_event(MouseButton::Middle, false).is_some());
    assert_eq!(
        h.release_all(),
        vec![
            r#"{"t":"k","q":"ctrl","d":0}"#,
            r#"{"t":"k","q":"c","d":0}"#,
            r#"{"t":"b","b":"r","d":0}"#,
        ]
    );
    assert!(h.release_all().is_empty());
}

#[test]
fn ports_are_replaced_or_added() {
    assert_eq!(set_ws_port("ws://192.168.0.199", 6120), "ws://192.168.0.199:6120");
    assert_eq!(set_ws_port("ws://host:8090/a/b:c", 1), "ws://host:1/a/b:c");
    assert_eq!(set_ws_port("wss://host/", 65535), "wss://host:65535/");
    assert_eq!(set_ws_port("host:7", 80), "ws://host:80");
    assert_eq!(set_ws_port("", 80), "ws://:80");
    assert_eq!(set_ws_port("ws://[::1]:8090/x", 6120), "ws://[::1]:6120/x");
    assert_eq!(set_ws_port("ws://[fe80::1]", 6120), "ws://[fe80::1]:6120");
    assert_eq!(set_ws_port("ws://me:word@host:1/p", 2), "ws://me:word@host:2/p");
    assert_eq!(set_ws_port("ws://host:1?a=b:c/d", 2), "ws://host:2?a=b:c/d");
    let twice = set_ws_port(&set_ws_port("ws://h/p", 1), 2);
    assert_eq!(twice, set_ws_port("ws://h/p", 2));
}

#[test]
fn texts_are_found_at_their_first_place() {
    assert_eq!(find_text("a://b://", "://"), Some(1));
    assert_eq!(find_text("ab", "://"), None);
    assert_eq!(find_text("ab", ""), Some(0));
    assert_eq!(find_text("", "a"), None);
    assert_eq!(find_text("äöü", "ü"), Some(2));
}

#[test]
fn the_server_to_connect_to() {
    let s = |t: &str| Some(t.to_string());
    assert_eq!(resolve_url(None, None), "ws://127.0.0.1:8090");
    assert_eq!(resolve_url(None, Some(6120)), "ws://127.0.0.1:6120");
    assert_eq!(resolve_url(s("ws://HOST"), None), "ws://HOST");
    assert_eq!(resolve_url(s("ws://HOST"), Some(6120)), "ws://HOST:6120");
}

fn args(a: &[&str]) -> Vec<String> {
    a.iter().map(|s| s.to_string()).collect()
}

fn good(a: &[&str]) -> Options {
    match parse_args(&args(a)) {
        Ok(o) => o,
        Err(_) => panic!("refused: {a:?}"),
    }
}

#[test]
fn options_are_read() {
    let o = good(&[]);
    assert!(!o.headless);
    assert_eq!((o.frames, o.out, o.url, o.port), (60, None, None, None));
    let o = good(&["--headless", "--frames", "+3", "--out", "--debug", "--port", "6120"]);
    assert!(o.headless);
    assert_eq!((o.frames, o.out, o.url, o.port), (3, Some("--debug".into()), None, Some(6120)));
    let o = good(&["ws://a", "--debug", "wss://b:1"]);
    assert_eq!(o.url, Some("wss://b:1".into()));
    let one = good(&["--url", "ws://HOST", "--port", "6120"]);
    let two = good(&["--port", "6120", "--url", "ws://HOST"]);
    assert_eq!(resolve_url(one.url, one.port), "ws://HOST:6120");
    assert_eq!(resolve_url(two.url, two.port), "ws://HOST:6120");
}

#[test]
fn bad_arguments_are_refused() {
    for a in [
        vec!["--frames"],
        vec!["--frames", "x"],
        vec!["--frames", "-1"],
        vec!["--frames", "18446744073709551616"],
        vec!["--out"],
        vec!["--url"],
        vec!["--port"],
        vec!["--port", "65536"],
        vec!["--port", ""],
    ] {
        assert!(matches!(parse_args(&args(&a)), Err(Refusal::BadValue)), "{a:?}");
    }
    assert!(matches!(parse_args(&args(&["-h"])), Err(Refusal::Help)));
    assert!(matches!(parse_args(&args(&["--help", "x"])), Err(Refusal::Help)));
    match parse_args(&args(&["--headless", "ws:/", "--help"])) {
        Err(Refusal::Unknown(a)) => assert_eq!(a, "ws:/"),
        _ => panic!("an unknown argument was expected"),
    }
}

#[test]
fn debug_is_seen_anywhere() {
    assert!(wants_debug(&args(&["--out", "--debug"])));
    assert!(!wants_debug(&args(&["--out", "debug"])));
}

#[test]
fn lit_pixels_are_counted() {
    assert_eq!(lit_pixels(&[8, 8, 8, 255, 9, 0, 0, 0, 0, 9, 0, 0, 0, 0, 9, 0, 200, 200, 200]), 3);
    assert_eq!(lit_pixels(&[]), 0);
}

#[test]
fn a_headless_run_is_judged() {
    let mut t = Tally::new();
    assert_eq!(verdict(&t, 0, None), Err(ProbeError::NoFrames));
    assert!(t.frame(true, 2));
    assert_eq!(
        verdict(&t, 2, Some(&[200; 4])),
        Err(ProbeError::Ended { got: 1, frames: 2 })
    );
    assert!(!t.frame(false, 2));
    assert_eq!((t.got, t.keyframes), (2, 1));
    assert_eq!(verdict(&t, 2, Some(&[8, 8, 8, 255])), Err(ProbeError::Black));
    assert_eq!(verdict(&t, 2, Some(&[8, 9, 8, 255])), Ok(()));
    assert_eq!(ProbeError::NoFrames.message(), "no frames decoded");
    assert_eq!(
        ProbeError::Ended { got: 1, frames: 2 }.message(),
        "stream ended after 1/2 frames"
    );
    assert_eq!(
        ProbeError::Black.message(),
        "last frame is entirely black — decode produced no content"
    );
}
