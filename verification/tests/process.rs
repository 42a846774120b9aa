use infinigpu::replay::frame::{Frame, PresentStats};
use infinigpu::replay::process::{
    read_response, response_needs, write_error, write_frame, write_outcome, RenderRequest,
    RequestError, ResponseError, MAX_FRAME, REQUEST_LEN,
};

fn bits(c: [f32; 4]) -> [u32; 4] {
    [c[0].to_bits(), c[1].to_bits(), c[2].to_bits(), c[3].to_bits()]
}

#[test]
fn request_round_trips() {
    for req in [
        RenderRequest::Clear { width: 640, height: 480, rgba: bits([0.1, 0.2, 0.3, 1.0]) },
        RenderRequest::Triangle { width: 1920, height: 1080, bg: bits([0.0, 0.5, 1.0, 1.0]) },
    ] {
        let mut buf = Vec::new();
        req.write_to(&mut buf);
        assert_eq!(RenderRequest::read_from(&buf).unwrap().unwrap(), req);
    }
}

#[test]
fn request_bytes() {
    let mut buf = Vec::new();
    RenderRequest::Clear { width: 0x0102_0304, height: 5, rgba: [1, 2, 0xa0b0_c0d0, 4] }
        .write_to(&mut buf);
    assert_eq!(
        buf,
        vec![
            1, 4, 3, 2, 1, 5, 0, 0, 0, 1, 0, 0, 0, 2, 0, 0, 0, 0xd0, 0xc0, 0xb0, 0xa0, 4, 0, 0, 0
        ]
    );
    assert_eq!(buf.len(), REQUEST_LEN);
}

#[test]
fn empty_stream_is_clean_eof() {
    assert!(RenderRequest::read_from(&[]).unwrap().is_none());
}

#[test]
fn a_cut_or_foreign_request_is_an_error() {
    let mut buf = Vec::new();
    RenderRequest::Triangle { width: 1, height: 1, bg: [0; 4] }.write_to(&mut buf);
    for n in 1..REQUEST_LEN {
        assert_eq!(RenderRequest::read_from(&buf[..n]), Err(RequestError::UnexpectedEof));
    }
    buf[0] = 9;
    assert_eq!(RenderRequest::read_from(&buf), Err(RequestError::BadTag(9)));
    assert_eq!(RequestError::BadTag(9).message(), "bad request tag 9");
    assert_eq!(RequestError::UnexpectedEof.message(), "failed to fill whole buffer");
}

#[test]
fn frame_response_round_trips() {
    let frame = Frame { width: 2, height: 1, rgba: vec![1, 2, 3, 4, 5, 6, 7, 8] };
    let mut buf = Vec::new();
    write_frame(&mut buf, &frame);
    let got = read_response(&buf).unwrap();
    assert_eq!((got.width, got.height, got.rgba), (2, 1, frame.rgba));
}

#[test]
fn error_response_surfaces_message() {
    let mut buf = Vec::new();
    write_error(&mut buf, "boom");
    let err = read_response(&buf).unwrap_err();
    assert!(err.message().contains("boom"));
    assert_eq!(err.message(), "replay error: boom");
}

#[test]
fn a_broken_message_is_still_shown() {
    let err = read_response(&[1, 3, 0, 0, 0, b'a', 0xff, b'b']).unwrap_err();
    assert_eq!(err.message(), "replay error: a\u{fffd}b");
}

#[test]
fn a_long_message_is_cut() {
    let mut buf = Vec::new();
    write_error(&mut buf, &"x".repeat(5000));
    assert_eq!(response_needs(&buf), 5 + 4096);
    assert_eq!(read_response(&buf).unwrap_err().message().len(), 14 + 4096);
}

#[test]
fn a_frame_over_the_limit_is_refused_before_it_is_read() {
    let mut head = vec![0u8, 1, 0, 0, 0, 1, 0, 0, 0];
    head.extend_from_slice(&(MAX_FRAME as u32 + 1).to_le_bytes());
    assert_eq!(response_needs(&head), 13);
    let err = read_response(&head).unwrap_err();
    assert!(matches!(err, ResponseError::TooLarge));
    assert_eq!(err.message(), "replay response frame too large");
}

#[test]
fn a_reader_takes_exactly_one_response() {
    let mut stream = Vec::new();
    write_outcome(&mut stream, &Ok(Frame { width: 1, height: 1, rgba: vec![9, 8, 7, 6] }));
    write_outcome(&mut stream, &Err("no".to_string()));
    let mut got = Vec::new();
    while got.len() < response_needs(&got) {
        assert!(matches!(read_response(&got), Err(ResponseError::UnexpectedEof)));
        got.push(stream[got.len()]);
    }
    assert_eq!(got.len(), 17);
    assert_eq!(read_response(&got).unwrap().rgba, vec![9, 8, 7, 6]);
    assert_eq!(read_response(&stream[17..]).unwrap_err().message(), "replay error: no");
}

#[test]
fn ppm_drops_alpha_and_a_broken_pixel() {
    let f = Frame { width: 2, height: 13, rgba: vec![1, 2, 3, 4, 5, 6, 7, 8, 9] };
    let mut want = b"P6\n2 13\n255\n".to_vec();
    want.extend_from_slice(&[1, 2, 3, 5, 6, 7]);
    assert_eq!(f.to_ppm(), want);
    assert_eq!(f.pixel(1, 0), [5, 6, 7, 8]);
    let stats = PresentStats { present_us: 1, presented: true };
    assert!(stats.presented);
}
