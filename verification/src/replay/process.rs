//! The protocol between a device and the replay process of one VM: a request asks for a
//! render, a response carries the frame or says what went wrong.
use crate::arith::{low_u32, smaller, wrap_u32};
use crate::bytes::{copy_range, get_le32, law_word_reads_back, le32, push_all, push_le32, word_at};
use crate::replay::frame::Frame;
use crate::text::{decimal, push_decimal};
use vstd::prelude::*;
use vstd::string::{StringExecFns, StringSliceAdditionalSpecFns};
use vstd::utf8::{decode_utf8, encode_utf8, valid_utf8};

verus! {

pub const TAG_CLEAR: u8 = 1;

pub const TAG_TRIANGLE: u8 = 2;

pub const STATUS_OK: u8 = 0;

pub const STATUS_ERR: u8 = 1;

/// Bytes of a request.
pub const REQUEST_LEN: usize = 25;

/// The largest frame that a response may carry, in bytes.
pub const MAX_FRAME: usize = 0x1000_0000;

/// The part of an error message that is read, in bytes.
pub const MAX_MESSAGE: usize = 4096;

/// A render request. The colour channels are the bit patterns of 32-bit floats.
#[derive(Debug, Clone, Copy, PartialEq, Eq)]
pub enum RenderRequest {
    /// Clears to a colour and reads back.
    Clear { width: u32, height: u32, rgba: [u32; 4] },
    /// Draws the triangle over a background and reads back.
    Triangle { width: u32, height: u32, bg: [u32; 4] },
}

/// Why a request could not be read.
#[derive(Debug, Clone, Copy, PartialEq, Eq, Structural)]
pub enum RequestError {
    /// The stream ended inside the request.
    UnexpectedEof,
    /// No request has this tag.
    BadTag(u8),
}

impl RequestError {
    /// The words that `message` gives.
    pub open spec fn words(self) -> Seq<char> {
        match self {
            RequestError::UnexpectedEof => "failed to fill whole buffer"@,
            RequestError::BadTag(t) => "bad request tag "@ + decimal(t as nat),
        }
    }

    /// The error in words.
    pub fn message(&self) -> (s: String)
        ensures
            s@ == self.words(),
    {
        match *self {
            RequestError::UnexpectedEof => "failed to fill whole buffer".to_owned(),
            RequestError::BadTag(t) => {
                let mut s = "bad request tag ".to_owned();
                push_decimal(&mut s, t as u64);
                s
            },
        }
    }
}

/// Why no frame came back.
#[derive(Debug)]
pub enum ResponseError {
    /// The stream ended inside the response.
    UnexpectedEof,
    /// The response announces a frame over the limit.
    TooLarge,
    /// The replay process reported an error, in these words.
    Remote(String),
}

impl ResponseError {
    /// The words that `message` gives.
    pub open spec fn words(self) -> Seq<char> {
        match self {
            ResponseError::UnexpectedEof => "failed to fill whole buffer"@,
            ResponseError::TooLarge => "replay response frame too large"@,
            ResponseError::Remote(m) => "replay error: "@ + m@,
        }
    }

    /// The error in words.
    pub fn message(&self) -> (s: String)
        ensures
            s@ == self.words(),
    {
        match self {
            ResponseError::UnexpectedEof => "failed to fill whole buffer".to_owned(),
            ResponseError::TooLarge => "replay response frame too large".to_owned(),
            ResponseError::Remote(m) => {
                let mut s = "replay error: ".to_owned();
                s.append(m.as_str());
                s
            },
        }
    }
}

/// The bytes of a request: tag, width, height and the four channels.
pub open spec fn request_fields(tag: u8, width: u32, height: u32, color: [u32; 4]) -> Seq<u8> {
    seq![tag] + le32(width) + le32(height) + le32(color@[0]) + le32(color@[1]) + le32(color@[2])
        + le32(color@[3])
}

/// The four words from `at` on.
pub open spec fn four_words_at(s: Seq<u8>, at: int) -> Seq<u32> {
    seq![word_at(s, at), word_at(s, at + 4), word_at(s, at + 8), word_at(s, at + 12)]
}

impl RenderRequest {
    /// The bytes of the request on the wire.
    pub open spec fn wire(self) -> Seq<u8> {
        match self {
            RenderRequest::Clear { width, height, rgba } => request_fields(
                TAG_CLEAR,
                width,
                height,
                rgba,
            ),
            RenderRequest::Triangle { width, height, bg } => request_fields(
                TAG_TRIANGLE,
                width,
                height,
                bg,
            ),
        }
    }

    /// Whether the bytes are read as this request.
    pub open spec fn read_as(self, s: Seq<u8>) -> bool {
        match self {
            RenderRequest::Clear { width, height, rgba } => s[0] == TAG_CLEAR && width == word_at(
                s,
                1,
            ) && height == word_at(s, 5) && rgba@ == four_words_at(s, 9),
            RenderRequest::Triangle { width, height, bg } => s[0] == TAG_TRIANGLE && width
                == word_at(s, 1) && height == word_at(s, 5) && bg@ == four_words_at(s, 9),
        }
    }

    /// Writes the request.
    pub fn write_to(&self, out: &mut Vec<u8>)
        ensures
            final(out)@ == old(out)@ + self.wire(),
    {
        let (tag, width, height, color) = match *self {
            RenderRequest::Clear { width, height, rgba } => (TAG_CLEAR, width, height, rgba),
            RenderRequest::Triangle { width, height, bg } => (TAG_TRIANGLE, width, height, bg),
        };
        out.push(tag);
        push_le32(out, width);
        push_le32(out, height);
        push_le32(out, color[0]);
        push_le32(out, color[1]);
        push_le32(out, color[2]);
        push_le32(out, color[3]);
        assert(out@ =~= old(out)@ + request_fields(tag, width, height, color));
    }

    /// Reads the request that a stream starts with. A stream that is at its end holds no
    /// request; one that ends inside the request, or starts with another tag, is an error.
    pub fn read_from(s: &[u8]) -> (r: Result<Option<RenderRequest>, RequestError>)
        ensures
            s@.len() == 0 <==> r == Ok::<Option<RenderRequest>, RequestError>(None),
            0 < s@.len() < REQUEST_LEN <==> r == Err::<Option<RenderRequest>, RequestError>(
                RequestError::UnexpectedEof,
            ),
            s@.len() >= REQUEST_LEN && s@[0] != TAG_CLEAR && s@[0] != TAG_TRIANGLE ==> r == Err::<
                Option<RenderRequest>,
                RequestError,
            >(RequestError::BadTag(s@[0])),
            s@.len() >= REQUEST_LEN && (s@[0] == TAG_CLEAR || s@[0] == TAG_TRIANGLE) ==> {
                &&& r is Ok
                &&& r->Ok_0 is Some
                &&& (r->Ok_0->0).read_as(s@)
            },
    {
        if s.len() == 0 {
            return Ok(None);
        }
        if s.len() < REQUEST_LEN {
            return Err(RequestError::UnexpectedEof);
        }
        let width: u32 = get_le32(s, 1);
        let height: u32 = get_le32(s, 5);
        let color = [get_le32(s, 9), get_le32(s, 13), get_le32(s, 17), get_le32(s, 21)];
        assert(color@ =~= four_words_at(s@, 9));
        if s[0] == TAG_CLEAR {
            Ok(Some(RenderRequest::Clear { width, height, rgba: color }))
        } else if s[0] == TAG_TRIANGLE {
            Ok(Some(RenderRequest::Triangle { width, height, bg: color }))
        } else {
            Err(RequestError::BadTag(s[0]))
        }
    }
}

/// The bytes of a response that carries a frame.
pub open spec fn frame_response(f: Frame) -> Seq<u8> {
    seq![STATUS_OK] + le32(f.width) + le32(f.height) + le32(wrap_u32(f.rgba@.len() as int) as u32)
        + f.rgba@
}

/// The bytes of a response that reports an error.
pub open spec fn error_response(msg: Seq<char>) -> Seq<u8> {
    seq![STATUS_ERR] + le32(wrap_u32(encode_utf8(msg).len() as int) as u32) + encode_utf8(msg)
}

/// Writes a response that carries a frame.
pub fn write_frame(out: &mut Vec<u8>, frame: &Frame)
    ensures
        final(out)@ == old(out)@ + frame_response(*frame),
{
    out.push(STATUS_OK);
    push_le32(out, frame.width);
    push_le32(out, frame.height);
    push_le32(out, low_u32(frame.rgba.len()));
    push_all(out, frame.rgba.as_slice());
    assert(out@ =~= old(out)@ + frame_response(*frame));
}

/// Writes a response that reports an error.
pub fn write_error(out: &mut Vec<u8>, msg: &str)
    ensures
        final(out)@ == old(out)@ + error_response(msg@),
{
    let text: &[u8] = msg.as_bytes();
    out.push(STATUS_ERR);
    push_le32(out, low_u32(text.len()));
    push_all(out, text);
    assert(out@ =~= old(out)@ + error_response(msg@));
}

/// Writes the response to a render: its frame, or its error.
pub fn write_outcome(out: &mut Vec<u8>, rendered: &Result<Frame, String>)
    ensures
        final(out)@ == old(out)@ + match *rendered {
            Ok(f) => frame_response(f),
            Err(m) => error_response(m@),
        },
{
    match rendered {
        Ok(frame) => write_frame(out, frame),
        Err(msg) => write_error(out, msg.as_str()),
    }
}

/// The text that `String::from_utf8_lossy` makes of some bytes.
pub uninterp spec fn utf8_lossy(bytes: Seq<u8>) -> Seq<char>;

/// `String::from_utf8_lossy`: the text of the bytes, with a replacement character wherever they
/// are not UTF-8. Of bytes that are UTF-8 it is their text.
#[verifier::external_body]
fn from_utf8_lossy(bytes: &[u8]) -> (s: String)
    ensures
        s@ == utf8_lossy(bytes@),
        valid_utf8(bytes@) ==> s@ == decode_utf8(bytes@),
{
    String::from_utf8_lossy(bytes).into_owned()
}

/// The length of the error message that is read of a response.
pub open spec fn message_len(s: Seq<u8>) -> int {
    smaller(word_at(s, 1) as int, MAX_MESSAGE as int)
}

/// How many bytes of a response have to be there before it can be read, as far as the bytes
/// that are there tell.
pub open spec fn response_len(s: Seq<u8>) -> int {
    if s.len() < 1 {
        1
    } else if s[0] == STATUS_OK {
        if s.len() < 13 || word_at(s, 9) > MAX_FRAME {
            13
        } else {
            13 + word_at(s, 9)
        }
    } else if s.len() < 5 {
        5
    } else {
        5 + message_len(s)
    }
}

/// How many bytes of a response have to be there before it can be read, as far as the bytes
/// that are there tell. A reader that has fewer reads on; one that has as many can read it.
pub fn response_needs(s: &[u8]) -> (n: usize)
    ensures
        n == response_len(s@),
{
    if s.len() < 1 {
        1
    } else if s[0] == STATUS_OK {
        if s.len() < 13 {
            return 13;
        }
        let len: u32 = get_le32(s, 9);
        if len as usize > MAX_FRAME {
            13
        } else {
            13 + len as usize
        }
    } else if s.len() < 5 {
        5
    } else {
        let len: u32 = get_le32(s, 1);
        if len as usize > MAX_MESSAGE {
            5 + MAX_MESSAGE
        } else {
            5 + len as usize
        }
    }
}

/// What reading a response gives.
pub open spec fn response_post(s: Seq<u8>, r: Result<Frame, ResponseError>) -> bool {
    if s.len() < response_len(s) {
        r matches Err(ResponseError::UnexpectedEof)
    } else if s[0] == STATUS_OK {
        if word_at(s, 9) > MAX_FRAME {
            r matches Err(ResponseError::TooLarge)
        } else {
            &&& r is Ok
            &&& r->Ok_0.width == word_at(s, 1)
            &&& r->Ok_0.height == word_at(s, 5)
            &&& r->Ok_0.rgba@ == s.subrange(13, 13 + word_at(s, 9))
        }
    } else {
        &&& r matches Err(ResponseError::Remote(m))
        &&& m@ == utf8_lossy(s.subrange(5, 5 + message_len(s)))
        &&& valid_utf8(s.subrange(5, 5 + message_len(s))) ==> m@ == decode_utf8(
            s.subrange(5, 5 + message_len(s)),
        )
    }
}

/// Reads the response that a stream starts with. Any status but the one of a frame reports an
/// error; of its message no more than the limit is read.
pub fn read_response(s: &[u8]) -> (r: Result<Frame, ResponseError>)
    ensures
        response_post(s@, r),
{
    if s.len() < response_needs(s) {
        return Err(ResponseError::UnexpectedEof);
    }
    if s[0] == STATUS_OK {
        let len: usize = get_le32(s, 9) as usize;
        if len > MAX_FRAME {
            return Err(ResponseError::TooLarge);
        }
        Ok(
            Frame {
                width: get_le32(s, 1),
                height: get_le32(s, 5),
                rgba: copy_range(s, 13, 13 + len),
            },
        )
    } else {
        let n: usize = response_needs(s);
        let text = copy_range(s, 5, n);
        Err(ResponseError::Remote(from_utf8_lossy(text.as_slice())))
    }
}

/// A request reads back as it was written, whatever follows it in the stream; nothing else is
/// read from its bytes.
pub proof fn law_request_round_trips(req: RenderRequest, got: RenderRequest, rest: Seq<u8>)
    requires
        got.read_as(req.wire() + rest),
    ensures
        req.wire().len() == REQUEST_LEN,
        got == req,
{
    let s = req.wire() + rest;
    let (width, height, color) = match req {
        RenderRequest::Clear { width, height, rgba } => (width, height, rgba),
        RenderRequest::Triangle { width, height, bg } => (width, height, bg),
    };
    assert(s.subrange(1, 5) =~= le32(width));
    assert(s.subrange(5, 9) =~= le32(height));
    assert(s.subrange(9, 13) =~= le32(color@[0]));
    assert(s.subrange(13, 17) =~= le32(color@[1]));
    assert(s.subrange(17, 21) =~= le32(color@[2]));
    assert(s.subrange(21, 25) =~= le32(color@[3]));
    law_word_reads_back(width, s, 1);
    law_word_reads_back(height, s, 5);
    law_word_reads_back(color@[0], s, 9);
    law_word_reads_back(color@[1], s, 13);
    law_word_reads_back(color@[2], s, 17);
    law_word_reads_back(color@[3], s, 21);
    let back = match got {
        RenderRequest::Clear { rgba, .. } => rgba,
        RenderRequest::Triangle { bg, .. } => bg,
    };
    assert(back@ =~= color@);
    assert(back =~= color);
}

/// A frame reads back as it was written, whatever follows it in the stream, as long as it is
/// within the limit.
pub proof fn law_frame_round_trips(f: Frame, rest: Seq<u8>, r: Result<Frame, ResponseError>)
    requires
        f.rgba@.len() <= MAX_FRAME,
        response_post(frame_response(f) + rest, r),
    ensures
        r is Ok,
        r->Ok_0.width == f.width,
        r->Ok_0.height == f.height,
        r->Ok_0.rgba@ == f.rgba@,
{
    let s = frame_response(f) + rest;
    let n = f.rgba@.len() as u32;
    assert(s.subrange(1, 5) =~= le32(f.width));
    assert(s.subrange(5, 9) =~= le32(f.height));
    assert(s.subrange(9, 13) =~= le32(n));
    law_word_reads_back(f.width, s, 1);
    law_word_reads_back(f.height, s, 5);
    law_word_reads_back(n, s, 9);
    assert(s.subrange(13, 13 + n) =~= f.rgba@);
}

/// An error's message reaches the other side, whatever follows it in the stream, as long as it
/// is within the limit; of a longer one its first part is read.
pub proof fn law_error_round_trips(msg: Seq<char>, rest: Seq<u8>, r: Result<Frame, ResponseError>)
    requires
        encode_utf8(msg).len() <= u32::MAX,
        response_post(error_response(msg) + rest, r),
    ensures
        r matches Err(ResponseError::Remote(m)) && (encode_utf8(msg).len() <= MAX_MESSAGE ==> m@
            == msg) && (encode_utf8(msg).len() > MAX_MESSAGE ==> m@ == utf8_lossy(
            encode_utf8(msg).take(MAX_MESSAGE as int),
        )),
{
    let s = error_response(msg) + rest;
    let text = encode_utf8(msg);
    let n = text.len() as u32;
    assert(s.subrange(1, 5) =~= le32(n));
    law_word_reads_back(n, s, 1);
    if text.len() <= MAX_MESSAGE {
        assert(s.subrange(5, 5 + n) =~= text);
        vstd::utf8::encode_utf8_valid_utf8(msg);
        vstd::utf8::encode_utf8_decode_utf8(msg);
    } else {
        assert(s.subrange(5, 5 + MAX_MESSAGE) =~= text.take(MAX_MESSAGE as int));
    }
}

/// A reader that reads on until it has as many bytes as are asked for never takes more than the
/// response: what it asks for only grows, and what is read depends on no byte behind it.
pub proof fn law_response_is_framed(s: Seq<u8>, more: Seq<u8>)
    ensures
        response_len(s) <= response_len(s + more),
        s.len() >= response_len(s) ==> response_len(s + more) == response_len(s),
        s.len() >= response_len(s) ==> forall|r: Result<Frame, ResponseError>| #[trigger]
            response_post(s + more, r) == response_post(s, r),
{
    let t = s + more;
    if s.len() >= 1 {
        assert(t[0] == s[0]);
    }
    if s.len() >= 5 {
        assert(word_at(t, 1) == word_at(s, 1));
    }
    if s.len() >= 9 {
        assert(word_at(t, 5) == word_at(s, 5));
    }
    if s.len() >= 13 {
        assert(word_at(t, 9) == word_at(s, 9));
    }
    if s.len() >= response_len(s) {
        if s[0] == STATUS_OK {
            if word_at(s, 9) <= MAX_FRAME {
                assert(t.subrange(13, 13 + word_at(s, 9)) =~= s.subrange(13, 13 + word_at(s, 9)));
            }
        } else {
            assert(t.subrange(5, 5 + message_len(s)) =~= s.subrange(5, 5 + message_len(s)));
        }
    }
}

/// The number whose four bytes start at `at`, lowest first.
pub open spec fn little(s: Seq<u8>, at: int) -> int {
    s[at] + 256 * s[at + 1] + 65536 * s[at + 2] + 16777216 * s[at + 3]
}

proof fn lemma_little(pre: Seq<u8>, x: u32, post: Seq<u8>)
    ensures
        little(pre + le32(x) + post, pre.len() as int) == x,
{
    let s = pre + le32(x) + post;
    let n = pre.len() as int;
    assert(s[n] == le32(x)[0]);
    assert(s[n + 1] == le32(x)[1]);
    assert(s[n + 2] == le32(x)[2]);
    assert(s[n + 3] == le32(x)[3]);
}

proof fn lemma_request_fields(tag: u8, width: u32, height: u32, color: [u32; 4])
    ensures
        ({
            let b = request_fields(tag, width, height, color);
            &&& b.len() == 25
            &&& b[0] == tag
            &&& little(b, 1) == width
            &&& little(b, 5) == height
            &&& little(b, 9) == color@[0]
            &&& little(b, 13) == color@[1]
            &&& little(b, 17) == color@[2]
            &&& little(b, 21) == color@[3]
        }),
{
    let b = request_fields(tag, width, height, color);
    let p0 = seq![tag];
    let p1 = p0 + le32(width);
    let p2 = p1 + le32(height);
    let p3 = p2 + le32(color@[0]);
    let p4 = p3 + le32(color@[1]);
    let p5 = p4 + le32(color@[2]);
    let q5 = le32(color@[3]);
    let q4 = le32(color@[2]) + q5;
    let q3 = le32(color@[1]) + q4;
    let q2 = le32(color@[0]) + q3;
    let q1 = le32(height) + q2;
    assert(b =~= p0 + le32(width) + q1);
    assert(b =~= p1 + le32(height) + q2);
    assert(b =~= p2 + le32(color@[0]) + q3);
    assert(b =~= p3 + le32(color@[1]) + q4);
    assert(b =~= p4 + le32(color@[2]) + q5);
    assert(b =~= p5 + le32(color@[3]) + Seq::<u8>::empty());
    lemma_little(p0, width, q1);
    lemma_little(p1, height, q2);
    lemma_little(p2, color@[0], q3);
    lemma_little(p3, color@[1], q4);
    lemma_little(p4, color@[2], q5);
    lemma_little(p5, color@[3], Seq::<u8>::empty());
}

/// A request has 25 bytes: 1 for a clear or 2 for the triangle, the width, the height, and the four
/// channels in order, each number lowest byte first.
pub proof fn law_request_bytes(req: &RenderRequest, out: &mut Vec<u8>)
    requires
        call_ensures(RenderRequest::write_to, (req, out), ()),
        old(out)@.len() == 0,
    ensures
        ({
            let b = final(out)@;
            &&& b.len() == 25
            &&& req matches RenderRequest::Clear { width, height, rgba } ==> b[0] == 1 && little(
                b,
                1,
            ) == width && little(b, 5) == height && little(b, 9) == rgba@[0] && little(b, 13)
                == rgba@[1] && little(b, 17) == rgba@[2] && little(b, 21) == rgba@[3]
            &&& req matches RenderRequest::Triangle { width: w, height: h, bg } ==> b[0] == 2
                && little(b, 1) == w && little(b, 5) == h && little(b, 9) == bg@[0] && little(b, 13)
                == bg@[1] && little(b, 17) == bg@[2] && little(b, 21) == bg@[3]
        }),
{
    assert(old(out)@ + req.wire() =~= req.wire());
    match *req {
        RenderRequest::Clear { width, height, rgba } => {
            lemma_request_fields(TAG_CLEAR, width, height, rgba);
        },
        RenderRequest::Triangle { width, height, bg } => {
            lemma_request_fields(TAG_TRIANGLE, width, height, bg);
        },
    }
}

/// A request is read by the same places: its kind by the first byte, its numbers lowest byte first.
/// A stream without a byte holds no request, one with fewer than 25 a part of one.
pub proof fn law_request_is_read(s: &[u8], r: Result<Option<RenderRequest>, RequestError>)
    requires
        call_ensures(RenderRequest::read_from, (s,), r),
    ensures
        s@.len() == 0 ==> r == Ok::<Option<RenderRequest>, RequestError>(None),
        1 <= s@.len() <= 24 ==> r == Err::<Option<RenderRequest>, RequestError>(
            RequestError::UnexpectedEof,
        ),
        s@.len() >= 25 && s@[0] != 1 && s@[0] != 2 ==> r == Err::<
            Option<RenderRequest>,
            RequestError,
        >(RequestError::BadTag(s@[0])),
        s@.len() >= 25 && s@[0] == 1 ==> {
            &&& r matches Ok(Some(RenderRequest::Clear { width, height, rgba }))
            &&& width == little(s@, 1)
            &&& height == little(s@, 5)
            &&& rgba@[0] == little(s@, 9)
            &&& rgba@[1] == little(s@, 13)
            &&& rgba@[2] == little(s@, 17)
            &&& rgba@[3] == little(s@, 21)
        },
        s@.len() >= 25 && s@[0] == 2 ==> {
            &&& r matches Ok(Some(RenderRequest::Triangle { width, height, bg }))
            &&& width == little(s@, 1)
            &&& height == little(s@, 5)
            &&& bg@[0] == little(s@, 9)
            &&& bg@[1] == little(s@, 13)
            &&& bg@[2] == little(s@, 17)
            &&& bg@[3] == little(s@, 21)
        },
{
}

/// A response with a frame has the byte 0, the width, the height, the number of bytes and the bytes;
/// one with an error a 1, the number of bytes of its text and the text.
pub proof fn law_response_bytes(f: Frame, msg: Seq<char>, i: int)
    requires
        f.rgba@.len() < 0x1_0000_0000,
        encode_utf8(msg).len() < 0x1_0000_0000,
    ensures
        ({
            let b = frame_response(f);
            &&& b.len() == 13 + f.rgba@.len()
            &&& b[0] == 0
            &&& little(b, 1) == f.width
            &&& little(b, 5) == f.height
            &&& little(b, 9) == f.rgba@.len()
            &&& 0 <= i < f.rgba@.len() ==> b[13 + i] == f.rgba@[i]
        }),
        ({
            let e = error_response(msg);
            &&& e.len() == 5 + encode_utf8(msg).len()
            &&& e[0] == 1
            &&& little(e, 1) == encode_utf8(msg).len()
            &&& 0 <= i < encode_utf8(msg).len() ==> e[5 + i] == encode_utf8(msg)[i]
        }),
{
    let n = f.rgba@.len() as u32;
    let b = frame_response(f);
    let p0 = seq![0u8];
    let p1 = p0 + le32(f.width);
    let p2 = p1 + le32(f.height);
    assert(b =~= p0 + le32(f.width) + (le32(f.height) + le32(n) + f.rgba@));
    assert(b =~= p1 + le32(f.height) + (le32(n) + f.rgba@));
    assert(b =~= p2 + le32(n) + f.rgba@);
    lemma_little(p0, f.width, le32(f.height) + le32(n) + f.rgba@);
    lemma_little(p1, f.height, le32(n) + f.rgba@);
    lemma_little(p2, n, f.rgba@);
    let text = encode_utf8(msg);
    let m = text.len() as u32;
    let e = error_response(msg);
    let q0 = seq![1u8];
    assert(e =~= q0 + le32(m) + text);
    lemma_little(q0, m, text);
}

/// A response is read by the same places. A frame that is cut short, or is announced with more than
/// 256 mebibytes, is refused; of an error no more than 4096 bytes are read.
pub proof fn law_response_is_read(s: &[u8], r: Result<Frame, ResponseError>, i: int)
    requires
        call_ensures(read_response, (s,), r),
    ensures
        s@.len() == 0 ==> r is Err && r->Err_0 is UnexpectedEof,
        s@.len() > 0 && s@[0] == 0 ==> {
            &&& s@.len() < 13 ==> r is Err && r->Err_0 is UnexpectedEof
            &&& s@.len() >= 13 && little(s@, 9) > 268435456 ==> r is Err && r->Err_0 is TooLarge
            &&& s@.len() >= 13 && little(s@, 9) <= 268435456 && s@.len() < 13 + little(s@, 9)
                ==> r is Err && r->Err_0 is UnexpectedEof
            &&& s@.len() >= 13 && little(s@, 9) <= 268435456 && s@.len() >= 13 + little(s@, 9) ==> {
                &&& r is Ok
                &&& r->Ok_0.width == little(s@, 1)
                &&& r->Ok_0.height == little(s@, 5)
                &&& r->Ok_0.rgba@.len() == little(s@, 9)
                &&& 0 <= i < little(s@, 9) ==> r->Ok_0.rgba@[i] == s@[13 + i]
            }
        },
        s@.len() > 0 && s@[0] != 0 ==> {
            &&& s@.len() < 5 ==> r is Err && r->Err_0 is UnexpectedEof
            &&& s@.len() >= 5 && little(s@, 1) <= 4096 && s@.len() < 5 + little(s@, 1) ==> r is Err && r->Err_0 is UnexpectedEof
            &&& s@.len() >= 5 && little(s@, 1) <= 4096 && s@.len() >= 5 + little(s@, 1) ==> {
                &&& r is Err && r->Err_0 is Remote
                &&& r->Err_0->Remote_0@ == utf8_lossy(s@.subrange(5, 5 + little(s@, 1)))
            }
            &&& s@.len() >= 5 && little(s@, 1) > 4096 && s@.len() >= 4101 ==> {
                &&& r is Err && r->Err_0 is Remote
                &&& r->Err_0->Remote_0@ == utf8_lossy(s@.subrange(5, 4101))
            }
        },
{
}

/// A reader that has as many bytes as are needed is never told to read more, whatever comes behind
/// them; one that has fewer is told of more than it has.
pub proof fn law_needs_settle(s: Seq<u8>, t: Seq<u8>)
    requires
        s.len() >= response_len(s),
    ensures
        response_len(s + t) == response_len(s),
        forall|n: int|
            0 <= n < s.len() && n < response_len(s) ==> n < #[trigger] response_len(s.take(n))
                <= response_len(s),
{
    let u = s + t;
    assert(u[0] == s[0]);
    if s[0] == STATUS_OK && s.len() >= 13 {
        assert(u[9] == s[9] && u[10] == s[10] && u[11] == s[11] && u[12] == s[12]);
    }
    if s[0] != STATUS_OK && s.len() >= 5 {
        assert(u[1] == s[1] && u[2] == s[2] && u[3] == s[3] && u[4] == s[4]);
    }
}

/// Responses are written behind what is there: a frame as a frame, an error as an error; and what a
/// reader needs is told by the bytes that it has.
pub proof fn law_responses_are_written(
    out: &mut Vec<u8>,
    f: &Frame,
    err: &mut Vec<u8>,
    msg: &str,
    either: &mut Vec<u8>,
    rendered: &Result<Frame, String>,
    s: &[u8],
    n: usize,
)
    requires
        call_ensures(write_frame, (out, f), ()),
        call_ensures(write_error, (err, msg), ()),
        call_ensures(write_outcome, (either, rendered), ()),
        call_ensures(response_needs, (s,), n),
    ensures
        final(out)@ == old(out)@ + frame_response(*f),
        final(err)@ == old(err)@ + error_response(msg@),
        *rendered is Ok ==> final(either)@ == old(either)@ + frame_response((*rendered)->Ok_0),
        *rendered is Err ==> final(either)@ == old(either)@ + error_response((*rendered)->Err_0@),
        s@.len() == 0 ==> n == 1,
        s@.len() >= 1 && s@[0] == 0 && s@.len() < 13 ==> n == 13,
        s@.len() >= 13 && s@[0] == 0 && little(s@, 9) <= 268435456 ==> n == 13 + little(s@, 9),
        s@.len() >= 1 && s@[0] != 0 && s@.len() < 5 ==> n == 5,
        s@.len() >= 5 && s@[0] != 0 && little(s@, 1) <= 4096 ==> n == 5 + little(s@, 1),
        s@.len() >= 5 && s@[0] != 0 && little(s@, 1) > 4096 ==> n == 4101,
{
}

/// The errors say what was wrong: a tag by its number, and what the other side reported in its own
/// words.
pub proof fn law_errors_say_what_was_wrong(
    e: &RequestError,
    s: String,
    f: &ResponseError,
    t: String,
)
    requires
        call_ensures(RequestError::message, (e,), s),
        call_ensures(ResponseError::message, (f,), t),
    ensures
        e matches RequestError::BadTag(tag) ==> s@ == "bad request tag "@ + decimal(tag as nat),
        e is UnexpectedEof ==> s@ == "failed to fill whole buffer"@,
        f is UnexpectedEof ==> t@ == "failed to fill whole buffer"@,
        f is TooLarge ==> t@ == "replay response frame too large"@,
        f matches ResponseError::Remote(m) ==> t@ == "replay error: "@ + m@,
{
}

} // verus!
