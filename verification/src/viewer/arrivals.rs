//! What arrives at the viewer and what becomes of it, in the bytes of the messages.
use crate::viewer::stream::{
    cursor_change, message_post, on_read, plane_message, route, Arrival, CursorChange, CursorShape,
    CursorSlot, Decoded, DecodedFrame, End, FrameHeader, FrameSlot, PlaneCodes, PlaneHeader,
    Received, Route, Session, SessionState, StreamDecoder, Sync, Turn,
};
use std::sync::Arc;
use vstd::prelude::*;

verus! {

/// Whether the codes name different operations.
pub open spec fn distinct_ops(codes: PlaneCodes) -> bool {
    codes.define != codes.moved && codes.define != codes.destroy && codes.moved != codes.destroy
}

/// A new cursor keeps its picture: pixel (`x`, `y`) has the four bytes that stand for it in the
/// message, row by row behind the header, and size, hotspot and flags are the header's.
pub proof fn law_cursor_keeps_its_picture(
    data: &[u8],
    codes: &PlaneCodes,
    h: &PlaneHeader,
    c: CursorChange,
    x: int,
    y: int,
    k: int,
)
    requires
        codes.header_len <= data@.len(),
        call_ensures(cursor_change, (data, codes, h), c),
        distinct_ops(*codes),
        h.plane_kind == codes.cursor,
        h.op == codes.define,
        data@.len() >= codes.header_len + h.width * h.height * 4,
        0 <= x < h.width,
        0 <= y < h.height,
        0 <= k < 4,
    ensures
        c matches CursorChange::Define { shape, visible } && {
            &&& shape.w == h.width
            &&& shape.h == h.height
            &&& shape.hot_x == h.hot_x
            &&& shape.hot_y == h.hot_y
            &&& shape.bgra@.len() == h.width * h.height * 4
            &&& shape.bgra@[(y * h.width + x) * 4 + k] == data@[codes.header_len + (y * h.width + x)
                * 4 + k]
            &&& visible == (h.flags & codes.visible != 0)
            &&& shape.premultiplied == (h.flags & codes.premultiplied != 0)
        },
{
    let w = h.width as int;
    let n = h.height as int;
    assert(0 <= y * w + x && (y * w + x) * 4 + 4 <= w * n * 4) by (nonlinear_arith)
        requires
            0 <= x < w,
            0 <= y < n,
    ;
}

/// A cursor message without all of its pixels, without any, of another plane or with an unknown
/// operation asks for nothing. A move shows the cursor as its flag says, and its end hides it.
pub proof fn law_cursor_messages(
    data: &[u8],
    codes: &PlaneCodes,
    h: &PlaneHeader,
    c: CursorChange,
)
    requires
        codes.header_len <= data@.len(),
        call_ensures(cursor_change, (data, codes, h), c),
        distinct_ops(*codes),
    ensures
        h.plane_kind != codes.cursor ==> c is Nothing,
        h.op != codes.define && h.op != codes.moved && h.op != codes.destroy ==> c is Nothing,
        h.op == codes.define && (h.width == 0 || h.height == 0 || data@.len() < codes.header_len
            + h.width * h.height * 4) ==> c is Nothing,
        h.plane_kind == codes.cursor && h.op == codes.moved ==> c == (CursorChange::Show {
            visible: h.flags & codes.visible != 0,
        }),
        h.plane_kind == codes.cursor && h.op == codes.destroy ==> c == (CursorChange::Show {
            visible: false,
        }),
        c is Define ==> h.op == codes.define,
        c is Show ==> h.op != codes.define,
{
}

/// The slot holds the newest shape and counts the shapes; showing or hiding keeps the shape and its
/// version; what asks for nothing changes nothing. All but that marks the cursor as live.
pub proof fn law_slot_holds_the_newest(s: &mut CursorSlot, c: CursorChange)
    requires
        call_ensures(CursorSlot::apply, (s, c), ()),
    ensures
        c is Nothing ==> *final(s) == *old(s),
        c matches CursorChange::Define { shape, visible } ==> {
            &&& final(s).shape is Some
            &&& final(s).shape == Some(Arc::new(shape))
            &&& old(s).version < u64::MAX ==> final(s).version == old(s).version + 1
            &&& old(s).version == u64::MAX ==> final(s).version == 0
            &&& final(s).version != old(s).version
            &&& final(s).visible == visible
            &&& final(s).active
        },
        c matches CursorChange::Show { visible: shown } ==> {
            &&& final(s).shape == old(s).shape
            &&& final(s).version == old(s).version
            &&& final(s).visible == shown
            &&& final(s).active
        },
{
}

/// What is read out of the slot is what is in it.
pub proof fn law_slot_is_read(
    s: &CursorSlot,
    got: (bool, bool, Option<Arc<CursorShape>>, u64),
    has: bool,
    fresh: CursorSlot,
)
    requires
        call_ensures(CursorSlot::snapshot, (s,), got),
        call_ensures(CursorSlot::has_shape, (s,), has),
        call_ensures(CursorSlot::new, (), fresh),
    ensures
        got.0 == s.active,
        got.1 == s.visible,
        got.2 == s.shape,
        got.3 == s.version,
        has <==> got.2 is Some,
        fresh.shape is None && !fresh.visible && !fresh.active && fresh.version == 0,
{
}

/// The newest frame is taken once: after two were published only the later one is there, and after
/// it was taken, none.
pub proof fn law_newest_frame_is_taken_once(
    s: &mut FrameSlot,
    t: &mut FrameSlot,
    u: &mut FrameSlot,
    v: &mut FrameSlot,
    a: DecodedFrame,
    b: DecodedFrame,
    first: Option<DecodedFrame>,
    second: Option<DecodedFrame>,
)
    requires
        call_ensures(FrameSlot::put, (s, a), ()),
        *old(t) == *final(s),
        call_ensures(FrameSlot::put, (t, b), ()),
        *old(u) == *final(t),
        call_ensures(FrameSlot::take, (u,), first),
        *old(v) == *final(u),
        call_ensures(FrameSlot::take, (v,), second),
    ensures
        first == Some(b),
        second is None,
{
}

/// A message is a plane message exactly where its first four bytes, the lowest first, are the plane
/// word. Such a message never reaches the decoder, and any other never the cursor.
pub proof fn law_planes_and_frames_are_told_apart(
    data: &[u8],
    codes: &PlaneCodes,
    plane: Option<PlaneHeader>,
    frame: Option<FrameHeader>,
    b: bool,
    r: Route,
)
    requires
        plane is Some ==> codes.header_len <= data@.len(),
        call_ensures(plane_message, (data, codes), b),
        call_ensures(route, (data, codes, plane, frame), r),
    ensures
        b <==> data@.len() >= 4 && data@[0] + 256 * data@[1] + 65536 * data@[2] + 16777216
            * data@[3] == codes.magic,
        b && plane is Some <==> r is Cursor,
        b && plane is None <==> r is Unread,
        !b && frame is Some <==> r is Video,
        !b && frame is None <==> r is BadHeader,
        r matches Route::Video(h) ==> h == frame->0,
{
}

/// Reads are answered as the protocol asks: a binary message is looked into, a ping is answered, a
/// close ends the stream, a failure breaks it, and after anything else, a timeout too, reading goes
/// on.
pub proof fn law_reads_are_answered(what: Received, t: Turn)
    requires
        call_ensures(on_read, (what,), t),
    ensures
        what is Binary <==> t is Handle,
        what is Ping <==> t is Pong,
        what is Close || what is Closed <==> t is Stop,
        what is Failed <==> t is Fail,
        what is Other || what is NotYet <==> t is ReadOn,
{
}

/// Decoding starts at a keyframe: out of sync only a keyframe is wanted, in sync every frame. A
/// picture puts it in sync, a failure out of sync, and no picture leaves it as it is.
pub proof fn law_decoding_starts_at_a_keyframe(
    start: Sync,
    s: &Sync,
    h: &FrameHeader,
    wants: bool,
    t: &mut Sync,
    out: Decoded,
    f: Option<DecodedFrame>,
)
    requires
        call_ensures(Sync::new, (), start),
        call_ensures(Sync::wants, (s, h), wants),
        call_ensures(Sync::settle, (t, h, out), f),
    ensures
        !start.synced,
        !wants <==> !s.synced && !h.keyframe,
        out is Picture ==> final(t).synced,
        out is Failed ==> !final(t).synced,
        out is Nothing ==> final(t).synced == old(t).synced,
        f is Some <==> out is Picture,
{
}

/// A decoded picture is shown as it is: its own pixels and size, and the number and kind that the
/// header of its message says.
pub proof fn law_picture_is_shown_as_decoded(
    t: &mut Sync,
    h: &FrameHeader,
    out: Decoded,
    f: Option<DecodedFrame>,
)
    requires
        call_ensures(Sync::settle, (t, h, out), f),
        out is Picture,
        out->Picture_0.width < 0x1_0000_0000,
        out->Picture_0.height < 0x1_0000_0000,
    ensures
        f is Some,
        f->0.rgba@ == out->Picture_0.rgba@,
        f->0.width == out->Picture_0.width,
        f->0.height == out->Picture_0.height,
        f->0.seq == h.frame_seq,
        f->0.keyframe == h.keyframe,
{
}

/// A stream ends once: by the server, by a break, or because no more frames are wanted; the first
/// cause stands, and afterwards every read is answered with a stop.
pub proof fn law_first_end_stands(
    s: &mut Session,
    what: Received,
    t: Turn,
    u: &mut Session,
    more: bool,
)
    requires
        call_ensures(Session::on_read, (s, what), t),
        call_ensures(Session::on_shown, (u, more), ()),
    ensures
        old(s)@.end is Some ==> final(s)@.end == old(s)@.end && t is Stop,
        old(s)@.end is None ==> {
            &&& what is Close || what is Closed <==> final(s)@.end == Some(End::Closed)
            &&& what is Failed <==> final(s)@.end == Some(End::Broken)
            &&& what is Close || what is Closed || what is Failed <==> final(s)@.end is Some
        },
        final(s)@.video == old(s)@.video,
        old(u)@.end is Some ==> final(u)@.end == old(u)@.end,
        old(u)@.end is None && !more ==> final(u)@.end == Some(End::Enough),
        old(u)@.end is None && more ==> final(u)@.end is None,
        final(u)@.video == old(u)@.video,
{
}

/// A message after the end does nothing. Before it, a plane message leaves the video side alone, a
/// frame that is neither a keyframe nor in sync does too, and any other hands the decoder exactly
/// the bytes behind its header.
pub proof fn law_messages_feed_the_decoder(
    before: SessionState,
    data: Seq<u8>,
    codes: PlaneCodes,
    plane: Option<PlaneHeader>,
    frame: Option<FrameHeader>,
    header_len: int,
    a: Arrival,
    after: SessionState,
)
    requires
        message_post(before, data, codes, plane, frame, header_len, a, after),
        0 <= header_len <= data.len(),
    ensures
        before.end is Some ==> after == before && a is Nothing,
        before.end is None ==> after.end is None,
        ({
            let word = data.len() >= 4 && data[0] + 256 * data[1] + 65536 * data[2] + 16777216
                * data[3] == codes.magic;
            let live = before.end is None;
            &&& live && word ==> after == before && !(a is Frame)
            &&& live && !word && frame is None ==> after == before && a is BadHeader
            &&& live && !word && frame is Some && !before.video.synced && !frame->0.keyframe
                ==> after == before && a is Nothing
            &&& live && !word && frame is Some && (before.video.synced || frame->0.keyframe) ==> {
                &&& after.video.fed.len() == before.video.fed.len() + 1
                &&& after.video.fed.drop_last() == before.video.fed
                &&& after.video.fed.last() == data.subrange(header_len, data.len() as int)
                &&& a is Frame ==> after.video.synced
                &&& a matches Arrival::Frame(f) ==> f.seq == frame->0.frame_seq && f.keyframe
                    == frame->0.keyframe
            }
        }),
{
    let unit = data.subrange(header_len, data.len() as int);
    assert(before.video.fed.push(unit).drop_last() =~= before.video.fed);
}

/// A binary message that is taken in does what the laws of messages say; one that is not wanted
/// leaves the decoder alone.
pub proof fn law_messages_are_taken_in(
    s: &mut Session,
    data: &[u8],
    codes: &PlaneCodes,
    plane: Option<PlaneHeader>,
    frame: Option<FrameHeader>,
    header_len: usize,
    a: Arrival,
    t: &mut StreamDecoder,
    h: &FrameHeader,
    f: Option<DecodedFrame>,
)
    requires
        plane is Some ==> codes.header_len <= data@.len(),
        header_len <= data@.len() <= header_len + i32::MAX,
        call_ensures(Session::on_message, (s, data, codes, plane, frame, header_len), a),
        call_ensures(StreamDecoder::on_frame, (t, data, header_len, h), f),
    ensures
        message_post(
            old(s)@,
            data@,
            *codes,
            plane,
            frame,
            header_len as int,
            a,
            final(s)@,
        ),
        !old(t)@.synced && !h.keyframe ==> f is None && final(t)@ == old(t)@,
        old(t)@.synced || h.keyframe ==> {
            &&& final(t)@.fed.len() == old(t)@.fed.len() + 1
            &&& final(t)@.fed.last() == data@.subrange(header_len as int, data@.len() as int)
            &&& final(t)@.fed.drop_last() == old(t)@.fed
        },
        f is Some ==> f->0.seq == h.frame_seq && f->0.keyframe == h.keyframe && final(t)@.synced,
{
    let unit = data@.subrange(header_len as int, data@.len() as int);
    assert(old(t)@.fed.push(unit).drop_last() =~= old(t)@.fed);
}

/// A defined cursor is the one in the slot, as a new version; showing or hiding keeps it.
pub proof fn law_slot_is_set(
    s: &mut CursorSlot,
    shape: CursorShape,
    t: &mut CursorSlot,
    visible: bool,
)
    requires
        call_ensures(CursorSlot::define, (s, shape, visible), ()),
        call_ensures(CursorSlot::set_visible, (t, visible), ()),
    ensures
        final(s).shape == Some(Arc::new(shape)),
        final(s).version != old(s).version,
        final(s).visible == visible && final(s).active,
        final(t).shape == old(t).shape,
        final(t).version == old(t).version,
        final(t).visible == visible && final(t).active,
{
}

} // verus!
