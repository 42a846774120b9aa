//! The incoming side of a display stream: telling messages apart, keeping the cursor, decoding
//! video, and handing the newest frame to the render loop.
//!
//! A binary message is either one video frame (a header and one H.264 access unit) or one plane
//! message (a header and, for a new cursor, its pixels). A decoder that missed a frame cannot use
//! the ones that build on it, so decoding starts at a keyframe, and after an error waits for the
//! next one.
use crate::arith::{low_u32, wrap_u32};
use crate::bytes::{copy_range, get_le32, word_at};
use crate::viewer::decoder::{unit_results, FedDecoder, NoDecoder, Picture};
use std::sync::Arc;
use vstd::prelude::*;

verus! {

/// A decoded frame, ready to upload: tightly packed RGBA bytes.
#[derive(Debug)]
pub struct DecodedFrame {
    pub rgba: Vec<u8>,
    pub width: u32,
    pub height: u32,
    pub seq: u32,
    pub keyframe: bool,
}

/// Hands the newest frame from the stream to the render loop: the one overwrites, the other
/// takes.
pub struct FrameSlot {
    inner: Option<DecodedFrame>,
}

impl FrameSlot {
    /// The frame that waits to be taken.
    pub closed spec fn waiting(&self) -> Option<DecodedFrame> {
        self.inner
    }

    /// An empty slot.
    pub fn new() -> (s: Self)
        ensures
            s.waiting() is None,
    {
        FrameSlot { inner: None }
    }

    /// Publishes the newest frame. One that was not taken yet is dropped.
    pub fn put(&mut self, f: DecodedFrame)
        ensures
            final(self).waiting() == Some(f),
    {
        self.inner = Some(f);
    }

    /// Takes the newest frame, if one came since the last call.
    pub fn take(&mut self) -> (f: Option<DecodedFrame>)
        ensures
            f == old(self).waiting(),
            final(self).waiting() is None,
    {
        self.inner.take()
    }
}

/// A cursor sprite: tightly packed BGRA bytes and the hotspot.
#[derive(Debug)]
pub struct CursorShape {
    pub bgra: Vec<u8>,
    pub w: u16,
    pub h: u16,
    pub hot_x: u16,
    pub hot_y: u16,
    /// Whether the colours are already scaled by alpha.
    pub premultiplied: bool,
}

impl CursorShape {
    /// Whether there are as many bytes as the size asks for, and a pixel at all.
    pub open spec fn whole(&self) -> bool {
        self.w > 0 && self.h > 0 && self.bgra@.len() == self.w * self.h * 4
    }
}

/// Another handle on the same shape. Stated of [`Arc::clone`]: it points at the same value.
#[verifier::external_body]
fn share(a: &Arc<CursorShape>) -> (r: Arc<CursorShape>)
    ensures
        r == *a,
{
    Arc::clone(a)
}

/// Hands the newest cursor from the stream to the render loop.
pub struct CursorSlot {
    /// The newest shape.
    pub shape: Option<Arc<CursorShape>>,
    /// Counts the shapes, past the largest number to 0.
    pub version: u64,
    /// Whether the cursor is to be drawn.
    pub visible: bool,
    /// Whether anything about the cursor came yet.
    pub active: bool,
}

impl CursorSlot {
    /// A slot that nothing came to yet.
    pub fn new() -> (s: Self)
        ensures
            s.shape is None,
            s.version == 0,
            !s.visible,
            !s.active,
    {
        CursorSlot { shape: None, version: 0, visible: false, active: false }
    }

    /// Installs a new shape.
    pub fn define(&mut self, shape: CursorShape, visible: bool)
        ensures
            final(self).shape == Some(Arc::new(shape)),
            final(self).version == (old(self).version + 1) % 0x1_0000_0000_0000_0000,
            final(self).visible == visible,
            final(self).active,
    {
        self.shape = Some(Arc::new(shape));
        self.version = self.version.wrapping_add(1);
        self.visible = visible;
        self.active = true;
    }

    /// Shows or hides the cursor.
    pub fn set_visible(&mut self, visible: bool)
        ensures
            final(self).shape == old(self).shape,
            final(self).version == old(self).version,
            final(self).visible == visible,
            final(self).active,
    {
        self.visible = visible;
        self.active = true;
    }

    /// Whether anything came, whether to draw, the shape, and its version.
    pub fn snapshot(&self) -> (s: (bool, bool, Option<Arc<CursorShape>>, u64))
        ensures
            s == (self.active, self.visible, self.shape, self.version),
    {
        let shape = match &self.shape {
            Some(a) => Some(share(a)),
            None => None,
        };
        (self.active, self.visible, shape, self.version)
    }

    /// Whether a shape ever came. Until then the window keeps the system's cursor.
    pub fn has_shape(&self) -> (r: bool)
        ensures
            r == (self.shape is Some),
    {
        self.shape.is_some()
    }
}

/// The header of a plane message.
#[derive(Debug, Clone, Copy, PartialEq, Eq, Structural)]
pub struct PlaneHeader {
    pub plane_kind: u32,
    pub op: u32,
    pub flags: u32,
    pub width: u16,
    pub height: u16,
    pub hot_x: u16,
    pub hot_y: u16,
}

/// The numbers of the plane protocol.
#[derive(Debug, Clone, Copy, PartialEq, Eq, Structural)]
pub struct PlaneCodes {
    /// The word that a plane message starts with.
    pub magic: u32,
    /// Bytes in the header.
    pub header_len: usize,
    /// The kind of plane that is the cursor.
    pub cursor: u32,
    /// A new shape.
    pub define: u32,
    /// The pointer moved.
    pub moved: u32,
    /// The cursor went away.
    pub destroy: u32,
    /// The flag of a cursor that is drawn.
    pub visible: u32,
    /// The flag of colours that are already scaled by alpha.
    pub premultiplied: u32,
}

/// Whether a message is a plane message: it starts with the plane word.
pub open spec fn is_plane(data: Seq<u8>, codes: PlaneCodes) -> bool {
    data.len() >= 4 && word_at(data, 0) == codes.magic
}

/// Whether a message is a plane message. Its bytes are never handed to the decoder.
pub fn plane_message(data: &[u8], codes: &PlaneCodes) -> (r: bool)
    ensures
        r == is_plane(data@, *codes),
{
    data.len() >= 4 && get_le32(data, 0) == codes.magic
}

/// What a plane message asks of the cursor.
pub enum CursorChange {
    /// Nothing: another plane, another operation, or pixels that are not all there.
    Nothing,
    /// A new shape.
    Define { shape: CursorShape, visible: bool },
    /// Show or hide.
    Show { visible: bool },
}

/// Whether a message brings the pixels of a new cursor, as many as its header says and more
/// than none.
pub open spec fn brings_shape(data: Seq<u8>, codes: PlaneCodes, h: PlaneHeader) -> bool {
    h.width > 0 && h.height > 0 && data.len() - codes.header_len >= h.width * h.height * 4
}

/// What a plane message asks of the cursor. The pointer's position is not used: the cursor is
/// drawn at the local pointer.
pub open spec fn asks(data: Seq<u8>, codes: PlaneCodes, h: PlaneHeader, c: CursorChange) -> bool {
    let shown = h.flags & codes.visible != 0;
    if h.plane_kind != codes.cursor {
        c is Nothing
    } else if h.op == codes.define {
        if brings_shape(data, codes, h) {
            &&& c matches CursorChange::Define { shape, visible }
            &&& visible == shown
            &&& shape.bgra@ == data.subrange(
                codes.header_len as int,
                codes.header_len + h.width * h.height * 4,
            )
            &&& shape.w == h.width
            &&& shape.h == h.height
            &&& shape.hot_x == h.hot_x
            &&& shape.hot_y == h.hot_y
            &&& shape.premultiplied == (h.flags & codes.premultiplied != 0)
        } else {
            c is Nothing
        }
    } else if h.op == codes.moved || h.op == codes.destroy {
        c == (CursorChange::Show { visible: shown && h.op == codes.moved })
    } else {
        c is Nothing
    }
}

/// Reads a plane message.
pub fn cursor_change(data: &[u8], codes: &PlaneCodes, h: &PlaneHeader) -> (c: CursorChange)
    requires
        codes.header_len <= data@.len(),
    ensures
        asks(data@, *codes, *h, c),
        c matches CursorChange::Define { shape, .. } ==> shape.whole(),
{
    let shown: bool = h.flags & codes.visible != 0;
    if h.plane_kind != codes.cursor {
        return CursorChange::Nothing;
    }
    if h.op == codes.define {
        assert(0 <= h.width * h.height <= 0xFFFF * 0xFFFF) by (nonlinear_arith)
            requires
                0 <= h.width <= 0xFFFF,
                0 <= h.height <= 0xFFFF,
        ;
        let need: u64 = h.width as u64 * h.height as u64 * 4;
        if h.width > 0 && h.height > 0 && (data.len() - codes.header_len) as u64 >= need {
            let shape = CursorShape {
                bgra: copy_range(data, codes.header_len, codes.header_len + need as usize),
                w: h.width,
                h: h.height,
                hot_x: h.hot_x,
                hot_y: h.hot_y,
                premultiplied: h.flags & codes.premultiplied != 0,
            };
            CursorChange::Define { shape, visible: shown }
        } else {
            CursorChange::Nothing
        }
    } else if h.op == codes.moved || h.op == codes.destroy {
        CursorChange::Show { visible: shown && h.op == codes.moved }
    } else {
        CursorChange::Nothing
    }
}

impl CursorSlot {
    /// The slot after a change.
    pub open spec fn after(self, c: CursorChange) -> CursorSlot {
        match c {
            CursorChange::Nothing => self,
            CursorChange::Define { shape, visible } => CursorSlot {
                shape: Some(Arc::new(shape)),
                version: ((self.version + 1) % 0x1_0000_0000_0000_0000) as u64,
                visible,
                active: true,
            },
            CursorChange::Show { visible } => CursorSlot { visible, active: true, ..self },
        }
    }

    /// Takes a change in.
    pub fn apply(&mut self, c: CursorChange)
        ensures
            *final(self) == old(self).after(c),
    {
        match c {
            CursorChange::Nothing => {},
            CursorChange::Define { shape, visible } => self.define(shape, visible),
            CursorChange::Show { visible } => self.set_visible(visible),
        }
    }
}

/// What a read from the connection gave.
#[derive(Debug, Clone, Copy, PartialEq, Eq, Structural)]
pub enum Received {
    Binary,
    Ping,
    Close,
    /// Text and whatever else carries no frame.
    Other,
    /// The connection is closed.
    Closed,
    /// Nothing within the time given to a read.
    NotYet,
    /// The connection broke.
    Failed,
}

/// What to do about it.
#[derive(Debug, Clone, Copy, PartialEq, Eq, Structural)]
pub enum Turn {
    /// Look into the message.
    Handle,
    /// Answer with a pong, then read on.
    Pong,
    /// Read on.
    ReadOn,
    /// End the stream.
    Stop,
    /// End the stream with the error.
    Fail,
}

/// What to do about a read.
pub open spec fn turn_of(what: Received) -> Turn {
    match what {
        Received::Binary => Turn::Handle,
        Received::Ping => Turn::Pong,
        Received::Close | Received::Closed => Turn::Stop,
        Received::Failed => Turn::Fail,
        Received::Other | Received::NotYet => Turn::ReadOn,
    }
}

/// What to do about a read. A read that timed out is no error: reads are given little time so
/// that input can go out between them.
pub fn on_read(what: Received) -> (t: Turn)
    ensures
        t == turn_of(what),
{
    match what {
        Received::Binary => Turn::Handle,
        Received::Ping => Turn::Pong,
        Received::Close => Turn::Stop,
        Received::Closed => Turn::Stop,
        Received::Failed => Turn::Fail,
        Received::Other => Turn::ReadOn,
        Received::NotYet => Turn::ReadOn,
    }
}

/// What the header of a video frame says.
#[derive(Debug, Clone, Copy, PartialEq, Eq, Structural)]
pub struct FrameHeader {
    pub frame_seq: u32,
    pub keyframe: bool,
}

/// Where a binary message goes.
pub enum Route {
    /// To the cursor.
    Cursor(CursorChange),
    /// To the decoder.
    Video(FrameHeader),
    /// Nowhere: a plane message that nobody reads.
    Unread,
    /// Nowhere: its header is damaged or cut short.
    BadHeader,
}

/// Tells where a binary message goes. `plane` is its plane header, where it has one and the
/// cursor is followed; `frame` is its frame header, where it has one.
pub fn route(
    data: &[u8],
    codes: &PlaneCodes,
    plane: Option<PlaneHeader>,
    frame: Option<FrameHeader>,
) -> (r: Route)
    requires
        plane is Some ==> codes.header_len <= data@.len(),
    ensures
        is_plane(data@, *codes) ==> match plane {
            Some(h) => r matches Route::Cursor(c) && asks(data@, *codes, h, c),
            None => r is Unread,
        },
        !is_plane(data@, *codes) ==> match frame {
            Some(h) => r == Route::Video(h),
            None => r is BadHeader,
        },
{
    if plane_message(data, codes) {
        match plane {
            Some(h) => Route::Cursor(cursor_change(data, codes, &h)),
            None => Route::Unread,
        }
    } else {
        match frame {
            Some(h) => Route::Video(h),
            None => Route::BadHeader,
        }
    }
}

/// What came of decoding one access unit.
#[derive(Debug)]
pub enum Decoded {
    Picture(Picture),
    /// The decoder took the bytes, and has no picture yet.
    Nothing,
    /// The decoder lost a frame that this one builds on, or the bytes are damaged.
    Failed,
}

impl Decoded {
    /// Whether a picture has as many bytes as its size asks for.
    pub open spec fn whole(&self) -> bool {
        self matches Decoded::Picture(p) ==> p.rgba@.len() == p.width * p.height * 4
    }

    /// The outcome in plain values: the bytes and the size of a picture, no picture, or a failure.
    pub open spec fn plain(self) -> Result<Option<(Seq<u8>, usize, usize)>, ()> {
        match self {
            Decoded::Picture(p) => Ok(Some((p.rgba@, p.width, p.height))),
            Decoded::Nothing => Ok(None),
            Decoded::Failed => Err(()),
        }
    }
}

/// Whether a frame goes to the decoder: always once synced, before that only a keyframe.
pub open spec fn feeds(synced: bool, h: FrameHeader) -> bool {
    synced || h.keyframe
}

/// Whether decoding is in sync after an outcome.
pub open spec fn synced_after(synced: bool, out: Decoded) -> bool {
    match out {
        Decoded::Picture(_) => true,
        Decoded::Nothing => synced,
        Decoded::Failed => false,
    }
}

/// Whether `f` is what the render loop gets of an outcome.
pub open spec fn shows(f: Option<DecodedFrame>, h: FrameHeader, out: Decoded) -> bool {
    match out {
        Decoded::Picture(p) => {
            &&& f is Some
            &&& f->0.rgba == p.rgba
            &&& f->0.width == wrap_u32(p.width as int)
            &&& f->0.height == wrap_u32(p.height as int)
            &&& f->0.seq == h.frame_seq
            &&& f->0.keyframe == h.keyframe
        },
        _ => f is None,
    }
}

/// Whether decoding is in sync.
#[derive(Debug, Clone, Copy, PartialEq, Eq, Structural)]
pub struct Sync {
    pub synced: bool,
}

impl Sync {
    /// Out of sync, as a stream starts.
    pub fn new() -> (s: Self)
        ensures
            !s.synced,
    {
        Sync { synced: false }
    }

    /// Whether a frame goes to the decoder.
    pub fn wants(&self, h: &FrameHeader) -> (r: bool)
        ensures
            r == feeds(self.synced, *h),
    {
        self.synced || h.keyframe
    }

    /// Takes in what came of decoding a frame, and gives what the render loop gets.
    pub fn settle(&mut self, h: &FrameHeader, out: Decoded) -> (f: Option<DecodedFrame>)
        ensures
            final(self).synced == synced_after(old(self).synced, out),
            shows(f, *h, out),
    {
        match out {
            Decoded::Picture(p) => {
                self.synced = true;
                Some(
                    DecodedFrame {
                        width: low_u32(p.width),
                        height: low_u32(p.height),
                        rgba: p.rgba,
                        seq: h.frame_seq,
                        keyframe: h.keyframe,
                    },
                )
            },
            Decoded::Nothing => None,
            Decoded::Failed => {
                self.synced = false;
                None
            },
        }
    }
}

/// The video side of a stream, as the laws speak of it: whether decoding is in sync, and what the
/// decoder was fed, in order.
#[verifier::ext_equal]
pub struct StreamState {
    pub synced: bool,
    pub fed: Seq<Seq<u8>>,
}

impl StreamState {
    /// The start of a stream.
    pub open spec fn fresh() -> StreamState {
        StreamState { synced: false, fed: Seq::empty() }
    }
}

/// A video message, its access unit, and what decoding it comes to.
pub struct StreamEvent {
    pub header: FrameHeader,
    pub unit: Seq<u8>,
    pub outcome: Decoded,
}

/// Whether a video message takes the stream from one state to the other: one that is not wanted
/// changes nothing; of another the decoder gets the unit and nothing else, and the outcome is one
/// that the unit can have behind all that was fed before.
pub open spec fn decoder_step(before: StreamState, e: StreamEvent, after: StreamState) -> bool {
    if feeds(before.synced, e.header) {
        &&& unit_results(before.fed, e.unit).contains(e.outcome.plain())
        &&& e.outcome.whole()
        &&& after == (StreamState {
            synced: synced_after(before.synced, e.outcome),
            fed: before.fed.push(e.unit),
        })
    } else {
        after == before
    }
}

/// The video side of a stream.
pub struct StreamDecoder {
    decoder: FedDecoder,
    sync: Sync,
}

impl View for StreamDecoder {
    type V = StreamState;

    closed spec fn view(&self) -> StreamState {
        StreamState { synced: self.sync.synced, fed: self.decoder.fed() }
    }
}

impl StreamDecoder {
    /// A decoder at the start of a stream.
    pub fn new() -> (r: Result<Self, NoDecoder>)
        ensures
            r is Ok ==> r->Ok_0@ == StreamState::fresh(),
            exists|made: Result<FedDecoder, NoDecoder>| #[trigger]
                call_ensures(FedDecoder::open, (), made) && (r is Ok <==> made is Ok),
    {
        let made = FedDecoder::open();
        assert(call_ensures(FedDecoder::open, (), made));
        match made {
            Ok(decoder) => Ok(StreamDecoder { decoder, sync: Sync::new() }),
            Err(e) => Err(e),
        }
    }

    /// Takes in a video message: its header says `h`, and the access unit starts at
    /// `header_len`. A frame that is not wanted leaves the decoder alone; of another the decoder
    /// gets that unit and nothing else. Gives a frame where decoding gave a picture.
    pub fn on_frame(&mut self, data: &[u8], header_len: usize, h: &FrameHeader) -> (f: Option<
        DecodedFrame,
    >)
        requires
            header_len <= data@.len() <= header_len + i32::MAX,
        ensures
            !feeds(old(self)@.synced, *h) ==> f is None && *final(self) == *old(self),
            feeds(old(self)@.synced, *h) ==> final(self)@.fed == old(self)@.fed.push(
                data@.subrange(header_len as int, data@.len() as int),
            ),
            feeds(old(self)@.synced, *h) ==> exists|out: Decoded|
                decoder_step(
                    old(self)@,
                    StreamEvent {
                        header: *h,
                        unit: data@.subrange(header_len as int, data@.len() as int),
                        outcome: out,
                    },
                    final(self)@,
                ) && #[trigger] shows(f, *h, out),
    {
        if !self.sync.wants(h) {
            return None;
        }
        let unit = vstd::slice::slice_subrange(data, header_len, data.len());
        let out = match self.decoder.decode_unit(unit) {
            Ok(Some(p)) => Decoded::Picture(p),
            Ok(None) => Decoded::Nothing,
            Err(_) => Decoded::Failed,
        };
        let ghost o = out;
        let f = self.sync.settle(h, out);
        assert(decoder_step(
            old(self)@,
            StreamEvent { header: *h, unit: unit@, outcome: o },
            self@,
        ) && shows(f, *h, o));
        f
    }
}

/// Whether decoding is in sync after the first `n` messages of a stream.
pub open spec fn synced_at(events: Seq<StreamEvent>, n: int) -> bool
    decreases n,
{
    if n <= 0 {
        false
    } else if feeds(synced_at(events, n - 1), events[n - 1].header) {
        synced_after(synced_at(events, n - 1), events[n - 1].outcome)
    } else {
        synced_at(events, n - 1)
    }
}

/// Whether message `i` of a stream goes to the decoder.
pub open spec fn fed(events: Seq<StreamEvent>, i: int) -> bool {
    feeds(synced_at(events, i), events[i].header)
}

/// The access units of the messages that go to the decoder, among the first `n`, in order.
pub open spec fn units_fed(events: Seq<StreamEvent>, n: int) -> Seq<Seq<u8>>
    decreases n,
{
    if n <= 0 {
        Seq::empty()
    } else if fed(events, n - 1) {
        units_fed(events, n - 1).push(events[n - 1].unit)
    } else {
        units_fed(events, n - 1)
    }
}

/// A run of a stream's video side from its start.
pub open spec fn decoder_run(states: Seq<StreamState>, events: Seq<StreamEvent>) -> bool {
    &&& states.len() == events.len() + 1
    &&& states[0] == StreamState::fresh()
    &&& forall|i: int|
        0 <= i < events.len() ==> #[trigger] decoder_step(states[i], events[i], states[i + 1])
}

/// The decoder of a stream is fed exactly the units of the frames that are keyframes or come in
/// sync, in order; and each outcome is one that the unit can have behind just those.
pub proof fn law_decoder_gets_wanted_units(
    states: Seq<StreamState>,
    events: Seq<StreamEvent>,
    n: int,
)
    requires
        decoder_run(states, events),
        0 <= n <= events.len(),
    ensures
        states[n].synced == synced_at(events, n),
        states[n].fed == units_fed(events, n),
        n < events.len() && fed(events, n) ==> unit_results(
            units_fed(events, n),
            events[n].unit,
        ).contains(events[n].outcome.plain()),
    decreases n,
{
    if n > 0 {
        law_decoder_gets_wanted_units(states, events, n - 1);
        assert(decoder_step(states[n - 1], events[n - 1], states[n - 1 + 1]));
    }
    if n < events.len() {
        assert(decoder_step(states[n], events[n], states[n + 1]));
    }
}

/// Whether message `j` of a stream gave a picture and nothing up to message `i` failed since.
pub open spec fn carries(events: Seq<StreamEvent>, j: int, i: int) -> bool {
    &&& 0 <= j < i
    &&& fed(events, j)
    &&& events[j].outcome is Picture
    &&& forall|k: int| j < k < i && #[trigger] fed(events, k) ==> !(events[k].outcome is Failed)
}

/// A frame that is no keyframe is decoded only after a picture, with no failure since: the
/// decoder never gets a frame that builds on one it did not have.
pub proof fn law_frames_build_on_pictures(events: Seq<StreamEvent>, i: int)
    requires
        0 <= i < events.len(),
        fed(events, i),
        !events[i].header.keyframe,
    ensures
        exists|j: int| #[trigger] carries(events, j, i),
{
    lemma_synced_carries(events, i);
}

proof fn lemma_synced_carries(events: Seq<StreamEvent>, n: int)
    requires
        0 <= n <= events.len(),
        synced_at(events, n),
    ensures
        exists|j: int| #[trigger] carries(events, j, n),
    decreases n,
{
    if n > 0 {
        if fed(events, n - 1) && events[n - 1].outcome is Picture {
            assert(carries(events, n - 1, n));
        } else {
            lemma_synced_carries(events, n - 1);
            let j = choose|j: int| #[trigger] carries(events, j, n - 1);
            assert(carries(events, j, n));
        }
    }
}

/// Decoding starts at a keyframe, and so it goes on after a failure: the next frame that goes
/// to the decoder is a keyframe, and a keyframe always goes there.
pub proof fn law_keyframes_start_over(events: Seq<StreamEvent>, i: int, j: int)
    requires
        -1 <= i < j < events.len(),
        i >= 0 ==> fed(events, i) && events[i].outcome is Failed,
        forall|k: int| i < k < j ==> !#[trigger] fed(events, k),
    ensures
        fed(events, j) <==> events[j].header.keyframe,
{
    lemma_stays_out(events, i, j);
}

proof fn lemma_stays_out(events: Seq<StreamEvent>, i: int, n: int)
    requires
        -1 <= i < n <= events.len(),
        i >= 0 ==> fed(events, i) && events[i].outcome is Failed,
        forall|k: int| i < k < n ==> !#[trigger] fed(events, k),
    ensures
        !synced_at(events, n),
    decreases n,
{
    if n - 1 > i {
        assert(!fed(events, n - 1));
        lemma_stays_out(events, i, n - 1);
    }
}

/// Why a stream ended.
#[derive(Debug, Clone, Copy, PartialEq, Eq, Structural)]
pub enum End {
    /// The server closed it.
    Closed,
    /// Whoever gets the frames wants no more.
    Enough,
    /// The connection broke.
    Broken,
}

/// What a binary message brought.
pub enum Arrival {
    Frame(DecodedFrame),
    Cursor(CursorChange),
    /// Nothing to show: a frame that is not wanted or gave no picture, a message that nobody reads,
    /// or one after the end.
    Nothing,
    /// Its header is damaged or cut short.
    BadHeader,
}

impl Arrival {
    /// The frame that came.
    pub open spec fn frame(self) -> Option<DecodedFrame> {
        match self {
            Arrival::Frame(f) => Some(f),
            _ => None,
        }
    }
}

/// A stream, as the laws speak of it: its video side, and whether it ended.
#[verifier::ext_equal]
pub struct SessionState {
    pub video: StreamState,
    pub end: Option<End>,
}

impl SessionState {
    /// The start of a stream.
    pub open spec fn fresh() -> SessionState {
        SessionState { video: StreamState::fresh(), end: None }
    }

    /// The stream after a read.
    pub open spec fn after_read(self, what: Received) -> SessionState {
        if self.end is Some {
            self
        } else {
            SessionState {
                end: match turn_of(what) {
                    Turn::Stop => Some(End::Closed),
                    Turn::Fail => Some(End::Broken),
                    _ => None,
                },
                ..self
            }
        }
    }

    /// The stream once a frame was handed out, and more are wanted or not.
    pub open spec fn after_frame(self, more: bool) -> SessionState {
        if self.end is None && !more {
            SessionState { end: Some(End::Enough), ..self }
        } else {
            self
        }
    }
}

/// A stream from its start to its end.
pub struct Session {
    decoder: StreamDecoder,
    end: Option<End>,
}

impl View for Session {
    type V = SessionState;

    closed spec fn view(&self) -> SessionState {
        SessionState { video: self.decoder@, end: self.end }
    }
}

impl Session {
    /// The start of a stream.
    pub fn new() -> (r: Result<Self, NoDecoder>)
        ensures
            r is Ok ==> r->Ok_0@ == SessionState::fresh(),
            exists|made: Result<StreamDecoder, NoDecoder>| #[trigger]
                call_ensures(StreamDecoder::new, (), made) && (r is Ok <==> made is Ok),
    {
        let made = StreamDecoder::new();
        assert(call_ensures(StreamDecoder::new, (), made));
        match made {
            Ok(decoder) => Ok(Session { decoder, end: None }),
            Err(e) => Err(e),
        }
    }

    /// Whether the stream ended, and why.
    pub fn end(&self) -> (e: Option<End>)
        ensures
            e == self@.end,
    {
        self.end
    }

    /// What to do about a read. After the end there is nothing to do but to stop.
    pub fn on_read(&mut self, what: Received) -> (t: Turn)
        ensures
            final(self)@ == old(self)@.after_read(what),
            t == if old(self)@.end is Some {
                Turn::Stop
            } else {
                turn_of(what)
            },
    {
        if self.end.is_some() {
            return Turn::Stop;
        }
        let t = on_read(what);
        match t {
            Turn::Stop => {
                self.end = Some(End::Closed);
            },
            Turn::Fail => {
                self.end = Some(End::Broken);
            },
            _ => {},
        }
        t
    }

    /// Takes in a binary message: to the cursor, to the decoder, or nowhere. `plane` is its plane
    /// header, where it has one and the cursor is followed; `frame` is its frame header, where it
    /// has one, and its access unit starts at `header_len`.
    pub fn on_message(
        &mut self,
        data: &[u8],
        codes: &PlaneCodes,
        plane: Option<PlaneHeader>,
        frame: Option<FrameHeader>,
        header_len: usize,
    ) -> (a: Arrival)
        requires
            plane is Some ==> codes.header_len <= data@.len(),
            frame is Some ==> header_len <= data@.len() <= header_len + i32::MAX,
        ensures
            message_post(
                old(self)@,
                data@,
                *codes,
                plane,
                frame,
                header_len as int,
                a,
                final(self)@,
            ),
    {
        if self.end.is_some() {
            return Arrival::Nothing;
        }
        match route(data, codes, plane, frame) {
            Route::Cursor(c) => Arrival::Cursor(c),
            Route::Unread => Arrival::Nothing,
            Route::BadHeader => Arrival::BadHeader,
            Route::Video(h) => {
                let f = self.decoder.on_frame(data, header_len, &h);
                proof {
                    let unit = data@.subrange(header_len as int, data@.len() as int);
                    if feeds(old(self)@.video.synced, h) {
                        let out = choose|out: Decoded|
                            decoder_step(
                                old(self)@.video,
                                StreamEvent { header: h, unit, outcome: out },
                                self@.video,
                            ) && #[trigger] shows(f, h, out);
                        assert(frame_post(old(self)@.video, h, unit, out, f, self@.video));
                    } else {
                        assert(frame_post(
                            old(self)@.video,
                            h,
                            unit,
                            Decoded::Nothing,
                            f,
                            self@.video,
                        ));
                    }
                }
                match f {
                    Some(f) => Arrival::Frame(f),
                    None => Arrival::Nothing,
                }
            },
        }
    }

    /// A frame was handed out, and more are wanted or not.
    pub fn on_shown(&mut self, more: bool)
        ensures
            final(self)@ == old(self)@.after_frame(more),
    {
        if self.end.is_none() && !more {
            self.end = Some(End::Enough);
        }
    }
}

/// What a video message does, with this outcome of decoding it, and what it brings.
pub open spec fn frame_post(
    before: StreamState,
    h: FrameHeader,
    unit: Seq<u8>,
    out: Decoded,
    f: Option<DecodedFrame>,
    after: StreamState,
) -> bool {
    &&& decoder_step(before, StreamEvent { header: h, unit, outcome: out }, after)
    &&& if feeds(before.synced, h) {
        shows(f, h, out)
    } else {
        f is None
    }
}

/// What a binary message does to a stream, and what it brings.
pub open spec fn message_post(
    before: SessionState,
    data: Seq<u8>,
    codes: PlaneCodes,
    plane: Option<PlaneHeader>,
    frame: Option<FrameHeader>,
    header_len: int,
    a: Arrival,
    after: SessionState,
) -> bool {
    let unit = data.subrange(header_len, data.len() as int);
    if before.end is Some {
        a is Nothing && after == before
    } else if is_plane(data, codes) {
        &&& after == before
        &&& match plane {
            Some(h) => a matches Arrival::Cursor(c) && asks(data, codes, h, c),
            None => a is Nothing,
        }
    } else if frame is None {
        a is BadHeader && after == before
    } else {
        &&& after.end is None
        &&& a is Nothing || a is Frame
        &&& exists|out: Decoded| #[trigger]
            frame_post(
                before.video,
                frame->0,
                unit,
                out,
                a.frame(),
                after.video,
            )
    }
}

/// Something that happened to a stream. A binary message that is no video frame has no event.
pub enum SessionEvent {
    Read(Received),
    Message(Option<StreamEvent>),
    Shown(bool),
}

/// Whether an event takes a stream from one state to the other.
pub open spec fn session_step(before: SessionState, e: SessionEvent, after: SessionState) -> bool {
    match e {
        SessionEvent::Read(what) => after == before.after_read(what),
        SessionEvent::Message(m) => if before.end is Some || m is None {
            after == before
        } else {
            after.end is None && decoder_step(before.video, m->0, after.video)
        },
        SessionEvent::Shown(more) => after == before.after_frame(more),
    }
}

/// A run of a stream from its start.
pub open spec fn session_run(states: Seq<SessionState>, events: Seq<SessionEvent>) -> bool {
    &&& states.len() == events.len() + 1
    &&& states[0] == SessionState::fresh()
    &&& forall|i: int|
        0 <= i < events.len() ==> #[trigger] session_step(states[i], events[i], states[i + 1])
}

/// The video messages that came before the end, among the first `n` events.
pub open spec fn video_of(
    states: Seq<SessionState>,
    events: Seq<SessionEvent>,
    n: int,
) -> Seq<StreamEvent>
    decreases n,
{
    if n <= 0 {
        Seq::empty()
    } else {
        let before = video_of(states, events, n - 1);
        match events[n - 1] {
            SessionEvent::Message(Some(m)) => if states[n - 1].end is None {
                before.push(m)
            } else {
                before
            },
            _ => before,
        }
    }
}

/// A message is an event of the run: what [`message_post`] says of it is a step.
pub proof fn law_messages_are_steps(
    before: SessionState,
    data: Seq<u8>,
    codes: PlaneCodes,
    plane: Option<PlaneHeader>,
    frame: Option<FrameHeader>,
    header_len: int,
    a: Arrival,
    after: SessionState,
)
    requires
        message_post(before, data, codes, plane, frame, header_len, a, after),
    ensures
        is_plane(data, codes) || frame is None ==> session_step(
            before,
            SessionEvent::Message(None),
            after,
        ),
        !is_plane(data, codes) && frame is Some ==> exists|out: Decoded|
            session_step(
                before,
                SessionEvent::Message(
                    Some(
                        StreamEvent {
                            header: frame->0,
                            unit: data.subrange(header_len, data.len() as int),
                            outcome: out,
                        },
                    ),
                ),
                after,
            ) && #[trigger] frame_seen(before, frame->0, out, a),
{
    if !is_plane(data, codes) && frame is Some {
        let unit = data.subrange(header_len, data.len() as int);
        if before.end is Some {
            assert(frame_seen(before, frame->0, Decoded::Nothing, a));
        } else {
            let out = choose|out: Decoded| #[trigger]
                frame_post(before.video, frame->0, unit, out, a.frame(), after.video);
            assert(frame_seen(before, frame->0, out, a));
        }
    }
}

/// Whether a frame is handed out just where a message before the end was decoded to a picture, with
/// the number and the kind that its header says.
pub open spec fn frame_seen(before: SessionState, h: FrameHeader, out: Decoded, a: Arrival) -> bool {
    if before.end is None && feeds(before.video.synced, h) && out is Picture {
        a matches Arrival::Frame(f) && shows(Some(f), h, out)
    } else {
        !(a is Frame)
    }
}

proof fn lemma_prefix(a: Seq<StreamEvent>, e: StreamEvent, n: int)
    requires
        0 <= n <= a.len(),
    ensures
        synced_at(a.push(e), n) == synced_at(a, n),
        units_fed(a.push(e), n) == units_fed(a, n),
    decreases n,
{
    if n > 0 {
        lemma_prefix(a, e, n - 1);
        assert(a.push(e)[n - 1] == a[n - 1]);
    }
}

/// From its start to its end a stream feeds its decoder exactly the units of the video messages
/// that are keyframes or come in sync, in order.
pub proof fn law_session_feeds_wanted_units(
    states: Seq<SessionState>,
    events: Seq<SessionEvent>,
    n: int,
)
    requires
        session_run(states, events),
        0 <= n <= events.len(),
    ensures
        ({
            let v = video_of(states, events, n);
            &&& states[n].video.synced == synced_at(v, v.len() as int)
            &&& states[n].video.fed == units_fed(v, v.len() as int)
        }),
    decreases n,
{
    if n > 0 {
        law_session_feeds_wanted_units(states, events, n - 1);
        assert(session_step(states[n - 1], events[n - 1], states[n - 1 + 1]));
        let v = video_of(states, events, n - 1);
        match events[n - 1] {
            SessionEvent::Message(Some(m)) => {
                if states[n - 1].end is None {
                    lemma_prefix(v, m, v.len() as int);
                    assert(v.push(m)[v.len() as int] == m);
                    assert(v.push(m).len() == v.len() + 1);
                }
            },
            _ => {},
        }
    }
}

/// A stream that ended stays as it is: nothing more is fed to its decoder, and the reason for its
/// end is the first there was.
pub proof fn law_ended_is_over(states: Seq<SessionState>, events: Seq<SessionEvent>, i: int, j: int)
    requires
        session_run(states, events),
        0 <= i <= j <= events.len(),
        states[i].end is Some,
    ensures
        states[j] == states[i],
    decreases j - i,
{
    if i < j {
        law_ended_is_over(states, events, i, j - 1);
        assert(session_step(states[j - 1], events[j - 1], states[j - 1 + 1]));
    }
}

} // verus!
