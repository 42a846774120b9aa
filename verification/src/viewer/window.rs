//! What the window decides: which device and swapchain to take, when to draw anew, what the
//! frame with its cursor is, and what the GPU is told to do for one picture.
use crate::gpu::commands::{
    barrier, layout_after, layouts_sound, lemma_layouts_push, plain_barrier, Buf, Command, Img,
    Size,
};
use crate::gpu::machine::{
    barrier_orders, lemma_packed, lemma_step, packed, stretched, texel_after, word_after, Texel,
};
use crate::gpu::scratch::{frame_image_order, Slot};
use crate::gpu::steps::{
    buffer_steps, filled, given_back, image_steps, lemma_object_steps, lemma_step_push,
    lemma_steps_join, orderly, plan_buffer, plan_image, push_steps, Step,
};
use crate::gpu::vk::{
    BUFFER_TRANSFER_SRC, FILTER_LINEAR, FORMAT_B8G8R8A8_UNORM, IMAGE_TRANSFER_DST,
    IMAGE_TRANSFER_SRC, LAYOUT_PRESENT_SRC, LAYOUT_TRANSFER_DST, LAYOUT_TRANSFER_SRC,
    LAYOUT_UNDEFINED, MEMORY_HOST_COHERENT, MEMORY_HOST_VISIBLE, PRESENT_FIFO, PRESENT_IMMEDIATE,
    PRESENT_MAILBOX, STAGE_ALL_COMMANDS,
};
use crate::viewer::compose::{
    blend_at, ingest_frame, ingested, law_ingested_pixel, law_sprite_lands, lemma_whole_frame,
    Placement,
};
use crate::viewer::stream::{CursorShape, DecodedFrame};
use std::sync::Arc;
use vstd::prelude::*;

verus! {

/// A queue family of a device, as a place to draw for a window.
#[derive(Debug, Clone, Copy, PartialEq, Eq, Structural)]
pub struct Output {
    pub graphics: bool,
    pub presents: bool,
    /// Whether the device is a GPU of its own.
    pub discrete: bool,
}

impl Output {
    /// Whether the window can be drawn there.
    pub open spec fn usable(self) -> bool {
        self.graphics && self.presents
    }
}

/// Whether `i` is the queue family to take: the first usable one of a discrete GPU, or where
/// there is none, the first usable one.
pub open spec fn best_output(outputs: Seq<Output>, i: int) -> bool {
    &&& 0 <= i < outputs.len()
    &&& outputs[i].usable()
    &&& if outputs[i].discrete {
        forall|j: int| 0 <= j < i && outputs[j].usable() ==> !(#[trigger] outputs[j]).discrete
    } else {
        &&& forall|j: int| 0 <= j < i ==> !(#[trigger] outputs[j]).usable()
        &&& forall|j: int|
            0 <= j < outputs.len() && outputs[j].usable() ==> !(#[trigger] outputs[j]).discrete
    }
}

/// Whether the window can be drawn nowhere.
pub open spec fn none_usable(outputs: Seq<Output>) -> bool {
    forall|i: int| 0 <= i < outputs.len() ==> !(#[trigger] outputs[i]).usable()
}

/// Picks the queue family to draw the window with; none where no one is usable.
pub fn pick_output(outputs: &[Output]) -> (r: Option<usize>)
    ensures
        r is Some ==> best_output(outputs@, r->0 as int),
        r is None <==> forall|i: int| 0 <= i < outputs@.len() ==> !(#[trigger] outputs@[i]).usable(),
        r is None <==> none_usable(outputs@),
{
    let mut best: Option<usize> = None;
    let mut i: usize = 0;
    while i < outputs.len()
        invariant
            i <= outputs@.len(),
            best is Some ==> best_output(outputs@.take(i as int), best->0 as int),
            best is None ==> forall|j: int|
                0 <= j < i ==> !(#[trigger] outputs@[j]).usable(),
        decreases outputs.len() - i,
    {
        let o = outputs[i];
        let ghost seen = outputs@.take(i as int);
        let ghost next = outputs@.take(i + 1);
        assert forall|j: int| 0 <= j < i implies #[trigger] next[j] == seen[j] by {}
        assert(next[i as int] == o);
        if o.graphics && o.presents {
            match best {
                None => {
                    assert forall|j: int| 0 <= j < i implies !(#[trigger] next[j]).usable() by {
                        assert(next[j] == outputs@[j]);
                    }
                    best = Some(i);
                },
                Some(b) => {
                    assert(seen[b as int] == outputs@[b as int]);
                    if o.discrete && !outputs[b].discrete {
                        best = Some(i);
                    }
                },
            }
        }
        i = i + 1;
    }
    assert(outputs@.take(i as int) =~= outputs@);
    best
}

/// The size that the window asks for: at least one pixel each way.
pub open spec fn at_least_one(width: u32, height: u32) -> Size {
    Size {
        width: if width == 0 {
            1
        } else {
            width
        },
        height: if height == 0 {
            1
        } else {
            height
        },
    }
}

/// What a surface can do.
#[derive(Debug, Clone, Copy, PartialEq, Eq, Structural)]
pub struct SurfaceCaps {
    /// The size of the surface; the largest width where the swapchain decides.
    pub current: Size,
    pub min: Size,
    pub max: Size,
    pub min_images: u32,
    /// The most images; zero where there is no limit.
    pub max_images: u32,
}

/// A number brought between two others.
pub open spec fn between(x: u32, low: u32, high: u32) -> u32 {
    if x < low {
        low
    } else if x > high {
        high
    } else {
        x
    }
}

impl SurfaceCaps {
    /// Whether the swapchain decides the size.
    pub open spec fn free(self) -> bool {
        self.current.width == u32::MAX
    }

    /// The size of a swapchain for a window that wants `want`.
    pub open spec fn extent(self, want: Size) -> Size {
        if self.free() {
            Size {
                width: between(want.width, self.min.width, self.max.width),
                height: between(want.height, self.min.height, self.max.height),
            }
        } else {
            self.current
        }
    }

    /// How many images to ask for: one more than the fewest, up to the limit.
    pub open spec fn images(self) -> int {
        if self.max_images > 0 && self.min_images + 1 > self.max_images {
            self.max_images as int
        } else {
            self.min_images + 1
        }
    }
}

fn clamp(x: u32, low: u32, high: u32) -> (r: u32)
    ensures
        r == between(x, low, high),
{
    if x < low {
        low
    } else if x > high {
        high
    } else {
        x
    }
}

/// The size of a swapchain; none where the window is minimized.
pub fn swapchain_extent(caps: &SurfaceCaps, want: Size) -> (r: Option<Size>)
    requires
        caps.free() ==> caps.min.width <= caps.max.width && caps.min.height <= caps.max.height,
    ensures
        r is None <==> caps.extent(want).width == 0 || caps.extent(want).height == 0,
        r is Some ==> r->0 == caps.extent(want),
{
    let e = if caps.current.width != u32::MAX {
        caps.current
    } else {
        Size {
            width: clamp(want.width, caps.min.width, caps.max.width),
            height: clamp(want.height, caps.min.height, caps.max.height),
        }
    };
    if e.width == 0 || e.height == 0 {
        None
    } else {
        Some(e)
    }
}

/// How many images to ask for.
pub fn image_count(caps: &SurfaceCaps) -> (n: u32)
    requires
        caps.min_images < u32::MAX,
    ensures
        n == caps.images(),
{
    let n: u32 = caps.min_images + 1;
    if caps.max_images > 0 && n > caps.max_images {
        caps.max_images
    } else {
        n
    }
}

/// Picks the surface format: the first that is the frames' own, or else the first.
pub fn pick_format(formats: &[i32]) -> (i: usize)
    requires
        formats@.len() > 0,
    ensures
        i < formats@.len(),
        formats@.contains(FORMAT_B8G8R8A8_UNORM) ==> formats@[i as int] == FORMAT_B8G8R8A8_UNORM
            && forall|j: int| 0 <= j < i ==> formats@[j] != FORMAT_B8G8R8A8_UNORM,
        !formats@.contains(FORMAT_B8G8R8A8_UNORM) ==> i == 0,
{
    let mut i: usize = 0;
    while i < formats.len()
        invariant
            i <= formats@.len(),
            forall|j: int| 0 <= j < i ==> formats@[j] != FORMAT_B8G8R8A8_UNORM,
        decreases formats.len() - i,
    {
        if formats[i] == FORMAT_B8G8R8A8_UNORM {
            return i;
        }
        i = i + 1;
    }
    0
}

fn has_mode(modes: &[i32], m: i32) -> (b: bool)
    ensures
        b == modes@.contains(m),
{
    let mut i: usize = 0;
    while i < modes.len()
        invariant
            i <= modes@.len(),
            forall|j: int| 0 <= j < i ==> modes@[j] != m,
        decreases modes.len() - i,
    {
        if modes[i] == m {
            return true;
        }
        i = i + 1;
    }
    false
}

/// Picks how pictures reach the screen: the newest at the next refresh, or at once, or one after
/// the other, which every surface can do.
pub fn pick_present_mode(modes: &[i32]) -> (m: i32)
    ensures
        m == if modes@.contains(PRESENT_MAILBOX) {
            PRESENT_MAILBOX
        } else if modes@.contains(PRESENT_IMMEDIATE) {
            PRESENT_IMMEDIATE
        } else {
            PRESENT_FIFO
        },
{
    if has_mode(modes, PRESENT_MAILBOX) {
        PRESENT_MAILBOX
    } else if has_mode(modes, PRESENT_IMMEDIATE) {
        PRESENT_IMMEDIATE
    } else {
        PRESENT_FIFO
    }
}

/// Whether to show or hide the system's cursor: hidden once the client draws one, and changed
/// only when it has to be. `Some(true)` shows it.
pub fn cursor_toggle(has_shape: bool, hidden: bool) -> (r: Option<bool>)
    ensures
        r is Some <==> has_shape != hidden,
        r is Some ==> r->0 == !has_shape,
{
    if has_shape != hidden {
        Some(!has_shape)
    } else {
        None
    }
}

/// How acquiring or presenting a swapchain image went.
#[derive(Debug, Clone, Copy, PartialEq, Eq, Structural)]
pub enum SwapResult {
    Fine,
    /// It worked, but the swapchain no longer fits the surface.
    Suboptimal,
    /// The swapchain can no longer be used.
    OutOfDate,
    Failed,
}

/// What follows.
#[derive(Debug, Clone, Copy, PartialEq, Eq, Structural)]
pub enum SwapNext {
    GoOn,
    /// Leave this picture out.
    Skip,
    Fail,
}

/// The state of the swapchain.
#[derive(Debug, Clone, Copy, PartialEq, Eq, Structural)]
pub struct Swapchain {
    /// Whether it has to be made anew before the next picture.
    pub dirty: bool,
    /// The size that the window wants.
    pub want: Size,
    /// The size of the swapchain's images.
    pub extent: Size,
    /// Whether there is one.
    pub made: bool,
}

impl Swapchain {
    /// None yet, for a window of this size.
    pub fn new(width: u32, height: u32) -> (s: Self)
        ensures
            s == (Swapchain {
                dirty: true,
                want: at_least_one(width, height),
                extent: Size { width: 0, height: 0 },
                made: false,
            }),
    {
        Swapchain {
            dirty: true,
            want: Size {
                width: if width == 0 {
                    1
                } else {
                    width
                },
                height: if height == 0 {
                    1
                } else {
                    height
                },
            },
            extent: Size { width: 0, height: 0 },
            made: false,
        }
    }

    /// The window changed its size.
    pub fn mark_dirty(&mut self, width: u32, height: u32)
        ensures
            *final(self) == (Swapchain {
                dirty: true,
                want: at_least_one(width, height),
                ..*old(self)
            }),
    {
        let fresh = Swapchain::new(width, height);
        self.want = fresh.want;
        self.dirty = true;
    }

    /// A swapchain of this size was made.
    pub fn remade(&mut self, extent: Size)
        ensures
            *final(self) == (Swapchain { dirty: false, extent, made: true, ..*old(self) }),
    {
        self.dirty = false;
        self.extent = extent;
        self.made = true;
    }

    /// Whether there is something to draw on.
    pub fn can_draw(&self) -> (b: bool)
        ensures
            b == (self.extent.width != 0 && self.made),
    {
        self.extent.width != 0 && self.made
    }

    /// An image was asked for.
    pub fn acquired(&mut self, r: SwapResult) -> (next: SwapNext)
        ensures
            next == match r {
                SwapResult::Fine => SwapNext::GoOn,
                SwapResult::Suboptimal => SwapNext::GoOn,
                SwapResult::OutOfDate => SwapNext::Skip,
                SwapResult::Failed => SwapNext::Fail,
            },
            *final(self) == (Swapchain {
                dirty: old(self).dirty || r == SwapResult::Suboptimal || r == SwapResult::OutOfDate,
                ..*old(self)
            }),
    {
        match r {
            SwapResult::Fine => SwapNext::GoOn,
            SwapResult::Suboptimal => {
                self.dirty = true;
                SwapNext::GoOn
            },
            SwapResult::OutOfDate => {
                self.dirty = true;
                SwapNext::Skip
            },
            SwapResult::Failed => SwapNext::Fail,
        }
    }

    /// An image was presented.
    pub fn presented(&mut self, r: SwapResult) -> (next: SwapNext)
        ensures
            next == if r == SwapResult::Failed {
                SwapNext::Fail
            } else {
                SwapNext::GoOn
            },
            *final(self) == (Swapchain {
                dirty: old(self).dirty || r == SwapResult::Suboptimal || r == SwapResult::OutOfDate,
                ..*old(self)
            }),
    {
        match r {
            SwapResult::Fine => SwapNext::GoOn,
            SwapResult::Suboptimal => {
                self.dirty = true;
                SwapNext::GoOn
            },
            SwapResult::OutOfDate => {
                self.dirty = true;
                SwapNext::GoOn
            },
            SwapResult::Failed => SwapNext::Fail,
        }
    }
}

/// Where the local pointer is, in pixels of the frame.
#[derive(Debug, Clone, Copy, PartialEq, Eq, Structural)]
pub struct Pointer {
    pub x: i32,
    pub y: i32,
}

/// All that a drawn cursor depends on: two draws with the same key look the same.
#[derive(Debug, Clone, Copy, PartialEq, Eq, Structural)]
pub struct CursorKey {
    /// The sprite's top-left corner; the smallest number where no sprite is placed.
    pub x: i64,
    pub y: i64,
    pub version: u64,
    pub drawn: bool,
}

/// The frame without its cursor, and the cursor.
pub struct Overlay {
    /// The last decoded frame, BGRA.
    pub clean: Vec<u8>,
    pub width: u32,
    pub height: u32,
    pub shape: Option<Arc<CursorShape>>,
    pub version: u64,
    pub visible: bool,
    pub last: Option<CursorKey>,
}

impl Overlay {
    /// The clean frame has as many bytes as its size asks for.
    pub open spec fn wf(&self) -> bool {
        self.clean@.len() == self.width * self.height * 4
    }

    /// The sprite's top-left corner.
    pub open spec fn corner(&self, p: Pointer) -> (int, int) {
        (p.x - self.shape->0.hot_x, p.y - self.shape->0.hot_y)
    }

    /// Whether the cursor is drawn.
    pub open spec fn drawn(&self, p: Option<Pointer>) -> bool {
        self.visible && p is Some && self.shape is Some
    }

    /// The key of the cursor as it is.
    pub open spec fn key_of(&self, p: Option<Pointer>) -> CursorKey {
        CursorKey {
            x: if p is Some && self.shape is Some {
                self.corner(p->0).0 as i64
            } else {
                i64::MIN
            },
            y: if p is Some && self.shape is Some {
                self.corner(p->0).1 as i64
            } else {
                i64::MIN
            },
            version: self.version,
            drawn: self.drawn(p),
        }
    }

    /// The cursor on the frame.
    pub open spec fn placement(&self, p: Pointer) -> Placement {
        Placement {
            fw: self.width as usize,
            fh: self.height as usize,
            cw: self.shape->0.w as usize,
            ch: self.shape->0.h as usize,
            px0: self.corner(p).0 as i64,
            py0: self.corner(p).1 as i64,
            premul: self.shape->0.premultiplied,
        }
    }

    /// Byte `i` of the frame with its cursor.
    pub open spec fn composed(&self, p: Option<Pointer>, i: int) -> u8 {
        if self.drawn(p) && self.shape->0.bgra@.len() >= self.shape->0.w * self.shape->0.h * 4 {
            self.placement(p->0).blended(self.clean@, self.shape->0.bgra@, i)
        } else {
            self.clean@[i]
        }
    }

    /// Nothing decoded, no cursor.
    pub fn new() -> (o: Self)
        ensures
            o.wf(),
            o.clean@.len() == 0,
            o.width == 0,
            o.height == 0,
            o.shape is None,
            o.version == 0,
            !o.visible,
            o.last is None,
    {
        Overlay {
            clean: Vec::new(),
            width: 0,
            height: 0,
            shape: None,
            version: 0,
            visible: false,
            last: None,
        }
    }

    /// Takes a decoded frame in.
    pub fn ingest(&mut self, f: &DecodedFrame)
        requires
            f.width * f.height * 4 <= usize::MAX,
        ensures
            final(self).wf(),
            final(self).width == f.width,
            final(self).height == f.height,
            forall|i: int|
                0 <= i < final(self).clean@.len() ==> #[trigger] final(self).clean@[i] == ingested(
                    old(self).clean@,
                    f.rgba@,
                    i,
                ),
            final(self).shape == old(self).shape,
            final(self).version == old(self).version,
            final(self).visible == old(self).visible,
            final(self).last == old(self).last,
    {
        ingest_frame(&mut self.clean, f.width, f.height, f.rgba.as_slice());
        self.width = f.width;
        self.height = f.height;
    }

    /// The key of the cursor as it is.
    pub fn cursor_key(&self, p: Option<Pointer>) -> (k: CursorKey)
        ensures
            k == self.key_of(p),
    {
        let (x, y): (i64, i64) = match (p, &self.shape) {
            (Some(p), Some(s)) => (p.x as i64 - s.hot_x as i64, p.y as i64 - s.hot_y as i64),
            _ => (i64::MIN, i64::MIN),
        };
        CursorKey {
            x,
            y,
            version: self.version,
            drawn: self.visible && p.is_some() && self.shape.is_some(),
        }
    }

    /// Takes the newest cursor in. A frame has to be composed anew where a new one was decoded,
    /// the shape is another, or the cursor looks different from the last time.
    pub fn follow(
        &mut self,
        new_frame: bool,
        visible: bool,
        shape: Option<Arc<CursorShape>>,
        version: u64,
        p: Option<Pointer>,
    ) -> (anew: bool)
        requires
            old(self).wf(),
        ensures
            final(self).wf(),
            final(self).clean == old(self).clean,
            final(self).width == old(self).width,
            final(self).height == old(self).height,
            final(self).visible == visible,
            final(self).version == version,
            final(self).shape == if version != old(self).version {
                shape
            } else {
                old(self).shape
            },
            final(self).last == Some(final(self).key_of(p)),
            anew == (new_frame || version != old(self).version || old(self).last != Some(
                final(self).key_of(p),
            )),
    {
        let mut anew: bool = new_frame;
        self.visible = visible;
        if version != self.version {
            self.shape = shape;
            self.version = version;
            anew = true;
        }
        let key = self.cursor_key(p);
        let same: bool = match self.last {
            Some(k) => k == key,
            None => false,
        };
        if !same {
            self.last = Some(key);
            anew = true;
        }
        anew
    }

    /// Composes the frame and its cursor into a buffer of the frame image, which is of size
    /// `target`. Gives whether it did: not before a frame was decoded, nor while the frame image
    /// has another size. What was in the buffer before leaves no trace.
    pub fn compose(&self, target: Option<Size>, p: Option<Pointer>, dst: &mut [u8]) -> (done: bool)
        requires
            self.wf(),
            old(dst)@.len() == self.clean@.len(),
        ensures
            done == (self.clean@.len() > 0 && target == Some(
                Size { width: self.width, height: self.height },
            )),
            final(dst)@.len() == old(dst)@.len(),
            !done ==> final(dst)@ == old(dst)@,
            done ==> forall|i: int|
                0 <= i < final(dst)@.len() ==> #[trigger] final(dst)@[i] == self.composed(p, i),
    {
        if self.clean.len() == 0 {
            return false;
        }
        match target {
            Some(t) => {
                if t.width != self.width || t.height != self.height {
                    return false;
                }
            },
            None => {
                return false;
            },
        }
        let n: usize = dst.len();
        let mut i: usize = 0;
        while i < n
            invariant
                i <= n,
                n == dst@.len(),
                n == self.clean@.len(),
                forall|j: int| 0 <= j < i ==> dst@[j] == self.clean@[j],
            decreases n - i,
        {
            dst[i] = self.clean[i];
            i = i + 1;
        }
        assert(dst@ =~= self.clean@);
        if !self.visible {
            return true;
        }
        if let (Some(p), Some(s)) = (p, &self.shape) {
            let x: i64 = p.x as i64 - s.hot_x as i64;
            let y: i64 = p.y as i64 - s.hot_y as i64;
            proof {
                lemma_whole_frame(self.placement(p), s.bgra@, dst@.len() as int);
            }
            blend_at(
                dst,
                self.width as usize,
                self.height as usize,
                s.bgra.as_slice(),
                s.w as usize,
                s.h as usize,
                x,
                y,
                s.premultiplied,
            );
        }
        true
    }
}

/// A cursor that looks the same leaves the composed frame the same, so composing it again can be
/// left out. Two shapes of one version are the same shape.
pub proof fn law_same_key_same_picture(
    a: Overlay,
    b: Overlay,
    p: Option<Pointer>,
    q: Option<Pointer>,
    i: int,
)
    requires
        a.wf(),
        b.wf(),
        a.clean@ == b.clean@,
        a.width == b.width,
        a.height == b.height,
        a.version == b.version ==> a.shape == b.shape,
        a.key_of(p) == b.key_of(q),
    ensures
        a.composed(p, i) == b.composed(q, i),
{
    if a.drawn(p) {
        assert(a.placement(p->0) == b.placement(q->0));
    }
}

/// The hotspot of a cursor lies on the pointer: the sprite's corner and its hotspot add up to the
/// pointer, both ways. Without a pointer or a shape no corner is named.
pub proof fn law_hotspot_is_on_the_pointer(o: Overlay, p: Pointer)
    requires
        o.shape is Some,
    ensures
        o.key_of(Some(p)).x + o.shape->0.hot_x == p.x,
        o.key_of(Some(p)).y + o.shape->0.hot_y == p.y,
        o.key_of(Some(p)).drawn == o.visible,
        o.key_of(Some(p)).version == o.version,
        o.key_of(None).x == -0x8000_0000_0000_0000,
        o.key_of(None).y == -0x8000_0000_0000_0000,
        !o.key_of(None).drawn,
{
}

/// A drawn cursor hangs on the pointer by its hotspot: pixel (`sx`, `sy`) of the sprite lies as far
/// from the pointer as from the sprite's hotspot. Where it is opaque, it is seen there; where it is
/// transparent, the frame is.
pub proof fn law_cursor_hangs_on_its_hotspot(o: Overlay, p: Pointer, sx: int, sy: int, c: int)
    requires
        o.wf(),
        o.visible,
        o.shape is Some,
        o.shape->0.bgra@.len() >= o.shape->0.w * o.shape->0.h * 4,
        0 <= sx < o.shape->0.w,
        0 <= sy < o.shape->0.h,
        0 <= p.x + sx - o.shape->0.hot_x < o.width,
        0 <= p.y + sy - o.shape->0.hot_y < o.height,
        0 <= c < 3,
    ensures
        ({
            let s = o.shape->0;
            let i = ((p.y + sy - s.hot_y) * o.width + (p.x + sx - s.hot_x)) * 4 + c;
            let at = (sy * s.w + sx) * 4;
            &&& s.bgra@[at + 3] == 255 ==> o.composed(Some(p), i) == s.bgra@[at + c]
            &&& s.bgra@[at + 3] == 0 ==> o.composed(Some(p), i) == o.clean@[i]
        }),
{
    let s = o.shape->0;
    law_sprite_lands(o.placement(p), o.clean@, s.bgra@, sx, sy, c);
}

/// The pixel under the pointer is covered by the sprite's hotspot.
pub proof fn law_pointer_shows_the_hotspot(o: Overlay, p: Pointer, c: int)
    requires
        o.wf(),
        o.visible,
        o.shape is Some,
        o.shape->0.bgra@.len() >= o.shape->0.w * o.shape->0.h * 4,
        o.shape->0.hot_x < o.shape->0.w,
        o.shape->0.hot_y < o.shape->0.h,
        0 <= p.x < o.width,
        0 <= p.y < o.height,
        0 <= c < 3,
    ensures
        ({
            let s = o.shape->0;
            let at = (s.hot_y * s.w + s.hot_x) * 4;
            s.bgra@[at + 3] == 255 ==> o.composed(Some(p), (p.y * o.width + p.x) * 4 + c)
                == s.bgra@[at + c]
        }),
{
    let s = o.shape->0;
    law_cursor_hangs_on_its_hotspot(o, p, s.hot_x as int, s.hot_y as int, c);
}

/// Nothing but the cursor is drawn over a frame: without a pointer, while hidden, without a shape
/// or with too few bytes the frame is shown as it was decoded, and its alpha always is.
pub proof fn law_no_cursor_no_change(o: Overlay, p: Option<Pointer>, i: int)
    requires
        o.wf(),
        0 <= i < o.clean@.len(),
    ensures
        p is None || !o.visible || o.shape is None || o.shape->0.bgra@.len() < o.shape->0.w
            * o.shape->0.h * 4 || i % 4 == 3 ==> o.composed(p, i) == o.clean@[i],
{
}

/// A cursor that is seen differently has another key: one elsewhere, of another version, or one
/// that comes or goes.
pub proof fn law_key_tells_cursors_apart(o: Overlay, p: Pointer, q: Pointer)
    requires
        o.shape is Some,
        p != q,
    ensures
        o.key_of(Some(p)) != o.key_of(Some(q)),
        o.key_of(Some(p)) != o.key_of(None),
{
}

/// The viewer's image of the decoded frame.
#[derive(Debug, Clone, Copy, PartialEq, Eq, Structural)]
pub struct FrameImage {
    pub size: Size,
    /// Whether it holds a frame.
    pub initialized: bool,
    /// Whether the staging buffer holds a frame that it does not hold yet.
    pub pending: bool,
}

/// Whether an image can take a frame of this size.
pub fn keeps_image(image: Option<FrameImage>, width: u32, height: u32) -> (b: bool)
    ensures
        b == (image is Some && image->0.size == (Size { width, height })),
{
    match image {
        Some(f) => f.size.width == width && f.size.height == height,
        None => false,
    }
}

/// Bytes of a frame.
pub open spec fn frame_bytes(width: u32, height: u32) -> int {
    width * height * 4
}

/// Making the frame image and its staging buffer, which stays mapped.
pub open spec fn frame_image_steps(width: u32, height: u32) -> Seq<Step> {
    (image_steps(
        Slot::Image,
        Slot::ImageMem,
        FORMAT_B8G8R8A8_UNORM,
        width,
        height,
        IMAGE_TRANSFER_DST | IMAGE_TRANSFER_SRC,
    ) + buffer_steps(
        Slot::Staging,
        Slot::StagingMem,
        frame_bytes(width, height) as u64,
        BUFFER_TRANSFER_SRC,
        MEMORY_HOST_VISIBLE | MEMORY_HOST_COHERENT,
        0,
    )).push(Step::MapMemory { memory: Slot::StagingMem, size: frame_bytes(width, height) as u64 })
}

/// Plans the frame image and its staging buffer.
pub fn plan_frame_image(width: u32, height: u32) -> (out: Vec<Step>)
    requires
        frame_bytes(width, height) <= u64::MAX,
    ensures
        out@ == frame_image_steps(width, height),
{
    assert(0 <= width * height) by (nonlinear_arith)
        requires
            width >= 0,
            height >= 0,
    ;
    let size: u64 = width as u64 * height as u64 * 4;
    let mut out = plan_image(
        Slot::Image,
        Slot::ImageMem,
        FORMAT_B8G8R8A8_UNORM,
        width,
        height,
        IMAGE_TRANSFER_DST | IMAGE_TRANSFER_SRC,
    );
    let buffer = plan_buffer(
        Slot::Staging,
        Slot::StagingMem,
        size,
        BUFFER_TRANSFER_SRC,
        MEMORY_HOST_VISIBLE | MEMORY_HOST_COHERENT,
        0,
    );
    push_steps(&mut out, buffer);
    out.push(Step::MapMemory { memory: Slot::StagingMem, size });
    out
}

/// The frame image's plan makes each thing before it is used and none twice, and all that it
/// makes is given back.
pub proof fn law_frame_image_plan(width: u32, height: u32)
    ensures
        orderly(Set::empty(), frame_image_steps(width, height)),
        given_back(filled(Set::empty(), frame_image_steps(width, height)), frame_image_order()),
{
    let e = Set::<Slot>::empty();
    let usage = IMAGE_TRANSFER_DST | IMAGE_TRANSFER_SRC;
    let flags = MEMORY_HOST_VISIBLE | MEMORY_HOST_COHERENT;
    let size = frame_bytes(width, height) as u64;
    let a = image_steps(Slot::Image, Slot::ImageMem, FORMAT_B8G8R8A8_UNORM, width, height, usage);
    let b = buffer_steps(Slot::Staging, Slot::StagingMem, size, BUFFER_TRANSFER_SRC, flags, 0);
    lemma_object_steps(
        e,
        Slot::Image,
        Slot::ImageMem,
        FORMAT_B8G8R8A8_UNORM,
        width,
        height,
        size,
        usage,
        flags,
        0,
    );
    let mid = e.insert(Slot::Image).insert(Slot::ImageMem);
    lemma_object_steps(
        mid,
        Slot::Staging,
        Slot::StagingMem,
        FORMAT_B8G8R8A8_UNORM,
        width,
        height,
        size,
        BUFFER_TRANSFER_SRC,
        flags,
        0,
    );
    lemma_steps_join(e, a, b);
    lemma_step_push(e, a + b, Step::MapMemory { memory: Slot::StagingMem, size });
    let o = frame_image_order();
    let made = filled(e, frame_image_steps(width, height));
    assert forall|s: Slot| #[trigger] made.contains(s) implies o.contains(s) by {
        assert(o[0] == Slot::Staging && o[1] == Slot::StagingMem);
        assert(o[2] == Slot::Image && o[3] == Slot::ImageMem);
    }
}

/// The colour of a window before the first frame, as the bits of single-precision numbers: 0.02,
/// 0.02, 0.03 and 1.
pub open spec fn background() -> [u32; 4] {
    [0x3CA3_D70A, 0x3CA3_D70A, 0x3CF5_C28F, 0x3F80_0000]
}

/// A barrier over all commands.
pub open spec fn full_barrier(image: Img, old_layout: i32, new_layout: i32) -> Command {
    plain_barrier(image, None, old_layout, new_layout, STAGE_ALL_COMMANDS, STAGE_ALL_COMMANDS)
}

/// Uploading a pending frame.
pub open spec fn upload_commands(f: FrameImage) -> Seq<Command> {
    seq![
        full_barrier(
            Img::Frame,
            if f.initialized {
                LAYOUT_TRANSFER_SRC
            } else {
                LAYOUT_UNDEFINED
            },
            LAYOUT_TRANSFER_DST,
        ),
        Command::CopyBufferToImage {
            buffer: Buf::Staging,
            image: Img::Frame,
            row_length: 0,
            image_height: 0,
            width: f.size.width,
            height: f.size.height,
        },
        full_barrier(Img::Frame, LAYOUT_TRANSFER_DST, LAYOUT_TRANSFER_SRC),
    ]
}

/// Drawing on the swapchain's image: the frame scaled to it, or the background.
pub open spec fn show_commands(f: Option<FrameImage>, extent: Size) -> Seq<Command> {
    seq![
        full_barrier(Img::Swap, LAYOUT_UNDEFINED, LAYOUT_TRANSFER_DST),
        if f is Some && f->0.initialized {
            Command::Blit {
                source: Img::Frame,
                target: Img::Swap,
                src_width: f->0.size.width,
                src_height: f->0.size.height,
                dst_width: extent.width,
                dst_height: extent.height,
                filter: FILTER_LINEAR,
            }
        } else {
            Command::ClearImage { image: Img::Swap, color: background() }
        },
        full_barrier(Img::Swap, LAYOUT_TRANSFER_DST, LAYOUT_PRESENT_SRC),
    ]
}

/// The frame image once a picture was recorded.
pub open spec fn recorded(f: Option<FrameImage>) -> Option<FrameImage> {
    match f {
        Some(f) => if f.pending {
            Some(FrameImage { initialized: true, pending: false, ..f })
        } else {
            Some(f)
        },
        None => None,
    }
}

/// The commands of one picture.
pub open spec fn picture_commands(f: Option<FrameImage>, extent: Size) -> Seq<Command> {
    if f is Some && f->0.pending {
        upload_commands(f->0) + show_commands(recorded(f), extent)
    } else {
        show_commands(f, extent)
    }
}

fn push_full_barrier(out: &mut Vec<Command>, image: Img, old_layout: i32, new_layout: i32)
    ensures
        final(out)@ == old(out)@.push(full_barrier(image, old_layout, new_layout)),
{
    out.push(
        barrier(image, None, old_layout, new_layout, STAGE_ALL_COMMANDS, STAGE_ALL_COMMANDS),
    );
}

/// Records one picture: uploads a pending frame, and shows the frame or the background.
pub fn record_picture(image: &mut Option<FrameImage>, extent: Size) -> (out: Vec<Command>)
    ensures
        out@ == picture_commands(*old(image), extent),
        *final(image) == recorded(*old(image)),
{
    let mut out: Vec<Command> = Vec::new();
    let mut now: Option<FrameImage> = *image;
    if let Some(f) = *image {
        if f.pending {
            let layout: i32 = if f.initialized {
                LAYOUT_TRANSFER_SRC
            } else {
                LAYOUT_UNDEFINED
            };
            push_full_barrier(&mut out, Img::Frame, layout, LAYOUT_TRANSFER_DST);
            out.push(
                Command::CopyBufferToImage {
                    buffer: Buf::Staging,
                    image: Img::Frame,
                    row_length: 0,
                    image_height: 0,
                    width: f.size.width,
                    height: f.size.height,
                },
            );
            push_full_barrier(&mut out, Img::Frame, LAYOUT_TRANSFER_DST, LAYOUT_TRANSFER_SRC);
            now = Some(FrameImage { size: f.size, initialized: true, pending: false });
            assert(out@ =~= upload_commands(f));
        }
    }
    let ghost uploads = out@;
    push_full_barrier(&mut out, Img::Swap, LAYOUT_UNDEFINED, LAYOUT_TRANSFER_DST);
    let shown: Option<Size> = match now {
        Some(f) => if f.initialized {
            Some(f.size)
        } else {
            None
        },
        None => None,
    };
    match shown {
        Some(s) => out.push(
            Command::Blit {
                source: Img::Frame,
                target: Img::Swap,
                src_width: s.width,
                src_height: s.height,
                dst_width: extent.width,
                dst_height: extent.height,
                filter: FILTER_LINEAR,
            },
        ),
        None => out.push(
            Command::ClearImage {
                image: Img::Swap,
                color: [0x3CA3_D70A, 0x3CA3_D70A, 0x3CF5_C28F, 0x3F80_0000],
            },
        ),
    }
    push_full_barrier(&mut out, Img::Swap, LAYOUT_TRANSFER_DST, LAYOUT_PRESENT_SRC);
    assert(out@ =~= uploads + show_commands(now, extent));
    *image = now;
    out
}

/// The layouts before a picture: a frame image that holds a frame is ready to be read.
pub open spec fn layouts_before(f: Option<FrameImage>) -> spec_fn(Img) -> i32 {
    |img: Img|
        if img == Img::Frame && f is Some && f->0.initialized {
            LAYOUT_TRANSFER_SRC
        } else {
            LAYOUT_UNDEFINED
        }
}

/// A picture's commands find every image in the layout that they want, leave the swapchain's
/// image ready to be presented, and the frame image ready for the next picture.
pub proof fn law_picture_layouts(f: Option<FrameImage>, extent: Size)
    ensures
        layouts_sound(layouts_before(f), picture_commands(f, extent)),
        layout_after(layouts_before(f), picture_commands(f, extent), Img::Swap)
            == LAYOUT_PRESENT_SRC,
        layout_after(layouts_before(f), picture_commands(f, extent), Img::Frame) == layouts_before(
            recorded(f),
        )(Img::Frame),
{
    let start = layouts_before(f);
    let c = picture_commands(f, extent);
    let e = Seq::<Command>::empty();
    let c1 = e.push(c[0]);
    let c2 = c1.push(c[1]);
    let c3 = c2.push(c[2]);
    lemma_layouts_push(start, e, c[0]);
    lemma_layouts_push(start, c1, c[1]);
    lemma_layouts_push(start, c2, c[2]);
    if f is Some && f->0.pending {
        let c4 = c3.push(c[3]);
        let c5 = c4.push(c[4]);
        lemma_layouts_push(start, c3, c[3]);
        lemma_layouts_push(start, c4, c[4]);
        lemma_layouts_push(start, c5, c[5]);
        assert(c =~= c5.push(c[5]));
    } else {
        assert(c =~= c3);
    }
}

/// A swapchain that no longer fits the surface is made anew before the next picture. An image is
/// drawn on where one was acquired, left out where the swapchain can no longer be used, and any
/// other failure ends the drawing; a picture that was presented counts as shown. A swapchain that
/// fits is kept, and neither changes its sizes.
pub proof fn law_swapchain_follows_the_surface(
    s: &mut Swapchain,
    t: &mut Swapchain,
    r: SwapResult,
    acquired: SwapNext,
    presented: SwapNext,
)
    requires
        call_ensures(Swapchain::acquired, (s, r), acquired),
        call_ensures(Swapchain::presented, (t, r), presented),
    ensures
        r is Suboptimal || r is OutOfDate ==> final(s).dirty && final(t).dirty,
        r is Fine || r is Failed ==> final(s).dirty == old(s).dirty && final(t).dirty
            == old(t).dirty,
        r is Fine || r is Suboptimal <==> acquired is GoOn,
        r is OutOfDate <==> acquired is Skip,
        r is Failed <==> acquired is Fail,
        r is Failed <==> presented is Fail,
        !(r is Failed) <==> presented is GoOn,
        final(s).want == old(s).want && final(s).extent == old(s).extent && final(s).made
            == old(s).made,
        final(t).want == old(t).want && final(t).extent == old(t).extent && final(t).made
            == old(t).made,
{
}

/// A window's new size is taken over at the next picture, a side of zero as one pixel; a swapchain
/// that was made is clean and can be drawn on where it has a width.
pub proof fn law_swapchain_is_remade(
    width: u32,
    height: u32,
    fresh: Swapchain,
    s: &mut Swapchain,
    t: &mut Swapchain,
    extent: Size,
    draws: bool,
)
    requires
        call_ensures(Swapchain::new, (width, height), fresh),
        call_ensures(Swapchain::mark_dirty, (s, width, height), ()),
        call_ensures(Swapchain::remade, (t, extent), ()),
        call_ensures(Swapchain::can_draw, (&*final(t),), draws),
    ensures
        fresh.dirty && !fresh.made,
        fresh.extent.width == 0 && fresh.extent.height == 0,
        fresh.want == final(s).want,
        final(s).dirty,
        final(s).made == old(s).made && final(s).extent == old(s).extent,
        width > 0 ==> final(s).want.width == width,
        height > 0 ==> final(s).want.height == height,
        width == 0 ==> final(s).want.width == 1,
        height == 0 ==> final(s).want.height == 1,
        !final(t).dirty && final(t).made,
        final(t).extent == extent,
        final(t).want == old(t).want,
        draws <==> extent.width > 0,
{
}

/// The size of a swapchain is the surface's own where it has one; else it is as near to what the
/// window wants as the surface allows, each way. There is none only where a side is zero.
pub proof fn law_extent_fits_the_surface(caps: &SurfaceCaps, want: Size, r: Option<Size>)
    requires
        caps.min.width <= caps.max.width,
        caps.min.height <= caps.max.height,
        call_ensures(swapchain_extent, (caps, want), r),
    ensures
        caps.current.width != 0xffff_ffff ==> {
            &&& r is None <==> caps.current.width == 0 || caps.current.height == 0
            &&& r is Some ==> r->0 == caps.current
        },
        caps.current.width == 0xffff_ffff && r is Some ==> {
            &&& caps.min.width <= r->0.width <= caps.max.width
            &&& caps.min.height <= r->0.height <= caps.max.height
            &&& caps.min.width <= want.width <= caps.max.width ==> r->0.width == want.width
            &&& caps.min.height <= want.height <= caps.max.height ==> r->0.height == want.height
            &&& want.width > caps.max.width ==> r->0.width == caps.max.width
            &&& want.height > caps.max.height ==> r->0.height == caps.max.height
            &&& want.width < caps.min.width ==> r->0.width == caps.min.width
            &&& want.height < caps.min.height ==> r->0.height == caps.min.height
        },
        caps.current.width == 0xffff_ffff && caps.min.width > 0 && caps.min.height > 0
            ==> r is Some,
        r is Some ==> r->0.width > 0 && r->0.height > 0,
{
}

/// The number of images is one more than the fewest, but for a limit that does not allow it.
pub proof fn law_image_count(caps: &SurfaceCaps, n: u32)
    requires
        caps.min_images < u32::MAX,
        call_ensures(image_count, (caps,), n),
    ensures
        caps.max_images == 0 ==> n == caps.min_images + 1,
        caps.max_images > 0 ==> n <= caps.max_images,
        caps.max_images > caps.min_images ==> n == caps.min_images + 1,
        0 < caps.max_images <= caps.min_images ==> n == caps.max_images,
{
}

/// The format taken is one of the surface's: the frames' own (Vulkan's 44) wherever it is offered,
/// and where it is not, the first. Pictures are shown as they come (1) rather than at once (0), and
/// at once rather than in turn (2).
pub proof fn law_formats_and_modes(formats: &[i32], i: usize, modes: &[i32], m: i32)
    requires
        formats@.len() > 0,
        call_ensures(pick_format, (formats,), i),
        call_ensures(pick_present_mode, (modes,), m),
    ensures
        i < formats@.len(),
        forall|j: int| 0 <= j < formats@.len() && formats@[j] == 44 ==> formats@[i as int] == 44
            && i <= j,
        formats@[i as int] != 44 ==> i == 0,
        modes@.contains(1) <==> m == 1,
        !modes@.contains(1) && modes@.contains(0) <==> m == 0,
        !modes@.contains(1) && !modes@.contains(0) <==> m == 2,
{
    assert forall|j: int| 0 <= j < formats@.len() && formats@[j] == 44 implies formats@[i as int]
        == 44 && i <= j by {
        assert(formats@.contains(44));
    }
}

/// The place that is drawn with can draw and present; no such place is passed over for none, and no
/// GPU of its own for one that is not.
pub proof fn law_output_is_usable(outputs: &[Output], r: Option<usize>, j: int)
    requires
        call_ensures(pick_output, (outputs,), r),
        0 <= j < outputs@.len(),
        outputs@[j].graphics && outputs@[j].presents,
    ensures
        r is Some,
        r->0 < outputs@.len(),
        outputs@[r->0 as int].graphics && outputs@[r->0 as int].presents,
        outputs@[j].discrete ==> outputs@[r->0 as int].discrete && r->0 <= j,
        !outputs@[j].discrete && !outputs@[r->0 as int].discrete ==> r->0 <= j,
{
    assert(outputs@[j].usable());
}

/// The system's cursor is shown exactly while the client draws none, and told so once.
pub proof fn law_system_cursor(has_shape: bool, hidden: bool, r: Option<bool>, again: Option<bool>)
    requires
        call_ensures(cursor_toggle, (has_shape, hidden), r),
        call_ensures(cursor_toggle, (has_shape, has_shape), again),
    ensures
        has_shape && !hidden ==> r == Some(false),
        !has_shape && hidden ==> r == Some(true),
        has_shape == hidden ==> r is None,
        again is None,
{
}

/// An image is kept for frames of its own size alone.
pub proof fn law_image_is_kept(image: Option<FrameImage>, width: u32, height: u32, b: bool)
    requires
        call_ensures(keeps_image, (image, width, height), b),
    ensures
        image is None ==> !b,
        image is Some ==> b == (image->0.size.width == width && image->0.size.height == height),
{
}

/// A new decoded frame, another shape, or a cursor that moved, came or went is composed anew; where
/// none of this happened, nothing is.
pub proof fn law_overlay_is_redrawn_when_it_changed(
    o: &mut Overlay,
    new_frame: bool,
    visible: bool,
    shape: Option<Arc<CursorShape>>,
    version: u64,
    p: Option<Pointer>,
    anew: bool,
)
    requires
        old(o).wf(),
        call_ensures(Overlay::follow, (o, new_frame, visible, shape, version, p), anew),
    ensures
        new_frame ==> anew,
        version != old(o).version ==> anew && final(o).shape == shape,
        version == old(o).version ==> final(o).shape == old(o).shape,
        final(o).visible == visible,
        final(o).version == version,
        final(o).clean@ == old(o).clean@,
        final(o).width == old(o).width && final(o).height == old(o).height,
        old(o).last is None ==> anew,
        p is Some && final(o).shape is Some && old(o).last is Some && (old(o).last->0.x
            != p->0.x - final(o).shape->0.hot_x || old(o).last->0.y != p->0.y
            - final(o).shape->0.hot_y || old(o).last->0.drawn != visible) ==> anew,
        p is Some && final(o).shape is Some && old(o).last is Some && old(o).last->0.x == p->0.x
            - final(o).shape->0.hot_x && old(o).last->0.y == p->0.y - final(o).shape->0.hot_y && old(
            o,
        ).last->0.drawn == visible && old(o).last->0.version == version && version == old(o).version
            && !new_frame ==> !anew,
{
}

/// A decoded frame is taken in whole: every pixel of it with its own colours, opaque.
pub proof fn law_frame_is_taken_in(o: &mut Overlay, f: &DecodedFrame, x: int, y: int)
    requires
        f.width * f.height * 4 <= usize::MAX,
        f.rgba@.len() == f.width * f.height * 4,
        call_ensures(Overlay::ingest, (o, f), ()),
        0 <= x < f.width,
        0 <= y < f.height,
    ensures
        final(o).width == f.width && final(o).height == f.height,
        final(o).clean@.len() == f.rgba@.len(),
        ({
            let at = (y * f.width + x) * 4;
            &&& final(o).clean@[at] == f.rgba@[at + 2]
            &&& final(o).clean@[at + 1] == f.rgba@[at + 1]
            &&& final(o).clean@[at + 2] == f.rgba@[at]
            &&& final(o).clean@[at + 3] == 255
        }),
{
    lemma_packed(x, y, f.width, f.height);
    let k = packed(x, y, f.width);
    law_ingested_pixel(old(o).clean@, f.rgba@, k);
    let at = (y * f.width + x) * 4;
    assert(at == k * 4);
    let n = f.width * f.height;
    assert(f.width * f.height * 4 == n * 4) by (nonlinear_arith)
        requires
            n == f.width * f.height,
    ;
    assert(at + 3 < final(o).clean@.len());
}

/// The window shows the frame stretched over all of it: pixel (`x`, `y`) shows the frame's pixel
/// that lies there, out of the staging buffer where a new frame is pending, else as it was shown
/// before. Before the first frame the window has its background everywhere.
pub proof fn law_picture_shows_the_frame(f: Option<FrameImage>, extent: Size, x: int, y: int)
    requires
        0 <= x < extent.width,
        0 <= y < extent.height,
        f is Some ==> f->0.size.width > 0 && f->0.size.height > 0,
    ensures
        ({
            let got = texel_after(picture_commands(f, extent), Img::Swap, x, y);
            &&& f is None || (!f->0.pending && !f->0.initialized) ==> got == (Texel::Filled {
                color: [0x3CA3_D70Au32, 0x3CA3_D70Au32, 0x3CF5_C28Fu32, 0x3F80_0000u32],
            })
            &&& f is Some && (f->0.pending || f->0.initialized) ==> {
                let fx = if f->0.size.width == extent.width {
                    x
                } else {
                    x * f->0.size.width / extent.width as int
                };
                let fy = if f->0.size.height == extent.height {
                    y
                } else {
                    y * f->0.size.height / extent.height as int
                };
                &&& f->0.pending ==> got == (Texel::Word {
                    buffer: Buf::Staging,
                    at: fy * f->0.size.width + fx,
                })
                &&& !f->0.pending ==> got == (Texel::Old { image: Img::Frame, x: fx, y: fy })
            }
        }),
{
    let c = picture_commands(f, extent);
    let e = Seq::<Command>::empty();
    let c1 = e.push(c[0]);
    let c2 = c1.push(c[1]);
    let c3 = c2.push(c[2]);
    lemma_step(e, c[0]);
    lemma_step(c1, c[1]);
    lemma_step(c2, c[2]);
    if f is Some {
        let w = f->0.size.width as int;
        let h = f->0.size.height as int;
        let fx = stretched(x, w, extent.width as int);
        let fy = stretched(y, h, extent.height as int);
        assert(0 <= fx < w) by (nonlinear_arith)
            requires
                0 <= x < extent.width,
                w > 0,
                fx == x && w == extent.width || fx == x * w / extent.width as int,
        ;
        assert(0 <= fy < h) by (nonlinear_arith)
            requires
                0 <= y < extent.height,
                h > 0,
                fy == y && h == extent.height || fy == y * h / extent.height as int,
        ;
        let at = fy * f->0.size.width + fx;
        if f->0.pending {
            let c4 = c3.push(c[3]);
            let c5 = c4.push(c[4]);
            lemma_step(c3, c[3]);
            lemma_step(c4, c[4]);
            lemma_step(c5, c[5]);
            assert(c =~= c5.push(c[5]));
            assert(word_after(c1, Buf::Staging, at) == word_after(e, Buf::Staging, at));
            assert(texel_after(c2, Img::Frame, fx, fy) == word_after(c1, Buf::Staging, at));
            assert(texel_after(c3, Img::Frame, fx, fy) == texel_after(c2, Img::Frame, fx, fy));
            assert(texel_after(c4, Img::Frame, fx, fy) == texel_after(c3, Img::Frame, fx, fy));
            assert(texel_after(c5, Img::Swap, x, y) == texel_after(c4, Img::Frame, fx, fy));
        } else {
            assert(c =~= c3);
            assert(texel_after(c1, Img::Frame, fx, fy) == texel_after(e, Img::Frame, fx, fy));
        }
    } else {
        assert(c =~= c3);
    }
}

/// Once recorded, a pending frame is no longer pending but held, in the same size; a frame that was
/// held stays held, and none appears from nowhere.
pub proof fn law_recorded_frame_is_held(
    image: &mut Option<FrameImage>,
    extent: Size,
    out: Vec<Command>,
    i: int,
)
    requires
        call_ensures(record_picture, (image, extent), out),
        0 <= i < out@.len(),
    ensures
        *final(image) is Some <==> *old(image) is Some,
        *old(image) is Some ==> {
            let f = (*old(image))->0;
            let g = (*final(image))->0;
            &&& g.size == f.size
            &&& !g.pending
            &&& g.initialized == (f.initialized || f.pending)
        },
        barrier_orders(out@[i]),
        out@[i] matches Command::Blit { filter, source, target, .. } ==> filter == 1 && source
            == Img::Frame && target == Img::Swap,
{
    assert(0x8000u32 | 0x1_0000u32 == 0x1_8000u32) by (bit_vector);
}

/// The composed picture: it is made where a frame was decoded and the image has its size, and then
/// the pixel under the pointer shows the cursor's hotspot; without a cursor it is the frame.
pub proof fn law_composed_picture(
    o: &Overlay,
    target: Option<Size>,
    p: Option<Pointer>,
    dst: &mut [u8],
    done: bool,
    k: CursorKey,
    c: int,
    i: int,
)
    requires
        o.wf(),
        old(dst)@.len() == o.clean@.len(),
        call_ensures(Overlay::compose, (o, target, p, dst), done),
        call_ensures(Overlay::cursor_key, (o, p), k),
        0 <= c < 3,
        0 <= i < o.clean@.len(),
    ensures
        done <==> o.clean@.len() > 0 && target is Some && target->0.width == o.width
            && target->0.height == o.height,
        final(dst)@.len() == old(dst)@.len(),
        !done ==> final(dst)@ == old(dst)@,
        done && (p is None || !o.visible || o.shape is None) ==> final(dst)@[i] == o.clean@[i],
        p is Some && o.shape is Some ==> k.x + o.shape->0.hot_x == p->0.x && k.y + o.shape->0.hot_y
            == p->0.y,
        k.drawn <==> o.visible && p is Some && o.shape is Some,
        done && p is Some && o.visible && o.shape is Some && o.shape->0.bgra@.len() >= o.shape->0.w
            * o.shape->0.h * 4 && o.shape->0.hot_x < o.shape->0.w && o.shape->0.hot_y
            < o.shape->0.h && 0 <= p->0.x < o.width && 0 <= p->0.y < o.height ==> {
            let s = o.shape->0;
            let at = (s.hot_y * s.w + s.hot_x) * 4;
            s.bgra@[at + 3] == 255 ==> final(dst)@[(p->0.y * o.width + p->0.x) * 4 + c]
                == s.bgra@[at + c]
        },
{
    if done {
        let got = final(dst)@[i];
        assert(got == o.composed(p, i));
        if p is Some && o.visible && o.shape is Some && o.shape->0.bgra@.len() >= o.shape->0.w
            * o.shape->0.h * 4 && o.shape->0.hot_x < o.shape->0.w && o.shape->0.hot_y
            < o.shape->0.h && 0 <= p->0.x < o.width && 0 <= p->0.y < o.height {
            law_pointer_shows_the_hotspot(*o, p->0, c);
            lemma_packed(p->0.x as int, p->0.y as int, o.width, o.height);
            let n = packed(p->0.x as int, p->0.y as int, o.width);
            let j = (p->0.y * o.width + p->0.x) * 4 + c;
            assert(j == n * 4 + c);
            let area = o.width * o.height;
            assert(o.width * o.height * 4 == area * 4) by (nonlinear_arith)
                requires
                    area == o.width * o.height,
            ;
            assert(0 <= j < final(dst)@.len());
            let under = final(dst)@[j];
            assert(under == o.composed(p, j));
        }
    }
}

} // verus!
