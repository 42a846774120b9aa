//! How the steps of a plan fit together: sizes, formats, usages and memory of what is made, and
//! the order in which it is run.
use crate::gpu::scratch::Slot;
use crate::gpu::steps::{buffer_steps, image_steps, readback_steps, run_steps, Step};
use crate::replay::descriptors::{
    descriptor_plan, geometry_plan, layout_bindings, plan_descriptors, plan_geometry, plan_texture,
    pool_of, pool_sizes, texture_bindings, texture_plan, textures_steps, BindingDesc, PoolSize,
    ResourceError,
};
use crate::replay::draw::{
    DescriptorSig, ForwardedDraw, Geometry, StorageBlock, Texture, UniformBlock,
};
use crate::replay::plans::{
    clear_plan, convert_plan, depth_steps, export_kind, export_steps, hand_out_steps,
    pipeline_steps, plan_clear, plan_convert, plan_reusable, plan_triangle, reusable_plan,
    target_steps, triangle_plan, PlanError,
};
use crate::viewer::window::{frame_image_steps, plan_frame_image};
use vstd::prelude::*;

verus! {

/// The slot of the memory that belongs to an object.
pub open spec fn memory_of(object: Slot) -> Slot {
    match object {
        Slot::Image => Slot::ImageMem,
        Slot::DepthImage => Slot::DepthMem,
        Slot::SrcImage => Slot::SrcMem,
        Slot::Readback => Slot::ReadbackMem,
        Slot::Export => Slot::ExportMem,
        Slot::Staging => Slot::StagingMem,
        Slot::Uniform => Slot::UniformMem,
        Slot::Storage => Slot::StorageMem,
        Slot::VertexBuf => Slot::VertexMem,
        Slot::IndexBuf => Slot::IndexMem,
        _ => object,
    }
}

/// What a plan is for.
pub struct Purpose {
    pub width: u32,
    pub height: u32,
    /// The format of the picture.
    pub format: i32,
    /// The format of the pixels that it is converted from.
    pub source_format: i32,
    /// What the picture's image is used for.
    pub usage: u32,
    /// The bytes that are staged.
    pub staged: int,
    /// Whether memory is handed out as a dma-buf.
    pub dma_buf: bool,
    /// Whether depth is tested or written.
    pub with_depth: bool,
}

impl Purpose {
    /// The bytes of the picture.
    pub open spec fn bytes(self) -> int {
        self.width * self.height * 4
    }

    /// Vulkan's number for the way in which memory is handed out.
    pub open spec fn handle(self) -> u32 {
        if self.dma_buf {
            0x200
        } else {
            1
        }
    }

    /// Whether a step fits the purpose: images are of the picture's size, in the format and for the
    /// use that their part asks for (Vulkan's 126 and 0x20 for depth, 3 for transfers both ways);
    /// buffers hold the picture or what is staged, and are written to (2) or read from (1) by
    /// transfers; each object is bound to its own memory, which the CPU can reach (6) or the device
    /// alone (1); what is read, filled or mapped is all of a buffer; and one way of handing memory
    /// out is used throughout.
    pub open spec fn fits(self, s: Step) -> bool {
        match s {
            Step::Image { into, format, width, height, usage } => {
                &&& width == self.width
                &&& height == self.height
                &&& into == Slot::Image ==> format == self.format && usage == self.usage
                &&& into == Slot::DepthImage ==> format == 126 && usage == 0x20 && self.with_depth
                &&& into == Slot::SrcImage ==> format == self.source_format && usage == 3
                &&& into == Slot::Image || into == Slot::DepthImage || into == Slot::SrcImage
            },
            Step::Buffer { into, size, usage, handle_type } => {
                &&& into == Slot::Readback ==> size == self.bytes() && usage == 2 && handle_type
                    == 0
                &&& into == Slot::Export ==> size == self.bytes() && usage == 2 && handle_type
                    == self.handle()
                &&& into == Slot::Staging ==> size == self.staged && usage == 1 && handle_type == 0
                &&& into == Slot::Readback || into == Slot::Export || into == Slot::Staging
            },
            Step::Memory { into, object, flags, handle_type } => {
                &&& into == memory_of(object)
                &&& object == Slot::Readback || object == Slot::Staging ==> flags == 6
                &&& object != Slot::Readback && object != Slot::Staging ==> flags == 1
                &&& object == Slot::Export ==> handle_type == self.handle()
                &&& object != Slot::Export ==> handle_type == 0
            },
            Step::ReadbackMemory { into, object } => {
                object == Slot::Readback && into == Slot::ReadbackMem
            },
            Step::Bind { object, memory } => memory == memory_of(object),
            Step::View { into, image, format, aspect } => {
                &&& image == Slot::Image ==> into == Slot::View && format == self.format && aspect
                    == 1
                &&& image == Slot::DepthImage ==> into == Slot::DepthView && format == 126 && aspect
                    == 2
                &&& image == Slot::Image || image == Slot::DepthImage
            },
            Step::Pass { into, format } => into == Slot::RenderPass && format == self.format,
            Step::Framebuffer { into, color, with_depth, own_pass: _, width, height } => {
                &&& into == Slot::Framebuffer
                &&& color == Slot::View
                &&& with_depth == self.with_depth
                &&& width == self.width
                &&& height == self.height
            },
            Step::Fill { memory, size } => memory == Slot::StagingMem && size == self.staged,
            Step::ReadBack { memory, size } => memory == Slot::ReadbackMem && size == self.bytes(),
            Step::MapMemory { memory, size } => {
                &&& memory == Slot::ReadbackMem ==> size == self.bytes()
                &&& memory == Slot::StagingMem ==> size == self.staged
                &&& memory == Slot::ReadbackMem || memory == Slot::StagingMem
            },
            Step::ExportFd { memory, handle_type } => {
                memory == Slot::ExportMem && handle_type == self.handle()
            },
            _ => true,
        }
    }

    /// Whether every step of a plan fits.
    pub open spec fn all_fit(self, plan: Seq<Step>) -> bool {
        forall|i: int| 0 <= i < plan.len() ==> self.fits(#[trigger] plan[i])
    }

    proof fn lemma_join(self, a: Seq<Step>, b: Seq<Step>)
        requires
            self.all_fit(a),
            self.all_fit(b),
        ensures
            self.all_fit(a + b),
    {
        let c = a + b;
        assert forall|i: int| 0 <= i < c.len() implies self.fits(#[trigger] c[i]) by {
            if i < a.len() {
                assert(c[i] == a[i]);
            } else {
                assert(c[i] == b[i - a.len()]);
            }
        }
    }

    proof fn lemma_run_fits(self, export: bool)
        requires
            0 <= self.bytes() <= u64::MAX,
        ensures
            self.all_fit(run_steps(Slot::ReadbackMem, self.bytes() as u64)),
            self.all_fit(readback_steps(Slot::Readback, Slot::ReadbackMem, self.bytes() as u64)),
            self.all_fit(export_steps(self.bytes() as u64, export, self.dma_buf)),
            self.all_fit(hand_out_steps(export, self.dma_buf)),
    {
    }
}

/// How far along a run a step stands; zero where it is no part of it.
pub open spec fn stage(s: Step) -> int {
    match s {
        Step::Record => 1,
        Step::Submit { .. } => 2,
        Step::Wait { .. } => 3,
        Step::ReadBack { .. } => 4,
        Step::ExportFd { .. } => 5,
        _ => 0,
    }
}

/// Whether the stages of a run come in order, each once at most.
pub open spec fn runs_in_order(plan: Seq<Step>) -> bool {
    forall|i: int, j: int|
        0 <= i < j < plan.len() && stage(plan[i]) > 0 && stage(plan[j]) > 0 ==> stage(
            #[trigger] plan[i],
        ) < stage(#[trigger] plan[j])
}

/// Whether no step of a plan is part of a run.
pub open spec fn only_makes(plan: Seq<Step>) -> bool {
    forall|i: int| 0 <= i < plan.len() ==> stage(#[trigger] plan[i]) == 0
}

proof fn lemma_makes_join(a: Seq<Step>, b: Seq<Step>)
    requires
        only_makes(a),
        only_makes(b),
    ensures
        only_makes(a + b),
{
    let c = a + b;
    assert forall|i: int| 0 <= i < c.len() implies stage(#[trigger] c[i]) == 0 by {
        if i < a.len() {
            assert(c[i] == a[i]);
        } else {
            assert(c[i] == b[i - a.len()]);
        }
    }
}

proof fn lemma_run_in_order(a: Seq<Step>, size: u64, export: bool, dma_buf: bool)
    requires
        only_makes(a),
    ensures
        ({
            let plan = a + run_steps(Slot::ReadbackMem, size) + hand_out_steps(export, dma_buf);
            &&& runs_in_order(plan)
            &&& plan.contains(Step::Record)
            &&& plan.contains(Step::Submit { fence: Slot::Fence })
            &&& plan.contains(Step::Wait { fence: Slot::Fence })
            &&& plan.contains(Step::ReadBack { memory: Slot::ReadbackMem, size })
            &&& export == (plan.last() is ExportFd)
        }),
{
    let r = run_steps(Slot::ReadbackMem, size);
    let h = hand_out_steps(export, dma_buf);
    let plan = a + r + h;
    let n = a.len() as int;
    assert forall|i: int, j: int|
        0 <= i < j < plan.len() && stage(plan[i]) > 0 && stage(plan[j]) > 0 implies stage(
        #[trigger] plan[i],
    ) < stage(#[trigger] plan[j]) by {
        if i < n {
            assert(plan[i] == a[i]);
        }
        assert(i >= n);
        if j < n + 7 {
            assert(plan[i] == r[i - n] && plan[j] == r[j - n]);
        } else {
            assert(plan[j] == h[j - n - 7]);
            if i < n + 7 {
                assert(plan[i] == r[i - n]);
            }
        }
    }
    assert(plan[n + 2] == r[2] && plan[n + 4] == r[4] && plan[n + 5] == r[5] && plan[n + 6]
        == r[6]);
    if export {
        assert(plan.last() == h[0]);
    } else {
        assert(plan.last() == r[6]);
    }
}

/// The purpose of a render.
pub open spec fn rendering(width: u32, height: u32, with_depth: bool, dma_buf: bool) -> Purpose {
    Purpose {
        width,
        height,
        format: 37,
        source_format: 0,
        usage: 0x11,
        staged: 0,
        dma_buf,
        with_depth,
    }
}

proof fn lemma_target_fits(p: Purpose)
    requires
        p == rendering(p.width, p.height, p.with_depth, p.dma_buf),
    ensures
        p.all_fit(target_steps(p.width, p.height)),
        p.all_fit(depth_steps(p.width, p.height, p.with_depth)),
        p.all_fit(pipeline_steps(p.width, p.height, p.with_depth)),
        only_makes(target_steps(p.width, p.height)),
        only_makes(depth_steps(p.width, p.height, p.with_depth)),
        only_makes(pipeline_steps(p.width, p.height, p.with_depth)),
{
}

/// Every step of a render fits its picture: an RGBA image (Vulkan's 37) that is drawn on and copied
/// out (0x11), a depth image where depth is tested or written, buffers of four bytes per pixel, all
/// of which are read back; and the commands are recorded, submitted, waited for, read back and
/// handed out in this order.
pub proof fn law_renders_fit(
    width: u32,
    height: u32,
    with_depth: bool,
    export: bool,
    dma_buf: bool,
)
    requires
        width * height * 4 <= u64::MAX,
    ensures
        rendering(width, height, false, false).all_fit(clear_plan(width, height)),
        rendering(width, height, with_depth, dma_buf).all_fit(
            triangle_plan(width, height, with_depth, export, dma_buf),
        ),
        rendering(width, height, with_depth, dma_buf).all_fit(
            reusable_plan(width, height, with_depth),
        ),
        runs_in_order(clear_plan(width, height)),
        runs_in_order(triangle_plan(width, height, with_depth, export, dma_buf)),
        triangle_plan(width, height, with_depth, export, dma_buf).last() is ExportFd == export,
        clear_plan(width, height).contains(Step::Record),
        clear_plan(width, height).contains(
            Step::ReadBack {
                memory: Slot::ReadbackMem,
                size: (width * height * 4) as u64,
            },
        ),
        triangle_plan(width, height, with_depth, export, dma_buf).contains(Step::Record),
        triangle_plan(width, height, with_depth, export, dma_buf).contains(
            Step::ReadBack {
                memory: Slot::ReadbackMem,
                size: (width * height * 4) as u64,
            },
        ),
        reusable_plan(width, height, with_depth).last() == (Step::MapMemory {
            memory: Slot::ReadbackMem,
            size: (width * height * 4) as u64,
        }),
{
    assert(0 <= width * height * 4) by (nonlinear_arith)
        requires
            width >= 0,
            height >= 0,
    ;
    let size = (width * height * 4) as u64;
    // The clear.
    let c = rendering(width, height, false, false);
    lemma_target_fits(c);
    c.lemma_run_fits(false);
    let own = seq![
        Step::Pass { into: Slot::RenderPass, format: 37 },
        Step::Framebuffer {
            into: Slot::Framebuffer,
            color: Slot::View,
            with_depth: false,
            own_pass: true,
            width,
            height,
        },
    ];
    let rb = buffer_steps(Slot::Readback, Slot::ReadbackMem, size, 2, 6, 0);
    let run = run_steps(Slot::ReadbackMem, size);
    let t = target_steps(width, height);
    assert(c.all_fit(own) && c.all_fit(rb));
    assert(only_makes(own) && only_makes(rb));
    c.lemma_join(t, own);
    c.lemma_join(t + own, rb);
    c.lemma_join(t + own + rb, run);
    lemma_makes_join(t, own);
    lemma_makes_join(t + own, rb);
    lemma_run_in_order(t + own + rb, size, false, false);
    assert(t + own + rb + run =~= t + own + rb + run + hand_out_steps(false, false));
    assert(clear_plan(width, height) =~= t + own + rb + run);
    // The draw.
    let p = rendering(width, height, with_depth, dma_buf);
    lemma_target_fits(p);
    p.lemma_run_fits(export);
    let d = depth_steps(width, height, with_depth);
    let resolve = seq![Step::ResolvePipeline];
    let f = pipeline_steps(width, height, with_depth);
    let r = readback_steps(Slot::Readback, Slot::ReadbackMem, size);
    let x = export_steps(size, export, dma_buf);
    let h = hand_out_steps(export, dma_buf);
    assert(p.all_fit(resolve));
    assert(only_makes(resolve) && only_makes(r) && only_makes(x));
    p.lemma_join(t, d);
    p.lemma_join(t + d, resolve);
    p.lemma_join(t + d + resolve, f);
    p.lemma_join(t + d + resolve + f, r);
    p.lemma_join(t + d + resolve + f + r, x);
    p.lemma_join(t + d + resolve + f + r + x, run);
    p.lemma_join(t + d + resolve + f + r + x + run, h);
    lemma_makes_join(t, d);
    lemma_makes_join(t + d, resolve);
    lemma_makes_join(t + d + resolve, f);
    lemma_makes_join(t + d + resolve + f, r);
    lemma_makes_join(t + d + resolve + f + r, x);
    lemma_run_in_order(t + d + resolve + f + r + x, size, export, dma_buf);
    // The target that is kept.
    let tail = seq![
        Step::CommandPool { into: Slot::Pool },
        Step::CommandBuffer { pool: Slot::Pool },
        Step::Fence { into: Slot::Fence },
        Step::MapMemory { memory: Slot::ReadbackMem, size },
    ];
    assert(p.all_fit(tail));
    p.lemma_join(t + d, f);
    p.lemma_join(t + d + f, r);
    p.lemma_join(t + d + f + r, tail);
}

/// The purpose of a conversion.
pub open spec fn converting(
    width: u32,
    height: u32,
    pitch: u32,
    src_format: i32,
    dma_buf: bool,
) -> Purpose {
    Purpose {
        width,
        height,
        format: 44,
        source_format: src_format,
        usage: 3,
        staged: pitch * height,
        dma_buf,
        with_depth: false,
    }
}

/// Every step of a conversion fits its picture: the guest's pixels are staged row by row, as many
/// bytes as the pitch and the height say, in an image of their own format, and converted into a
/// BGRA image (Vulkan's 44) of the same size.
pub proof fn law_conversions_fit(
    width: u32,
    height: u32,
    pitch: u32,
    src_format: i32,
    export: bool,
    dma_buf: bool,
)
    requires
        width * height * 4 <= u64::MAX,
    ensures
        converting(width, height, pitch, src_format, dma_buf).all_fit(
            convert_plan(width, height, pitch, src_format, export, dma_buf),
        ),
        runs_in_order(convert_plan(width, height, pitch, src_format, export, dma_buf)),
        convert_plan(width, height, pitch, src_format, export, dma_buf).last() is ExportFd
            == export,
        convert_plan(width, height, pitch, src_format, export, dma_buf).contains(
            Step::Fill {
                memory: Slot::StagingMem,
                size: (pitch * height) as u64,
            },
        ),
        convert_plan(width, height, pitch, src_format, export, dma_buf).contains(
            Step::ReadBack {
                memory: Slot::ReadbackMem,
                size: (width * height * 4) as u64,
            },
        ),
{
    assert(0 <= width * height * 4) by (nonlinear_arith)
        requires
            width >= 0,
            height >= 0,
    ;
    assert(0 <= pitch * height <= 0xffff_ffff * 0xffff_ffff) by (nonlinear_arith)
        requires
            0 <= pitch <= 0xffff_ffff,
            0 <= height <= 0xffff_ffff,
    ;
    let size = (width * height * 4) as u64;
    let staged = (pitch * height) as u64;
    let p = converting(width, height, pitch, src_format, dma_buf);
    p.lemma_run_fits(export);
    let a = buffer_steps(Slot::Staging, Slot::StagingMem, staged, 1, 6, 0);
    let fill = seq![Step::Fill { memory: Slot::StagingMem, size: staged }];
    let s = image_steps(Slot::SrcImage, Slot::SrcMem, src_format, width, height, 3);
    let t = image_steps(Slot::Image, Slot::ImageMem, 44, width, height, 3);
    let r = buffer_steps(Slot::Readback, Slot::ReadbackMem, size, 2, 6, 0);
    let x = export_steps(size, export, dma_buf);
    let run = run_steps(Slot::ReadbackMem, size);
    let h = hand_out_steps(export, dma_buf);
    assert(p.all_fit(a) && p.all_fit(fill) && p.all_fit(s) && p.all_fit(t) && p.all_fit(r));
    assert(only_makes(a) && only_makes(fill) && only_makes(s) && only_makes(t) && only_makes(r)
        && only_makes(x));
    p.lemma_join(a, fill);
    p.lemma_join(a + fill, s);
    p.lemma_join(a + fill + s, t);
    p.lemma_join(a + fill + s + t, r);
    p.lemma_join(a + fill + s + t + r, x);
    p.lemma_join(a + fill + s + t + r + x, run);
    p.lemma_join(a + fill + s + t + r + x + run, h);
    lemma_makes_join(a, fill);
    lemma_makes_join(a + fill, s);
    lemma_makes_join(a + fill + s, t);
    lemma_makes_join(a + fill + s + t, r);
    lemma_makes_join(a + fill + s + t + r, x);
    lemma_run_in_order(a + fill + s + t + r + x, size, export, dma_buf);
    let plan = convert_plan(width, height, pitch, src_format, export, dma_buf);
    assert(plan[3] == fill[0]);
}

/// A conversion is planned exactly where the picture has both sides, a row of it fits the pitch, the
/// bytes hold all of its rows, and the device can hand memory out where that is asked. A draw is
/// planned wherever the last holds.
pub proof fn law_what_is_planned(
    width: u32,
    height: u32,
    pitch: u32,
    src_format: i32,
    bytes: usize,
    export: bool,
    can_export: bool,
    dma_buf: bool,
    r: Result<Vec<Step>, PlanError>,
    draw: &ForwardedDraw,
    t: Result<Vec<Step>, PlanError>,
)
    requires
        width * 4 <= u32::MAX,
        call_ensures(
            plan_convert,
            (width, height, pitch, src_format, bytes, export, can_export, dma_buf),
            r,
        ),
        call_ensures(plan_triangle, (draw, width, height, export, can_export, dma_buf), t),
    ensures
        r is Ok <==> width > 0 && height > 0 && pitch >= width * 4 && pitch * height <= bytes && (
        !export || can_export),
        r == Err::<Vec<Step>, PlanError>(PlanError::BadGeometry) <==> width == 0 || height == 0
            || pitch < width * 4,
        r == Err::<Vec<Step>, PlanError>(PlanError::TooSmall) <==> width > 0 && height > 0 && pitch
            >= width * 4 && pitch * height > bytes,
        t is Err <==> export && !can_export,
        t is Err ==> t == Err::<Vec<Step>, PlanError>(PlanError::NoExport),
{
}

/// Memory is handed out as a dma-buf (Vulkan's 0x200) where the device can, else as an opaque
/// descriptor (1), and is called so.
pub proof fn law_export_kinds(dma_buf: bool, r: (u32, &'static str))
    requires
        call_ensures(export_kind, (dma_buf,), r),
    ensures
        dma_buf ==> r.0 == 0x200 && r.1@ == "dma-buf"@,
        !dma_buf ==> r.0 == 1 && r.1@ == "opaque-fd"@,
{
}

/// The viewer's frame image is BGRA, of the frame's size, written and read by transfers, and its
/// staging buffer holds one whole frame and stays mapped.
pub proof fn law_frame_image_fits(width: u32, height: u32)
    requires
        width * height * 4 <= u64::MAX,
    ensures
        (Purpose {
            width,
            height,
            format: 44,
            source_format: 0,
            usage: 3,
            staged: width * height * 4,
            dma_buf: false,
            with_depth: false,
        }).all_fit(frame_image_steps(width, height)),
        frame_image_steps(width, height).last() == (Step::MapMemory {
            memory: Slot::StagingMem,
            size: (width * height * 4) as u64,
        }),
{
    assert(0 <= width * height * 4) by (nonlinear_arith)
        requires
            width >= 0,
            height >= 0,
    ;
    assert(2u32 | 1u32 == 3u32) by (bit_vector);
    assert(2u32 | 4u32 == 6u32) by (bit_vector);
}

/// A texture is uploaded where both of its sides have 1 to 16384 pixels and its bytes are four per
/// pixel; any other is refused with its numbers.
pub proof fn law_good_textures(t: &Texture, binding: u32, r: Result<Vec<Step>, ResourceError>)
    requires
        binding < u32::MAX,
        call_ensures(plan_texture, (t, binding), r),
    ensures
        r is Ok <==> 1 <= t.width <= 16384 && 1 <= t.height <= 16384 && t.rgba@.len() == t.width
            * t.height * 4,
        r is Err ==> r == Err::<Vec<Step>, ResourceError>(
            ResourceError::BadTexture {
                width: t.width,
                height: t.height,
                bytes: t.rgba@.len() as usize,
            },
        ),
{
}

/// Whether a step of a texture's plan fits the texture: its bytes are staged for a transfer (1) in
/// memory that the CPU can reach (6), its RGBA image (37) is of its size, read by shaders and
/// written by transfers (6), its sampler filters (1) and repeats (0) as the guest says, and its
/// image and its sampler stand at the binding and one further.
pub open spec fn fits_texture(s: Step, t: Texture, binding: u32) -> bool {
    match s {
        Step::Buffer { into, size, usage, handle_type } => into == Slot::Staging && size
            == t.rgba@.len() && usage == 1 && handle_type == 0,
        Step::Image { into, format, width, height, usage } => into == Slot::Image && format == 37
            && width == t.width && height == t.height && usage == 6,
        Step::Memory { into, object, flags, handle_type } => into == memory_of(object)
            && handle_type == 0 && flags == if object == Slot::Staging {
            6u32
        } else {
            1u32
        },
        Step::Bind { object, memory } => memory == memory_of(object),
        Step::Fill { memory, size } => memory == Slot::StagingMem && size == t.rgba@.len(),
        Step::View { into, image, format, aspect } => into == Slot::View && image == Slot::Image
            && format == 37 && aspect == 1,
        Step::Sampler { into, filter, address } => {
            &&& into == Slot::Sampler
            &&& t.sampler.linear <==> filter == 1
            &&& !t.sampler.linear <==> filter == 0
            &&& t.sampler.repeat <==> address == 0
            &&& !t.sampler.repeat <==> address == 2
        },
        Step::WriteImage { binding: b, view } => b == binding && view == Slot::View,
        Step::WriteSampler { binding: b, sampler } => b == binding + 1 && sampler == Slot::Sampler,
        _ => false,
    }
}

/// Every step of a texture's plan fits the texture, and both its image and its sampler are written
/// into the descriptor set.
pub proof fn law_textures_fit(t: Texture, binding: u32, i: int)
    requires
        binding < u32::MAX,
        t.rgba@.len() <= u64::MAX,
        0 <= i < texture_plan(t, binding).len(),
    ensures
        fits_texture(texture_plan(t, binding)[i], t, binding),
        texture_plan(t, binding).contains(Step::WriteImage { binding, view: Slot::View }),
        texture_plan(t, binding).contains(
            Step::WriteSampler {
                binding: (binding + 1) as u32,
                sampler: Slot::Sampler,
            },
        ),
        texture_plan(t, binding).contains(
            Step::Fill { memory: Slot::StagingMem, size: t.rgba@.len() as u64 },
        ),
{
    let p = texture_plan(t, binding);
    assert(p[3] is Fill);
    assert(p[9] is WriteImage);
    assert(p[10] is WriteSampler);
}

/// Whether a step of a mesh's plan fits the mesh: all of its vertices in a vertex buffer (0x80), all
/// of its indices in an index buffer (0x40), both in memory that the CPU can reach.
pub open spec fn fits_mesh(s: Step, g: Geometry) -> bool {
    match s {
        Step::Buffer { into, size, usage, handle_type } => {
            &&& into == Slot::VertexBuf ==> size == g.vertex_data@.len() && usage == 0x80
            &&& into == Slot::IndexBuf ==> size == g.index_data@.len() && usage == 0x40
            &&& into == Slot::VertexBuf || into == Slot::IndexBuf
            &&& handle_type == 0
        },
        Step::Memory { into, object, flags, handle_type } => into == memory_of(object) && flags == 6
            && handle_type == 0,
        Step::Bind { object, memory } => memory == memory_of(object),
        Step::Fill { memory, size } => {
            &&& memory == Slot::VertexMem ==> size == g.vertex_data@.len()
            &&& memory == Slot::IndexMem ==> size == g.index_data@.len()
            &&& memory == Slot::VertexMem || memory == Slot::IndexMem
        },
        _ => false,
    }
}

/// A mesh with vertices is uploaded whole: its vertices, and its indices where it has some. One
/// without vertices is refused.
pub proof fn law_meshes_fit(g: &Geometry, r: Result<Vec<Step>, ResourceError>, i: int)
    requires
        call_ensures(plan_geometry, (g,), r),
        g.vertex_data@.len() <= u64::MAX,
        g.index_data@.len() <= u64::MAX,
    ensures
        r is Err <==> g.vertex_data@.len() == 0,
        r is Err ==> r == Err::<Vec<Step>, ResourceError>(ResourceError::EmptyBuffer),
        r is Ok ==> {
            let p = r->Ok_0@;
            &&& 0 <= i < p.len() ==> fits_mesh(p[i], *g)
            &&& p.contains(
                Step::Fill { memory: Slot::VertexMem, size: g.vertex_data@.len() as u64 },
            )
            &&& g.index_data@.len() > 0 <==> p.contains(
                Step::Fill { memory: Slot::IndexMem, size: g.index_data@.len() as u64 },
            )
        },
{
    if r is Ok {
        let p = r->Ok_0@;
        assert(p == geometry_plan(*g));
        assert(p[3] == (Step::Fill {
            memory: Slot::VertexMem,
            size: g.vertex_data@.len() as u64,
        }));
        if g.index_data@.len() > 0 {
            assert(p[7] == (Step::Fill {
                memory: Slot::IndexMem,
                size: g.index_data@.len() as u64,
            }));
        }
    }
}

/// Resources are refused exactly where a uniform buffer has none or more than 65536 bytes, a storage
/// buffer none or more than 16 mebibytes, or there are more than eight textures, and the refusal
/// tells the number.
pub proof fn law_good_resources(
    uniform: Option<UniformBlock>,
    storage: Option<StorageBlock>,
    textures: usize,
    base: u32,
    r: Result<Vec<Step>, ResourceError>,
)
    requires
        base + 2 * textures <= u32::MAX,
        call_ensures(plan_descriptors, (uniform, storage, textures, base), r),
    ensures
        ({
            let bad_uniform = uniform is Some && ((uniform->0).bytes@.len() == 0 || (
            uniform->0).bytes@.len() > 65536);
            let bad_storage = storage is Some && ((storage->0).bytes@.len() == 0 || (
            storage->0).bytes@.len() > 16777216);
            &&& r is Ok <==> !bad_uniform && !bad_storage && textures <= 8
            &&& bad_uniform ==> r == Err::<Vec<Step>, ResourceError>(
                ResourceError::BadUniform { bytes: (uniform->0).bytes@.len() as usize },
            )
            &&& !bad_uniform && bad_storage ==> r == Err::<Vec<Step>, ResourceError>(
                ResourceError::BadStorage { bytes: (storage->0).bytes@.len() as usize },
            )
            &&& !bad_uniform && !bad_storage && textures > 8 ==> r == Err::<
                Vec<Step>,
                ResourceError,
            >(ResourceError::TooManyTextures { count: textures })
        }),
{
}

/// Whether a step of a descriptor set's plan fits the draw: the uniform block in a uniform buffer
/// (0x10) written as one (6) at its binding, the storage block in a storage buffer (0x20) written
/// as one (7) at its own, whole, in memory that the CPU can reach, and texture `k` at twice `k`
/// above the first.
pub open spec fn fits_set(
    s: Step,
    uniform: Option<UniformBlock>,
    storage: Option<StorageBlock>,
    textures: nat,
    base: u32,
) -> bool {
    match s {
        Step::DescriptorPool { into } => into == Slot::DescPool,
        Step::DescriptorSet { pool } => pool == Slot::DescPool,
        Step::Buffer { into, size, usage, handle_type } => {
            &&& into == Slot::Uniform ==> uniform is Some && size == (uniform->0).bytes@.len()
                && usage == 0x10
            &&& into == Slot::Storage ==> storage is Some && size == (storage->0).bytes@.len()
                && usage == 0x20
            &&& into == Slot::Uniform || into == Slot::Storage
            &&& handle_type == 0
        },
        Step::Memory { into, object, flags, handle_type } => into == memory_of(object) && flags == 6
            && handle_type == 0,
        Step::Bind { object, memory } => memory == memory_of(object),
        Step::Fill { memory, size } => {
            &&& memory == Slot::UniformMem ==> uniform is Some && size == (
            uniform->0).bytes@.len()
            &&& memory == Slot::StorageMem ==> storage is Some && size == (
            storage->0).bytes@.len()
            &&& memory == Slot::UniformMem || memory == Slot::StorageMem
        },
        Step::WriteBuffer { binding, descriptor, buffer, size } => {
            &&& buffer == Slot::Uniform ==> uniform is Some && binding == (uniform->0).binding
                && descriptor == 6 && size == (uniform->0).bytes@.len()
            &&& buffer == Slot::Storage ==> storage is Some && binding == (storage->0).binding
                && descriptor == 7 && size == (storage->0).bytes@.len()
            &&& buffer == Slot::Uniform || buffer == Slot::Storage
        },
        Step::Texture { index, binding } => index < textures && binding == base + 2 * index,
        _ => false,
    }
}

proof fn lemma_texture_steps(base: u32, n: nat, i: int)
    requires
        base + 2 * n <= u32::MAX,
    ensures
        textures_steps(base, n).len() == n,
        0 <= i < n ==> textures_steps(base, n)[i] == (Step::Texture {
            index: i as u32,
            binding: (base + 2 * i) as u32,
        }),
    decreases n,
{
    if n > 0 {
        lemma_texture_steps(base, (n - 1) as nat, i);
    }
}

/// Every step of a descriptor set's plan fits the draw, and every texture is among them.
pub proof fn law_sets_fit(
    uniform: Option<UniformBlock>,
    storage: Option<StorageBlock>,
    textures: nat,
    base: u32,
    i: int,
    k: int,
)
    requires
        base + 2 * textures <= u32::MAX,
        uniform is Some ==> (uniform->0).bytes@.len() <= u64::MAX,
        storage is Some ==> (storage->0).bytes@.len() <= u64::MAX,
        0 <= i < descriptor_plan(uniform, storage, textures, base).len(),
    ensures
        fits_set(
            descriptor_plan(uniform, storage, textures, base)[i],
            uniform,
            storage,
            textures,
            base,
        ),
        0 <= k < textures ==> descriptor_plan(uniform, storage, textures, base).contains(
            Step::Texture { index: k as u32, binding: (base + 2 * k) as u32 },
        ),
        uniform is Some ==> descriptor_plan(uniform, storage, textures, base).contains(
            Step::WriteBuffer {
                binding: (uniform->0).binding,
                descriptor: 6,
                buffer: Slot::Uniform,
                size: (uniform->0).bytes@.len() as u64,
            },
        ),
        storage is Some ==> descriptor_plan(uniform, storage, textures, base).contains(
            Step::WriteBuffer {
                binding: (storage->0).binding,
                descriptor: 7,
                buffer: Slot::Storage,
                size: (storage->0).bytes@.len() as u64,
            },
        ),
{
    let p = descriptor_plan(uniform, storage, textures, base);
    let u: int = if uniform is Some {
        5
    } else {
        0
    };
    let s: int = if storage is Some {
        5
    } else {
        0
    };
    let n = 2 + u + s;
    let t = textures_steps(base, textures);
    lemma_texture_steps(base, textures, i - n);
    lemma_texture_steps(base, textures, k);
    assert(p.len() == n + t.len());
    if i >= n {
        assert(p[i] == t[i - n]);
    }
    if 0 <= k < textures {
        assert(p[n + k] == t[k]);
    }
    if uniform is Some {
        assert(p[6] is WriteBuffer);
    }
    if storage is Some {
        assert(p[2 + u + 4] is WriteBuffer);
    }
}

proof fn lemma_texture_bindings(base: u32, n: nat, i: int)
    requires
        base + 2 * n <= u32::MAX,
    ensures
        texture_bindings(base, n).len() == 2 * n,
        0 <= i < n ==> texture_bindings(base, n)[2 * i] == (BindingDesc {
            binding: (base + 2 * i) as u32,
            descriptor: 2,
            stages: 0x10,
        }),
        0 <= i < n ==> texture_bindings(base, n)[2 * i + 1] == (BindingDesc {
            binding: (base + 2 * i + 1) as u32,
            descriptor: 0,
            stages: 0x10,
        }),
    decreases n,
{
    if n > 0 {
        lemma_texture_bindings(base, (n - 1) as nat, i);
    }
}

/// A layout declares the guest's resources: a uniform buffer (6) and a storage buffer (7), read by
/// both stages (0x11), at their bindings, and for texture `k` an image (2) at twice `k` above the
/// first and a sampler (0) one further, read by the fragment stage (0x10); and nothing else.
pub proof fn law_layout_declares_the_resources(
    sig: &DescriptorSig,
    out: Vec<BindingDesc>,
    k: int,
)
    requires
        sig.tex_binding is Some ==> sig.tex_binding->0 + 2 * sig.tex_count <= u32::MAX,
        call_ensures(layout_bindings, (sig,), out),
    ensures
        out@.len() == (if sig.ubo_binding is Some {
            1int
        } else {
            0
        }) + (if sig.ssbo_binding is Some {
            1int
        } else {
            0
        }) + (if sig.tex_binding is Some {
            2 * sig.tex_count
        } else {
            0
        }),
        sig.ubo_binding is Some ==> out@.contains(
            BindingDesc { binding: sig.ubo_binding->0, descriptor: 6, stages: 0x11 },
        ),
        sig.ssbo_binding is Some ==> out@.contains(
            BindingDesc { binding: sig.ssbo_binding->0, descriptor: 7, stages: 0x11 },
        ),
        sig.tex_binding is Some && 0 <= k < sig.tex_count ==> out@.contains(
            BindingDesc {
                binding: (sig.tex_binding->0 + 2 * k) as u32,
                descriptor: 2,
                stages: 0x10,
            },
        ) && out@.contains(
            BindingDesc {
                binding: (sig.tex_binding->0 + 2 * k + 1) as u32,
                descriptor: 0,
                stages: 0x10,
            },
        ),
{
    let u: int = if sig.ubo_binding is Some {
        1
    } else {
        0
    };
    let s: int = if sig.ssbo_binding is Some {
        1
    } else {
        0
    };
    if sig.ubo_binding is Some {
        assert(out@[0].descriptor == 6);
    }
    if sig.ssbo_binding is Some {
        assert(out@[u].descriptor == 7);
    }
    if sig.tex_binding is Some {
        let t = texture_bindings(sig.tex_binding->0, sig.tex_count as nat);
        lemma_texture_bindings(sig.tex_binding->0, sig.tex_count as nat, k);
        if 0 <= k < sig.tex_count {
            assert(out@[u + s + 2 * k] == t[2 * k]);
            assert(out@[u + s + 2 * k + 1] == t[2 * k + 1]);
        }
    }
}

/// The descriptors of a type that a pool holds.
pub open spec fn held(pool: Seq<PoolSize>, descriptor: i32) -> int
    decreases pool.len(),
{
    if pool.len() == 0 {
        0
    } else {
        held(pool.drop_last(), descriptor) + if pool.last().descriptor == descriptor {
            pool.last().count as int
        } else {
            0
        }
    }
}

/// A pool holds just what the set needs: one uniform buffer and one storage buffer where there is
/// one, and an image and a sampler for each texture.
pub proof fn law_pool_holds_the_set(uniform: bool, storage: bool, textures: u32)
    ensures
        held(pool_of(uniform, storage, textures), 6) == if uniform {
            1int
        } else {
            0
        },
        held(pool_of(uniform, storage, textures), 7) == if storage {
            1int
        } else {
            0
        },
        held(pool_of(uniform, storage, textures), 2) == textures,
        held(pool_of(uniform, storage, textures), 0) == textures,
        forall|i: int|
            0 <= i < pool_of(uniform, storage, textures).len() ==> (#[trigger] pool_of(
                uniform,
                storage,
                textures,
            )[i]).count > 0,
{
    let p = pool_of(uniform, storage, textures);
    let n = p.len() as int;
    reveal_with_fuel(held, 5);
    assert(p.drop_last().drop_last().drop_last().drop_last().len() == 0 || n < 4);
}

/// What is planned is what fits: the plans of renders, conversions, kept targets, textures and
/// descriptor sets are those of which the laws say so.
pub proof fn law_plans_are_those_that_fit(
    draw: &ForwardedDraw,
    width: u32,
    height: u32,
    pitch: u32,
    src_format: i32,
    bytes: usize,
    export: bool,
    can_export: bool,
    dma_buf: bool,
    with_depth: bool,
    clear: Vec<Step>,
    kept: Vec<Step>,
    drawn: Result<Vec<Step>, PlanError>,
    converted: Result<Vec<Step>, PlanError>,
    shown: Vec<Step>,
)
    requires
        width * height * 4 <= u64::MAX,
        call_ensures(plan_clear, (width, height), clear),
        call_ensures(plan_reusable, (width, height, with_depth), kept),
        call_ensures(plan_triangle, (draw, width, height, export, can_export, dma_buf), drawn),
        call_ensures(
            plan_convert,
            (width, height, pitch, src_format, bytes, export, can_export, dma_buf),
            converted,
        ),
        call_ensures(plan_frame_image, (width, height), shown),
    ensures
        rendering(width, height, false, false).all_fit(clear@) && runs_in_order(clear@),
        clear@.contains(Step::Record),
        rendering(width, height, with_depth, dma_buf).all_fit(kept@),
        drawn is Ok ==> {
            let deep = draw.geometry is Some && (draw.geometry->0).depth is Some && ((
            draw.geometry->0).depth->0.test || (draw.geometry->0).depth->0.write);
            &&& rendering(width, height, deep, dma_buf).all_fit(drawn->Ok_0@)
            &&& runs_in_order(drawn->Ok_0@)
            &&& drawn->Ok_0@.contains(Step::Record)
            &&& drawn->Ok_0@.last() is ExportFd == export
        },
        converted is Ok ==> {
            &&& converting(width, height, pitch, src_format, dma_buf).all_fit(converted->Ok_0@)
            &&& runs_in_order(converted->Ok_0@)
            &&& converted->Ok_0@.last() is ExportFd == export
        },
        shown@ == frame_image_steps(width, height),
{
    let deep = draw.geometry is Some && (draw.geometry->0).depth is Some && ((
    draw.geometry->0).depth->0.test || (draw.geometry->0).depth->0.write);
    law_renders_fit(width, height, deep, export, dma_buf);
    law_renders_fit(width, height, with_depth, export, dma_buf);
    law_conversions_fit(width, height, pitch, src_format, export, dma_buf);
}

/// The same of textures, descriptor sets and their pools.
pub proof fn law_resources_are_those_that_fit(
    t: &Texture,
    binding: u32,
    uploaded: Result<Vec<Step>, ResourceError>,
    uniform: Option<UniformBlock>,
    storage: Option<StorageBlock>,
    textures: usize,
    base: u32,
    set: Result<Vec<Step>, ResourceError>,
    pool: Vec<PoolSize>,
    i: int,
)
    requires
        binding < u32::MAX,
        t.rgba@.len() <= u64::MAX,
        base + 2 * textures <= u32::MAX,
        uniform is Some ==> (uniform->0).bytes@.len() <= u64::MAX,
        storage is Some ==> (storage->0).bytes@.len() <= u64::MAX,
        call_ensures(plan_texture, (t, binding), uploaded),
        call_ensures(plan_descriptors, (uniform, storage, textures, base), set),
        call_ensures(
            pool_sizes,
            (uniform is Some, storage is Some, textures as u32),
            pool,
        ),
    ensures
        uploaded is Ok && 0 <= i < uploaded->Ok_0@.len() ==> fits_texture(
            uploaded->Ok_0@[i],
            *t,
            binding,
        ),
        set is Ok && 0 <= i < set->Ok_0@.len() ==> fits_set(
            set->Ok_0@[i],
            uniform,
            storage,
            textures as nat,
            base,
        ),
        held(pool@, 2) == textures,
        held(pool@, 0) == textures,
        held(pool@, 6) == if uniform is Some {
            1int
        } else {
            0
        },
        held(pool@, 7) == if storage is Some {
            1int
        } else {
            0
        },
{
    if uploaded is Ok && 0 <= i < uploaded->Ok_0@.len() {
        law_textures_fit(*t, binding, i);
    }
    if set is Ok && 0 <= i < set->Ok_0@.len() {
        law_sets_fit(uniform, storage, textures as nat, base, i, 0);
    }
    law_pool_holds_the_set(uniform is Some, storage is Some, textures as u32);
}

/// The object that a step makes and that needs memory.
pub open spec fn needs_memory(s: Step) -> Option<Slot> {
    match s {
        Step::Image { into, .. } => Some(into),
        Step::Buffer { into, .. } => Some(into),
        _ => None,
    }
}

/// Whether every image and buffer of a plan is bound to its own memory.
pub open spec fn all_bound(plan: Seq<Step>) -> bool {
    forall|i: int|
        0 <= i < plan.len() && needs_memory(plan[i]) is Some ==> plan.contains(
            Step::Bind {
                object: needs_memory(#[trigger] plan[i])->0,
                memory: memory_of(needs_memory(plan[i])->0),
            },
        )
}

proof fn lemma_bound_join(a: Seq<Step>, b: Seq<Step>)
    requires
        all_bound(a),
        all_bound(b),
    ensures
        all_bound(a + b),
{
    let c = a + b;
    assert forall|i: int| 0 <= i < c.len() && needs_memory(c[i]) is Some implies c.contains(
        Step::Bind {
            object: needs_memory(#[trigger] c[i])->0,
            memory: memory_of(needs_memory(c[i])->0),
        },
    ) by {
        let o = needs_memory(c[i])->0;
        let want = Step::Bind { object: o, memory: memory_of(o) };
        if i < a.len() {
            assert(c[i] == a[i]);
            let k = a.index_of(want);
            assert(c[k] == want);
        } else {
            assert(c[i] == b[i - a.len()]);
            let k = b.index_of(want);
            assert(c[a.len() + k] == want);
        }
    }
}

proof fn lemma_objects_bound(
    object: Slot,
    format: i32,
    width: u32,
    height: u32,
    size: u64,
    usage: u32,
    flags: u32,
    handle_type: u32,
)
    ensures
        all_bound(image_steps(object, memory_of(object), format, width, height, usage)),
        all_bound(buffer_steps(object, memory_of(object), size, usage, flags, handle_type)),
        all_bound(readback_steps(object, memory_of(object), size)),
{
    let i = image_steps(object, memory_of(object), format, width, height, usage);
    let b = buffer_steps(object, memory_of(object), size, usage, flags, handle_type);
    let r = readback_steps(object, memory_of(object), size);
    let want = Step::Bind { object, memory: memory_of(object) };
    assert(i[2] == want && b[2] == want && r[2] == want);
}

proof fn lemma_none_to_bind(plan: Seq<Step>)
    requires
        forall|i: int| 0 <= i < plan.len() ==> needs_memory(#[trigger] plan[i]) is None,
    ensures
        all_bound(plan),
{
}

proof fn lemma_pushed_bound(a: Seq<Step>, s: Step)
    requires
        all_bound(a),
        needs_memory(s) is None,
    ensures
        all_bound(a.push(s)),
{
    lemma_none_to_bind(seq![s]);
    lemma_bound_join(a, seq![s]);
    assert(a.push(s) =~= a + seq![s]);
}

/// Every image and buffer that a plan makes is bound to its own memory, and a draw makes what it
/// needs: a target and its view, its pipeline, a framebuffer, memory that the CPU reads well, and a
/// depth buffer and an exported buffer where they are wanted.
pub proof fn law_objects_are_bound(
    width: u32,
    height: u32,
    pitch: u32,
    src_format: i32,
    with_depth: bool,
    export: bool,
    dma_buf: bool,
)
    ensures
        all_bound(clear_plan(width, height)),
        all_bound(triangle_plan(width, height, with_depth, export, dma_buf)),
        all_bound(reusable_plan(width, height, with_depth)),
        all_bound(convert_plan(width, height, pitch, src_format, export, dma_buf)),
        triangle_plan(width, height, with_depth, export, dma_buf).contains(Step::ResolvePipeline),
        triangle_plan(width, height, with_depth, export, dma_buf).contains(
            Step::ReadbackMemory { into: Slot::ReadbackMem, object: Slot::Readback },
        ),
        reusable_plan(width, height, with_depth).contains(
            Step::ReadbackMemory { into: Slot::ReadbackMem, object: Slot::Readback },
        ),
        triangle_plan(width, height, with_depth, export, dma_buf).contains(
            Step::Framebuffer {
                into: Slot::Framebuffer,
                color: Slot::View,
                with_depth,
                own_pass: false,
                width,
                height,
            },
        ),
        reusable_plan(width, height, with_depth).contains(
            Step::Framebuffer {
                into: Slot::Framebuffer,
                color: Slot::View,
                with_depth,
                own_pass: false,
                width,
                height,
            },
        ),
{
    let size = (width * height * 4) as u64;
    let staged = (pitch * height) as u64;
    let handle: u32 = if dma_buf {
        0x200
    } else {
        1
    };
    lemma_objects_bound(Slot::Image, 37, width, height, size, 17, 1, 0);
    lemma_objects_bound(Slot::DepthImage, 126, width, height, size, 0x20, 1, 0);
    lemma_objects_bound(Slot::Readback, 0, 0, 0, size, 2, 6, 0);
    lemma_objects_bound(Slot::Export, 0, 0, 0, size, 2, 1, handle);
    lemma_objects_bound(Slot::Staging, 0, 0, 0, staged, 1, 6, 0);
    lemma_objects_bound(Slot::SrcImage, src_format, width, height, 0, 3, 0, 0);
    let view = Step::View { into: Slot::View, image: Slot::Image, format: 37, aspect: 1 };
    let depth_view = Step::View {
        into: Slot::DepthView,
        image: Slot::DepthImage,
        format: 126,
        aspect: 2,
    };
    let ti = image_steps(Slot::Image, Slot::ImageMem, 37, width, height, 17);
    lemma_pushed_bound(ti, view);
    let t = target_steps(width, height);
    let di = image_steps(Slot::DepthImage, Slot::DepthMem, 126, width, height, 0x20);
    lemma_pushed_bound(di, depth_view);
    let d = depth_steps(width, height, with_depth);
    let run = run_steps(Slot::ReadbackMem, size);
    lemma_none_to_bind(run);
    let h = hand_out_steps(export, dma_buf);
    lemma_none_to_bind(h);
    let x = export_steps(size, export, dma_buf);
    lemma_none_to_bind(Seq::empty());
    assert(all_bound(t) && all_bound(d) && all_bound(x));
    // The clear.
    let own = seq![
        Step::Pass { into: Slot::RenderPass, format: 37 },
        Step::Framebuffer {
            into: Slot::Framebuffer,
            color: Slot::View,
            with_depth: false,
            own_pass: true,
            width,
            height,
        },
    ];
    lemma_none_to_bind(own);
    let rb = buffer_steps(Slot::Readback, Slot::ReadbackMem, size, 2, 6, 0);
    lemma_bound_join(t, own);
    lemma_bound_join(t + own, rb);
    lemma_bound_join(t + own + rb, run);
    // The draw.
    let resolve = seq![Step::ResolvePipeline];
    lemma_none_to_bind(resolve);
    let f = pipeline_steps(width, height, with_depth);
    lemma_none_to_bind(f);
    let r = readback_steps(Slot::Readback, Slot::ReadbackMem, size);
    lemma_bound_join(t, d);
    lemma_bound_join(t + d, resolve);
    lemma_bound_join(t + d + resolve, f);
    lemma_bound_join(t + d + resolve + f, r);
    lemma_bound_join(t + d + resolve + f + r, x);
    lemma_bound_join(t + d + resolve + f + r + x, run);
    lemma_bound_join(t + d + resolve + f + r + x + run, h);
    let plan = triangle_plan(width, height, with_depth, export, dma_buf);
    let n = (t + d).len() as int;
    assert(plan[n] == resolve[0]);
    assert(plan[n + 1] == f[0]);
    assert(plan[n + 3] == r[1]);
    // The target that is kept.
    let tail = seq![
        Step::CommandPool { into: Slot::Pool },
        Step::CommandBuffer { pool: Slot::Pool },
        Step::Fence { into: Slot::Fence },
        Step::MapMemory { memory: Slot::ReadbackMem, size },
    ];
    lemma_none_to_bind(tail);
    lemma_bound_join(t + d, f);
    lemma_bound_join(t + d + f, r);
    lemma_bound_join(t + d + f + r, tail);
    let kept = reusable_plan(width, height, with_depth);
    assert(kept[n] == f[0]);
    assert(kept[n + 2] == r[1]);
    // The conversion.
    let a = buffer_steps(Slot::Staging, Slot::StagingMem, staged, 1, 6, 0);
    let fill = seq![Step::Fill { memory: Slot::StagingMem, size: staged }];
    lemma_none_to_bind(fill);
    let s = image_steps(Slot::SrcImage, Slot::SrcMem, src_format, width, height, 3);
    lemma_objects_bound(Slot::Image, 44, width, height, 0, 3, 0, 0);
    let c = image_steps(Slot::Image, Slot::ImageMem, 44, width, height, 3);
    lemma_bound_join(a, fill);
    lemma_bound_join(a + fill, s);
    lemma_bound_join(a + fill + s, c);
    lemma_bound_join(a + fill + s + c, rb);
    lemma_bound_join(a + fill + s + c + rb, x);
    lemma_bound_join(a + fill + s + c + rb + x, run);
    lemma_bound_join(a + fill + s + c + rb + x + run, h);
}

/// The same of textures, meshes, descriptor sets and the viewer's frame image.
pub proof fn law_resources_are_bound(
    t: Texture,
    binding: u32,
    g: Geometry,
    uniform: Option<UniformBlock>,
    storage: Option<StorageBlock>,
    textures: nat,
    base: u32,
    width: u32,
    height: u32,
)
    requires
        base + 2 * textures <= u32::MAX,
    ensures
        all_bound(texture_plan(t, binding)),
        all_bound(geometry_plan(g)),
        all_bound(descriptor_plan(uniform, storage, textures, base)),
        all_bound(frame_image_steps(width, height)),
{
    let p = texture_plan(t, binding);
    assert(p[2] is Bind && p[6] is Bind);
    assert(p[2] == (Step::Bind { object: Slot::Staging, memory: Slot::StagingMem }));
    assert(p[6] == (Step::Bind { object: Slot::Image, memory: Slot::ImageMem }));
    let q = geometry_plan(g);
    assert(q[2] == (Step::Bind { object: Slot::VertexBuf, memory: Slot::VertexMem }));
    if g.index_data@.len() > 0 {
        assert(q[6] == (Step::Bind { object: Slot::IndexBuf, memory: Slot::IndexMem }));
    }
    let d = descriptor_plan(uniform, storage, textures, base);
    let u: int = if uniform is Some {
        5
    } else {
        0
    };
    let s: int = if storage is Some {
        5
    } else {
        0
    };
    if uniform is Some {
        assert(d[4] == (Step::Bind { object: Slot::Uniform, memory: Slot::UniformMem }));
    }
    if storage is Some {
        assert(d[2 + u + 2] == (Step::Bind { object: Slot::Storage, memory: Slot::StorageMem }));
    }
    let ts = textures_steps(base, textures);
    assert forall|i: int| 0 <= i < d.len() && needs_memory(d[i]) is Some implies d.contains(
        Step::Bind {
            object: needs_memory(#[trigger] d[i])->0,
            memory: memory_of(needs_memory(d[i])->0),
        },
    ) by {
        if i >= 2 + u + s {
            lemma_texture_steps(base, textures, i - (2 + u + s));
            assert(d[i] == ts[i - (2 + u + s)]);
        }
    }
    let f = frame_image_steps(width, height);
    assert(f[2] == (Step::Bind { object: Slot::Image, memory: Slot::ImageMem }));
    assert(f[5] == (Step::Bind { object: Slot::Staging, memory: Slot::StagingMem }));
}

} // verus!
