//! The plans of renders and conversions.
use crate::gpu::memory::HOST_MEMORY;
use crate::gpu::scratch::{built_on, convert_order, render_order, target_order, Slot};
use crate::gpu::steps::{
    buffer_steps, filled, given_back, image_steps, lemma_object_steps, lemma_run_steps,
    lemma_step_push, lemma_steps_join, orderly, plan_buffer, plan_image, plan_readback, plan_run,
    push_steps, readback_steps, run_steps, Step,
};
use crate::gpu::vk::{
    ASPECT_COLOR, ASPECT_DEPTH, BUFFER_TRANSFER_DST, BUFFER_TRANSFER_SRC, FORMAT_B8G8R8A8_UNORM,
    FORMAT_D32_SFLOAT, FORMAT_R8G8B8A8_UNORM, HANDLE_DMA_BUF, HANDLE_OPAQUE_FD,
    IMAGE_COLOR_ATTACHMENT, IMAGE_DEPTH_ATTACHMENT, IMAGE_TRANSFER_DST, IMAGE_TRANSFER_SRC,
    MEMORY_DEVICE_LOCAL,
};
use crate::replay::draw::{depth_of, needed_depth, ForwardedDraw};
use vstd::prelude::*;

verus! {

/// The bytes of a tightly packed image of four bytes per pixel.
pub open spec fn image_bytes(width: u32, height: u32) -> int {
    width * height * 4
}

/// The bytes of a tightly packed image of four bytes per pixel.
pub fn image_size(width: u32, height: u32) -> (n: u64)
    requires
        image_bytes(width, height) <= u64::MAX,
    ensures
        n == image_bytes(width, height),
{
    assert(0 <= width * height) by (nonlinear_arith)
        requires
            width >= 0,
            height >= 0,
    ;
    width as u64 * height as u64 * 4
}

/// How memory is handed out: as a dma-buf where the device can, else as an opaque descriptor.
pub open spec fn export_handle(dma_buf: bool) -> u32 {
    if dma_buf {
        HANDLE_DMA_BUF
    } else {
        HANDLE_OPAQUE_FD
    }
}

/// How memory is handed out, and what that is called.
pub fn export_kind(dma_buf: bool) -> (r: (u32, &'static str))
    ensures
        r.0 == export_handle(dma_buf),
        r.1@ == if dma_buf {
            "dma-buf"@
        } else {
            "opaque-fd"@
        },
{
    if dma_buf {
        (HANDLE_DMA_BUF, "dma-buf")
    } else {
        (HANDLE_OPAQUE_FD, "opaque-fd")
    }
}

/// The usage of a render target that is copied out.
pub const TARGET_USAGE: u32 = 17;

/// The usage of an image that is written and read by transfers.
pub const TRANSFER_USAGE: u32 = 3;

/// The usages, in terms of the single ones.
pub proof fn law_usages()
    ensures
        TARGET_USAGE == IMAGE_COLOR_ATTACHMENT | IMAGE_TRANSFER_SRC,
        TRANSFER_USAGE == IMAGE_TRANSFER_SRC | IMAGE_TRANSFER_DST,
        HOST_MEMORY == crate::gpu::vk::MEMORY_HOST_VISIBLE | crate::gpu::vk::MEMORY_HOST_COHERENT,
{
    assert(17u32 == 0x10u32 | 1u32) by (bit_vector);
    assert(3u32 == 1u32 | 2u32) by (bit_vector);
    assert(6u32 == 2u32 | 4u32) by (bit_vector);
}

/// A render target with its view.
pub open spec fn target_steps(width: u32, height: u32) -> Seq<Step> {
    image_steps(
        Slot::Image,
        Slot::ImageMem,
        FORMAT_R8G8B8A8_UNORM,
        width,
        height,
        TARGET_USAGE,
    ).push(
        Step::View {
            into: Slot::View,
            image: Slot::Image,
            format: FORMAT_R8G8B8A8_UNORM,
            aspect: ASPECT_COLOR,
        },
    )
}

fn plan_target(width: u32, height: u32) -> (out: Vec<Step>)
    ensures
        out@ == target_steps(width, height),
{
    let mut out = plan_image(
        Slot::Image,
        Slot::ImageMem,
        FORMAT_R8G8B8A8_UNORM,
        width,
        height,
        TARGET_USAGE,
    );
    out.push(
        Step::View {
            into: Slot::View,
            image: Slot::Image,
            format: FORMAT_R8G8B8A8_UNORM,
            aspect: ASPECT_COLOR,
        },
    );
    out
}

/// The plan of a plain clear: a target, a render pass of its own, a readback buffer, and the run.
pub open spec fn clear_plan(width: u32, height: u32) -> Seq<Step> {
    target_steps(width, height) + seq![
        Step::Pass { into: Slot::RenderPass, format: FORMAT_R8G8B8A8_UNORM },
        Step::Framebuffer {
            into: Slot::Framebuffer,
            color: Slot::View,
            with_depth: false,
            own_pass: true,
            width,
            height,
        },
    ] + buffer_steps(
        Slot::Readback,
        Slot::ReadbackMem,
        image_bytes(width, height) as u64,
        BUFFER_TRANSFER_DST,
        HOST_MEMORY,
        0,
    ) + run_steps(Slot::ReadbackMem, image_bytes(width, height) as u64)
}

/// Plans a plain clear.
pub fn plan_clear(width: u32, height: u32) -> (out: Vec<Step>)
    requires
        image_bytes(width, height) <= u64::MAX,
    ensures
        out@ == clear_plan(width, height),
{
    let size: u64 = image_size(width, height);
    let mut out = plan_target(width, height);
    let ghost a = out@;
    out.push(Step::Pass { into: Slot::RenderPass, format: FORMAT_R8G8B8A8_UNORM });
    out.push(
        Step::Framebuffer {
            into: Slot::Framebuffer,
            color: Slot::View,
            with_depth: false,
            own_pass: true,
            width,
            height,
        },
    );
    assert(out@ =~= a + seq![
        Step::Pass { into: Slot::RenderPass, format: FORMAT_R8G8B8A8_UNORM },
        Step::Framebuffer {
            into: Slot::Framebuffer,
            color: Slot::View,
            with_depth: false,
            own_pass: true,
            width,
            height,
        },
    ]);
    push_steps(
        &mut out,
        plan_buffer(
            Slot::Readback,
            Slot::ReadbackMem,
            size,
            BUFFER_TRANSFER_DST,
            HOST_MEMORY,
            0,
        ),
    );
    push_steps(&mut out, plan_run(Slot::ReadbackMem, size));
    out
}

/// A buffer whose memory is handed out, where one is wanted.
pub open spec fn export_steps(size: u64, export: bool, dma_buf: bool) -> Seq<Step> {
    if export {
        buffer_steps(
            Slot::Export,
            Slot::ExportMem,
            size,
            BUFFER_TRANSFER_DST,
            MEMORY_DEVICE_LOCAL,
            export_handle(dma_buf),
        )
    } else {
        Seq::empty()
    }
}

/// Handing the memory out, where that is wanted.
pub open spec fn hand_out_steps(export: bool, dma_buf: bool) -> Seq<Step> {
    if export {
        seq![Step::ExportFd { memory: Slot::ExportMem, handle_type: export_handle(dma_buf) }]
    } else {
        Seq::empty()
    }
}

fn plan_export(size: u64, export: bool, dma_buf: bool) -> (out: Vec<Step>)
    ensures
        out@ == export_steps(size, export, dma_buf),
{
    if export {
        let (handle, _) = export_kind(dma_buf);
        plan_buffer(
            Slot::Export,
            Slot::ExportMem,
            size,
            BUFFER_TRANSFER_DST,
            MEMORY_DEVICE_LOCAL,
            handle,
        )
    } else {
        Vec::new()
    }
}

fn plan_hand_out(export: bool, dma_buf: bool) -> (out: Vec<Step>)
    ensures
        out@ == hand_out_steps(export, dma_buf),
{
    let mut out: Vec<Step> = Vec::new();
    if export {
        let (handle, _) = export_kind(dma_buf);
        out.push(Step::ExportFd { memory: Slot::ExportMem, handle_type: handle });
    }
    assert(out@ =~= hand_out_steps(export, dma_buf));
    out
}

/// The pipeline of a draw, and a framebuffer for it.
pub open spec fn pipeline_steps(width: u32, height: u32, with_depth: bool) -> Seq<Step> {
    seq![
        Step::Framebuffer {
            into: Slot::Framebuffer,
            color: Slot::View,
            with_depth,
            own_pass: false,
            width,
            height,
        },
    ]
}

/// The plan of a draw that makes everything anew: a target, a depth buffer where the draw needs
/// one, the draw's pipeline, a readback buffer, an exported buffer where one is wanted, and the
/// run.
pub open spec fn triangle_plan(
    width: u32,
    height: u32,
    with_depth: bool,
    export: bool,
    dma_buf: bool,
) -> Seq<Step> {
    let size = image_bytes(width, height) as u64;
    target_steps(width, height) + depth_steps(width, height, with_depth) + seq![
        Step::ResolvePipeline,
    ] + pipeline_steps(width, height, with_depth) + readback_steps(
        Slot::Readback,
        Slot::ReadbackMem,
        size,
    ) + export_steps(size, export, dma_buf) + run_steps(Slot::ReadbackMem, size) + hand_out_steps(
        export,
        dma_buf,
    )
}

/// Why work is refused before anything is made.
#[derive(Debug, Clone, Copy, PartialEq, Eq, Structural)]
pub enum PlanError {
    /// The device cannot hand memory out.
    NoExport,
    /// A size of zero, or rows longer than the pitch.
    BadGeometry,
    /// Fewer bytes than the geometry needs.
    TooSmall,
    /// A mesh where only a draw without buffers can be drawn.
    HasGeometry,
}

impl PlanError {
    /// The words that `message` gives.
    pub open spec fn words(self) -> Seq<char> {
        match self {
            PlanError::NoExport => "device does not support external-memory fd export"@,
            PlanError::BadGeometry => "convert_present: bad geometry"@,
            PlanError::TooSmall => "convert_present: src_bytes too small for geometry"@,
            PlanError::HasGeometry =>
                "render_forwarded_zerocopy: geometry draws use the copy present path"@,
        }
    }

    /// The refusal in words.
    pub fn message(&self) -> (s: String)
        ensures
            s@ == self.words(),
    {
        match self {
            PlanError::NoExport => {
                "device does not support external-memory fd export".to_owned()
            },
            PlanError::BadGeometry => "convert_present: bad geometry".to_owned(),
            PlanError::TooSmall => {
                "convert_present: src_bytes too small for geometry".to_owned()
            },
            PlanError::HasGeometry => {
                "render_forwarded_zerocopy: geometry draws use the copy present path".to_owned()
            },
        }
    }
}

/// Plans a draw that makes everything anew. Export is refused on a device that cannot.
pub fn plan_triangle(
    draw: &ForwardedDraw,
    width: u32,
    height: u32,
    export: bool,
    can_export: bool,
    dma_buf: bool,
) -> (r: Result<Vec<Step>, PlanError>)
    requires
        !export || can_export ==> image_bytes(width, height) <= u64::MAX,
    ensures
        export && !can_export <==> r is Err,
        r is Err ==> r->Err_0 == PlanError::NoExport,
        r is Ok ==> r->Ok_0@ == triangle_plan(
            width,
            height,
            depth_of(*draw) is Some,
            export,
            dma_buf,
        ),
{
    if export && !can_export {
        return Err(PlanError::NoExport);
    }
    let with_depth: bool = needed_depth(draw).is_some();
    let size: u64 = image_size(width, height);
    let mut out = plan_target(width, height);
    push_steps(&mut out, plan_depth(width, height, with_depth));
    let ghost a = out@;
    out.push(Step::ResolvePipeline);
    assert(out@ =~= a + seq![Step::ResolvePipeline]);
    let ghost b = out@;
    out.push(
        Step::Framebuffer {
            into: Slot::Framebuffer,
            color: Slot::View,
            with_depth,
            own_pass: false,
            width,
            height,
        },
    );
    assert(out@ =~= b + pipeline_steps(width, height, with_depth));
    push_steps(&mut out, plan_readback(Slot::Readback, Slot::ReadbackMem, size));
    push_steps(&mut out, plan_export(size, export, dma_buf));
    push_steps(&mut out, plan_run(Slot::ReadbackMem, size));
    push_steps(&mut out, plan_hand_out(export, dma_buf));
    Ok(out)
}

/// A depth buffer with its view, where one is wanted.
pub open spec fn depth_steps(width: u32, height: u32, with_depth: bool) -> Seq<Step> {
    if with_depth {
        image_steps(
            Slot::DepthImage,
            Slot::DepthMem,
            FORMAT_D32_SFLOAT,
            width,
            height,
            IMAGE_DEPTH_ATTACHMENT,
        ).push(
            Step::View {
                into: Slot::DepthView,
                image: Slot::DepthImage,
                format: FORMAT_D32_SFLOAT,
                aspect: ASPECT_DEPTH,
            },
        )
    } else {
        Seq::empty()
    }
}

fn plan_depth(width: u32, height: u32, with_depth: bool) -> (out: Vec<Step>)
    ensures
        out@ == depth_steps(width, height, with_depth),
{
    if !with_depth {
        return Vec::new();
    }
    let mut out = plan_image(
        Slot::DepthImage,
        Slot::DepthMem,
        FORMAT_D32_SFLOAT,
        width,
        height,
        IMAGE_DEPTH_ATTACHMENT,
    );
    out.push(
        Step::View {
            into: Slot::DepthView,
            image: Slot::DepthImage,
            format: FORMAT_D32_SFLOAT,
            aspect: ASPECT_DEPTH,
        },
    );
    out
}

/// The plan of a frame target that is kept: a target, a depth buffer where one is wanted, a
/// framebuffer, a readback buffer that stays mapped, and what a run needs.
pub open spec fn reusable_plan(width: u32, height: u32, with_depth: bool) -> Seq<Step> {
    let size = image_bytes(width, height) as u64;
    target_steps(width, height) + depth_steps(width, height, with_depth) + pipeline_steps(
        width,
        height,
        with_depth,
    ) + readback_steps(Slot::Readback, Slot::ReadbackMem, size) + seq![
        Step::CommandPool { into: Slot::Pool },
        Step::CommandBuffer { pool: Slot::Pool },
        Step::Fence { into: Slot::Fence },
        Step::MapMemory { memory: Slot::ReadbackMem, size },
    ]
}

/// Plans a frame target that is kept.
pub fn plan_reusable(width: u32, height: u32, with_depth: bool) -> (out: Vec<Step>)
    requires
        image_bytes(width, height) <= u64::MAX,
    ensures
        out@ == reusable_plan(width, height, with_depth),
{
    let size: u64 = image_size(width, height);
    let mut out = plan_target(width, height);
    push_steps(&mut out, plan_depth(width, height, with_depth));
    let ghost b = out@;
    out.push(
        Step::Framebuffer {
            into: Slot::Framebuffer,
            color: Slot::View,
            with_depth,
            own_pass: false,
            width,
            height,
        },
    );
    assert(out@ =~= b + pipeline_steps(width, height, with_depth));
    push_steps(&mut out, plan_readback(Slot::Readback, Slot::ReadbackMem, size));
    let ghost c = out@;
    out.push(Step::CommandPool { into: Slot::Pool });
    out.push(Step::CommandBuffer { pool: Slot::Pool });
    out.push(Step::Fence { into: Slot::Fence });
    out.push(Step::MapMemory { memory: Slot::ReadbackMem, size });
    assert(out@ =~= c + seq![
        Step::CommandPool { into: Slot::Pool },
        Step::CommandBuffer { pool: Slot::Pool },
        Step::Fence { into: Slot::Fence },
        Step::MapMemory { memory: Slot::ReadbackMem, size },
    ]);
    out
}

/// The plan of a format conversion: the guest's pixels in a staging buffer, an image of their
/// format and one of the target format, a readback buffer, an exported buffer where one is
/// wanted, and the run.
pub open spec fn convert_plan(
    width: u32,
    height: u32,
    pitch: u32,
    src_format: i32,
    export: bool,
    dma_buf: bool,
) -> Seq<Step> {
    let size = image_bytes(width, height) as u64;
    let staged = (pitch * height) as u64;
    buffer_steps(
        Slot::Staging,
        Slot::StagingMem,
        staged,
        BUFFER_TRANSFER_SRC,
        HOST_MEMORY,
        0,
    ) + seq![Step::Fill { memory: Slot::StagingMem, size: staged }] + image_steps(
        Slot::SrcImage,
        Slot::SrcMem,
        src_format,
        width,
        height,
        TRANSFER_USAGE,
    ) + image_steps(
        Slot::Image,
        Slot::ImageMem,
        FORMAT_B8G8R8A8_UNORM,
        width,
        height,
        TRANSFER_USAGE,
    ) + buffer_steps(
        Slot::Readback,
        Slot::ReadbackMem,
        size,
        BUFFER_TRANSFER_DST,
        HOST_MEMORY,
        0,
    ) + export_steps(size, export, dma_buf) + run_steps(Slot::ReadbackMem, size) + hand_out_steps(
        export,
        dma_buf,
    )
}

/// Why a conversion is refused; `None` when it is planned.
pub open spec fn convert_refusal(
    width: u32,
    height: u32,
    pitch: u32,
    bytes: int,
    export: bool,
    can_export: bool,
) -> Option<PlanError> {
    if width == 0 || height == 0 || pitch < width * 4 && pitch < u32::MAX {
        Some(PlanError::BadGeometry)
    } else if pitch * height > bytes {
        Some(PlanError::TooSmall)
    } else if export && !can_export {
        Some(PlanError::NoExport)
    } else {
        None
    }
}

/// Plans a format conversion of `bytes` bytes. A geometry that they do not hold is refused. A row
/// of more bytes than a 32-bit number holds counts as one of the largest.
pub fn plan_convert(
    width: u32,
    height: u32,
    pitch: u32,
    src_format: i32,
    bytes: usize,
    export: bool,
    can_export: bool,
    dma_buf: bool,
) -> (r: Result<Vec<Step>, PlanError>)
    requires
        convert_refusal(width, height, pitch, bytes as int, export, can_export) is None
            ==> image_bytes(width, height) <= u64::MAX,
    ensures
        match convert_refusal(width, height, pitch, bytes as int, export, can_export) {
            Some(e) => r is Err && r->Err_0 == e,
            None => r is Ok && r->Ok_0@ == convert_plan(
                width,
                height,
                pitch,
                src_format,
                export,
                dma_buf,
            ),
        },
{
    let row: u64 = crate::arith::min_u64(width as u64 * 4, u32::MAX as u64);
    if width == 0 || height == 0 || (pitch as u64) < row {
        return Err(PlanError::BadGeometry);
    }
    assert(0 <= pitch * height <= 0xffff_ffff * 0xffff_ffff) by (nonlinear_arith)
        requires
            0 <= pitch <= 0xffff_ffff,
            0 <= height <= 0xffff_ffff,
    ;
    let staged: u64 = pitch as u64 * height as u64;
    if staged > bytes as u64 {
        return Err(PlanError::TooSmall);
    }
    if export && !can_export {
        return Err(PlanError::NoExport);
    }
    let size: u64 = image_size(width, height);
    let mut out = plan_buffer(
        Slot::Staging,
        Slot::StagingMem,
        staged,
        BUFFER_TRANSFER_SRC,
        HOST_MEMORY,
        0,
    );
    let ghost a = out@;
    out.push(Step::Fill { memory: Slot::StagingMem, size: staged });
    assert(out@ =~= a + seq![Step::Fill { memory: Slot::StagingMem, size: staged }]);
    push_steps(
        &mut out,
        plan_image(Slot::SrcImage, Slot::SrcMem, src_format, width, height, TRANSFER_USAGE),
    );
    push_steps(
        &mut out,
        plan_image(
            Slot::Image,
            Slot::ImageMem,
            FORMAT_B8G8R8A8_UNORM,
            width,
            height,
            TRANSFER_USAGE,
        ),
    );
    push_steps(
        &mut out,
        plan_buffer(
            Slot::Readback,
            Slot::ReadbackMem,
            size,
            BUFFER_TRANSFER_DST,
            HOST_MEMORY,
            0,
        ),
    );
    push_steps(&mut out, plan_export(size, export, dma_buf));
    push_steps(&mut out, plan_run(Slot::ReadbackMem, size));
    push_steps(&mut out, plan_hand_out(export, dma_buf));
    Ok(out)
}

/// A conversion that is planned reads no byte that is not there: every row of the image lies
/// within the bytes of the guest, both where the pitch puts it and where the copy does, which
/// counts the pitch in whole pixels. Such a row is no shorter than the image is wide.
pub proof fn law_convert_stays_inside(
    width: u32,
    height: u32,
    pitch: u32,
    bytes: int,
    export: bool,
    can_export: bool,
    row: int,
)
    requires
        convert_refusal(width, height, pitch, bytes, export, can_export) is None,
        0 <= row < height,
        width * 4 <= u32::MAX,
    ensures
        0 <= row * pitch,
        row * pitch + width * 4 <= bytes,
        pitch / 4 >= width,
        0 <= row * (pitch / 4) * 4,
        row * (pitch / 4) * 4 + width * 4 <= bytes,
{
    assert(0 <= row * pitch && row * pitch + pitch <= pitch * height) by (nonlinear_arith)
        requires
            0 <= row < height,
            0 <= pitch,
    ;
    let texels = (pitch / 4) as int;
    assert(0 <= row * texels && row * texels * 4 <= row * pitch) by (nonlinear_arith)
        requires
            0 <= row,
            0 <= texels,
            texels * 4 <= pitch,
    ;
}

/// Every plan makes what it needs before it needs it, fills no slot twice, and makes nothing that
/// its order of giving back does not hold.
pub proof fn law_plans_are_orderly(
    width: u32,
    height: u32,
    pitch: u32,
    src_format: i32,
    export: bool,
    dma_buf: bool,
    with_depth: bool,
)
    ensures
        orderly(Set::empty(), clear_plan(width, height)),
        given_back(filled(Set::empty(), clear_plan(width, height)), render_order()),
        orderly(Set::empty(), triangle_plan(width, height, with_depth, export, dma_buf)),
        given_back(
            filled(Set::empty(), triangle_plan(width, height, with_depth, export, dma_buf)),
            render_order(),
        ),
        orderly(Set::empty(), reusable_plan(width, height, with_depth)),
        given_back(
            filled(Set::empty(), reusable_plan(width, height, with_depth)),
            render_order(),
        ),
        given_back(
            filled(Set::empty(), reusable_plan(width, height, with_depth)),
            target_order(),
        ),
        orderly(
            Set::empty(),
            convert_plan(width, height, pitch, src_format, export, dma_buf),
        ),
        given_back(
            filled(
                Set::empty(),
                convert_plan(width, height, pitch, src_format, export, dma_buf),
            ),
            convert_order(),
        ),
{
    lemma_clear_orderly(width, height);
    lemma_triangle_orderly(width, height, with_depth, export, dma_buf);
    lemma_reusable_orderly(width, height, with_depth);
    lemma_convert_orderly(width, height, pitch, src_format, export, dma_buf);
}

/// The slots of a target.
pub open spec fn target_slots_filled() -> Set<Slot> {
    Set::empty().insert(Slot::Image).insert(Slot::ImageMem).insert(Slot::View)
}

proof fn lemma_target(width: u32, height: u32)
    ensures
        orderly(Set::empty(), target_steps(width, height)),
        filled(Set::empty(), target_steps(width, height)) == target_slots_filled(),
{
    let t = image_steps(
        Slot::Image,
        Slot::ImageMem,
        FORMAT_R8G8B8A8_UNORM,
        width,
        height,
        TARGET_USAGE,
    );
    lemma_object_steps(
        Set::empty(),
        Slot::Image,
        Slot::ImageMem,
        FORMAT_R8G8B8A8_UNORM,
        width,
        height,
        0,
        TARGET_USAGE,
        0,
        0,
    );
    lemma_step_push(Set::empty(), t, target_steps(width, height).last());
}

/// The slots of a target and its depth buffer.
spec fn depth_slots_filled(with_depth: bool) -> Set<Slot> {
    if with_depth {
        target_slots_filled().insert(Slot::DepthImage).insert(Slot::DepthMem).insert(
            Slot::DepthView,
        )
    } else {
        target_slots_filled()
    }
}

proof fn lemma_target_depth(width: u32, height: u32, with_depth: bool)
    ensures
        orderly(Set::empty(), target_steps(width, height) + depth_steps(width, height, with_depth)),
        filled(Set::empty(), target_steps(width, height) + depth_steps(width, height, with_depth))
            == depth_slots_filled(with_depth),
{
    let none = Set::<Slot>::empty();
    let a = target_steps(width, height);
    lemma_target(width, height);
    let dp = depth_steps(width, height, with_depth);
    lemma_steps_join(none, a, dp);
    if with_depth {
        let m = target_slots_filled();
        let i = image_steps(
            Slot::DepthImage,
            Slot::DepthMem,
            FORMAT_D32_SFLOAT,
            width,
            height,
            IMAGE_DEPTH_ATTACHMENT,
        );
        lemma_object_steps(
            m,
            Slot::DepthImage,
            Slot::DepthMem,
            FORMAT_D32_SFLOAT,
            width,
            height,
            0,
            IMAGE_DEPTH_ATTACHMENT,
            0,
            0,
        );
        lemma_step_push(m, i, dp.last());
        assert(dp =~= i.push(dp.last()));
    } else {
        assert(a + dp =~= a);
    }
}

/// The slots of a render are all in its order of giving back.
proof fn lemma_render_slots(made: Set<Slot>)
    requires
        forall|s: Slot| #[trigger]
            made.contains(s) ==> s == Slot::Fence || s == Slot::Pool || s == Slot::Framebuffer || s
                == Slot::RenderPass || s == Slot::View || s == Slot::Image || s == Slot::ImageMem
                || s == Slot::DepthView || s == Slot::DepthImage || s == Slot::DepthMem || s
                == Slot::Readback || s == Slot::ReadbackMem || s == Slot::Export || s
                == Slot::ExportMem,
    ensures
        given_back(made, render_order()),
{
    let o = render_order();
    assert(o[0] == Slot::Fence && o[1] == Slot::Pool && o[2] == Slot::Export && o[3]
        == Slot::ExportMem && o[4] == Slot::Readback && o[5] == Slot::ReadbackMem && o[10]
        == Slot::Framebuffer && o[11] == Slot::RenderPass && o[12] == Slot::View && o[13]
        == Slot::Image && o[14] == Slot::ImageMem && o[15] == Slot::DepthView && o[16]
        == Slot::DepthImage && o[17] == Slot::DepthMem);
}

proof fn lemma_clear_orderly(width: u32, height: u32)
    ensures
        orderly(Set::empty(), clear_plan(width, height)),
        given_back(filled(Set::empty(), clear_plan(width, height)), render_order()),
{
    let none = Set::<Slot>::empty();
    let size = image_bytes(width, height) as u64;
    let a = target_steps(width, height);
    lemma_target(width, height);
    let pass = Step::Pass { into: Slot::RenderPass, format: FORMAT_R8G8B8A8_UNORM };
    let frame = Step::Framebuffer {
        into: Slot::Framebuffer,
        color: Slot::View,
        with_depth: false,
        own_pass: true,
        width,
        height,
    };
    lemma_step_push(none, a, pass);
    lemma_step_push(none, a.push(pass), frame);
    let b = a.push(pass).push(frame);
    assert(b =~= a + seq![pass, frame]);
    let m1 = filled(none, b);
    let rb = buffer_steps(
        Slot::Readback,
        Slot::ReadbackMem,
        size,
        BUFFER_TRANSFER_DST,
        HOST_MEMORY,
        0,
    );
    lemma_object_steps(
        m1,
        Slot::Readback,
        Slot::ReadbackMem,
        0,
        0,
        0,
        size,
        BUFFER_TRANSFER_DST,
        HOST_MEMORY,
        0,
    );
    lemma_steps_join(none, b, rb);
    let c = b + rb;
    let run = run_steps(Slot::ReadbackMem, size);
    lemma_run_steps(filled(none, c), Slot::ReadbackMem, size);
    lemma_steps_join(none, c, run);
    lemma_render_slots(filled(none, c + run));
}

/// The steps of an export, from a set of full slots without its own.
proof fn lemma_export(given: Set<Slot>, size: u64, export: bool, dma_buf: bool)
    requires
        !given.contains(Slot::Export),
        !given.contains(Slot::ExportMem),
    ensures
        orderly(given, export_steps(size, export, dma_buf)),
        filled(given, export_steps(size, export, dma_buf)) == if export {
            given.insert(Slot::Export).insert(Slot::ExportMem)
        } else {
            given
        },
{
    lemma_object_steps(
        given,
        Slot::Export,
        Slot::ExportMem,
        0,
        0,
        0,
        size,
        BUFFER_TRANSFER_DST,
        MEMORY_DEVICE_LOCAL,
        export_handle(dma_buf),
    );
}

proof fn lemma_hand_out(given: Set<Slot>, export: bool, dma_buf: bool)
    requires
        export ==> given.contains(Slot::ExportMem),
    ensures
        orderly(given, hand_out_steps(export, dma_buf)),
        filled(given, hand_out_steps(export, dma_buf)) == given,
{
    let e = Seq::<Step>::empty();
    if export {
        lemma_step_push(given, e, hand_out_steps(export, dma_buf)[0]);
        assert(hand_out_steps(export, dma_buf) =~= e.push(hand_out_steps(export, dma_buf)[0]));
    }
}

proof fn lemma_triangle_orderly(
    width: u32,
    height: u32,
    with_depth: bool,
    export: bool,
    dma_buf: bool,
)
    ensures
        orderly(Set::empty(), triangle_plan(width, height, with_depth, export, dma_buf)),
        given_back(
            filled(Set::empty(), triangle_plan(width, height, with_depth, export, dma_buf)),
            render_order(),
        ),
{
    let none = Set::<Slot>::empty();
    let size = image_bytes(width, height) as u64;
    let a = target_steps(width, height) + depth_steps(width, height, with_depth);
    lemma_target_depth(width, height, with_depth);
    lemma_step_push(none, a, Step::ResolvePipeline);
    let b = a.push(Step::ResolvePipeline);
    assert(b =~= a + seq![Step::ResolvePipeline]);
    let f = pipeline_steps(width, height, with_depth);
    lemma_step_push(none, b, f[0]);
    assert(b.push(f[0]) =~= b + f);
    let c = b + f;
    let rb = readback_steps(Slot::Readback, Slot::ReadbackMem, size);
    lemma_object_steps(
        filled(none, c),
        Slot::Readback,
        Slot::ReadbackMem,
        0,
        0,
        0,
        size,
        0,
        0,
        0,
    );
    lemma_steps_join(none, c, rb);
    let d = c + rb;
    let x = export_steps(size, export, dma_buf);
    lemma_export(filled(none, d), size, export, dma_buf);
    lemma_steps_join(none, d, x);
    let g = d + x;
    let run = run_steps(Slot::ReadbackMem, size);
    lemma_run_steps(filled(none, g), Slot::ReadbackMem, size);
    lemma_steps_join(none, g, run);
    let h = g + run;
    let out = hand_out_steps(export, dma_buf);
    lemma_hand_out(filled(none, h), export, dma_buf);
    lemma_steps_join(none, h, out);
    lemma_render_slots(filled(none, h + out));
}

proof fn lemma_reusable_orderly(width: u32, height: u32, with_depth: bool)
    ensures
        orderly(Set::empty(), reusable_plan(width, height, with_depth)),
        given_back(
            filled(Set::empty(), reusable_plan(width, height, with_depth)),
            render_order(),
        ),
        given_back(
            filled(Set::empty(), reusable_plan(width, height, with_depth)),
            target_order(),
        ),
{
    let none = Set::<Slot>::empty();
    let size = image_bytes(width, height) as u64;
    let b = target_steps(width, height) + depth_steps(width, height, with_depth);
    lemma_target_depth(width, height, with_depth);
    let f = pipeline_steps(width, height, with_depth);
    lemma_step_push(none, b, f[0]);
    assert(b.push(f[0]) =~= b + f);
    let c = b + f;
    let rb = readback_steps(Slot::Readback, Slot::ReadbackMem, size);
    lemma_object_steps(
        filled(none, c),
        Slot::Readback,
        Slot::ReadbackMem,
        0,
        0,
        0,
        size,
        0,
        0,
        0,
    );
    lemma_steps_join(none, c, rb);
    let d = c + rb;
    let tail = seq![
        Step::CommandPool { into: Slot::Pool },
        Step::CommandBuffer { pool: Slot::Pool },
        Step::Fence { into: Slot::Fence },
        Step::MapMemory { memory: Slot::ReadbackMem, size },
    ];
    let d1 = d.push(tail[0]);
    let d2 = d1.push(tail[1]);
    let d3 = d2.push(tail[2]);
    lemma_step_push(none, d, tail[0]);
    lemma_step_push(none, d1, tail[1]);
    lemma_step_push(none, d2, tail[2]);
    lemma_step_push(none, d3, tail[3]);
    assert(d3.push(tail[3]) =~= d + tail);
    let made = filled(none, d + tail);
    lemma_render_slots(made);
    let o = target_order();
    assert(o[0] == Slot::Fence && o[1] == Slot::Pool && o[2] == Slot::Readback && o[3]
        == Slot::ReadbackMem && o[4] == Slot::Framebuffer && o[5] == Slot::View && o[6]
        == Slot::Image && o[7] == Slot::ImageMem && o[8] == Slot::DepthView && o[9]
        == Slot::DepthImage && o[10] == Slot::DepthMem);
}

proof fn lemma_convert_orderly(
    width: u32,
    height: u32,
    pitch: u32,
    src_format: i32,
    export: bool,
    dma_buf: bool,
)
    ensures
        orderly(
            Set::empty(),
            convert_plan(width, height, pitch, src_format, export, dma_buf),
        ),
        given_back(
            filled(
                Set::empty(),
                convert_plan(width, height, pitch, src_format, export, dma_buf),
            ),
            convert_order(),
        ),
{
    let none = Set::<Slot>::empty();
    let size = image_bytes(width, height) as u64;
    let staged = (pitch * height) as u64;
    let a = buffer_steps(
        Slot::Staging,
        Slot::StagingMem,
        staged,
        BUFFER_TRANSFER_SRC,
        HOST_MEMORY,
        0,
    );
    lemma_object_steps(
        none,
        Slot::Staging,
        Slot::StagingMem,
        0,
        0,
        0,
        staged,
        BUFFER_TRANSFER_SRC,
        HOST_MEMORY,
        0,
    );
    let fill = Step::Fill { memory: Slot::StagingMem, size: staged };
    lemma_step_push(none, a, fill);
    let b = a.push(fill);
    assert(b =~= a + seq![fill]);
    let si = image_steps(
        Slot::SrcImage,
        Slot::SrcMem,
        src_format,
        width,
        height,
        TRANSFER_USAGE,
    );
    lemma_object_steps(
        filled(none, b),
        Slot::SrcImage,
        Slot::SrcMem,
        src_format,
        width,
        height,
        0,
        TRANSFER_USAGE,
        0,
        0,
    );
    lemma_steps_join(none, b, si);
    let c = b + si;
    let di = image_steps(
        Slot::Image,
        Slot::ImageMem,
        FORMAT_B8G8R8A8_UNORM,
        width,
        height,
        TRANSFER_USAGE,
    );
    lemma_object_steps(
        filled(none, c),
        Slot::Image,
        Slot::ImageMem,
        FORMAT_B8G8R8A8_UNORM,
        width,
        height,
        0,
        TRANSFER_USAGE,
        0,
        0,
    );
    lemma_steps_join(none, c, di);
    let d = c + di;
    let rb = buffer_steps(
        Slot::Readback,
        Slot::ReadbackMem,
        size,
        BUFFER_TRANSFER_DST,
        HOST_MEMORY,
        0,
    );
    lemma_object_steps(
        filled(none, d),
        Slot::Readback,
        Slot::ReadbackMem,
        0,
        0,
        0,
        size,
        BUFFER_TRANSFER_DST,
        HOST_MEMORY,
        0,
    );
    lemma_steps_join(none, d, rb);
    let f = d + rb;
    let x = export_steps(size, export, dma_buf);
    lemma_export(filled(none, f), size, export, dma_buf);
    lemma_steps_join(none, f, x);
    let g = f + x;
    let run = run_steps(Slot::ReadbackMem, size);
    lemma_run_steps(filled(none, g), Slot::ReadbackMem, size);
    lemma_steps_join(none, g, run);
    let h = g + run;
    let out = hand_out_steps(export, dma_buf);
    lemma_hand_out(filled(none, h), export, dma_buf);
    lemma_steps_join(none, h, out);
    let o = convert_order();
    assert(o[0] == Slot::Fence && o[1] == Slot::Pool && o[2] == Slot::Export && o[3]
        == Slot::ExportMem && o[4] == Slot::Readback && o[5] == Slot::ReadbackMem && o[6]
        == Slot::Staging && o[7] == Slot::StagingMem && o[8] == Slot::Image && o[9]
        == Slot::ImageMem && o[10] == Slot::SrcImage && o[11] == Slot::SrcMem);
}

/// The parts of a pipeline that a render makes for itself, where none is kept from render to
/// render, in the order in which they are made.
pub open spec fn own_pipeline_order() -> Seq<Slot> {
    seq![
        Slot::RenderPass,
        Slot::VertexModule,
        Slot::FragmentModule,
        Slot::Layout,
        Slot::Pipeline,
    ]
}

/// The parts of a pipeline that a render makes for itself, in order.
pub fn own_pipeline_slots() -> (v: Vec<Slot>)
    ensures
        v@ == own_pipeline_order(),
{
    let v = vec![
        Slot::RenderPass,
        Slot::VertexModule,
        Slot::FragmentModule,
        Slot::Layout,
        Slot::Pipeline,
    ];
    assert(v@ =~= own_pipeline_order());
    v
}

/// A render's own pipeline is made after all that it is built on, and the render gives each part
/// back.
pub proof fn law_own_pipeline(i: int, j: int)
    requires
        0 <= i < j < own_pipeline_order().len(),
    ensures
        !built_on(own_pipeline_order()[i], own_pipeline_order()[j]),
        render_order().contains(own_pipeline_order()[i]),
        render_order().contains(own_pipeline_order()[j]),
{
    let r = render_order();
    assert(r[6] == Slot::Pipeline && r[7] == Slot::Layout);
    assert(r[8] == Slot::VertexModule && r[9] == Slot::FragmentModule);
    assert(r[11] == Slot::RenderPass);
}

/// A refused plan says why.
pub proof fn law_refused_plans_say_why(e: &PlanError, s: String)
    requires
        call_ensures(PlanError::message, (e,), s),
    ensures
        e is NoExport ==> s@ == "device does not support external-memory fd export"@,
        e is BadGeometry ==> s@ == "convert_present: bad geometry"@,
        e is TooSmall ==> s@ == "convert_present: src_bytes too small for geometry"@,
        e is HasGeometry ==> s@
            == "render_forwarded_zerocopy: geometry draws use the copy present path"@,
{
}

/// A render's own pipeline has its five parts, each once, and the pipeline itself is made last.
pub proof fn law_own_pipeline_parts(v: Vec<Slot>)
    requires
        call_ensures(own_pipeline_slots, (), v),
    ensures
        v@.len() == 5 && v@.no_duplicates(),
        v@.contains(Slot::RenderPass) && v@.contains(Slot::VertexModule),
        v@.contains(Slot::FragmentModule) && v@.contains(Slot::Layout),
        v@[4] == Slot::Pipeline,
{
    assert(v@[0] == Slot::RenderPass && v@[1] == Slot::VertexModule);
    assert(v@[2] == Slot::FragmentModule && v@[3] == Slot::Layout);
}

/// A picture has four bytes to a pixel: an empty one has none, and each row adds four bytes for each
/// of its pixels.
pub proof fn law_rows_add_up(width: u32, height: u32, n: u64, taller: u64)
    requires
        height < u32::MAX,
        width * height * 4 + width * 4 <= u64::MAX,
        call_ensures(image_size, (width, height), n),
        call_ensures(image_size, (width, (height + 1) as u32), taller),
    ensures
        taller == n + 4 * width,
        width == 0 || height == 0 ==> n == 0,
{
    assert(width * (height + 1) == width * height + width) by (nonlinear_arith);
    assert(width == 0 || height == 0 ==> width * height == 0) by (nonlinear_arith);
}

} // verus!
