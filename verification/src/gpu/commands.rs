//! Recorded GPU commands, and the image layouts that they go through.
use crate::gpu::vk::{
    ACCESS_MEMORY_READ, ACCESS_MEMORY_WRITE, ACCESS_SHADER_READ, ACCESS_TRANSFER_WRITE,
    LAYOUT_SHADER_READ_ONLY, LAYOUT_TRANSFER_DST, LAYOUT_TRANSFER_SRC, LAYOUT_UNDEFINED,
    STAGE_FRAGMENT_SHADER, STAGE_TOP_OF_PIPE, STAGE_TRANSFER,
};
use vstd::prelude::*;

verus! {

/// An image that commands name.
#[derive(Debug, Clone, Copy, PartialEq, Eq, Structural)]
pub enum Img {
    /// The render target.
    Color,
    /// The guest's pixels, in their own format.
    Source,
    /// The converted pixels.
    Converted,
    /// A texture of the draw, by number.
    Texture(u32),
    /// The viewer's decoded frame.
    Frame,
    /// The acquired swapchain image.
    Swap,
}

/// A buffer that commands name.
#[derive(Debug, Clone, Copy, PartialEq, Eq, Structural)]
pub enum Buf {
    /// Pixels to upload.
    Staging,
    /// The pixels of a texture, by number.
    TextureStaging(u32),
    /// Where the CPU reads the result.
    Readback,
    /// A buffer whose memory is exported.
    Export,
    /// Imported guest memory.
    Guest,
}

/// A viewport.
#[derive(Debug, Clone, Copy)]
pub enum View2d {
    /// The whole target.
    Full { width: u32, height: u32 },
    /// x, y, width and height, as the bit patterns of 32-bit floats.
    Custom { bits: [u32; 4] },
}

/// A recorded command.
#[derive(Debug, Clone, Copy)]
pub enum Command {
    /// Takes an image, and perhaps a second one, from one layout to another.
    Barrier {
        image: Img,
        also: Option<Img>,
        old_layout: i32,
        new_layout: i32,
        src_stage: u32,
        dst_stage: u32,
        src_access: u32,
        dst_access: u32,
    },
    /// Copies pixels into an image in the transfer-destination layout. A row length of zero means
    /// tightly packed rows.
    CopyBufferToImage {
        buffer: Buf,
        image: Img,
        row_length: u32,
        image_height: u32,
        width: u32,
        height: u32,
    },
    /// Copies an image in the transfer-source layout out, tightly packed.
    CopyImageToBuffer { image: Img, buffer: Buf, width: u32, height: u32 },
    /// Scales an image in the transfer-source layout onto one in the transfer-destination layout.
    Blit {
        source: Img,
        target: Img,
        src_width: u32,
        src_height: u32,
        dst_width: u32,
        dst_height: u32,
        filter: i32,
    },
    /// Fills an image in the transfer-destination layout; the colour is in the bit patterns of
    /// 32-bit floats.
    ClearImage { image: Img, color: [u32; 4] },
    /// Begins the render pass over the whole target, cleared to the colour (in bit patterns), and
    /// its depth buffer, if it has one, to the far plane.
    BeginPass { width: u32, height: u32, color: [u32; 4], clear_depth: bool },
    BindPipeline,
    /// Binds descriptor set zero, which holds this many textures.
    BindDescriptors { textures: u32 },
    PushConstants,
    SetScissor { width: u32, height: u32 },
    SetViewport(View2d),
    BindVertexBuffer,
    BindIndexBuffer { index_type: i32 },
    Draw { count: u32, instances: u32, first: u32 },
    DrawIndexed { count: u32, instances: u32, first: u32, vertex_offset: i32 },
    EndPass,
}

/// The layout that a command finds an image in; `None` where it does not matter.
pub open spec fn layout_wanted(c: Command, img: Img) -> Option<i32> {
    match c {
        Command::Barrier { image, also, old_layout, .. } => if (image == img || also == Some(img))
            && old_layout != LAYOUT_UNDEFINED {
            Some(old_layout)
        } else {
            None
        },
        Command::CopyBufferToImage { image, .. } => if image == img {
            Some(LAYOUT_TRANSFER_DST)
        } else {
            None
        },
        Command::CopyImageToBuffer { image, .. } => if image == img {
            Some(LAYOUT_TRANSFER_SRC)
        } else {
            None
        },
        Command::Blit { source, target, .. } => if source == img {
            Some(LAYOUT_TRANSFER_SRC)
        } else if target == img {
            Some(LAYOUT_TRANSFER_DST)
        } else {
            None
        },
        Command::ClearImage { image, .. } => if image == img {
            Some(LAYOUT_TRANSFER_DST)
        } else {
            None
        },
        Command::BindDescriptors { textures } => match img {
            Img::Texture(i) => if i < textures {
                Some(LAYOUT_SHADER_READ_ONLY)
            } else {
                None
            },
            _ => None,
        },
        _ => None,
    }
}

/// The layout that a command leaves an image in, which was in `before`. The render pass hands its
/// target over for a transfer.
pub open spec fn layout_left(c: Command, img: Img, before: i32) -> i32 {
    match c {
        Command::Barrier { image, also, new_layout, .. } => if image == img || also == Some(img) {
            new_layout
        } else {
            before
        },
        Command::EndPass => if img == Img::Color {
            LAYOUT_TRANSFER_SRC
        } else {
            before
        },
        _ => before,
    }
}

/// The layout of an image after some commands.
pub open spec fn layout_after(start: spec_fn(Img) -> i32, cmds: Seq<Command>, img: Img) -> i32
    decreases cmds.len(),
{
    if cmds.len() == 0 {
        start(img)
    } else {
        layout_left(cmds.last(), img, layout_after(start, cmds.drop_last(), img))
    }
}

/// Whether every command finds its images in the layouts that it wants.
pub open spec fn layouts_sound(start: spec_fn(Img) -> i32, cmds: Seq<Command>) -> bool
    decreases cmds.len(),
{
    cmds.len() > 0 ==> {
        &&& layouts_sound(start, cmds.drop_last())
        &&& forall|img: Img| #[trigger]
            layout_wanted(cmds.last(), img) is Some ==> layout_after(start, cmds.drop_last(), img)
                == layout_wanted(cmds.last(), img)->0
    }
}

/// Every image in an undefined layout.
pub open spec fn all_undefined() -> spec_fn(Img) -> i32 {
    |img: Img| LAYOUT_UNDEFINED
}

/// The layouts after some commands, as a start for more.
pub open spec fn then_from(start: spec_fn(Img) -> i32, cmds: Seq<Command>) -> spec_fn(Img) -> i32 {
    |img: Img| layout_after(start, cmds, img)
}

/// One list after another: the second starts where the first ends.
pub proof fn lemma_layouts_join(start: spec_fn(Img) -> i32, a: Seq<Command>, b: Seq<Command>)
    ensures
        forall|img: Img| #[trigger]
            layout_after(start, a + b, img) == layout_after(then_from(start, a), b, img),
        layouts_sound(start, a + b) == (layouts_sound(start, a) && layouts_sound(
            then_from(start, a),
            b,
        )),
    decreases b.len(),
{
    if b.len() == 0 {
        assert(a + b =~= a);
    } else {
        lemma_layouts_join(start, a, b.drop_last());
        assert((a + b).drop_last() =~= a + b.drop_last());
        assert((a + b).last() == b.last());
        assert forall|img: Img| #[trigger]
            layout_after(start, a + b, img) == layout_after(then_from(start, a), b, img) by {
            assert(layout_after(start, a + b.drop_last(), img) == layout_after(
                then_from(start, a),
                b.drop_last(),
                img,
            ));
        }
    }
}

/// The layouts of single commands.
pub proof fn lemma_layouts_push(start: spec_fn(Img) -> i32, cmds: Seq<Command>, c: Command)
    ensures
        forall|img: Img| #[trigger]
            layout_after(start, cmds.push(c), img) == layout_left(
                c,
                img,
                layout_after(start, cmds, img),
            ),
        layouts_sound(start, cmds.push(c)) == (layouts_sound(start, cmds) && forall|img: Img|
         #[trigger]
            layout_wanted(c, img) is Some ==> layout_after(start, cmds, img) == layout_wanted(
                c,
                img,
            )->0),
{
    assert(cmds.push(c).drop_last() =~= cmds);
}

/// Appends a copy of some commands.
pub fn push_commands(out: &mut Vec<Command>, more: Vec<Command>)
    ensures
        final(out)@ == old(out)@ + more@,
{
    let mut rest = more;
    out.append(&mut rest);
}

/// The upload of a texture: to the transfer destination, the copy, and on to the shaders.
pub open spec fn texture_upload(i: u32, width: u32, height: u32) -> Seq<Command> {
    seq![
        Command::Barrier {
            image: Img::Texture(i),
            also: None,
            old_layout: LAYOUT_UNDEFINED,
            new_layout: LAYOUT_TRANSFER_DST,
            src_stage: STAGE_TOP_OF_PIPE,
            dst_stage: STAGE_TRANSFER,
            src_access: 0,
            dst_access: ACCESS_TRANSFER_WRITE,
        },
        Command::CopyBufferToImage {
            buffer: Buf::TextureStaging(i),
            image: Img::Texture(i),
            row_length: 0,
            image_height: 0,
            width,
            height,
        },
        Command::Barrier {
            image: Img::Texture(i),
            also: None,
            old_layout: LAYOUT_TRANSFER_DST,
            new_layout: LAYOUT_SHADER_READ_ONLY,
            src_stage: STAGE_TRANSFER,
            dst_stage: STAGE_FRAGMENT_SHADER,
            src_access: ACCESS_TRANSFER_WRITE,
            dst_access: ACCESS_SHADER_READ,
        },
    ]
}

/// The size of an image.
#[derive(Debug, Clone, Copy, PartialEq, Eq, Structural)]
pub struct Size {
    pub width: u32,
    pub height: u32,
}

/// The uploads of some textures, in order.
pub open spec fn texture_uploads(sizes: Seq<Size>) -> Seq<Command>
    decreases sizes.len(),
{
    if sizes.len() == 0 {
        Seq::empty()
    } else {
        texture_uploads(sizes.drop_last()) + texture_upload(
            (sizes.len() - 1) as u32,
            sizes.last().width,
            sizes.last().height,
        )
    }
}

/// Records the uploads of some textures.
pub fn record_texture_uploads(sizes: &[Size]) -> (out: Vec<Command>)
    requires
        sizes@.len() <= u32::MAX,
    ensures
        out@ == texture_uploads(sizes@),
{
    let mut out: Vec<Command> = Vec::new();
    let n: u32 = sizes.len() as u32;
    let mut i: u32 = 0;
    while i < n
        invariant
            i <= n,
            n == sizes@.len(),
            out@ == texture_uploads(sizes@.take(i as int)),
        decreases n - i,
    {
        let s = sizes[i as usize];
        let ghost before = out@;
        assert(sizes@.take(i + 1).drop_last() =~= sizes@.take(i as int));
        out.push(
            Command::Barrier {
                image: Img::Texture(i),
                also: None,
                old_layout: LAYOUT_UNDEFINED,
                new_layout: LAYOUT_TRANSFER_DST,
                src_stage: STAGE_TOP_OF_PIPE,
                dst_stage: STAGE_TRANSFER,
                src_access: 0,
                dst_access: ACCESS_TRANSFER_WRITE,
            },
        );
        out.push(
            Command::CopyBufferToImage {
                buffer: Buf::TextureStaging(i),
                image: Img::Texture(i),
                row_length: 0,
                image_height: 0,
                width: s.width,
                height: s.height,
            },
        );
        out.push(
            Command::Barrier {
                image: Img::Texture(i),
                also: None,
                old_layout: LAYOUT_TRANSFER_DST,
                new_layout: LAYOUT_SHADER_READ_ONLY,
                src_stage: STAGE_TRANSFER,
                dst_stage: STAGE_FRAGMENT_SHADER,
                src_access: ACCESS_TRANSFER_WRITE,
                dst_access: ACCESS_SHADER_READ,
            },
        );
        assert(out@ =~= before + texture_upload(i, s.width, s.height));
        i = i + 1;
    }
    assert(sizes@.take(i as int) =~= sizes@);
    out
}

/// Uploaded textures are ready for the shaders, and nothing else is touched.
pub proof fn lemma_uploads_sound(start: spec_fn(Img) -> i32, sizes: Seq<Size>)
    requires
        sizes.len() <= u32::MAX,
    ensures
        layouts_sound(start, texture_uploads(sizes)),
        forall|i: u32|
            i < sizes.len() ==> #[trigger] layout_after(
                start,
                texture_uploads(sizes),
                Img::Texture(i),
            ) == LAYOUT_SHADER_READ_ONLY,
        layout_after(start, texture_uploads(sizes), Img::Color) == start(Img::Color),
    decreases sizes.len(),
{
    if sizes.len() > 0 {
        let before = sizes.drop_last();
        lemma_uploads_sound(start, before);
        let n = (sizes.len() - 1) as u32;
        let a = texture_uploads(before);
        let b = texture_upload(n, sizes.last().width, sizes.last().height);
        lemma_layouts_join(start, a, b);
        let mid = then_from(start, a);
        let e = Seq::<Command>::empty();
        assert(b =~= e.push(b[0]).push(b[1]).push(b[2]));
        lemma_layouts_push(mid, e, b[0]);
        lemma_layouts_push(mid, e.push(b[0]), b[1]);
        lemma_layouts_push(mid, e.push(b[0]).push(b[1]), b[2]);
        assert forall|i: u32| i < sizes.len() implies #[trigger] layout_after(
            start,
            texture_uploads(sizes),
            Img::Texture(i),
        ) == LAYOUT_SHADER_READ_ONLY by {
            if i < n {
                assert(layout_after(start, a, Img::Texture(i)) == LAYOUT_SHADER_READ_ONLY);
            }
        }
    }
}

/// The full-barrier access on the source side.
pub open spec fn plain_barrier(
    image: Img,
    also: Option<Img>,
    old_layout: i32,
    new_layout: i32,
    src: u32,
    dst: u32,
) -> Command {
    Command::Barrier {
        image,
        also,
        old_layout,
        new_layout,
        src_stage: src,
        dst_stage: dst,
        src_access: ACCESS_MEMORY_WRITE,
        dst_access: ACCESS_MEMORY_READ | ACCESS_MEMORY_WRITE,
    }
}

/// A barrier between any two uses of an image.
pub fn barrier(
    image: Img,
    also: Option<Img>,
    old_layout: i32,
    new_layout: i32,
    src: u32,
    dst: u32,
) -> (c: Command)
    ensures
        c == plain_barrier(image, also, old_layout, new_layout, src, dst),
{
    Command::Barrier {
        image,
        also,
        old_layout,
        new_layout,
        src_stage: src,
        dst_stage: dst,
        src_access: ACCESS_MEMORY_WRITE,
        dst_access: ACCESS_MEMORY_READ | ACCESS_MEMORY_WRITE,
    }
}

} // verus!
