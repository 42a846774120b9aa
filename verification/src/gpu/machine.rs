//! What recorded commands do: where every pixel and every buffer word comes from, and in which
//! state each draw is issued.
use crate::gpu::commands::{Buf, Command, Img, View2d};
use vstd::arithmetic::div_mod::lemma_fundamental_div_mod_converse;
use vstd::prelude::*;

verus! {

/// Where a pixel comes from.
pub enum Texel {
    /// Not written by the commands: pixel (`x`, `y`) as it was in the image.
    Old { image: Img, x: int, y: int },
    /// A word of a buffer, as it was before the commands.
    Word { buffer: Buf, at: int },
    /// The colour of a clear.
    Filled { color: [u32; 4] },
    /// What the draws of a pass left there.
    Shaded { x: int, y: int },
}

/// The pixel of an image after some commands. A copy reads words row by row, a blit takes the
/// pixel that lies there once the source is stretched over the target, a pass begins with its
/// colour, and a draw may shade all of the pass's target.
pub open spec fn texel_after(cmds: Seq<Command>, img: Img, x: int, y: int) -> Texel
    decreases cmds.len(),
{
    if cmds.len() == 0 {
        Texel::Old { image: img, x, y }
    } else {
        let before = cmds.drop_last();
        match cmds.last() {
            Command::CopyBufferToImage { buffer, image, row_length, width, height, .. } => {
                if image == img && 0 <= x < width && 0 <= y < height {
                    word_after(before, buffer, y * row_words(row_length, width) + x)
                } else {
                    texel_after(before, img, x, y)
                }
            },
            Command::Blit { source, target, src_width, src_height, dst_width, dst_height, .. } => {
                if target == img && 0 <= x < dst_width && 0 <= y < dst_height {
                    texel_after(
                        before,
                        source,
                        stretched(x, src_width as int, dst_width as int),
                        stretched(y, src_height as int, dst_height as int),
                    )
                } else {
                    texel_after(before, img, x, y)
                }
            },
            Command::ClearImage { image, color } => if image == img {
                Texel::Filled { color }
            } else {
                texel_after(before, img, x, y)
            },
            Command::BeginPass { width, height, color, .. } => if img == Img::Color && 0 <= x
                < width && 0 <= y < height {
                Texel::Filled { color }
            } else {
                texel_after(before, img, x, y)
            },
            Command::Draw { .. } => if img == Img::Color {
                Texel::Shaded { x, y }
            } else {
                texel_after(before, img, x, y)
            },
            Command::DrawIndexed { .. } => if img == Img::Color {
                Texel::Shaded { x, y }
            } else {
                texel_after(before, img, x, y)
            },
            _ => texel_after(before, img, x, y),
        }
    }
}

/// The word of a buffer after some commands. A copy writes rows without gaps.
pub open spec fn word_after(cmds: Seq<Command>, buf: Buf, at: int) -> Texel
    decreases cmds.len(),
{
    if cmds.len() == 0 {
        Texel::Word { buffer: buf, at }
    } else {
        let before = cmds.drop_last();
        match cmds.last() {
            Command::CopyImageToBuffer { image, buffer, width, height } => if buffer == buf && 0
                <= at < width * height {
                texel_after(before, image, at % width as int, at / width as int)
            } else {
                word_after(before, buf, at)
            },
            _ => word_after(before, buf, at),
        }
    }
}

/// Words from one row of a buffer to the next; zero stands for rows without gaps.
pub open spec fn row_words(row_length: u32, width: u32) -> int {
    if row_length == 0 {
        width as int
    } else {
        row_length as int
    }
}

/// The place along one side of the source that `x` shows, where the source is stretched from
/// `from` to `to` pixels.
pub open spec fn stretched(x: int, from: int, to: int) -> int {
    if from == to {
        x
    } else {
        x * from / to
    }
}

/// The place of pixel (`x`, `y`) in rows without gaps.
pub open spec fn packed(x: int, y: int, width: u32) -> int {
    y * width + x
}

/// A pixel's place gives its column and row back.
pub proof fn lemma_packed(x: int, y: int, width: u32, height: u32)
    requires
        0 <= x < width,
        0 <= y < height,
    ensures
        0 <= packed(x, y, width) < width * height,
        packed(x, y, width) % width as int == x,
        packed(x, y, width) / width as int == y,
{
    lemma_fundamental_div_mod_converse(packed(x, y, width), width as int, y, x);
    assert(0 <= y * width) by (nonlinear_arith)
        requires
            0 <= y,
            0 <= width,
    ;
    assert(y * width + width <= width * height) by (nonlinear_arith)
        requires
            0 <= y < height,
            0 <= width,
    ;
}

/// How far a render pass is set up.
#[verifier::ext_equal]
pub struct PassState {
    /// The size of the area that the pass covers; none outside a pass.
    pub area: Option<(u32, u32)>,
    pub color: Option<[u32; 4]>,
    pub clear_depth: bool,
    pub pipeline: bool,
    /// The number of textures in the bound descriptor set; none where none is bound.
    pub textures: Option<u32>,
    pub push_constants: bool,
    pub scissor: Option<(u32, u32)>,
    pub view: Option<View2d>,
    pub vertices: bool,
    pub index_type: Option<i32>,
}

/// Nothing set up.
pub open spec fn outside() -> PassState {
    PassState {
        area: None,
        color: None,
        clear_depth: false,
        pipeline: false,
        textures: None,
        push_constants: false,
        scissor: None,
        view: None,
        vertices: false,
        index_type: None,
    }
}

/// What a command does to the set-up.
pub open spec fn pass_step(s: PassState, c: Command) -> PassState {
    match c {
        Command::BeginPass { width, height, color, clear_depth } => PassState {
            area: Some((width, height)),
            color: Some(color),
            clear_depth,
            ..outside()
        },
        Command::BindPipeline => PassState { pipeline: true, ..s },
        Command::BindDescriptors { textures } => PassState { textures: Some(textures), ..s },
        Command::PushConstants => PassState { push_constants: true, ..s },
        Command::SetScissor { width, height } => PassState { scissor: Some((width, height)), ..s },
        Command::SetViewport(v) => PassState { view: Some(v), ..s },
        Command::BindVertexBuffer => PassState { vertices: true, ..s },
        Command::BindIndexBuffer { index_type } => PassState { index_type: Some(index_type), ..s },
        Command::EndPass => outside(),
        _ => s,
    }
}

/// The set-up after some commands.
pub open spec fn pass_after(cmds: Seq<Command>) -> PassState
    decreases cmds.len(),
{
    if cmds.len() == 0 {
        outside()
    } else {
        pass_step(pass_after(cmds.drop_last()), cmds.last())
    }
}

/// A draw as it reaches the GPU.
#[verifier::ext_equal]
pub struct Issued {
    /// The set-up at that moment.
    pub under: PassState,
    pub indexed: bool,
    pub count: u32,
    pub instances: u32,
    pub first: u32,
    pub vertex_offset: i32,
}

/// The draws with what a command issues, which finds the set-up `under`.
pub open spec fn issue(before: Seq<Issued>, under: PassState, c: Command) -> Seq<Issued> {
    match c {
        Command::Draw { count, instances, first } => before.push(
            Issued { under, indexed: false, count, instances, first, vertex_offset: 0 },
        ),
        Command::DrawIndexed { count, instances, first, vertex_offset } => before.push(
            Issued { under, indexed: true, count, instances, first, vertex_offset },
        ),
        _ => before,
    }
}

/// The draws that some commands issue, in order.
pub open spec fn issued(cmds: Seq<Command>) -> Seq<Issued>
    decreases cmds.len(),
{
    if cmds.len() == 0 {
        Seq::empty()
    } else {
        issue(issued(cmds.drop_last()), pass_after(cmds.drop_last()), cmds.last())
    }
}

/// Whether a command may write an image.
pub open spec fn writes_image(c: Command, img: Img) -> bool {
    match c {
        Command::CopyBufferToImage { image, .. } => image == img,
        Command::Blit { target, .. } => target == img,
        Command::ClearImage { image, .. } => image == img,
        Command::BeginPass { .. } => img == Img::Color,
        Command::Draw { .. } => img == Img::Color,
        Command::DrawIndexed { .. } => img == Img::Color,
        _ => false,
    }
}

/// One command more.
pub proof fn lemma_step(cmds: Seq<Command>, c: Command)
    ensures
        cmds.push(c).drop_last() == cmds,
        cmds.push(c).last() == c,
        pass_after(cmds.push(c)) == pass_step(pass_after(cmds), c),
        issued(cmds.push(c)) == issue(issued(cmds), pass_after(cmds), c),
        forall|img: Img, x: int, y: int|
            !writes_image(c, img) ==> #[trigger] texel_after(cmds.push(c), img, x, y)
                == texel_after(cmds, img, x, y),
        forall|buf: Buf, at: int|
            !(c is CopyImageToBuffer) ==> #[trigger] word_after(cmds.push(c), buf, at)
                == word_after(cmds, buf, at),
{
    assert(cmds.push(c).drop_last() =~= cmds);
}

/// Bytes of an index of a Vulkan index type: 0 has 16 bits, 1 has 32.
pub open spec fn index_bytes(index_type: i32) -> int {
    if index_type == 0 {
        2
    } else if index_type == 1 {
        4
    } else {
        0
    }
}

impl Issued {
    /// Where the bytes of the `k`-th index of this draw start in the bound index buffer.
    pub open spec fn index_at(self, k: int) -> int {
        (self.first + k) * index_bytes(self.under.index_type->0)
    }
}

/// A command that issues nothing and leaves the set-up of a pass alone.
pub open spec fn moves_data(c: Command) -> bool {
    c is Barrier || c is CopyBufferToImage || c is CopyImageToBuffer || c is Blit || c is ClearImage
}

/// Commands that only move data issue no draws.
pub proof fn lemma_moves(cmds: Seq<Command>, more: Seq<Command>)
    requires
        forall|i: int| 0 <= i < more.len() ==> moves_data(#[trigger] more[i]),
    ensures
        pass_after(cmds + more) == pass_after(cmds),
        issued(cmds + more) == issued(cmds),
    decreases more.len(),
{
    if more.len() == 0 {
        assert(cmds + more =~= cmds);
    } else {
        lemma_moves(cmds, more.drop_last());
        assert((cmds + more).drop_last() =~= cmds + more.drop_last());
        assert(moves_data(more[more.len() - 1]));
    }
}

/// Commands that do not write an image leave it as it was.
pub proof fn lemma_keeps_image(cmds: Seq<Command>, more: Seq<Command>, img: Img, x: int, y: int)
    requires
        forall|i: int| 0 <= i < more.len() ==> !writes_image(#[trigger] more[i], img),
    ensures
        texel_after(cmds + more, img, x, y) == texel_after(cmds, img, x, y),
    decreases more.len(),
{
    if more.len() == 0 {
        assert(cmds + more =~= cmds);
    } else {
        lemma_keeps_image(cmds, more.drop_last(), img, x, y);
        assert((cmds + more).drop_last() =~= cmds + more.drop_last());
        assert(!writes_image(more[more.len() - 1], img));
    }
}

/// Whether a command may write a buffer.
pub open spec fn writes_buffer(c: Command, buf: Buf) -> bool {
    c matches Command::CopyImageToBuffer { buffer, .. } && buffer == buf
}

/// Commands that do not write a buffer leave it as it was.
pub proof fn lemma_keeps_buffer(cmds: Seq<Command>, more: Seq<Command>, buf: Buf, at: int)
    requires
        forall|i: int| 0 <= i < more.len() ==> !writes_buffer(#[trigger] more[i], buf),
    ensures
        word_after(cmds + more, buf, at) == word_after(cmds, buf, at),
    decreases more.len(),
{
    if more.len() == 0 {
        assert(cmds + more =~= cmds);
    } else {
        lemma_keeps_buffer(cmds, more.drop_last(), buf, at);
        assert((cmds + more).drop_last() =~= cmds + more.drop_last());
        assert(!writes_buffer(more[more.len() - 1], buf));
    }
}

/// Whether a barrier orders what it stands between, in Vulkan's numbers: it waits for the transfer
/// stage where the image comes out of a transfer layout, with the writes of a transfer
/// destination made available, and holds back the stage that uses the image in its new layout,
/// with the accesses that this stage makes of it.
pub open spec fn barrier_orders(c: Command) -> bool {
    match c {
        Command::Barrier {
            old_layout,
            new_layout,
            src_stage,
            dst_stage,
            src_access,
            dst_access,
            ..
        } => {
            &&& old_layout == 6 || old_layout == 7 ==> src_stage == 0x1000 || src_stage == 0x1_0000
            &&& old_layout == 7 ==> src_access == 0x1000 || src_access == 0x1_0000
            &&& new_layout == 6 || new_layout == 7 ==> dst_stage == 0x1000 || dst_stage == 0x1_0000
            &&& new_layout == 7 ==> dst_access == 0x1000 || dst_access == 0x1_8000
            &&& new_layout == 6 ==> dst_access == 0x800 || dst_access == 0x1_8000
            &&& new_layout == 5 ==> dst_stage == 0x80 && dst_access == 0x20
            &&& old_layout != new_layout
        },
        _ => true,
    }
}

} // verus!
