//! The command lists of renders and conversions.
use crate::gpu::commands::{
    all_undefined, barrier, layout_after, layout_wanted, layouts_sound, lemma_layouts_join,
    lemma_layouts_push, lemma_uploads_sound, plain_barrier, push_commands, record_texture_uploads,
    texture_uploads, then_from, Buf, Command, Img, Size, View2d,
};
use crate::gpu::vk::{
    FILTER_NEAREST, INDEX_UINT16, INDEX_UINT32, LAYOUT_SHADER_READ_ONLY, LAYOUT_TRANSFER_DST,
    LAYOUT_TRANSFER_SRC, LAYOUT_UNDEFINED, STAGE_TOP_OF_PIPE, STAGE_TRANSFER,
};
use crate::replay::draw::{depth_of, needed_depth, DrawCmd, ForwardedDraw};
use vstd::prelude::*;

verus! {

/// Whether the bit pattern of a 32-bit float is a number above zero.
pub open spec fn is_positive(bits: u32) -> bool {
    0 < bits <= 0x7f80_0000
}

/// The viewport of a draw: its own, or the whole target where its width is not above zero.
pub open spec fn viewport_of(d: DrawCmd, width: u32, height: u32) -> View2d {
    if is_positive(d.viewport@[2]) {
        View2d::Custom { bits: d.viewport }
    } else {
        View2d::Full { width, height }
    }
}

/// How many instances a draw has; zero counts as one.
pub open spec fn instances_of(d: DrawCmd) -> u32 {
    if d.instance_count == 0 {
        1
    } else {
        d.instance_count
    }
}

/// One draw of a command list, in its own viewport.
pub open spec fn draw_commands(d: DrawCmd, indexed: bool, width: u32, height: u32) -> Seq<Command> {
    seq![
        Command::SetViewport(viewport_of(d, width, height)),
        if indexed {
            Command::DrawIndexed {
                count: d.count,
                instances: instances_of(d),
                first: d.first,
                vertex_offset: d.vertex_offset,
            }
        } else {
            Command::Draw { count: d.count, instances: instances_of(d), first: d.first }
        },
    ]
}

/// The draws of a command list, in order.
pub open spec fn draws_commands(
    ds: Seq<DrawCmd>,
    indexed: bool,
    width: u32,
    height: u32,
) -> Seq<Command>
    decreases ds.len(),
{
    if ds.len() == 0 {
        Seq::empty()
    } else {
        draws_commands(ds.drop_last(), indexed, width, height) + draw_commands(
            ds.last(),
            indexed,
            width,
            height,
        )
    }
}

/// What of a mesh was uploaded: its vertices, and perhaps its indices.
#[derive(Debug, Clone, Copy, PartialEq, Eq, Structural)]
pub enum Uploaded {
    Nothing,
    Vertices,
    VerticesAndIndices,
}

/// Binding what was uploaded of a mesh.
pub open spec fn bind_commands(up: Uploaded, index_u32: bool) -> Seq<Command> {
    match up {
        Uploaded::Nothing => Seq::empty(),
        Uploaded::Vertices => seq![Command::BindVertexBuffer],
        Uploaded::VerticesAndIndices => seq![
            Command::BindVertexBuffer,
            Command::BindIndexBuffer {
                index_type: if index_u32 {
                    INDEX_UINT32
                } else {
                    INDEX_UINT16
                },
            },
        ],
    }
}

/// What a draw draws: the list of its mesh, whatever its own vertex count, or without a mesh one
/// draw without buffers over the whole target.
pub open spec fn body_commands(
    d: ForwardedDraw,
    up: Uploaded,
    width: u32,
    height: u32,
) -> Seq<Command> {
    match d.geometry {
        Some(g) => bind_commands(up, g.index_u32) + draws_commands(
            g.draws@,
            up is VerticesAndIndices,
            width,
            height,
        ),
        None => single_draw(d.vertex_count, width, height),
    }
}

/// One draw without buffers over the whole target.
pub open spec fn single_draw(count: u32, width: u32, height: u32) -> Seq<Command> {
    seq![
        Command::SetViewport(View2d::Full { width, height }),
        Command::Draw { count, instances: 1, first: 0 },
    ]
}

/// What is set up before the draws: the pass, the pipeline, descriptors, push constants and the
/// scissor.
pub open spec fn setup_commands(
    d: ForwardedDraw,
    descriptors: Option<u32>,
    width: u32,
    height: u32,
    bg: [u32; 4],
    has_depth: bool,
) -> Seq<Command> {
    let pass = seq![
        Command::BeginPass { width, height, color: bg, clear_depth: has_depth },
        Command::BindPipeline,
    ];
    let set = match descriptors {
        Some(n) => seq![Command::BindDescriptors { textures: n }],
        None => Seq::empty(),
    };
    let push = match d.geometry {
        Some(g) => if g.push_constants@.len() > 0 {
            seq![Command::PushConstants]
        } else {
            Seq::empty()
        },
        None => Seq::empty(),
    };
    pass + set + push + seq![Command::SetScissor { width, height }]
}

/// The commands of one forwarded frame: texture uploads, the pass, and the copy of the result.
/// `textures` is the sizes of the textures in the descriptor set, where there is one.
pub open spec fn frame_commands(
    d: ForwardedDraw,
    up: Uploaded,
    textures: Option<Seq<Size>>,
    width: u32,
    height: u32,
    bg: [u32; 4],
    has_depth: bool,
    dst: Buf,
) -> Seq<Command> {
    let uploads = match textures {
        Some(t) => texture_uploads(t),
        None => Seq::empty(),
    };
    let n = match textures {
        Some(t) => Some(t.len() as u32),
        None => None,
    };
    uploads + setup_commands(d, n, width, height, bg, has_depth) + body_commands(
        d,
        up,
        width,
        height,
    ) + seq![Command::EndPass, Command::CopyImageToBuffer {
        image: Img::Color,
        buffer: dst,
        width,
        height,
    }]
}

fn record_draws(ds: &[DrawCmd], indexed: bool, width: u32, height: u32) -> (out: Vec<Command>)
    ensures
        out@ == draws_commands(ds@, indexed, width, height),
{
    let mut out: Vec<Command> = Vec::new();
    let mut i: usize = 0;
    while i < ds.len()
        invariant
            i <= ds@.len(),
            out@ == draws_commands(ds@.take(i as int), indexed, width, height),
        decreases ds.len() - i,
    {
        let d = ds[i];
        let ghost before = out@;
        assert(ds@.take(i + 1).drop_last() =~= ds@.take(i as int));
        let view = if 0 < d.viewport[2] && d.viewport[2] <= 0x7f80_0000 {
            View2d::Custom { bits: d.viewport }
        } else {
            View2d::Full { width, height }
        };
        let instances: u32 = if d.instance_count == 0 {
            1
        } else {
            d.instance_count
        };
        out.push(Command::SetViewport(view));
        if indexed {
            out.push(
                Command::DrawIndexed {
                    count: d.count,
                    instances,
                    first: d.first,
                    vertex_offset: d.vertex_offset,
                },
            );
        } else {
            out.push(Command::Draw { count: d.count, instances, first: d.first });
        }
        assert(out@ =~= before + draw_commands(d, indexed, width, height));
        i = i + 1;
    }
    assert(ds@.take(i as int) =~= ds@);
    out
}

fn record_body(d: &ForwardedDraw, up: Uploaded, width: u32, height: u32) -> (out: Vec<Command>)
    ensures
        out@ == body_commands(*d, up, width, height),
{
    let mut out: Vec<Command> = Vec::new();
    if let Some(g) = &d.geometry {
        let indexed: bool = match up {
            Uploaded::VerticesAndIndices => true,
            _ => false,
        };
        match up {
            Uploaded::Nothing => {},
            Uploaded::Vertices => {
                out.push(Command::BindVertexBuffer);
            },
            Uploaded::VerticesAndIndices => {
                out.push(Command::BindVertexBuffer);
                out.push(
                    Command::BindIndexBuffer {
                        index_type: if g.index_u32 {
                            INDEX_UINT32
                        } else {
                            INDEX_UINT16
                        },
                    },
                );
            },
        }
        assert(out@ =~= bind_commands(up, g.index_u32));
        push_commands(&mut out, record_draws(g.draws, indexed, width, height));
        return out;
    }
    out.push(Command::SetViewport(View2d::Full { width, height }));
    out.push(Command::Draw { count: d.vertex_count, instances: 1, first: 0 });
    assert(out@ =~= single_draw(d.vertex_count, width, height));
    out
}

/// Records one forwarded frame into `dst`.
pub fn record_forwarded_frame(
    d: &ForwardedDraw,
    up: Uploaded,
    textures: Option<&[Size]>,
    width: u32,
    height: u32,
    bg: [u32; 4],
    has_depth: bool,
    dst: Buf,
) -> (out: Vec<Command>)
    requires
        textures is Some ==> (textures->0)@.len() <= u32::MAX,
    ensures
        out@ == frame_commands(
            *d,
            up,
            match textures {
                Some(t) => Some(t@),
                None => None,
            },
            width,
            height,
            bg,
            has_depth,
            dst,
        ),
{
    let mut out: Vec<Command> = Vec::new();
    if let Some(t) = textures {
        push_commands(&mut out, record_texture_uploads(t));
    }
    let ghost uploads = out@;
    out.push(Command::BeginPass { width, height, color: bg, clear_depth: has_depth });
    out.push(Command::BindPipeline);
    if let Some(t) = textures {
        out.push(Command::BindDescriptors { textures: t.len() as u32 });
    }
    if let Some(g) = &d.geometry {
        if g.push_constants.len() > 0 {
            out.push(Command::PushConstants);
        }
    }
    out.push(Command::SetScissor { width, height });
    proof {
        let n = match textures {
            Some(t) => Some(t@.len() as u32),
            None => None,
        };
        assert(out@ =~= uploads + setup_commands(*d, n, width, height, bg, has_depth));
    }
    push_commands(&mut out, record_body(d, up, width, height));
    let ghost most = out@;
    out.push(Command::EndPass);
    out.push(Command::CopyImageToBuffer { image: Img::Color, buffer: dst, width, height });
    assert(out@ =~= most + seq![
        Command::EndPass,
        Command::CopyImageToBuffer { image: Img::Color, buffer: dst, width, height },
    ]);
    proof {
        if textures is Some {
            assert(uploads =~= texture_uploads((textures->0)@));
        }
    }
    out
}

/// A command that neither wants nor changes a layout.
pub open spec fn neutral(c: Command) -> bool {
    match c {
        Command::BeginPass { .. } => true,
        Command::BindPipeline => true,
        Command::PushConstants => true,
        Command::SetScissor { .. } => true,
        Command::SetViewport(_) => true,
        Command::BindVertexBuffer => true,
        Command::BindIndexBuffer { .. } => true,
        Command::Draw { .. } => true,
        Command::DrawIndexed { .. } => true,
        _ => false,
    }
}

proof fn lemma_neutral(start: spec_fn(Img) -> i32, cmds: Seq<Command>)
    requires
        forall|i: int| 0 <= i < cmds.len() ==> neutral(#[trigger] cmds[i]),
    ensures
        layouts_sound(start, cmds),
        forall|img: Img| #[trigger] layout_after(start, cmds, img) == start(img),
    decreases cmds.len(),
{
    if cmds.len() > 0 {
        let before = cmds.drop_last();
        assert forall|i: int| 0 <= i < before.len() implies neutral(#[trigger] before[i]) by {
            assert(before[i] == cmds[i]);
        }
        lemma_neutral(start, before);
        assert(neutral(cmds[cmds.len() - 1]));
        assert forall|img: Img| #[trigger] layout_after(start, cmds, img) == start(img) by {
            assert(layout_after(start, before, img) == start(img));
        }
    }
}

proof fn lemma_draws_neutral(ds: Seq<DrawCmd>, indexed: bool, width: u32, height: u32)
    ensures
        forall|i: int|
            0 <= i < draws_commands(ds, indexed, width, height).len() ==> neutral(
                #[trigger] draws_commands(ds, indexed, width, height)[i],
            ),
    decreases ds.len(),
{
    if ds.len() > 0 {
        lemma_draws_neutral(ds.drop_last(), indexed, width, height);
        let a = draws_commands(ds.drop_last(), indexed, width, height);
        let b = draw_commands(ds.last(), indexed, width, height);
        let all = draws_commands(ds, indexed, width, height);
        assert forall|i: int| 0 <= i < all.len() implies neutral(#[trigger] all[i]) by {
            if i < a.len() {
                assert(all[i] == a[i]);
            } else {
                assert(all[i] == b[i - a.len()]);
            }
        }
    }
}

/// The commands of a frame go through the layouts as they should: textures are uploaded and ready
/// before the shaders read them, and the target is copied out of the layout that the pass leaves
/// it in, and stays in it.
pub proof fn law_frame_layouts(
    d: ForwardedDraw,
    up: Uploaded,
    textures: Option<Seq<Size>>,
    width: u32,
    height: u32,
    bg: [u32; 4],
    has_depth: bool,
    dst: Buf,
)
    requires
        textures is Some ==> (textures->0).len() <= u32::MAX,
    ensures
        layouts_sound(
            all_undefined(),
            frame_commands(d, up, textures, width, height, bg, has_depth, dst),
        ),
        layout_after(
            all_undefined(),
            frame_commands(d, up, textures, width, height, bg, has_depth, dst),
            Img::Color,
        ) == LAYOUT_TRANSFER_SRC,
{
    let start = all_undefined();
    let uploads = match textures {
        Some(t) => texture_uploads(t),
        None => Seq::empty(),
    };
    let n = match textures {
        Some(t) => Some(t.len() as u32),
        None => None,
    };
    let setup = setup_commands(d, n, width, height, bg, has_depth);
    let body = body_commands(d, up, width, height);
    let end = seq![
        Command::EndPass,
        Command::CopyImageToBuffer { image: Img::Color, buffer: dst, width, height },
    ];
    if textures is Some {
        lemma_uploads_sound(start, textures->0);
    }
    assert(layouts_sound(start, uploads));
    let s1 = then_from(start, uploads);
    // The setup: everything but the descriptor binding is neutral.
    let pass = seq![
        Command::BeginPass { width, height, color: bg, clear_depth: has_depth },
        Command::BindPipeline,
    ];
    lemma_neutral(s1, pass);
    let set = match n {
        Some(k) => seq![Command::BindDescriptors { textures: k }],
        None => Seq::empty(),
    };
    let rest = match d.geometry {
        Some(g) => if g.push_constants@.len() > 0 {
            seq![Command::PushConstants]
        } else {
            Seq::empty()
        },
        None => Seq::empty(),
    } + seq![Command::SetScissor { width, height }];
    assert(setup =~= pass + set + rest);
    let bound = pass + set;
    if n is Some {
        let c = Command::BindDescriptors { textures: n->0 };
        assert(bound =~= pass.push(c));
        lemma_layouts_push(s1, pass, c);
        assert forall|img: Img| #[trigger] layout_wanted(c, img) is Some implies layout_after(
            s1,
            pass,
            img,
        ) == layout_wanted(c, img)->0 by {
            match img {
                Img::Texture(i) => {
                    assert(layout_after(start, uploads, Img::Texture(i))
                        == LAYOUT_SHADER_READ_ONLY);
                },
                _ => {},
            }
        }
    } else {
        assert(bound =~= pass);
    }
    assert(layouts_sound(s1, bound));
    lemma_neutral(then_from(s1, bound), rest);
    lemma_layouts_join(s1, bound, rest);
    assert(layouts_sound(s1, setup));
    // The draws.
    assert forall|i: int| 0 <= i < body.len() implies neutral(#[trigger] body[i]) by {
        match d.geometry {
            Some(g) => {
                let b = bind_commands(up, g.index_u32);
                let ds = draws_commands(g.draws@, up is VerticesAndIndices, width, height);
                lemma_draws_neutral(g.draws@, up is VerticesAndIndices, width, height);
                if i < b.len() {
                    assert(body[i] == b[i]);
                } else {
                    assert(body[i] == ds[i - b.len()]);
                }
            },
            None => {},
        }
    }
    lemma_layouts_join(start, uploads, setup);
    let s2 = then_from(start, uploads + setup);
    lemma_neutral(s2, body);
    lemma_layouts_join(start, uploads + setup, body);
    let s3 = then_from(start, uploads + setup + body);
    let e = Seq::<Command>::empty();
    assert(end =~= e.push(end[0]).push(end[1]));
    lemma_layouts_push(s3, e, end[0]);
    lemma_layouts_push(s3, e.push(end[0]), end[1]);
    lemma_layouts_join(start, uploads + setup + body, end);
}

/// The commands of a plain clear: the pass clears, and the result is copied out.
pub open spec fn clear_commands(width: u32, height: u32, color: [u32; 4]) -> Seq<Command> {
    seq![
        Command::BeginPass { width, height, color, clear_depth: false },
        Command::EndPass,
        Command::CopyImageToBuffer { image: Img::Color, buffer: Buf::Readback, width, height },
    ]
}

/// Records a plain clear.
pub fn record_clear(width: u32, height: u32, color: [u32; 4]) -> (out: Vec<Command>)
    ensures
        out@ == clear_commands(width, height, color),
{
    let mut out: Vec<Command> = Vec::new();
    out.push(Command::BeginPass { width, height, color, clear_depth: false });
    out.push(Command::EndPass);
    out.push(
        Command::CopyImageToBuffer { image: Img::Color, buffer: Buf::Readback, width, height },
    );
    assert(out@ =~= clear_commands(width, height, color));
    out
}

/// The commands of a single draw without buffers over the whole target, copied out.
pub open spec fn plain_commands(count: u32, width: u32, height: u32, bg: [u32; 4]) -> Seq<Command> {
    seq![
        Command::BeginPass { width, height, color: bg, clear_depth: false },
        Command::BindPipeline,
        Command::SetViewport(View2d::Full { width, height }),
        Command::SetScissor { width, height },
        Command::Draw { count, instances: 1, first: 0 },
        Command::EndPass,
        Command::CopyImageToBuffer { image: Img::Color, buffer: Buf::Readback, width, height },
    ]
}

/// The commands of a draw that makes everything anew: a single draw where it has no mesh, else
/// those of its frame, and the copy into an exported buffer where one is wanted.
pub open spec fn triangle_commands(
    d: ForwardedDraw,
    up: Uploaded,
    textures: Option<Seq<Size>>,
    width: u32,
    height: u32,
    bg: [u32; 4],
    export: bool,
) -> Seq<Command> {
    let all = if d.geometry is None {
        plain_commands(d.vertex_count, width, height, bg)
    } else {
        frame_commands(
            d,
            up,
            textures,
            width,
            height,
            bg,
            depth_of(d) is Some,
            Buf::Readback,
        )
    };
    if export {
        all.push(
            Command::CopyImageToBuffer { image: Img::Color, buffer: Buf::Export, width, height },
        )
    } else {
        all
    }
}

fn record_plain(count: u32, width: u32, height: u32, bg: [u32; 4]) -> (out: Vec<Command>)
    ensures
        out@ == plain_commands(count, width, height, bg),
{
    let mut out: Vec<Command> = Vec::new();
    out.push(Command::BeginPass { width, height, color: bg, clear_depth: false });
    out.push(Command::BindPipeline);
    out.push(Command::SetViewport(View2d::Full { width, height }));
    out.push(Command::SetScissor { width, height });
    out.push(Command::Draw { count, instances: 1, first: 0 });
    out.push(Command::EndPass);
    out.push(
        Command::CopyImageToBuffer { image: Img::Color, buffer: Buf::Readback, width, height },
    );
    assert(out@ =~= plain_commands(count, width, height, bg));
    out
}

/// Records a draw that makes everything anew.
pub fn record_triangle(
    d: &ForwardedDraw,
    up: Uploaded,
    textures: Option<&[Size]>,
    width: u32,
    height: u32,
    bg: [u32; 4],
    export: bool,
) -> (out: Vec<Command>)
    requires
        d.geometry is Some && textures is Some ==> (textures->0)@.len() <= u32::MAX,
    ensures
        out@ == triangle_commands(
            *d,
            up,
            match textures {
                Some(t) => Some(t@),
                None => None,
            },
            width,
            height,
            bg,
            export,
        ),
{
    let mut out = if d.geometry.is_none() {
        record_plain(d.vertex_count, width, height, bg)
    } else {
        record_forwarded_frame(
            d,
            up,
            textures,
            width,
            height,
            bg,
            needed_depth(d).is_some(),
            Buf::Readback,
        )
    };
    if export {
        out.push(
            Command::CopyImageToBuffer { image: Img::Color, buffer: Buf::Export, width, height },
        );
    }
    out
}

/// The commands of a format conversion: the guest's pixels are uploaded with their own row
/// length, scaled one to one onto an image of the target format, and copied out.
pub open spec fn convert_commands(
    width: u32,
    height: u32,
    pitch: u32,
    export: bool,
) -> Seq<Command> {
    let all = seq![
        plain_barrier(
            Img::Source,
            Some(Img::Converted),
            LAYOUT_UNDEFINED,
            LAYOUT_TRANSFER_DST,
            STAGE_TOP_OF_PIPE,
            STAGE_TRANSFER,
        ),
        Command::CopyBufferToImage {
            buffer: Buf::Staging,
            image: Img::Source,
            row_length: pitch / 4,
            image_height: height,
            width,
            height,
        },
        plain_barrier(
            Img::Source,
            None,
            LAYOUT_TRANSFER_DST,
            LAYOUT_TRANSFER_SRC,
            STAGE_TRANSFER,
            STAGE_TRANSFER,
        ),
        Command::Blit {
            source: Img::Source,
            target: Img::Converted,
            src_width: width,
            src_height: height,
            dst_width: width,
            dst_height: height,
            filter: FILTER_NEAREST,
        },
        plain_barrier(
            Img::Converted,
            None,
            LAYOUT_TRANSFER_DST,
            LAYOUT_TRANSFER_SRC,
            STAGE_TRANSFER,
            STAGE_TRANSFER,
        ),
        Command::CopyImageToBuffer { image: Img::Converted, buffer: Buf::Readback, width, height },
    ];
    if export {
        all.push(
            Command::CopyImageToBuffer {
                image: Img::Converted,
                buffer: Buf::Export,
                width,
                height,
            },
        )
    } else {
        all
    }
}

/// Records a format conversion.
pub fn record_convert(width: u32, height: u32, pitch: u32, export: bool) -> (out: Vec<Command>)
    ensures
        out@ == convert_commands(width, height, pitch, export),
{
    let mut out: Vec<Command> = Vec::new();
    out.push(
        barrier(
            Img::Source,
            Some(Img::Converted),
            LAYOUT_UNDEFINED,
            LAYOUT_TRANSFER_DST,
            STAGE_TOP_OF_PIPE,
            STAGE_TRANSFER,
        ),
    );
    out.push(
        Command::CopyBufferToImage {
            buffer: Buf::Staging,
            image: Img::Source,
            row_length: pitch / 4,
            image_height: height,
            width,
            height,
        },
    );
    out.push(
        barrier(
            Img::Source,
            None,
            LAYOUT_TRANSFER_DST,
            LAYOUT_TRANSFER_SRC,
            STAGE_TRANSFER,
            STAGE_TRANSFER,
        ),
    );
    out.push(
        Command::Blit {
            source: Img::Source,
            target: Img::Converted,
            src_width: width,
            src_height: height,
            dst_width: width,
            dst_height: height,
            filter: FILTER_NEAREST,
        },
    );
    out.push(
        barrier(
            Img::Converted,
            None,
            LAYOUT_TRANSFER_DST,
            LAYOUT_TRANSFER_SRC,
            STAGE_TRANSFER,
            STAGE_TRANSFER,
        ),
    );
    out.push(
        Command::CopyImageToBuffer { image: Img::Converted, buffer: Buf::Readback, width, height },
    );
    if export {
        out.push(
            Command::CopyImageToBuffer {
                image: Img::Converted,
                buffer: Buf::Export,
                width,
                height,
            },
        );
    }
    assert(out@ =~= convert_commands(width, height, pitch, export));
    out
}

/// Clears, draws that make everything anew and conversions go through the layouts as they should.
pub proof fn law_other_layouts(
    d: ForwardedDraw,
    up: Uploaded,
    textures: Option<Seq<Size>>,
    width: u32,
    height: u32,
    pitch: u32,
    color: [u32; 4],
    export: bool,
)
    requires
        textures is Some ==> (textures->0).len() <= u32::MAX,
    ensures
        layouts_sound(all_undefined(), clear_commands(width, height, color)),
        layouts_sound(
            all_undefined(),
            triangle_commands(d, up, textures, width, height, color, export),
        ),
        layouts_sound(all_undefined(), convert_commands(width, height, pitch, export)),
{
    let start = all_undefined();
    let e = Seq::<Command>::empty();
    let c = clear_commands(width, height, color);
    let c1 = e.push(c[0]);
    let c2 = c1.push(c[1]);
    lemma_layouts_push(start, e, c[0]);
    lemma_layouts_push(start, c1, c[1]);
    lemma_layouts_push(start, c2, c[2]);
    assert(c =~= c2.push(c[2]));
    let has_depth = depth_of(d) is Some;
    let t = if d.geometry is None {
        let t = plain_commands(d.vertex_count, width, height, color);
        let t5 = t.take(5);
        assert forall|i: int| 0 <= i < t5.len() implies neutral(#[trigger] t5[i]) by {
            assert(t5[i] == t[i]);
        }
        lemma_neutral(start, t5);
        lemma_layouts_push(start, t5, t[5]);
        lemma_layouts_push(start, t5.push(t[5]), t[6]);
        assert(t =~= t5.push(t[5]).push(t[6]));
        t
    } else {
        law_frame_layouts(d, up, textures, width, height, color, has_depth, Buf::Readback);
        frame_commands(d, up, textures, width, height, color, has_depth, Buf::Readback)
    };
    lemma_layouts_push(
        start,
        t,
        Command::CopyImageToBuffer { image: Img::Color, buffer: Buf::Export, width, height },
    );
    let v = convert_commands(width, height, pitch, export);
    let v1 = e.push(v[0]);
    let v2 = v1.push(v[1]);
    let v3 = v2.push(v[2]);
    let v4 = v3.push(v[3]);
    let v5 = v4.push(v[4]);
    let v6 = v5.push(v[5]);
    lemma_layouts_push(start, e, v[0]);
    lemma_layouts_push(start, v1, v[1]);
    lemma_layouts_push(start, v2, v[2]);
    lemma_layouts_push(start, v3, v[3]);
    lemma_layouts_push(start, v4, v[4]);
    lemma_layouts_push(start, v5, v[5]);
    if export {
        lemma_layouts_push(start, v6, v[6]);
        assert(v =~= v6.push(v[6]));
    } else {
        assert(v =~= v6);
    }
}

/// The vertex count of a draw is for a draw without a mesh: with one, the list of the mesh alone
/// says what is drawn, be it empty.
pub proof fn law_mesh_drives_the_draws(
    d: ForwardedDraw,
    e: ForwardedDraw,
    up: Uploaded,
    width: u32,
    height: u32,
)
    requires
        d.geometry is Some,
        d.geometry == e.geometry,
    ensures
        body_commands(d, up, width, height) == body_commands(e, up, width, height),
        (d.geometry->0).draws@.len() == 0 ==> body_commands(d, up, width, height)
            == bind_commands(up, (d.geometry->0).index_u32),
{
    let g = d.geometry->0;
    if g.draws@.len() == 0 {
        assert(body_commands(d, up, width, height) =~= bind_commands(up, g.index_u32));
    }
}

} // verus!
