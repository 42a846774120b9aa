//! What the recorded command lists bring about: which draws reach the GPU in which state, and
//! where the pixels of the result come from.
use crate::gpu::commands::{
    record_texture_uploads, texture_upload, texture_uploads, Buf, Command, Img, Size, View2d,
};
use crate::gpu::machine::{
    barrier_orders, index_bytes, issued, lemma_keeps_buffer,
    lemma_keeps_image, lemma_moves, lemma_packed, lemma_step, moves_data, outside, packed,
    pass_after, pass_step, texel_after, word_after, writes_buffer,
    writes_image, Issued, PassState, Texel,
};
use crate::replay::draw::{depth_of, DrawCmd, ForwardedDraw};
use crate::replay::record::{
    bind_commands, body_commands, clear_commands, convert_commands, draw_commands, draws_commands,
    frame_commands, plain_commands, record_clear, record_convert, record_forwarded_frame,
    record_triangle, setup_commands, triangle_commands, Uploaded,
};
use vstd::prelude::*;

verus! {

/// A conversion moves no pixel: pixel (`x`, `y`) of the result is the word at column `x` of row
/// `y` of the guest's pixels, whose rows are `pitch` bytes apart, in the buffer that the CPU reads
/// and in the exported one. Without an export that buffer is left alone.
pub proof fn law_convert_moves_no_pixel(
    width: u32,
    height: u32,
    pitch: u32,
    export: bool,
    x: int,
    y: int,
)
    requires
        0 <= x < width,
        0 <= y < height,
        pitch >= 4,
        pitch % 4 == 0,
    ensures
        word_after(
            convert_commands(width, height, pitch, export),
            Buf::Readback,
            y * width + x,
        ) matches Texel::Word { buffer, at } && buffer == Buf::Staging && at * 4 == y * pitch + x
            * 4,
        export ==> word_after(
            convert_commands(width, height, pitch, export),
            Buf::Export,
            y * width + x,
        ) == word_after(
            convert_commands(width, height, pitch, export),
            Buf::Readback,
            y * width + x,
        ),
        !export ==> word_after(
            convert_commands(width, height, pitch, export),
            Buf::Export,
            y * width + x,
        ) == (Texel::Word { buffer: Buf::Export, at: y * width + x }),
{
    let c = convert_commands(width, height, pitch, export);
    let at = packed(x, y, width);
    lemma_packed(x, y, width, height);
    let e = Seq::<Command>::empty();
    let c1 = e.push(c[0]);
    let c2 = c1.push(c[1]);
    let c3 = c2.push(c[2]);
    let c4 = c3.push(c[3]);
    let c5 = c4.push(c[4]);
    let c6 = c5.push(c[5]);
    lemma_step(e, c[0]);
    lemma_step(c1, c[1]);
    lemma_step(c2, c[2]);
    lemma_step(c3, c[3]);
    lemma_step(c4, c[4]);
    lemma_step(c5, c[5]);
    let from = y * (pitch / 4) + x;
    assert(word_after(c1, Buf::Staging, from) == word_after(e, Buf::Staging, from));
    assert(texel_after(c2, Img::Source, x, y) == word_after(c1, Buf::Staging, from));
    assert(texel_after(c3, Img::Source, x, y) == texel_after(c2, Img::Source, x, y));
    assert(texel_after(c4, Img::Converted, x, y) == texel_after(c3, Img::Source, x, y));
    assert(texel_after(c5, Img::Converted, x, y) == texel_after(c4, Img::Converted, x, y));
    assert(texel_after(c6, Img::Converted, x, y) == texel_after(c5, Img::Converted, x, y));
    assert(word_after(c6, Buf::Readback, at) == texel_after(c5, Img::Converted, x, y));
    assert(word_after(c1, Buf::Export, at) == word_after(e, Buf::Export, at));
    assert(word_after(c2, Buf::Export, at) == word_after(c1, Buf::Export, at));
    assert(word_after(c3, Buf::Export, at) == word_after(c2, Buf::Export, at));
    assert(word_after(c4, Buf::Export, at) == word_after(c3, Buf::Export, at));
    assert(word_after(c5, Buf::Export, at) == word_after(c4, Buf::Export, at));
    assert(word_after(c6, Buf::Export, at) == word_after(c5, Buf::Export, at));
    assert(from * 4 == y * pitch + x * 4) by (nonlinear_arith)
        requires
            from == y * (pitch / 4) + x,
            pitch % 4 == 0,
    ;
    if export {
        lemma_step(c6, c[6]);
        assert(c =~= c6.push(c[6]));
    } else {
        assert(c =~= c6);
    }
}

/// Every blit of a conversion is one to one, takes the nearest pixel and covers the whole picture,
/// and every copy out of an image covers the same picture.
pub proof fn law_convert_is_one_to_one(width: u32, height: u32, pitch: u32, export: bool, i: int)
    requires
        0 <= i < convert_commands(width, height, pitch, export).len(),
    ensures
        convert_commands(width, height, pitch, export)[i] matches Command::Blit {
            source,
            target,
            src_width,
            src_height,
            dst_width,
            dst_height,
            filter,
        } ==> source != target && src_width == dst_width && src_height == dst_height && dst_width
            == width && dst_height == height && filter == 0,
        convert_commands(width, height, pitch, export)[i] matches Command::CopyImageToBuffer {
            image,
            buffer,
            width: w,
            height: h,
        } ==> w == width && h == height && image == Img::Converted,
        convert_commands(width, height, pitch, export)[i] matches Command::CopyBufferToImage {
            buffer,
            image,
            row_length,
            image_height,
            width: w,
            height: h,
        } ==> w == width && h == height && image == Img::Source && image_height == height && 4
            * row_length <= pitch < 4 * row_length + 4,
{
}

/// Whether a draw of the guest's list reaches the GPU as the guest asked: its counts, one instance
/// where it names none, and its own viewport or the whole picture.
pub open spec fn as_asked(r: Issued, d: DrawCmd, width: u32, height: u32) -> bool {
    &&& r.count == d.count
    &&& r.first == d.first
    &&& r.indexed ==> r.vertex_offset == d.vertex_offset
    &&& r.instances >= 1
    &&& d.instance_count >= 1 ==> r.instances == d.instance_count
    &&& d.instance_count == 0 ==> r.instances == 1
    &&& 0 < d.viewport@[2] <= 0x7f80_0000 ==> r.under.view == Some(
        View2d::Custom { bits: d.viewport },
    )
    &&& !(0 < d.viewport@[2] <= 0x7f80_0000) ==> r.under.view == Some(
        View2d::Full { width, height },
    )
}

/// The same set-up but for the viewport.
pub open spec fn but_for_view(a: PassState, b: PassState) -> bool {
    a == (PassState { view: a.view, ..b })
}

proof fn lemma_draws_issued(
    p: Seq<Command>,
    ds: Seq<DrawCmd>,
    indexed: bool,
    width: u32,
    height: u32,
)
    requires
        issued(p).len() == 0,
    ensures
        but_for_view(
            pass_after(p + draws_commands(ds, indexed, width, height)),
            pass_after(p),
        ),
        issued(p + draws_commands(ds, indexed, width, height)).len() == ds.len(),
        forall|i: int|
            0 <= i < ds.len() ==> {
                let r = #[trigger] issued(p + draws_commands(ds, indexed, width, height))[i];
                r.indexed == indexed && as_asked(r, ds[i], width, height) && but_for_view(
                    r.under,
                    pass_after(p),
                )
            },
        forall|x: int, y: int| #[trigger]
            texel_after(p + draws_commands(ds, indexed, width, height), Img::Color, x, y) == if ds.len()
                > 0 {
                Texel::Shaded { x, y }
            } else {
                texel_after(p, Img::Color, x, y)
            },
    decreases ds.len(),
{
    let all = draws_commands(ds, indexed, width, height);
    if ds.len() == 0 {
        assert(p + all =~= p);
    } else {
        let before = draws_commands(ds.drop_last(), indexed, width, height);
        let b = draw_commands(ds.last(), indexed, width, height);
        lemma_draws_issued(p, ds.drop_last(), indexed, width, height);
        let q = p + before;
        assert(p + all =~= q.push(b[0]).push(b[1]));
        lemma_step(q, b[0]);
        lemma_step(q.push(b[0]), b[1]);
        let was = issued(q);
        let now = issued(p + all);
        assert(now.len() == was.len() + 1);
        assert forall|i: int| 0 <= i < ds.len() implies {
            let r = #[trigger] now[i];
            r.indexed == indexed && as_asked(r, ds[i], width, height) && but_for_view(
                r.under,
                pass_after(p),
            )
        } by {
            if i < ds.len() - 1 {
                assert(now[i] == was[i]);
                assert(ds.drop_last()[i] == ds[i]);
            }
        }
    }
}

proof fn lemma_uploads_move_data(sizes: Seq<Size>)
    ensures
        forall|i: int|
            0 <= i < texture_uploads(sizes).len() ==> moves_data(
                #[trigger] texture_uploads(sizes)[i],
            ),
    decreases sizes.len(),
{
    if sizes.len() > 0 {
        lemma_uploads_move_data(sizes.drop_last());
        let a = texture_uploads(sizes.drop_last());
        let b = texture_upload(
            (sizes.len() - 1) as u32,
            sizes.last().width,
            sizes.last().height,
        );
        let all = texture_uploads(sizes);
        assert forall|i: int| 0 <= i < all.len() implies moves_data(#[trigger] all[i]) by {
            if i < a.len() {
                assert(all[i] == a[i]);
            } else {
                assert(all[i] == b[i - a.len()]);
            }
        }
    }
}

/// The uploads, as a list.
spec fn uploads_of(textures: Option<Seq<Size>>) -> Seq<Command> {
    match textures {
        Some(t) => texture_uploads(t),
        None => Seq::empty(),
    }
}

/// How many textures the descriptor set holds.
spec fn count_of(textures: Option<Seq<Size>>) -> Option<u32> {
    match textures {
        Some(t) => Some(t.len() as u32),
        None => None,
    }
}

proof fn lemma_setup(
    d: ForwardedDraw,
    textures: Option<Seq<Size>>,
    width: u32,
    height: u32,
    bg: [u32; 4],
    has_depth: bool,
)
    requires
        textures is Some ==> (textures->0).len() <= u32::MAX,
    ensures
        ({
            let p = uploads_of(textures) + setup_commands(
                d,
                count_of(textures),
                width,
                height,
                bg,
                has_depth,
            );
            &&& issued(p).len() == 0
            &&& pass_after(p) == (PassState {
                area: Some((width, height)),
                color: Some(bg),
                clear_depth: has_depth,
                pipeline: true,
                textures: count_of(textures),
                push_constants: d.geometry is Some && (d.geometry->0).push_constants@.len() > 0,
                scissor: Some((width, height)),
                ..outside()
            })
            &&& forall|x: int, y: int|
                0 <= x < width && 0 <= y < height ==> #[trigger] texel_after(p, Img::Color, x, y)
                    == (Texel::Filled { color: bg })
        }),
{
    let u = uploads_of(textures);
    let e = Seq::<Command>::empty();
    if textures is Some {
        lemma_uploads_move_data(textures->0);
    }
    lemma_moves(e, u);
    assert(e + u =~= u);
    let n = count_of(textures);
    let setup = setup_commands(d, n, width, height, bg, has_depth);
    let c0 = Command::BeginPass { width, height, color: bg, clear_depth: has_depth };
    let p1 = u.push(c0);
    lemma_step(u, c0);
    let p2 = p1.push(Command::BindPipeline);
    lemma_step(p1, Command::BindPipeline);
    let p3 = if n is Some {
        let c = Command::BindDescriptors { textures: n->0 };
        lemma_step(p2, c);
        p2.push(c)
    } else {
        p2
    };
    let pushes = d.geometry is Some && (d.geometry->0).push_constants@.len() > 0;
    let p4 = if pushes {
        lemma_step(p3, Command::PushConstants);
        p3.push(Command::PushConstants)
    } else {
        p3
    };
    let c5 = Command::SetScissor { width, height };
    let p5 = p4.push(c5);
    lemma_step(p4, c5);
    assert(u + setup =~= p5);
    assert forall|x: int, y: int| 0 <= x < width && 0 <= y < height implies #[trigger] texel_after(
        p5,
        Img::Color,
        x,
        y,
    ) == (Texel::Filled { color: bg }) by {
        assert(texel_after(p1, Img::Color, x, y) == (Texel::Filled { color: bg }));
        assert(texel_after(p2, Img::Color, x, y) == (Texel::Filled { color: bg }));
        assert(texel_after(p3, Img::Color, x, y) == (Texel::Filled { color: bg }));
        assert(texel_after(p4, Img::Color, x, y) == (Texel::Filled { color: bg }));
    }
}

/// The list up to the draws.
spec fn head(
    d: ForwardedDraw,
    up: Uploaded,
    textures: Option<Seq<Size>>,
    width: u32,
    height: u32,
    bg: [u32; 4],
    has_depth: bool,
) -> Seq<Command> {
    uploads_of(textures) + setup_commands(d, count_of(textures), width, height, bg, has_depth)
        + bind_commands(up, (d.geometry->0).index_u32)
}

/// The set-up that the draws of a frame find, but for the viewport.
spec fn head_state(
    d: ForwardedDraw,
    up: Uploaded,
    textures: Option<Seq<Size>>,
    width: u32,
    height: u32,
    bg: [u32; 4],
    has_depth: bool,
) -> PassState {
    PassState {
        area: Some((width, height)),
        color: Some(bg),
        clear_depth: has_depth,
        pipeline: true,
        textures: count_of(textures),
        push_constants: (d.geometry->0).push_constants@.len() > 0,
        scissor: Some((width, height)),
        view: None,
        vertices: !(up is Nothing),
        index_type: if up is VerticesAndIndices {
            Some(
                if (d.geometry->0).index_u32 {
                    1i32
                } else {
                    0i32
                },
            )
        } else {
            None
        },
    }
}

proof fn lemma_head(
    d: ForwardedDraw,
    up: Uploaded,
    textures: Option<Seq<Size>>,
    width: u32,
    height: u32,
    bg: [u32; 4],
    has_depth: bool,
)
    requires
        textures is Some ==> (textures->0).len() <= u32::MAX,
        d.geometry is Some,
    ensures
        issued(head(d, up, textures, width, height, bg, has_depth)).len() == 0,
        pass_after(head(d, up, textures, width, height, bg, has_depth)) == head_state(
            d,
            up,
            textures,
            width,
            height,
            bg,
            has_depth,
        ),
        forall|x: int, y: int|
            0 <= x < width && 0 <= y < height ==> #[trigger] texel_after(
                head(d, up, textures, width, height, bg, has_depth),
                Img::Color,
                x,
                y,
            ) == (Texel::Filled { color: bg }),
{
    let p = uploads_of(textures) + setup_commands(
        d,
        count_of(textures),
        width,
        height,
        bg,
        has_depth,
    );
    lemma_setup(d, textures, width, height, bg, has_depth);
    let b = bind_commands(up, (d.geometry->0).index_u32);
    match up {
        Uploaded::Nothing => {
            assert(p + b =~= p);
        },
        Uploaded::Vertices => {
            lemma_step(p, b[0]);
            assert(p + b =~= p.push(b[0]));
        },
        Uploaded::VerticesAndIndices => {
            lemma_step(p, b[0]);
            lemma_step(p.push(b[0]), b[1]);
            assert(p + b =~= p.push(b[0]).push(b[1]));
        },
    }
}

/// What a frame's commands issue, and what they leave in the target and in the result.
proof fn lemma_frame(
    d: ForwardedDraw,
    up: Uploaded,
    textures: Option<Seq<Size>>,
    width: u32,
    height: u32,
    bg: [u32; 4],
    has_depth: bool,
    dst: Buf,
)
    requires
        textures is Some ==> (textures->0).len() <= u32::MAX,
        d.geometry is Some,
    ensures
        ({
            let c = frame_commands(d, up, textures, width, height, bg, has_depth, dst);
            let q = head(d, up, textures, width, height, bg, has_depth);
            let s = q + draws_commands(
                (d.geometry->0).draws@,
                up is VerticesAndIndices,
                width,
                height,
            );
            &&& issued(c) == issued(s)
            &&& forall|x: int, y: int| #[trigger]
                texel_after(c, Img::Color, x, y) == texel_after(s, Img::Color, x, y)
            &&& forall|x: int, y: int|
                0 <= x < width && 0 <= y < height ==> #[trigger] word_after(
                    c,
                    dst,
                    packed(x, y, width),
                ) == texel_after(s, Img::Color, x, y)
        }),
{
    let q = head(d, up, textures, width, height, bg, has_depth);
    let s = q + draws_commands((d.geometry->0).draws@, up is VerticesAndIndices, width, height);
    let end = Command::CopyImageToBuffer { image: Img::Color, buffer: dst, width, height };
    let done = s.push(Command::EndPass);
    lemma_step(s, Command::EndPass);
    lemma_step(done, end);
    let c = frame_commands(d, up, textures, width, height, bg, has_depth, dst);
    assert(c =~= done.push(end));
    assert forall|x: int, y: int| 0 <= x < width && 0 <= y < height implies #[trigger] word_after(
        c,
        dst,
        packed(x, y, width),
    ) == texel_after(s, Img::Color, x, y) by {
        lemma_packed(x, y, width, height);
        assert(texel_after(done, Img::Color, x, y) == texel_after(s, Img::Color, x, y));
    }
}

/// The draws of a mesh's list reach the GPU one for one and in order, each as the guest asked. All
/// of them find the pass over the whole picture, cleared to the background, with the pipeline
/// bound, the scissor over the whole picture, a depth buffer cleared where there is one, push
/// constants where the guest has some, the textures that there are, and the buffers that were
/// uploaded.
pub proof fn law_frame_issues_the_list(
    d: ForwardedDraw,
    up: Uploaded,
    textures: Option<Seq<Size>>,
    width: u32,
    height: u32,
    bg: [u32; 4],
    has_depth: bool,
    dst: Buf,
)
    requires
        textures is Some ==> (textures->0).len() <= u32::MAX,
        d.geometry is Some,
    ensures
        ({
            let all = issued(frame_commands(d, up, textures, width, height, bg, has_depth, dst));
            let g = d.geometry->0;
            &&& all.len() == g.draws@.len()
            &&& forall|i: int|
                0 <= i < all.len() ==> {
                    let r = #[trigger] all[i];
                    &&& as_asked(r, g.draws@[i], width, height)
                    &&& r.indexed == (up is VerticesAndIndices)
                    &&& r.under.area == Some((width, height))
                    &&& r.under.scissor == Some((width, height))
                    &&& r.under.color == Some(bg)
                    &&& r.under.clear_depth == has_depth
                    &&& r.under.pipeline
                    &&& r.under.push_constants == (g.push_constants@.len() > 0)
                    &&& r.under.textures is Some == textures is Some
                    &&& textures is Some ==> r.under.textures->0 == (textures->0).len()
                    &&& r.under.vertices == !(up is Nothing)
                    &&& r.under.index_type is Some == (up is VerticesAndIndices)
                }
        }),
{
    let g = d.geometry->0;
    let q = head(d, up, textures, width, height, bg, has_depth);
    lemma_head(d, up, textures, width, height, bg, has_depth);
    lemma_draws_issued(q, g.draws@, up is VerticesAndIndices, width, height);
    lemma_frame(d, up, textures, width, height, bg, has_depth, dst);
}

/// The indices of a mesh are read as the guest wrote them: in every draw of an indexed mesh an
/// index has four bytes where the guest's have 32 bits and two where they have 16, and the `k`-th
/// index that is fetched is the `k`-th of the guest's own from the draw's first one on.
pub proof fn law_indices_are_the_guests(
    d: ForwardedDraw,
    textures: Option<Seq<Size>>,
    width: u32,
    height: u32,
    bg: [u32; 4],
    has_depth: bool,
    dst: Buf,
    i: int,
    k: int,
)
    requires
        textures is Some ==> (textures->0).len() <= u32::MAX,
        d.geometry is Some,
        0 <= i < (d.geometry->0).draws@.len(),
        0 <= k < (d.geometry->0).draws@[i].count,
    ensures
        ({
            let g = d.geometry->0;
            let r = issued(
                frame_commands(
                    d,
                    Uploaded::VerticesAndIndices,
                    textures,
                    width,
                    height,
                    bg,
                    has_depth,
                    dst,
                ),
            )[i];
            &&& r.under.index_type is Some
            &&& index_bytes(r.under.index_type->0) == if g.index_u32 {
                4int
            } else {
                2int
            }
            &&& r.index_at(k) == (g.draws@[i].first + k) * if g.index_u32 {
                4int
            } else {
                2int
            }
        }),
{
    let up = Uploaded::VerticesAndIndices;
    let g = d.geometry->0;
    let q = head(d, up, textures, width, height, bg, has_depth);
    lemma_head(d, up, textures, width, height, bg, has_depth);
    lemma_draws_issued(q, g.draws@, true, width, height);
    lemma_frame(d, up, textures, width, height, bg, has_depth, dst);
    let r = issued(frame_commands(d, up, textures, width, height, bg, has_depth, dst))[i];
    assert(but_for_view(r.under, pass_after(q)));
    assert(as_asked(r, g.draws@[i], width, height));
}

/// Wherever the commands of a frame bind an index buffer, its indices have as many bytes as the
/// guest's.
pub proof fn law_bound_index_type(
    d: ForwardedDraw,
    up: Uploaded,
    width: u32,
    height: u32,
    i: int,
)
    requires
        d.geometry is Some,
        0 <= i < body_commands(d, up, width, height).len(),
    ensures
        body_commands(d, up, width, height)[i] matches Command::BindIndexBuffer { index_type }
            ==> index_bytes(index_type) == if (d.geometry->0).index_u32 {
            4int
        } else {
            2int
        },
{
    let g = d.geometry->0;
    let b = bind_commands(up, g.index_u32);
    let ds = draws_commands(g.draws@, up is VerticesAndIndices, width, height);
    lemma_draws_only_draw(g.draws@, up is VerticesAndIndices, width, height);
    if i >= b.len() {
        assert(body_commands(d, up, width, height)[i] == ds[i - b.len()]);
    }
}

proof fn lemma_draws_only_draw(ds: Seq<DrawCmd>, indexed: bool, width: u32, height: u32)
    ensures
        forall|i: int|
            0 <= i < draws_commands(ds, indexed, width, height).len() ==> !(
            #[trigger] draws_commands(ds, indexed, width, height)[i] is BindIndexBuffer),
    decreases ds.len(),
{
    if ds.len() > 0 {
        lemma_draws_only_draw(ds.drop_last(), indexed, width, height);
        let a = draws_commands(ds.drop_last(), indexed, width, height);
        let b = draw_commands(ds.last(), indexed, width, height);
        let all = draws_commands(ds, indexed, width, height);
        assert forall|i: int| 0 <= i < all.len() implies !(#[trigger] all[i] is BindIndexBuffer) by {
            if i < a.len() {
                assert(all[i] == a[i]);
            } else {
                assert(all[i] == b[i - a.len()]);
            }
        }
    }
}

/// The result of a frame is its picture, pixel for pixel and in rows without gaps: what the draws
/// shaded, or the background where the list is empty.
pub proof fn law_frame_result_is_the_picture(
    d: ForwardedDraw,
    up: Uploaded,
    textures: Option<Seq<Size>>,
    width: u32,
    height: u32,
    bg: [u32; 4],
    has_depth: bool,
    dst: Buf,
    x: int,
    y: int,
)
    requires
        textures is Some ==> (textures->0).len() <= u32::MAX,
        d.geometry is Some,
        0 <= x < width,
        0 <= y < height,
    ensures
        word_after(
            frame_commands(d, up, textures, width, height, bg, has_depth, dst),
            dst,
            y * width + x,
        ) == if (d.geometry->0).draws@.len() > 0 {
            Texel::Shaded { x, y }
        } else {
            Texel::Filled { color: bg }
        },
{
    let g = d.geometry->0;
    let q = head(d, up, textures, width, height, bg, has_depth);
    lemma_head(d, up, textures, width, height, bg, has_depth);
    lemma_draws_issued(q, g.draws@, up is VerticesAndIndices, width, height);
    lemma_frame(d, up, textures, width, height, bg, has_depth, dst);
    let c = frame_commands(d, up, textures, width, height, bg, has_depth, dst);
    assert(word_after(c, dst, packed(x, y, width)) == word_after(c, dst, y * width + x));
    assert(texel_after(q, Img::Color, x, y) == (Texel::Filled { color: bg }));
}

/// The commands of a mesh's list write no image but the target, and no buffer.
proof fn lemma_draws_write_target(
    ds: Seq<DrawCmd>,
    indexed: bool,
    width: u32,
    height: u32,
    img: Img,
    buf: Buf,
)
    requires
        img != Img::Color,
    ensures
        forall|i: int|
            0 <= i < draws_commands(ds, indexed, width, height).len() ==> !writes_image(
                #[trigger] draws_commands(ds, indexed, width, height)[i],
                img,
            ) && !writes_buffer(draws_commands(ds, indexed, width, height)[i], buf),
    decreases ds.len(),
{
    if ds.len() > 0 {
        lemma_draws_write_target(ds.drop_last(), indexed, width, height, img, buf);
        let a = draws_commands(ds.drop_last(), indexed, width, height);
        let b = draw_commands(ds.last(), indexed, width, height);
        let all = draws_commands(ds, indexed, width, height);
        assert forall|i: int| 0 <= i < all.len() implies !writes_image(#[trigger] all[i], img)
            && !writes_buffer(all[i], buf) by {
            if i < a.len() {
                assert(all[i] == a[i]);
            } else {
                assert(all[i] == b[i - a.len()]);
            }
        }
    }
}

proof fn lemma_uploaded(sizes: Seq<Size>, i: u32, x: int, y: int)
    requires
        sizes.len() <= u32::MAX,
        i < sizes.len(),
        0 <= x < sizes[i as int].width,
        0 <= y < sizes[i as int].height,
    ensures
        texel_after(texture_uploads(sizes), Img::Texture(i), x, y) == (Texel::Word {
            buffer: Buf::TextureStaging(i),
            at: y * sizes[i as int].width + x,
        }),
    decreases sizes.len(),
{
    let a = texture_uploads(sizes.drop_last());
    let n = (sizes.len() - 1) as u32;
    let b = texture_upload(n, sizes.last().width, sizes.last().height);
    assert(texture_uploads(sizes) == a + b);
    if i < n {
        lemma_uploaded(sizes.drop_last(), i, x, y);
        lemma_keeps_image(a, b, Img::Texture(i), x, y);
    } else {
        lemma_uploads_move_data(sizes.drop_last());
        let e = Seq::<Command>::empty();
        let at = y * sizes[i as int].width + x;
        lemma_uploads_write_no_buffer(sizes.drop_last(), Buf::TextureStaging(i));
        lemma_keeps_buffer(e, a, Buf::TextureStaging(i), at);
        assert(e + a =~= a);
        assert(a + b =~= a.push(b[0]).push(b[1]).push(b[2]));
        lemma_step(a, b[0]);
        lemma_step(a.push(b[0]), b[1]);
        lemma_step(a.push(b[0]).push(b[1]), b[2]);
        assert(texel_after(a.push(b[0]).push(b[1]), Img::Texture(i), x, y) == word_after(
            a.push(b[0]),
            Buf::TextureStaging(i),
            at,
        ));
    }
}

proof fn lemma_uploads_write_no_buffer(sizes: Seq<Size>, buf: Buf)
    ensures
        forall|i: int|
            0 <= i < texture_uploads(sizes).len() ==> !writes_buffer(
                #[trigger] texture_uploads(sizes)[i],
                buf,
            ),
    decreases sizes.len(),
{
    if sizes.len() > 0 {
        lemma_uploads_write_no_buffer(sizes.drop_last(), buf);
        let a = texture_uploads(sizes.drop_last());
        let n = (sizes.len() - 1) as u32;
        let b = texture_upload(n, sizes.last().width, sizes.last().height);
        let all = texture_uploads(sizes);
        assert forall|i: int| 0 <= i < all.len() implies !writes_buffer(#[trigger] all[i], buf) by {
            if i < a.len() {
                assert(all[i] == a[i]);
            } else {
                assert(all[i] == b[i - a.len()]);
            }
        }
    }
}

/// Every texture holds the guest's own pixels: pixel (`x`, `y`) of texture `i` is the word at
/// column `x` of row `y` of that texture's data, whatever else the frame does.
pub proof fn law_textures_hold_their_pixels(
    d: ForwardedDraw,
    up: Uploaded,
    sizes: Seq<Size>,
    width: u32,
    height: u32,
    bg: [u32; 4],
    has_depth: bool,
    dst: Buf,
    i: u32,
    x: int,
    y: int,
)
    requires
        sizes.len() <= u32::MAX,
        i < sizes.len(),
        0 <= x < sizes[i as int].width,
        0 <= y < sizes[i as int].height,
    ensures
        texel_after(
            frame_commands(d, up, Some(sizes), width, height, bg, has_depth, dst),
            Img::Texture(i),
            x,
            y,
        ) == (Texel::Word {
            buffer: Buf::TextureStaging(i),
            at: y * sizes[i as int].width + x,
        }),
{
    let img = Img::Texture(i);
    let c = frame_commands(d, up, Some(sizes), width, height, bg, has_depth, dst);
    let uploads = texture_uploads(sizes);
    let setup = setup_commands(d, Some(sizes.len() as u32), width, height, bg, has_depth);
    let body = body_commands(d, up, width, height);
    let end = seq![
        Command::EndPass,
        Command::CopyImageToBuffer { image: Img::Color, buffer: dst, width, height },
    ];
    lemma_uploaded(sizes, i, x, y);
    lemma_keeps_image(uploads, setup, img, x, y);
    assert forall|k: int| 0 <= k < body.len() implies !writes_image(#[trigger] body[k], img) by {
        if d.geometry is Some {
            let g = d.geometry->0;
            let b = bind_commands(up, g.index_u32);
            let ds = draws_commands(g.draws@, up is VerticesAndIndices, width, height);
            lemma_draws_write_target(
                g.draws@,
                up is VerticesAndIndices,
                width,
                height,
                img,
                dst,
            );
            if k < b.len() {
                assert(body[k] == b[k]);
            } else {
                assert(body[k] == ds[k - b.len()]);
            }
        }
    }
    lemma_keeps_image(uploads + setup, body, img, x, y);
    lemma_keeps_image(uploads + setup + body, end, img, x, y);
}

/// A clear gives its colour everywhere.
pub proof fn law_clear_fills_the_result(
    width: u32,
    height: u32,
    color: [u32; 4],
    x: int,
    y: int,
)
    requires
        0 <= x < width,
        0 <= y < height,
    ensures
        word_after(clear_commands(width, height, color), Buf::Readback, y * width + x)
            == (Texel::Filled { color }),
        issued(clear_commands(width, height, color)).len() == 0,
{
    let c = clear_commands(width, height, color);
    let e = Seq::<Command>::empty();
    lemma_packed(x, y, width, height);
    lemma_step(e, c[0]);
    lemma_step(e.push(c[0]), c[1]);
    lemma_step(e.push(c[0]).push(c[1]), c[2]);
    assert(texel_after(e.push(c[0]), Img::Color, x, y) == (Texel::Filled { color }));
    assert(texel_after(e.push(c[0]).push(c[1]), Img::Color, x, y) == (Texel::Filled { color }));
    assert(packed(x, y, width) == y * width + x);
    assert(c =~= e.push(c[0]).push(c[1]).push(c[2]));
}

proof fn lemma_plain(count: u32, width: u32, height: u32, bg: [u32; 4])
    ensures
        ({
            let c = plain_commands(count, width, height, bg);
            &&& issued(c) == seq![
                Issued {
                    under: PassState {
                        area: Some((width, height)),
                        color: Some(bg),
                        pipeline: true,
                        scissor: Some((width, height)),
                        view: Some(View2d::Full { width, height }),
                        ..outside()
                    },
                    indexed: false,
                    count,
                    instances: 1,
                    first: 0,
                    vertex_offset: 0,
                },
            ]
            &&& forall|x: int, y: int| #[trigger]
                texel_after(c, Img::Color, x, y) == (Texel::Shaded { x, y })
            &&& forall|x: int, y: int|
                0 <= x < width && 0 <= y < height ==> #[trigger] word_after(
                    c,
                    Buf::Readback,
                    packed(x, y, width),
                ) == (Texel::Shaded { x, y })
            &&& forall|at: int| #[trigger]
                word_after(c, Buf::Export, at) == (Texel::Word { buffer: Buf::Export, at })
        }),
{
    let c = plain_commands(count, width, height, bg);
    let e = Seq::<Command>::empty();
    let c1 = e.push(c[0]);
    let c2 = c1.push(c[1]);
    let c3 = c2.push(c[2]);
    let c4 = c3.push(c[3]);
    let c5 = c4.push(c[4]);
    let c6 = c5.push(c[5]);
    lemma_step(e, c[0]);
    lemma_step(c1, c[1]);
    lemma_step(c2, c[2]);
    lemma_step(c3, c[3]);
    lemma_step(c4, c[4]);
    lemma_step(c5, c[5]);
    lemma_step(c6, c[6]);
    assert(c =~= c6.push(c[6]));
    assert(issued(e) =~= Seq::<Issued>::empty());
    assert forall|x: int, y: int| #[trigger]
        texel_after(c, Img::Color, x, y) == (Texel::Shaded { x, y }) by {
        assert(texel_after(c5, Img::Color, x, y) == (Texel::Shaded { x, y }));
        assert(texel_after(c6, Img::Color, x, y) == (Texel::Shaded { x, y }));
    }
    assert forall|x: int, y: int| 0 <= x < width && 0 <= y < height implies #[trigger] word_after(
        c,
        Buf::Readback,
        packed(x, y, width),
    ) == (Texel::Shaded { x, y }) by {
        lemma_packed(x, y, width, height);
        assert(texel_after(c5, Img::Color, x, y) == (Texel::Shaded { x, y }));
        assert(texel_after(c6, Img::Color, x, y) == (Texel::Shaded { x, y }));
    }
    assert forall|at: int| #[trigger]
        word_after(c, Buf::Export, at) == (Texel::Word { buffer: Buf::Export, at }) by {
        lemma_keeps_buffer(e, c, Buf::Export, at);
        assert(e + c =~= c);
    }
}

/// A draw without a mesh is one draw of its vertices from the first one on, once, without buffers,
/// over the whole picture on the background.
pub proof fn law_plain_draw_is_issued_once(
    d: ForwardedDraw,
    up: Uploaded,
    textures: Option<Seq<Size>>,
    width: u32,
    height: u32,
    bg: [u32; 4],
    export: bool,
)
    requires
        d.geometry is None,
    ensures
        ({
            let all = issued(triangle_commands(d, up, textures, width, height, bg, export));
            &&& all.len() == 1
            &&& all[0].count == d.vertex_count
            &&& all[0].first == 0
            &&& all[0].instances == 1
            &&& !all[0].indexed
            &&& all[0].under.area == Some((width, height))
            &&& all[0].under.scissor == Some((width, height))
            &&& all[0].under.view == Some(View2d::Full { width, height })
            &&& all[0].under.color == Some(bg)
            &&& !all[0].under.clear_depth
            &&& all[0].under.pipeline
            &&& all[0].under.textures is None
            &&& !all[0].under.push_constants
            &&& !all[0].under.vertices
            &&& all[0].under.index_type is None
        }),
{
    let c = plain_commands(d.vertex_count, width, height, bg);
    lemma_plain(d.vertex_count, width, height, bg);
    lemma_step(
        c,
        Command::CopyImageToBuffer { image: Img::Color, buffer: Buf::Export, width, height },
    );
}

/// A mesh drawn with everything made anew is drawn as in a frame, with a depth buffer where the
/// guest tests or writes depth.
pub proof fn law_mesh_is_drawn_as_in_a_frame(
    d: ForwardedDraw,
    up: Uploaded,
    textures: Option<Seq<Size>>,
    width: u32,
    height: u32,
    bg: [u32; 4],
    export: bool,
)
    requires
        d.geometry is Some,
        textures is Some ==> (textures->0).len() <= u32::MAX,
    ensures
        ({
            let g = d.geometry->0;
            let deep = g.depth is Some && (g.depth->0.test || g.depth->0.write);
            issued(triangle_commands(d, up, textures, width, height, bg, export)) == issued(
                frame_commands(d, up, textures, width, height, bg, deep, Buf::Readback),
            )
        }),
{
    let c = frame_commands(
        d,
        up,
        textures,
        width,
        height,
        bg,
        depth_of(d) is Some,
        Buf::Readback,
    );
    lemma_step(
        c,
        Command::CopyImageToBuffer { image: Img::Color, buffer: Buf::Export, width, height },
    );
}

/// Drawing with everything made anew leaves the picture where the CPU reads it, and the same
/// picture in the exported buffer where one is wanted.
pub proof fn law_triangle_result_is_the_picture(
    d: ForwardedDraw,
    up: Uploaded,
    textures: Option<Seq<Size>>,
    width: u32,
    height: u32,
    bg: [u32; 4],
    export: bool,
    x: int,
    y: int,
)
    requires
        textures is Some ==> (textures->0).len() <= u32::MAX,
        0 <= x < width,
        0 <= y < height,
    ensures
        ({
            let c = triangle_commands(d, up, textures, width, height, bg, export);
            let want = if d.geometry is Some && (d.geometry->0).draws@.len() == 0 {
                Texel::Filled { color: bg }
            } else {
                Texel::Shaded { x, y }
            };
            &&& word_after(c, Buf::Readback, y * width + x) == want
            &&& export ==> word_after(c, Buf::Export, y * width + x) == want
        }),
{
    let has_depth = depth_of(d) is Some;
    let all = if d.geometry is None {
        plain_commands(d.vertex_count, width, height, bg)
    } else {
        frame_commands(d, up, textures, width, height, bg, has_depth, Buf::Readback)
    };
    let last = Command::CopyImageToBuffer { image: Img::Color, buffer: Buf::Export, width, height };
    lemma_step(all, last);
    lemma_packed(x, y, width, height);
    assert(packed(x, y, width) == y * width + x);
    if d.geometry is None {
        lemma_plain(d.vertex_count, width, height, bg);
        assert(texel_after(all, Img::Color, x, y) == (Texel::Shaded { x, y }));
        assert(word_after(all, Buf::Readback, packed(x, y, width)) == (Texel::Shaded { x, y }));
    } else {
        let g = d.geometry->0;
        let q = head(d, up, textures, width, height, bg, has_depth);
        let s = q + draws_commands(g.draws@, up is VerticesAndIndices, width, height);
        lemma_head(d, up, textures, width, height, bg, has_depth);
        lemma_draws_issued(q, g.draws@, up is VerticesAndIndices, width, height);
        lemma_frame(d, up, textures, width, height, bg, has_depth, Buf::Readback);
        assert(texel_after(q, Img::Color, x, y) == (Texel::Filled { color: bg }));
        assert(texel_after(all, Img::Color, x, y) == texel_after(s, Img::Color, x, y));
        assert(word_after(all, Buf::Readback, packed(x, y, width)) == texel_after(
            s,
            Img::Color,
            x,
            y,
        ));
    }
}

/// The barriers of uploads and conversions order what they stand between.
pub proof fn law_barriers_order(
    sizes: Seq<Size>,
    width: u32,
    height: u32,
    pitch: u32,
    export: bool,
)
    ensures
        forall|i: int|
            0 <= i < texture_uploads(sizes).len() ==> barrier_orders(
                #[trigger] texture_uploads(sizes)[i],
            ),
        forall|i: int|
            0 <= i < convert_commands(width, height, pitch, export).len() ==> barrier_orders(
                #[trigger] convert_commands(width, height, pitch, export)[i],
            ),
    decreases sizes.len(),
{
    assert(0x8000u32 | 0x1_0000u32 == 0x1_8000u32) by (bit_vector);
    if sizes.len() > 0 {
        law_barriers_order(sizes.drop_last(), width, height, pitch, export);
        let a = texture_uploads(sizes.drop_last());
        let n = (sizes.len() - 1) as u32;
        let b = texture_upload(n, sizes.last().width, sizes.last().height);
        let all = texture_uploads(sizes);
        assert forall|i: int| 0 <= i < all.len() implies barrier_orders(#[trigger] all[i]) by {
            if i < a.len() {
                assert(all[i] == a[i]);
            } else {
                assert(all[i] == b[i - a.len()]);
            }
        }
    }
}

/// The sizes of the textures, as sequences.
pub open spec fn sizes_of(textures: Option<&[Size]>) -> Option<Seq<Size>> {
    match textures {
        Some(t) => Some(t@),
        None => None,
    }
}

/// A frame that is recorded draws the guest's list: every draw as asked, indices of the guest's own
/// width, over the whole picture on the background, and leaves the picture in the buffer that it was
/// recorded for.
pub proof fn law_recorded_frame(
    d: &ForwardedDraw,
    up: Uploaded,
    textures: Option<&[Size]>,
    width: u32,
    height: u32,
    bg: [u32; 4],
    has_depth: bool,
    dst: Buf,
    out: Vec<Command>,
    i: int,
    x: int,
    y: int,
)
    requires
        textures is Some ==> (textures->0)@.len() <= u32::MAX,
        call_ensures(
            record_forwarded_frame,
            (d, up, textures, width, height, bg, has_depth, dst),
            out,
        ),
        d.geometry is Some,
        0 <= x < width,
        0 <= y < height,
    ensures
        ({
            let g = d.geometry->0;
            let all = issued(out@);
            &&& all.len() == g.draws@.len()
            &&& 0 <= i < all.len() ==> {
                let r = all[i];
                &&& as_asked(r, g.draws@[i], width, height)
                &&& r.indexed == (up is VerticesAndIndices)
                &&& up is VerticesAndIndices ==> index_bytes(r.under.index_type->0)
                    == if g.index_u32 {
                    4int
                } else {
                    2int
                }
                &&& r.under.area == Some((width, height))
                &&& r.under.scissor == Some((width, height))
                &&& r.under.color == Some(bg)
                &&& r.under.clear_depth == has_depth
                &&& r.under.push_constants == (g.push_constants@.len() > 0)
                &&& r.under.textures is Some == textures is Some
            }
            &&& word_after(out@, dst, y * width + x) == if g.draws@.len() > 0 {
                Texel::Shaded { x, y }
            } else {
                Texel::Filled { color: bg }
            }
        }),
{
    let t = sizes_of(textures);
    assert(out@ == frame_commands(*d, up, t, width, height, bg, has_depth, dst));
    law_frame_issues_the_list(*d, up, t, width, height, bg, has_depth, dst);
    law_frame_result_is_the_picture(*d, up, t, width, height, bg, has_depth, dst, x, y);
    let g = d.geometry->0;
    let q = head(*d, up, t, width, height, bg, has_depth);
    lemma_head(*d, up, t, width, height, bg, has_depth);
    lemma_draws_issued(q, g.draws@, up is VerticesAndIndices, width, height);
    lemma_frame(*d, up, t, width, height, bg, has_depth, dst);
    if 0 <= i < issued(out@).len() {
        assert(but_for_view(issued(out@)[i].under, pass_after(q)));
    }
}

/// A draw that is recorded with everything made anew leaves its picture where the CPU reads it, and
/// in the exported buffer where one is wanted; a clear leaves its colour.
pub proof fn law_recorded_pictures(
    d: &ForwardedDraw,
    up: Uploaded,
    textures: Option<&[Size]>,
    width: u32,
    height: u32,
    bg: [u32; 4],
    export: bool,
    out: Vec<Command>,
    color: [u32; 4],
    clear: Vec<Command>,
    x: int,
    y: int,
)
    requires
        textures is Some ==> (textures->0)@.len() <= u32::MAX,
        call_ensures(record_triangle, (d, up, textures, width, height, bg, export), out),
        call_ensures(record_clear, (width, height, color), clear),
        0 <= x < width,
        0 <= y < height,
    ensures
        ({
            let want = if d.geometry is Some && (d.geometry->0).draws@.len() == 0 {
                Texel::Filled { color: bg }
            } else {
                Texel::Shaded { x, y }
            };
            &&& word_after(out@, Buf::Readback, y * width + x) == want
            &&& export ==> word_after(out@, Buf::Export, y * width + x) == want
            &&& issued(out@).len() == if d.geometry is Some {
                (d.geometry->0).draws@.len()
            } else {
                1
            }
            &&& d.geometry is None ==> issued(out@)[0].count == d.vertex_count
        }),
        word_after(clear@, Buf::Readback, y * width + x) == (Texel::Filled { color }),
{
    let t = sizes_of(textures);
    assert(out@ == triangle_commands(*d, up, t, width, height, bg, export));
    law_triangle_result_is_the_picture(*d, up, t, width, height, bg, export, x, y);
    law_clear_fills_the_result(width, height, color, x, y);
    if d.geometry is None {
        law_plain_draw_is_issued_once(*d, up, t, width, height, bg, export);
    } else {
        let g = d.geometry->0;
        let deep = g.depth is Some && (g.depth->0.test || g.depth->0.write);
        law_mesh_is_drawn_as_in_a_frame(*d, up, t, width, height, bg, export);
        law_frame_issues_the_list(*d, up, t, width, height, bg, deep, Buf::Readback);
    }
}

/// A conversion that is recorded moves no pixel.
pub proof fn law_recorded_conversion(
    width: u32,
    height: u32,
    pitch: u32,
    export: bool,
    out: Vec<Command>,
    x: int,
    y: int,
    i: int,
)
    requires
        call_ensures(record_convert, (width, height, pitch, export), out),
        0 <= x < width,
        0 <= y < height,
        pitch >= 4,
        pitch % 4 == 0,
        0 <= i < out@.len(),
    ensures
        word_after(out@, Buf::Readback, y * width + x) matches Texel::Word { buffer, at } && buffer
            == Buf::Staging && at * 4 == y * pitch + x * 4,
        export ==> word_after(out@, Buf::Export, y * width + x) == word_after(
            out@,
            Buf::Readback,
            y * width + x,
        ),
        out@[i] matches Command::Blit { src_width, src_height, dst_width, dst_height, .. }
            ==> src_width == dst_width && dst_width == width && src_height == dst_height
            && dst_height == height,
{
    law_convert_moves_no_pixel(width, height, pitch, export, x, y);
    law_convert_is_one_to_one(width, height, pitch, export, i);
}

/// The uploads that are recorded give every texture its own pixels.
pub proof fn law_recorded_uploads(sizes: &[Size], out: Vec<Command>, i: u32, x: int, y: int)
    requires
        sizes@.len() <= u32::MAX,
        call_ensures(record_texture_uploads, (sizes,), out),
        i < sizes@.len(),
        0 <= x < sizes@[i as int].width,
        0 <= y < sizes@[i as int].height,
    ensures
        texel_after(out@, Img::Texture(i), x, y) == (Texel::Word {
            buffer: Buf::TextureStaging(i),
            at: y * sizes@[i as int].width + x,
        }),
{
    lemma_uploaded(sizes@, i, x, y);
}

} // verus!
