//! A draw forwarded from the guest, and what of it decides the pipeline.
use crate::gpu::vk::{
    COMPARE_ALWAYS, COMPARE_EQUAL, COMPARE_GREATER, COMPARE_GREATER_OR_EQUAL, COMPARE_LESS,
    COMPARE_LESS_OR_EQUAL, COMPARE_NEVER, COMPARE_NOT_EQUAL, CULL_BACK, CULL_FRONT,
    CULL_FRONT_AND_BACK, CULL_NONE, FORMAT_R32G32B32A32_SFLOAT, FORMAT_R32G32B32_SFLOAT,
    FORMAT_R32G32_SFLOAT, FORMAT_R32_SFLOAT, FORMAT_R32_UINT, FORMAT_R8G8B8A8_UNORM,
    FRONT_FACE_CCW, FRONT_FACE_CW, TOPOLOGY_TRIANGLE_LIST, TOPOLOGY_TRIANGLE_STRIP,
};
use vstd::prelude::*;

verus! {

/// The numbers by which the guest names formats, compare operations and raster state on the
/// wire.
#[derive(Debug, Clone, Copy)]
pub struct WireCodes {
    pub r32_sfloat: u32,
    pub r32g32_sfloat: u32,
    pub r32g32b32_sfloat: u32,
    pub r8g8b8a8_unorm: u32,
    pub r32_uint: u32,
    pub never: u32,
    pub less: u32,
    pub equal: u32,
    pub less_or_equal: u32,
    pub greater: u32,
    pub not_equal: u32,
    pub greater_or_equal: u32,
    pub always: u32,
    pub cull_front: u32,
    pub cull_back: u32,
    pub cull_front_and_back: u32,
    /// Where the cull mode starts in the raster flags.
    pub cull_shift: u32,
    /// The cull mode's bits, once shifted down.
    pub cull_mask: u32,
    /// The bit of a clockwise front face.
    pub front_face_cw: u32,
    /// The bit of alpha blending.
    pub blend: u32,
}

/// A vertex attribute: what the shader reads at `location`.
#[derive(Debug, Clone, Copy)]
pub struct VertexAttr {
    pub location: u32,
    /// The format, in the wire's numbers.
    pub format: u32,
    pub offset: u32,
}

/// One draw of a command list.
#[derive(Debug, Clone, Copy)]
pub struct DrawCmd {
    /// Vertices, or indices where the mesh has indices.
    pub count: u32,
    /// Instances; zero counts as one.
    pub instance_count: u32,
    /// The first vertex, or the first index.
    pub first: u32,
    /// Added to every index.
    pub vertex_offset: i32,
    /// The viewport's x, y, width and height, as the bit patterns of 32-bit floats. A width that
    /// is not above zero stands for the full target.
    pub viewport: [u32; 4],
}

/// The depth test of a mesh.
#[derive(Debug, Clone, Copy)]
pub struct DepthState {
    pub test: bool,
    pub write: bool,
    /// The compare operation, in the wire's numbers.
    pub compare: u32,
}

impl DepthState {
    /// Whether a depth attachment is needed.
    pub open spec fn needed(self) -> bool {
        self.test || self.write
    }

    /// Whether a depth attachment is needed.
    pub fn attachment_needed(&self) -> (b: bool)
        ensures
            b == self.needed(),
    {
        self.test || self.write
    }
}

/// A uniform buffer and its binding.
#[derive(Debug, Clone, Copy)]
pub struct UniformBlock<'a> {
    pub binding: u32,
    pub bytes: &'a [u8],
}

/// A read-only storage buffer and its binding.
#[derive(Debug, Clone, Copy)]
pub struct StorageBlock<'a> {
    pub binding: u32,
    pub bytes: &'a [u8],
}

/// How a texture is sampled.
#[derive(Debug, Clone, Copy, PartialEq, Eq, Structural)]
pub struct SamplerCfg {
    /// Linear filtering; otherwise nearest.
    pub linear: bool,
    /// Wrap-around addressing; otherwise clamped to the edge.
    pub repeat: bool,
}

/// A texture: tightly packed RGBA bytes.
#[derive(Debug, Clone, Copy)]
pub struct Texture<'a> {
    pub width: u32,
    pub height: u32,
    pub rgba: &'a [u8],
    pub sampler: SamplerCfg,
}

/// A mesh: interleaved vertices, optional indices, a list of draws and the resources that the
/// shaders read.
#[derive(Debug, Clone, Copy)]
pub struct Geometry<'a> {
    pub vertex_data: &'a [u8],
    /// Bytes per vertex; zero where there is no vertex buffer.
    pub vertex_stride: u32,
    pub attrs: &'a [VertexAttr],
    /// Index bytes; none for draws without indices.
    pub index_data: &'a [u8],
    /// Whether an index has 32 bits; otherwise it has 16.
    pub index_u32: bool,
    pub draws: &'a [DrawCmd],
    pub depth: Option<DepthState>,
    pub push_constants: &'a [u8],
    pub textures: &'a [Texture<'a>],
    /// The binding of the first texture's image. Texture `i` has its image at twice `i` above it
    /// and its sampler one further.
    pub tex_binding: u32,
    pub uniform: Option<UniformBlock<'a>>,
    pub storage: Option<StorageBlock<'a>>,
    /// Cull mode, front face and blending, in the wire's numbers.
    pub raster_flags: u32,
}

/// A draw whose shaders and pipeline state come from the guest.
#[derive(Debug, Clone, Copy)]
pub struct ForwardedDraw<'a> {
    pub vertex_spirv: &'a [u32],
    pub vertex_entry: &'a str,
    pub fragment_spirv: &'a [u32],
    pub fragment_entry: &'a str,
    /// Vertices of the one draw that is made where there is no mesh.
    pub vertex_count: u32,
    /// The topology, in the wire's numbers.
    pub topology: u32,
    pub geometry: Option<Geometry<'a>>,
}

impl<'a> ForwardedDraw<'a> {
    /// The built-in triangle: both stages from one module, three vertices, no buffers.
    pub fn builtin_triangle(spirv: &'a [u32]) -> (d: Self)
        ensures
            d.vertex_spirv == spirv,
            d.fragment_spirv == spirv,
            d.vertex_entry@ == "vs_main"@,
            d.fragment_entry@ == "fs_main"@,
            d.vertex_count == 3,
            d.topology == 0,
            d.geometry is None,
    {
        ForwardedDraw {
            vertex_spirv: spirv,
            vertex_entry: "vs_main",
            fragment_spirv: spirv,
            fragment_entry: "fs_main",
            vertex_count: 3,
            topology: 0,
            geometry: None,
        }
    }
}

/// The topology that a wire number names; a triangle list where it names none.
pub open spec fn topology_of(t: u32) -> i32 {
    if t == 1 {
        TOPOLOGY_TRIANGLE_STRIP
    } else {
        TOPOLOGY_TRIANGLE_LIST
    }
}

/// The topology that a wire number names; a triangle list where it names none.
pub fn map_topology(t: u32) -> (r: i32)
    ensures
        r == topology_of(t),
{
    match t {
        1 => TOPOLOGY_TRIANGLE_STRIP,
        _ => TOPOLOGY_TRIANGLE_LIST,
    }
}

/// The vertex format that a wire number names; the widest where it names none.
pub open spec fn vformat_of(c: WireCodes, f: u32) -> i32 {
    if f == c.r32_sfloat {
        FORMAT_R32_SFLOAT
    } else if f == c.r32g32_sfloat {
        FORMAT_R32G32_SFLOAT
    } else if f == c.r32g32b32_sfloat {
        FORMAT_R32G32B32_SFLOAT
    } else if f == c.r8g8b8a8_unorm {
        FORMAT_R8G8B8A8_UNORM
    } else if f == c.r32_uint {
        FORMAT_R32_UINT
    } else {
        FORMAT_R32G32B32A32_SFLOAT
    }
}

/// The vertex format that a wire number names; the widest where it names none.
pub fn map_vformat(c: &WireCodes, f: u32) -> (r: i32)
    ensures
        r == vformat_of(*c, f),
{
    if f == c.r32_sfloat {
        FORMAT_R32_SFLOAT
    } else if f == c.r32g32_sfloat {
        FORMAT_R32G32_SFLOAT
    } else if f == c.r32g32b32_sfloat {
        FORMAT_R32G32B32_SFLOAT
    } else if f == c.r8g8b8a8_unorm {
        FORMAT_R8G8B8A8_UNORM
    } else if f == c.r32_uint {
        FORMAT_R32_UINT
    } else {
        FORMAT_R32G32B32A32_SFLOAT
    }
}

/// The compare operation that a wire number names; less-or-equal where it names none.
pub open spec fn compare_of(c: WireCodes, v: u32) -> i32 {
    if v == c.never {
        COMPARE_NEVER
    } else if v == c.less {
        COMPARE_LESS
    } else if v == c.equal {
        COMPARE_EQUAL
    } else if v == c.less_or_equal {
        COMPARE_LESS_OR_EQUAL
    } else if v == c.greater {
        COMPARE_GREATER
    } else if v == c.not_equal {
        COMPARE_NOT_EQUAL
    } else if v == c.greater_or_equal {
        COMPARE_GREATER_OR_EQUAL
    } else if v == c.always {
        COMPARE_ALWAYS
    } else {
        COMPARE_LESS_OR_EQUAL
    }
}

/// The compare operation that a wire number names; less-or-equal where it names none.
pub fn map_compare(c: &WireCodes, v: u32) -> (r: i32)
    ensures
        r == compare_of(*c, v),
{
    if v == c.never {
        COMPARE_NEVER
    } else if v == c.less {
        COMPARE_LESS
    } else if v == c.equal {
        COMPARE_EQUAL
    } else if v == c.less_or_equal {
        COMPARE_LESS_OR_EQUAL
    } else if v == c.greater {
        COMPARE_GREATER
    } else if v == c.not_equal {
        COMPARE_NOT_EQUAL
    } else if v == c.greater_or_equal {
        COMPARE_GREATER_OR_EQUAL
    } else if v == c.always {
        COMPARE_ALWAYS
    } else {
        COMPARE_LESS_OR_EQUAL
    }
}

/// The cull mode that raster flags name; none where they name none, so that a bad flag never
/// hides geometry.
pub open spec fn cull_of(c: WireCodes, rf: u32) -> u32 {
    let m = (rf >> c.cull_shift) & c.cull_mask;
    if m == c.cull_front {
        CULL_FRONT
    } else if m == c.cull_back {
        CULL_BACK
    } else if m == c.cull_front_and_back {
        CULL_FRONT_AND_BACK
    } else {
        CULL_NONE
    }
}

/// The cull mode that raster flags name; none where they name none.
pub fn map_cull_mode(c: &WireCodes, rf: u32) -> (r: u32)
    requires
        c.cull_shift < 32,
    ensures
        r == cull_of(*c, rf),
{
    let m: u32 = (rf >> c.cull_shift) & c.cull_mask;
    if m == c.cull_front {
        CULL_FRONT
    } else if m == c.cull_back {
        CULL_BACK
    } else if m == c.cull_front_and_back {
        CULL_FRONT_AND_BACK
    } else {
        CULL_NONE
    }
}

/// The seed of the content hash.
pub const HASH_SEED: u64 = 0xcbf2_9ce4_8422_2325;

/// The multiplier of the content hash.
pub const HASH_PRIME: u64 = 0x100_0000_01b3;

/// One round of the content hash.
#[verifier::opaque]
pub open spec fn hash_step(h: u64, word: u32) -> u64 {
    (h ^ (word as u64)).wrapping_mul(HASH_PRIME)
}

/// The content hash of some words, one round per word, from a seed.
pub open spec fn hash_words(seed: u64, words: Seq<u32>) -> u64
    decreases words.len(),
{
    if words.len() == 0 {
        seed
    } else {
        hash_step(hash_words(seed, words.drop_last()), words.last())
    }
}

fn hash_round(h: u64, word: u32) -> (r: u64)
    ensures
        r == hash_step(h, word),
{
    proof {
        reveal(hash_step);
    }
    (h ^ word as u64).wrapping_mul(HASH_PRIME)
}

proof fn lemma_hash_push(seed: u64, words: Seq<u32>, w: u32)
    ensures
        hash_words(seed, words.push(w)) == hash_step(hash_words(seed, words), w),
{
    assert(words.push(w).drop_last() =~= words);
}

/// The content hash of SPIR-V words; their number is part of the seed.
pub fn hash_spirv(data: &[u32]) -> (h: u64)
    ensures
        h == hash_words(HASH_SEED ^ (data@.len() as u64), data@),
{
    let mut h: u64 = HASH_SEED ^ data.len() as u64;
    let ghost seed = h;
    let mut i: usize = 0;
    while i < data.len()
        invariant
            i <= data@.len(),
            h == hash_words(seed, data@.take(i as int)),
        decreases data.len() - i,
    {
        assert(data@.take(i + 1).drop_last() =~= data@.take(i as int));
        h = hash_round(h, data[i]);
        i = i + 1;
    }
    assert(data@.take(i as int) =~= data@);
    h
}

/// The words of a vertex layout: location, format and offset of every attribute.
pub open spec fn attr_words(attrs: Seq<VertexAttr>) -> Seq<u32>
    decreases attrs.len(),
{
    if attrs.len() == 0 {
        Seq::empty()
    } else {
        let a = attrs.last();
        attr_words(attrs.drop_last()).push(a.location).push(a.format).push(a.offset)
    }
}

/// The content hash of a draw's vertex layout; zero where there is no vertex buffer.
pub open spec fn vinput_hash(d: ForwardedDraw) -> u64 {
    match d.geometry {
        Some(g) => if g.vertex_stride == 0 {
            0
        } else {
            hash_words(HASH_SEED ^ ((g.vertex_stride * 2) as u64), attr_words(g.attrs@))
        },
        None => 0,
    }
}

/// The content hash of a draw's vertex layout; zero where there is no vertex buffer.
pub fn hash_vinput(d: &ForwardedDraw) -> (h: u64)
    ensures
        h == vinput_hash(*d),
{
    let g = match &d.geometry {
        Some(g) => g,
        None => {
            return 0;
        },
    };
    if g.vertex_stride == 0 {
        return 0;
    }
    let mut h: u64 = HASH_SEED ^ (g.vertex_stride as u64 * 2);
    let ghost seed = h;
    let mut i: usize = 0;
    while i < g.attrs.len()
        invariant
            i <= g.attrs@.len(),
            h == hash_words(seed, attr_words(g.attrs@.take(i as int))),
        decreases g.attrs.len() - i,
    {
        let a = g.attrs[i];
        proof {
            assert(g.attrs@.take(i + 1).drop_last() =~= g.attrs@.take(i as int));
            let w0 = attr_words(g.attrs@.take(i as int));
            let w1 = w0.push(a.location);
            let w2 = w1.push(a.format);
            lemma_hash_push(seed, w0, a.location);
            lemma_hash_push(seed, w1, a.format);
            lemma_hash_push(seed, w2, a.offset);
        }
        h = hash_round(hash_round(hash_round(h, a.location), a.format), a.offset);
        i = i + 1;
    }
    assert(g.attrs@.take(i as int) =~= g.attrs@);
    h
}

/// The depth state of a draw, where it needs a depth attachment.
pub open spec fn depth_of(d: ForwardedDraw) -> Option<DepthState> {
    match d.geometry {
        Some(g) => match g.depth {
            Some(s) => if s.needed() {
                Some(s)
            } else {
                None
            },
            None => None,
        },
        None => None,
    }
}

/// The depth state of a draw, where it needs a depth attachment.
pub fn needed_depth(d: &ForwardedDraw) -> (r: Option<DepthState>)
    ensures
        r == depth_of(*d),
{
    match &d.geometry {
        Some(g) => match g.depth {
            Some(s) => if s.attachment_needed() {
                Some(s)
            } else {
                None
            },
            None => None,
        },
        None => None,
    }
}

/// A depth state in one number: an attachment bit, the test, the write, and the compare operation
/// from the fifth bit on. Zero without a depth attachment.
pub open spec fn depth_number(s: Option<DepthState>) -> int {
    match s {
        Some(s) => 1 + if s.test {
            2int
        } else {
            0
        } + if s.write {
            4int
        } else {
            0
        } + 16 * s.compare,
        None => 0,
    }
}

/// Whether a draw needs a depth attachment, and its depth state in one number.
pub fn depth_key_of(d: &ForwardedDraw) -> (r: (bool, u64))
    ensures
        r.0 == depth_of(*d) is Some,
        r.1 == depth_number(depth_of(*d)),
{
    match needed_depth(d) {
        Some(s) => {
            let test: u64 = if s.test {
                2
            } else {
                0
            };
            let write: u64 = if s.write {
                4
            } else {
                0
            };
            (true, 1 + test + write + 16 * s.compare as u64)
        },
        None => (false, 0),
    }
}

/// The raster flags of a draw; zero without a mesh.
pub open spec fn raster_of(d: ForwardedDraw) -> u32 {
    match d.geometry {
        Some(g) => g.raster_flags,
        None => 0,
    }
}

/// The raster flags of a draw; zero without a mesh.
pub fn raster_flags_of(d: &ForwardedDraw) -> (r: u32)
    ensures
        r == raster_of(*d),
{
    match &d.geometry {
        Some(g) => g.raster_flags,
        None => 0,
    }
}

/// The size of a draw's push constants, as a 32-bit number; zero without a mesh.
pub open spec fn push_size(d: ForwardedDraw) -> int {
    match d.geometry {
        Some(g) => g.push_constants@.len() as int % 0x1_0000_0000,
        None => 0,
    }
}

/// The size of a draw's push constants, as a 32-bit number; zero without a mesh.
pub fn push_const_size_of(d: &ForwardedDraw) -> (r: u32)
    ensures
        r == push_size(*d),
{
    match &d.geometry {
        Some(g) => (g.push_constants.len() as u64 % 0x1_0000_0000) as u32,
        None => 0,
    }
}

/// Which resources a draw binds where.
#[derive(Debug, Clone, Copy)]
pub struct DescriptorSig {
    pub ubo_binding: Option<u32>,
    /// The binding of the first texture's image; none without textures.
    pub tex_binding: Option<u32>,
    pub tex_count: u32,
    pub ssbo_binding: Option<u32>,
}

/// Which resources a draw binds where; none where it binds none.
pub open spec fn sig_of(d: ForwardedDraw) -> Option<DescriptorSig> {
    match d.geometry {
        None => None,
        Some(g) => {
            let count = g.textures@.len() as int % 0x1_0000_0000;
            let sig = DescriptorSig {
                ubo_binding: match g.uniform {
                    Some(u) => Some(u.binding),
                    None => None,
                },
                tex_binding: if count > 0 {
                    Some(g.tex_binding)
                } else {
                    None
                },
                tex_count: count as u32,
                ssbo_binding: match g.storage {
                    Some(s) => Some(s.binding),
                    None => None,
                },
            };
            if sig.ubo_binding is None && sig.tex_binding is None && sig.ssbo_binding is None {
                None
            } else {
                Some(sig)
            }
        },
    }
}

/// Which resources a draw binds where; none where it binds none.
pub fn desc_sig_of(d: &ForwardedDraw) -> (r: Option<DescriptorSig>)
    ensures
        r == sig_of(*d),
{
    let g = match &d.geometry {
        Some(g) => g,
        None => {
            return None;
        },
    };
    let ubo_binding = match &g.uniform {
        Some(u) => Some(u.binding),
        None => None,
    };
    let ssbo_binding = match &g.storage {
        Some(s) => Some(s.binding),
        None => None,
    };
    let tex_count: u32 = (g.textures.len() as u64 % 0x1_0000_0000) as u32;
    let tex_binding = if tex_count > 0 {
        Some(g.tex_binding)
    } else {
        None
    };
    if ubo_binding.is_none() && tex_binding.is_none() && ssbo_binding.is_none() {
        None
    } else {
        Some(DescriptorSig { ubo_binding, tex_binding, tex_count, ssbo_binding })
    }
}

/// An attribute of the pipeline's vertex input.
#[derive(Debug, Clone, Copy, PartialEq, Eq, Structural)]
pub struct AttrDesc {
    pub location: u32,
    pub format: i32,
    pub offset: u32,
}

/// The depth state of a pipeline.
#[derive(Debug, Clone, Copy, PartialEq, Eq, Structural)]
pub struct DepthDesc {
    pub test: bool,
    pub write: bool,
    pub compare: i32,
}

/// The state of a graphics pipeline that depends on the draw. The viewport and the scissor are
/// set per frame, so one pipeline serves every size.
#[derive(Debug)]
pub struct PipelineDesc {
    /// Bytes of push constants, read by both stages; zero for none.
    pub push_size: u32,
    /// What descriptor set zero holds; none without one.
    pub sig: Option<DescriptorSig>,
    /// Bytes per vertex; zero for no vertex input.
    pub stride: u32,
    pub attrs: Vec<AttrDesc>,
    pub topology: i32,
    pub cull: u32,
    pub front_face: i32,
    /// Source-alpha-over blending; otherwise the new colour replaces the old.
    pub blend: bool,
    pub depth: Option<DepthDesc>,
}

/// The pipeline's vertex input: the mesh's attributes where it has a vertex buffer.
pub open spec fn input_attrs(c: WireCodes, d: ForwardedDraw) -> Seq<AttrDesc> {
    match d.geometry {
        Some(g) => if g.vertex_stride != 0 {
            Seq::new(
                g.attrs@.len(),
                |i: int|
                    AttrDesc {
                        location: g.attrs@[i].location,
                        format: vformat_of(c, g.attrs@[i].format),
                        offset: g.attrs@[i].offset,
                    },
            )
        } else {
            Seq::empty()
        },
        None => Seq::empty(),
    }
}

/// Whether this is the pipeline state of the draw.
pub open spec fn describes(p: PipelineDesc, c: WireCodes, d: ForwardedDraw) -> bool {
    &&& p.push_size == push_size(d)
    &&& p.sig == sig_of(d)
    &&& p.stride == match d.geometry {
        Some(g) => g.vertex_stride,
        None => 0,
    }
    &&& p.attrs@ == input_attrs(c, d)
    &&& p.topology == topology_of(d.topology)
    &&& p.cull == cull_of(c, raster_of(d))
    &&& p.front_face == if raster_of(d) & c.front_face_cw != 0 {
        FRONT_FACE_CW
    } else {
        FRONT_FACE_CCW
    }
    &&& p.blend == (raster_of(d) & c.blend != 0)
    &&& p.depth == match depth_of(d) {
        Some(s) => Some(
            DepthDesc { test: s.test, write: s.write, compare: compare_of(c, s.compare) },
        ),
        None => None,
    }
}

/// The state of the pipeline that a draw needs.
pub fn pipeline_desc(c: &WireCodes, d: &ForwardedDraw) -> (p: PipelineDesc)
    requires
        c.cull_shift < 32,
    ensures
        describes(p, *c, *d),
{
    let mut attrs: Vec<AttrDesc> = Vec::new();
    let mut stride: u32 = 0;
    if let Some(g) = &d.geometry {
        stride = g.vertex_stride;
        if stride != 0 {
            let mut i: usize = 0;
            while i < g.attrs.len()
                invariant
                    i <= g.attrs@.len(),
                    d.geometry == Some(*g),
                    g.vertex_stride != 0,
                    attrs@ == input_attrs(*c, *d).take(i as int),
                    input_attrs(*c, *d).len() == g.attrs@.len(),
                decreases g.attrs.len() - i,
            {
                let a = g.attrs[i];
                attrs.push(
                    AttrDesc {
                        location: a.location,
                        format: map_vformat(c, a.format),
                        offset: a.offset,
                    },
                );
                assert(attrs@ =~= input_attrs(*c, *d).take(i + 1));
                i = i + 1;
            }
            assert(attrs@ =~= input_attrs(*c, *d));
        }
    }
    let rf: u32 = raster_flags_of(d);
    PipelineDesc {
        push_size: push_const_size_of(d),
        sig: desc_sig_of(d),
        stride,
        attrs,
        topology: map_topology(d.topology),
        cull: map_cull_mode(c, rf),
        front_face: if rf & c.front_face_cw != 0 {
            FRONT_FACE_CW
        } else {
            FRONT_FACE_CCW
        },
        blend: rf & c.blend != 0,
        depth: match needed_depth(d) {
            Some(s) => Some(
                DepthDesc { test: s.test, write: s.write, compare: map_compare(c, s.compare) },
            ),
            None => None,
        },
    }
}

/// What a pipeline is kept under: the shaders and the vertex layout by hash, the entry points by
/// name, and all of the state that is part of it. The frame size is not.
#[derive(Debug)]
pub struct PipelineKey {
    pub vs_hash: u64,
    pub vertex_entry: String,
    pub fs_hash: u64,
    pub fragment_entry: String,
    pub topology: i32,
    pub format: i32,
    pub vinput_hash: u64,
    pub depth_key: u64,
    pub pc_size: u32,
    pub desc_sig: Option<DescriptorSig>,
    pub raster_flags: u32,
}

/// The same, its names as sequences.
#[verifier::ext_equal]
pub struct KeyView {
    pub vs_hash: u64,
    pub vertex_entry: Seq<char>,
    pub fs_hash: u64,
    pub fragment_entry: Seq<char>,
    pub topology: i32,
    pub format: i32,
    pub vinput_hash: u64,
    pub depth_key: u64,
    pub pc_size: u32,
    pub desc_sig: Option<DescriptorSig>,
    pub raster_flags: u32,
}

impl View for PipelineKey {
    type V = KeyView;

    open spec fn view(&self) -> KeyView {
        KeyView {
            vs_hash: self.vs_hash,
            vertex_entry: self.vertex_entry@,
            fs_hash: self.fs_hash,
            fragment_entry: self.fragment_entry@,
            topology: self.topology,
            format: self.format,
            vinput_hash: self.vinput_hash,
            depth_key: self.depth_key,
            pc_size: self.pc_size,
            desc_sig: self.desc_sig,
            raster_flags: self.raster_flags,
        }
    }
}

impl PipelineKey {
    /// The same key again.
    pub fn duplicate(&self) -> (k: Self)
        ensures
            k@ == self@,
    {
        PipelineKey {
            vs_hash: self.vs_hash,
            vertex_entry: self.vertex_entry.clone(),
            fs_hash: self.fs_hash,
            fragment_entry: self.fragment_entry.clone(),
            topology: self.topology,
            format: self.format,
            vinput_hash: self.vinput_hash,
            depth_key: self.depth_key,
            pc_size: self.pc_size,
            desc_sig: self.desc_sig,
            raster_flags: self.raster_flags,
        }
    }
}

/// The key of a draw's pipeline.
pub open spec fn key_of(d: ForwardedDraw, format: i32) -> KeyView {
    KeyView {
        vs_hash: hash_words(HASH_SEED ^ (d.vertex_spirv@.len() as u64), d.vertex_spirv@),
        vertex_entry: d.vertex_entry@,
        fs_hash: hash_words(HASH_SEED ^ (d.fragment_spirv@.len() as u64), d.fragment_spirv@),
        fragment_entry: d.fragment_entry@,
        topology: topology_of(d.topology),
        format,
        vinput_hash: vinput_hash(d),
        depth_key: depth_number(depth_of(d)) as u64,
        pc_size: push_size(d) as u32,
        desc_sig: sig_of(d),
        raster_flags: raster_of(d),
    }
}

/// The key of a draw's pipeline.
pub fn pipeline_key(d: &ForwardedDraw, format: i32) -> (k: PipelineKey)
    ensures
        k@ == key_of(*d, format),
{
    let (_, depth_key) = depth_key_of(d);
    PipelineKey {
        vs_hash: hash_spirv(d.vertex_spirv),
        vertex_entry: d.vertex_entry.to_owned(),
        fs_hash: hash_spirv(d.fragment_spirv),
        fragment_entry: d.fragment_entry.to_owned(),
        topology: map_topology(d.topology),
        format,
        vinput_hash: hash_vinput(d),
        depth_key,
        pc_size: push_const_size_of(d),
        desc_sig: desc_sig_of(d),
        raster_flags: raster_flags_of(d),
    }
}

/// Draws of the same key have the same entry points and the same fixed-function state, so one
/// pipeline may serve both: the same topology, raster and blend state, push constants, descriptors
/// and depth state. The shaders and the vertex layout go by their hashes.
pub proof fn law_key_fixes_state(a: ForwardedDraw, b: ForwardedDraw, format: i32, c: WireCodes)
    requires
        key_of(a, format) == key_of(b, format),
    ensures
        a.vertex_entry@ == b.vertex_entry@,
        a.fragment_entry@ == b.fragment_entry@,
        topology_of(a.topology) == topology_of(b.topology),
        cull_of(c, raster_of(a)) == cull_of(c, raster_of(b)),
        raster_of(a) == raster_of(b),
        push_size(a) == push_size(b),
        sig_of(a) == sig_of(b),
        depth_of(a) == depth_of(b),
{
    assert(depth_number(depth_of(a)) == depth_number(depth_of(b)));
}

/// A draw without a mesh has the plain state: no depth, no push constants, no descriptors, no
/// vertex input, nothing culled by the default flags.
pub proof fn law_plain_draw(d: ForwardedDraw)
    requires
        d.geometry is None,
    ensures
        depth_of(d) is None,
        push_size(d) == 0,
        sig_of(d) is None,
        vinput_hash(d) == 0,
        raster_of(d) == 0,
        key_of(d, 0).depth_key == 0,
{
}

/// The vertex input of a mesh with a vertex buffer is the guest's own: one attribute for each of
/// the guest's, in order, at its location and byte offset, in vertices of the guest's stride.
/// Without a vertex buffer there is no vertex input.
pub proof fn law_vertex_input_is_the_guests(p: PipelineDesc, c: WireCodes, d: ForwardedDraw)
    requires
        describes(p, c, d),
    ensures
        d.geometry is Some && (d.geometry->0).vertex_stride != 0 ==> {
            let g = d.geometry->0;
            &&& p.stride == g.vertex_stride
            &&& p.attrs@.len() == g.attrs@.len()
            &&& forall|i: int|
                0 <= i < g.attrs@.len() ==> (#[trigger] p.attrs@[i]).location
                    == g.attrs@[i].location && p.attrs@[i].offset == g.attrs@[i].offset
        },
        d.geometry is None || (d.geometry->0).vertex_stride == 0 ==> p.stride == 0
            && p.attrs@.len() == 0,
{
}

/// Two draws of meshes with vertex buffers whose attributes differ in number, or anywhere in
/// location or byte offset, never get the same vertex input.
pub proof fn law_vertex_inputs_differ(
    p: PipelineDesc,
    q: PipelineDesc,
    c: WireCodes,
    d: ForwardedDraw,
    e: ForwardedDraw,
    i: int,
)
    requires
        describes(p, c, d),
        describes(q, c, e),
        d.geometry is Some && (d.geometry->0).vertex_stride != 0,
        e.geometry is Some && (e.geometry->0).vertex_stride != 0,
        0 <= i < (d.geometry->0).attrs@.len(),
        ({
            let a = (d.geometry->0).attrs@;
            let b = (e.geometry->0).attrs@;
            a.len() != b.len() || a[i].offset != b[i].offset || a[i].location != b[i].location
        }),
    ensures
        p.attrs@ != q.attrs@,
{
    law_vertex_input_is_the_guests(p, c, d);
    law_vertex_input_is_the_guests(q, c, e);
    if p.attrs@ == q.attrs@ {
        let x = p.attrs@[i];
        let y = q.attrs@[i];
        assert(x == y);
    }
}

/// The bytes of a vertex attribute, by Vulkan's format number.
pub open spec fn format_bytes(format: i32) -> int {
    if format == 37 || format == 98 || format == 100 {
        4
    } else if format == 103 {
        8
    } else if format == 106 {
        12
    } else if format == 109 {
        16
    } else {
        0
    }
}

/// The format of every attribute is the one that the guest named: as many floats as it says, four
/// bytes as colour, or one integer. A number that names no format stands for four floats.
pub proof fn law_attribute_formats(p: PipelineDesc, c: WireCodes, d: ForwardedDraw, i: int)
    requires
        describes(p, c, d),
        d.geometry is Some && (d.geometry->0).vertex_stride != 0,
        0 <= i < (d.geometry->0).attrs@.len(),
        c.r32_sfloat != c.r32g32_sfloat && c.r32_sfloat != c.r32g32b32_sfloat && c.r32_sfloat
            != c.r8g8b8a8_unorm && c.r32_sfloat != c.r32_uint,
        c.r32g32_sfloat != c.r32g32b32_sfloat && c.r32g32_sfloat != c.r8g8b8a8_unorm
            && c.r32g32_sfloat != c.r32_uint,
        c.r32g32b32_sfloat != c.r8g8b8a8_unorm && c.r32g32b32_sfloat != c.r32_uint,
        c.r8g8b8a8_unorm != c.r32_uint,
    ensures
        ({
            let f = (d.geometry->0).attrs@[i].format;
            let got = p.attrs@[i].format;
            &&& f == c.r32_sfloat <==> got == 100
            &&& f == c.r32g32_sfloat <==> got == 103
            &&& f == c.r32g32b32_sfloat <==> got == 106
            &&& f == c.r8g8b8a8_unorm <==> got == 37
            &&& f == c.r32_uint <==> got == 98
            &&& got == 100 || got == 103 || got == 106 || got == 37 || got == 98 || got == 109
            &&& f == c.r32_sfloat ==> format_bytes(got) == 4
            &&& f == c.r32g32_sfloat ==> format_bytes(got) == 2 * 4
            &&& f == c.r32g32b32_sfloat ==> format_bytes(got) == 3 * 4
        }),
{
}

/// Whether the compare operation of Vulkan's number `op` lets a new depth `a` pass against the
/// depth `b` that is there.
pub open spec fn depth_passes(op: i32, a: int, b: int) -> bool {
    match op {
        1 => a < b,
        2 => a == b,
        3 => a <= b,
        4 => a > b,
        5 => a != b,
        6 => a >= b,
        7 => true,
        _ => false,
    }
}

/// The depth test of a pipeline is the guest's: it is there where the guest tests or writes depth,
/// tests and writes as the guest says, and passes what the guest's operation passes. A number that
/// names no operation stands for less-or-equal.
pub proof fn law_depth_test_is_the_guests(
    p: PipelineDesc,
    c: WireCodes,
    d: ForwardedDraw,
    a: int,
    b: int,
)
    requires
        describes(p, c, d),
        d.geometry is Some,
        c.never != c.less && c.never != c.equal && c.never != c.less_or_equal && c.never
            != c.greater && c.never != c.not_equal && c.never != c.greater_or_equal && c.never
            != c.always,
        c.less != c.equal && c.less != c.less_or_equal && c.less != c.greater && c.less
            != c.not_equal && c.less != c.greater_or_equal && c.less != c.always,
        c.equal != c.less_or_equal && c.equal != c.greater && c.equal != c.not_equal && c.equal
            != c.greater_or_equal && c.equal != c.always,
        c.less_or_equal != c.greater && c.less_or_equal != c.not_equal && c.less_or_equal
            != c.greater_or_equal && c.less_or_equal != c.always,
        c.greater != c.not_equal && c.greater != c.greater_or_equal && c.greater != c.always,
        c.not_equal != c.greater_or_equal && c.not_equal != c.always,
        c.greater_or_equal != c.always,
    ensures
        ({
            let g = d.geometry->0;
            &&& p.depth is Some <==> g.depth is Some && (g.depth->0.test || g.depth->0.write)
            &&& p.depth is Some ==> {
                let s = g.depth->0;
                let passes = depth_passes(p.depth->0.compare, a, b);
                &&& p.depth->0.test == s.test
                &&& p.depth->0.write == s.write
                &&& s.compare == c.never ==> !passes
                &&& s.compare == c.less ==> passes == (a < b)
                &&& s.compare == c.equal ==> passes == (a == b)
                &&& s.compare == c.less_or_equal ==> passes == (a <= b)
                &&& s.compare == c.greater ==> passes == (a > b)
                &&& s.compare == c.not_equal ==> passes == (a != b)
                &&& s.compare == c.greater_or_equal ==> passes == (a >= b)
                &&& s.compare == c.always ==> passes
                &&& s.compare != c.never && s.compare != c.less && s.compare != c.equal && s.compare
                    != c.less_or_equal && s.compare != c.greater && s.compare != c.not_equal
                    && s.compare != c.greater_or_equal && s.compare != c.always ==> passes == (a
                    <= b)
            }
        }),
{
}

/// Culling, front face and blending follow the guest's flags: the cull bits name the faces that go
/// (Vulkan's bit 1 for the front, bit 2 for the back), nothing goes where they name none, and the
/// single bits switch clockwise faces and blending.
pub proof fn law_raster_state_is_the_guests(p: PipelineDesc, c: WireCodes, d: ForwardedDraw)
    requires
        describes(p, c, d),
        d.geometry is Some,
        c.cull_front != c.cull_back,
        c.cull_front != c.cull_front_and_back,
        c.cull_back != c.cull_front_and_back,
    ensures
        ({
            let rf = (d.geometry->0).raster_flags;
            let m = (rf >> c.cull_shift) & c.cull_mask;
            &&& p.cull == 1 <==> m == c.cull_front
            &&& p.cull == 2 <==> m == c.cull_back
            &&& p.cull == 3 <==> m == c.cull_front_and_back
            &&& p.cull == 0 <==> m != c.cull_front && m != c.cull_back && m
                != c.cull_front_and_back
            &&& p.front_face == 1 <==> rf & c.front_face_cw != 0
            &&& p.front_face == 0 <==> rf & c.front_face_cw == 0
            &&& p.blend <==> rf & c.blend != 0
        }),
{
}

/// A draw is a triangle strip where the guest says so, and a triangle list otherwise; its push
/// constants and its resources are the guest's, each at the guest's own binding.
pub proof fn law_pipeline_takes_the_guests_resources(
    p: PipelineDesc,
    c: WireCodes,
    d: ForwardedDraw,
)
    requires
        describes(p, c, d),
        d.geometry is Some ==> (d.geometry->0).push_constants@.len() < 0x1_0000_0000,
        d.geometry is Some ==> (d.geometry->0).textures@.len() < 0x1_0000_0000,
    ensures
        d.topology == 1 <==> p.topology == 4,
        d.topology != 1 <==> p.topology == 3,
        d.geometry is None ==> p.push_size == 0 && p.sig is None && p.depth is None,
        d.geometry is Some ==> {
            let g = d.geometry->0;
            &&& p.push_size == g.push_constants@.len()
            &&& p.sig is None <==> g.uniform is None && g.storage is None && g.textures@.len() == 0
            &&& p.sig is Some ==> {
                let s = p.sig->0;
                &&& s.ubo_binding is Some == g.uniform is Some
                &&& g.uniform is Some ==> s.ubo_binding->0 == g.uniform->0.binding
                &&& s.ssbo_binding is Some == g.storage is Some
                &&& g.storage is Some ==> s.ssbo_binding->0 == g.storage->0.binding
                &&& s.tex_count == g.textures@.len()
                &&& s.tex_binding is Some == (g.textures@.len() > 0)
                &&& g.textures@.len() > 0 ==> s.tex_binding->0 == g.tex_binding
            }
        },
{
}

/// Draws whose pipelines differ have different keys: those of another entry point, target format
/// or topology.
pub proof fn law_keys_tell_draws_apart(
    a: ForwardedDraw,
    b: ForwardedDraw,
    format: i32,
    other: i32,
)
    ensures
        a.vertex_entry@ != b.vertex_entry@ ==> key_of(a, format) != key_of(b, format),
        a.fragment_entry@ != b.fragment_entry@ ==> key_of(a, format) != key_of(b, format),
        (a.topology == 1) != (b.topology == 1) ==> key_of(a, format) != key_of(b, format),
        format != other ==> key_of(a, format) != key_of(a, other),
{
}

/// Meshes whose pipelines differ have different keys: those with other raster flags, sizes of push
/// constants, resources or bindings, or another depth test.
pub proof fn law_keys_tell_meshes_apart(a: ForwardedDraw, b: ForwardedDraw, format: i32)
    requires
        a.geometry is Some,
        b.geometry is Some,
        (a.geometry->0).push_constants@.len() < 0x1_0000_0000,
        (b.geometry->0).push_constants@.len() < 0x1_0000_0000,
        (a.geometry->0).textures@.len() < 0x1_0000_0000,
        (b.geometry->0).textures@.len() < 0x1_0000_0000,
        key_of(a, format) == key_of(b, format),
    ensures
        ({
            let g = a.geometry->0;
            let h = b.geometry->0;
            let deep = g.depth is Some && (g.depth->0.test || g.depth->0.write);
            &&& g.raster_flags == h.raster_flags
            &&& g.push_constants@.len() == h.push_constants@.len()
            &&& g.textures@.len() == h.textures@.len()
            &&& g.textures@.len() > 0 ==> g.tex_binding == h.tex_binding
            &&& g.uniform is Some == h.uniform is Some
            &&& g.uniform is Some ==> g.uniform->0.binding == h.uniform->0.binding
            &&& g.storage is Some == h.storage is Some
            &&& g.storage is Some ==> g.storage->0.binding == h.storage->0.binding
            &&& deep == (h.depth is Some && (h.depth->0.test || h.depth->0.write))
            &&& deep ==> g.depth->0 == h.depth->0
        }),
{
    assert(depth_number(depth_of(a)) == depth_number(depth_of(b)));
}

proof fn lemma_cancel(x: int, q: int, m: int, p: int, r: int, k: int)
    requires
        x * p == q * m,
        p * r == 1 + k * m,
        -m < x < m,
    ensures
        x == 0,
{
    let z = q * r - x * k;
    assert(x == z * m) by (nonlinear_arith)
        requires
            x * p == q * m,
            p * r == 1 + k * m,
            z == q * r - x * k,
    ;
    assert(z == 0) by (nonlinear_arith)
        requires
            x == z * m,
            -m < x < m,
    ;
}

proof fn lemma_odd_factor(a: u64, b: u64)
    requires
        a.wrapping_mul(HASH_PRIME) == b.wrapping_mul(HASH_PRIME),
    ensures
        a == b,
{
    let m: int = 0x1_0000_0000_0000_0000;
    let p: int = 0x100_0000_01b3;
    assert((a * p) % m == (b * p) % m);
    vstd::arithmetic::div_mod::lemma_fundamental_div_mod(a * p, m);
    vstd::arithmetic::div_mod::lemma_fundamental_div_mod(b * p, m);
    let q = (a * p) / m - (b * p) / m;
    assert((a - b) * p == a * p - b * p);
    assert(m * ((a * p) / m) - m * ((b * p) / m) == q * m);
    assert(p * 14886173955864302971 == 1 + 887285111055 * m);
    lemma_cancel(a - b, q, m, p, 14886173955864302971, 887285111055);
}

proof fn lemma_hash_step_injective(g: u64, h: u64, v: u32, w: u32)
    requires
        hash_step(g, v) == hash_step(h, w),
    ensures
        v == w ==> g == h,
        g == h ==> v == w,
{
    reveal(hash_step);
    lemma_odd_factor(g ^ (v as u64), h ^ (w as u64));
    assert(g ^ (v as u64) == h ^ (w as u64) && v == w ==> g == h) by (bit_vector);
    assert(g ^ (v as u64) == h ^ (w as u64) && g == h ==> v == w) by (bit_vector);
}

/// Code that differs in one word never has the same hash.
pub proof fn law_hash_sees_every_word(seed: u64, a: Seq<u32>, b: Seq<u32>, i: int)
    requires
        a.len() == b.len(),
        0 <= i < a.len(),
        a[i] != b[i],
        forall|j: int| 0 <= j < a.len() && j != i ==> a[j] == b[j],
    ensures
        hash_words(seed, a) != hash_words(seed, b),
    decreases a.len(),
{
    let c = a.drop_last();
    let d = b.drop_last();
    if hash_words(seed, a) == hash_words(seed, b) {
        lemma_hash_step_injective(
            hash_words(seed, c),
            hash_words(seed, d),
            a.last(),
            b.last(),
        );
        if i == a.len() - 1 {
            assert(c =~= d);
        } else {
            law_hash_sees_every_word(seed, c, d, i);
        }
    }
}

proof fn lemma_hash_seeds(s: u64, t: u64, words: Seq<u32>)
    requires
        s != t,
    ensures
        hash_words(s, words) != hash_words(t, words),
    decreases words.len(),
{
    if words.len() > 0 {
        let c = words.drop_last();
        lemma_hash_seeds(s, t, c);
        if hash_words(s, words) == hash_words(t, words) {
            lemma_hash_step_injective(
                hash_words(s, c),
                hash_words(t, c),
                words.last(),
                words.last(),
            );
        }
    }
}

proof fn lemma_attr_words(attrs: Seq<VertexAttr>)
    ensures
        attr_words(attrs).len() == 3 * attrs.len(),
        forall|i: int|
            0 <= i < attrs.len() ==> attr_words(attrs)[3 * i] == (#[trigger] attrs[i]).location
                && attr_words(attrs)[3 * i + 1] == attrs[i].format && attr_words(attrs)[3 * i + 2]
                == attrs[i].offset,
    decreases attrs.len(),
{
    if attrs.len() > 0 {
        let before = attrs.drop_last();
        lemma_attr_words(before);
        assert forall|i: int| 0 <= i < attrs.len() implies attr_words(attrs)[3 * i] == (
        #[trigger] attrs[i]).location && attr_words(attrs)[3 * i + 1] == attrs[i].format
            && attr_words(attrs)[3 * i + 2] == attrs[i].offset by {
            if i < before.len() {
                assert(before[i] == attrs[i]);
            }
        }
    }
}

/// Vertex layouts that differ in the stride alone, or in one number of one attribute alone, never
/// have the same hash.
pub proof fn law_layout_hash_sees_every_number(
    a: ForwardedDraw,
    b: ForwardedDraw,
    i: int,
)
    requires
        a.geometry is Some && (a.geometry->0).vertex_stride != 0,
        b.geometry is Some && (b.geometry->0).vertex_stride != 0,
        (a.geometry->0).attrs@.len() == (b.geometry->0).attrs@.len(),
        ({
            let g = a.geometry->0;
            let h = b.geometry->0;
            let s = g.attrs@;
            let t = h.attrs@;
            ||| g.vertex_stride != h.vertex_stride && s == t
            ||| {
                &&& g.vertex_stride == h.vertex_stride
                &&& 0 <= i < s.len()
                &&& forall|j: int| 0 <= j < s.len() && j != i ==> s[j] == t[j]
                &&& {
                    ||| s[i] == (VertexAttr { location: s[i].location, ..t[i] }) && s[i].location
                        != t[i].location
                    ||| s[i] == (VertexAttr { format: s[i].format, ..t[i] }) && s[i].format
                        != t[i].format
                    ||| s[i] == (VertexAttr { offset: s[i].offset, ..t[i] }) && s[i].offset
                        != t[i].offset
                }
            }
        }),
    ensures
        key_of(a, 0).vinput_hash != key_of(b, 0).vinput_hash,
{
    let g = a.geometry->0;
    let h = b.geometry->0;
    let s = g.attrs@;
    let t = h.attrs@;
    let x = (g.vertex_stride * 2) as u64;
    let y = (h.vertex_stride * 2) as u64;
    if g.vertex_stride != h.vertex_stride {
        assert(x != y);
        let seed = HASH_SEED;
        assert(x != y ==> seed ^ x != seed ^ y) by (bit_vector);
        lemma_hash_seeds(HASH_SEED ^ x, HASH_SEED ^ y, attr_words(s));
    } else {
        lemma_attr_words(s);
        lemma_attr_words(t);
        let u = attr_words(s);
        let v = attr_words(t);
        let k = if s[i].location != t[i].location {
            3 * i
        } else if s[i].format != t[i].format {
            3 * i + 1
        } else {
            3 * i + 2
        };
        assert forall|j: int| 0 <= j < u.len() && j != k implies u[j] == v[j] by {
            let n = j / 3;
            assert(j == 3 * n || j == 3 * n + 1 || j == 3 * n + 2);
            assert(0 <= n < s.len());
            let p = s[n];
            let q = t[n];
            assert(n != i ==> p == q);
        }
        law_hash_sees_every_word(HASH_SEED ^ x, u, v, k);
    }
}

/// The built-in triangle and what it is made of, whatever its code.
pub proof fn law_builtin_triangle<'a>(spirv: &'a [u32], d: ForwardedDraw<'a>)
    requires
        call_ensures(ForwardedDraw::<'a>::builtin_triangle, (spirv,), d),
    ensures
        d.vertex_spirv@ == spirv@,
        d.fragment_spirv@ == spirv@,
        d.vertex_count == 3,
        d.topology != 1,
        d.geometry is None,
        d.vertex_entry@ == "vs_main"@,
        d.fragment_entry@ == "fs_main"@,
{
}

/// A pipeline is described by the draw that it is for: all that the laws of its state say holds of
/// it. Its parts, asked for one by one, are the same.
pub proof fn law_pipeline_is_of_its_draw(
    c: &WireCodes,
    d: &ForwardedDraw,
    p: PipelineDesc,
    format: i32,
    k: PipelineKey,
    number: u32,
    topology: i32,
    vformat: i32,
    compare: i32,
    cull: u32,
)
    requires
        c.cull_shift < 32,
        call_ensures(pipeline_desc, (c, d), p),
        call_ensures(pipeline_key, (d, format), k),
        call_ensures(map_topology, (number,), topology),
        call_ensures(map_vformat, (c, number), vformat),
        call_ensures(map_compare, (c, number), compare),
        call_ensures(map_cull_mode, (c, number), cull),
    ensures
        describes(p, *c, *d),
        k@ == key_of(*d, format),
        k.format == format,
        d.topology == number ==> k.topology == topology && p.topology == topology,
        topology == 4 <==> number == 1,
        topology == 3 <==> number != 1,
        vformat == vformat_of(*c, number),
        compare == compare_of(*c, number),
        d.geometry is Some && (d.geometry->0).raster_flags == number ==> p.cull == cull,
        d.geometry is Some ==> k.raster_flags == (d.geometry->0).raster_flags,
        d.geometry is Some && (d.geometry->0).vertex_stride != 0 ==> {
            let g = d.geometry->0;
            &&& p.stride == g.vertex_stride
            &&& p.attrs@.len() == g.attrs@.len()
            &&& forall|i: int|
                0 <= i < g.attrs@.len() ==> (#[trigger] p.attrs@[i]).location
                    == g.attrs@[i].location && p.attrs@[i].offset == g.attrs@[i].offset
        },
{
    law_vertex_input_is_the_guests(p, *c, *d);
}

/// What of a draw goes into its key is the draw's own: its depth state where it tests or writes
/// depth, its flags, its push constants and its resources.
pub proof fn law_key_parts(
    d: &ForwardedDraw,
    depth: Option<DepthState>,
    number: (bool, u64),
    flags: u32,
    size: u32,
    sig: Option<DescriptorSig>,
)
    requires
        call_ensures(needed_depth, (d,), depth),
        call_ensures(depth_key_of, (d,), number),
        call_ensures(raster_flags_of, (d,), flags),
        call_ensures(push_const_size_of, (d,), size),
        call_ensures(desc_sig_of, (d,), sig),
        d.geometry is Some ==> (d.geometry->0).push_constants@.len() < 0x1_0000_0000,
    ensures
        d.geometry is None ==> depth is None && flags == 0 && size == 0 && sig is None,
        d.geometry is Some ==> {
            let g = d.geometry->0;
            let deep = g.depth is Some && (g.depth->0.test || g.depth->0.write);
            &&& deep <==> depth is Some
            &&& deep ==> depth == g.depth
            &&& deep <==> number.0
            &&& !deep <==> number.1 == 0
            &&& deep ==> number.1 % 2 == 1
            &&& deep ==> (number.1 / 2 % 2 == 1 <==> g.depth->0.test)
            &&& deep ==> (number.1 / 4 % 2 == 1 <==> g.depth->0.write)
            &&& deep ==> number.1 / 16 == g.depth->0.compare
            &&& flags == g.raster_flags
            &&& size == g.push_constants@.len()
        },
        sig == sig_of(*d),
{
}

/// Shaders of one length that differ in one word have different hashes.
pub proof fn law_shaders_are_told_apart(a: &[u32], b: &[u32], x: u64, y: u64, i: int)
    requires
        call_ensures(hash_spirv, (a,), x),
        call_ensures(hash_spirv, (b,), y),
        a@.len() == b@.len(),
        0 <= i < a@.len(),
        a@[i] != b@[i],
        forall|j: int| 0 <= j < a@.len() && j != i ==> a@[j] == b@[j],
    ensures
        x != y,
{
    law_hash_sees_every_word(HASH_SEED ^ (a@.len() as u64), a@, b@, i);
}

/// A depth attachment is needed to test the depth and to write it, and for nothing else.
pub proof fn law_depth_attachment(s: &DepthState, b: bool)
    requires
        call_ensures(DepthState::attachment_needed, (s,), b),
    ensures
        s.test ==> b,
        s.write ==> b,
        !s.test && !s.write ==> !b,
{
}

/// The content hash is the 64-bit FNV-1a of whole words, with their number mixed into its offset:
/// of no words it is the offset, and each further word is mixed in and multiplied by the prime.
pub proof fn law_hash_rounds(
    none: &[u32],
    x: u64,
    one: &[u32],
    y: u64,
    seed: u64,
    s: Seq<u32>,
    w: u32,
)
    requires
        none@.len() == 0,
        call_ensures(hash_spirv, (none,), x),
        one@.len() == 1,
        call_ensures(hash_spirv, (one,), y),
    ensures
        x == 0xcbf2_9ce4_8422_2325u64,
        y == (0xcbf2_9ce4_8422_2324u64 ^ (one@[0] as u64)).wrapping_mul(0x100_0000_01b3),
        hash_words(seed, s.push(w)) == (hash_words(seed, s) ^ (w as u64)).wrapping_mul(
            0x100_0000_01b3,
        ),
{
    reveal(hash_step);
    lemma_hash_push(seed, s, w);
    assert(0xcbf2_9ce4_8422_2325u64 ^ 0u64 == 0xcbf2_9ce4_8422_2325u64) by (bit_vector);
    assert(0xcbf2_9ce4_8422_2325u64 ^ 1u64 == 0xcbf2_9ce4_8422_2324u64) by (bit_vector);
    assert(one@ =~= Seq::<u32>::empty().push(one@[0]));
    lemma_hash_push(HASH_SEED ^ 1u64, Seq::empty(), one@[0]);
}

} // verus!
