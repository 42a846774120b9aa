//! What a draw brings along: descriptor sets, textures and mesh buffers.
use crate::gpu::memory::HOST_MEMORY;
use crate::gpu::scratch::{
    descriptor_order, frame_descriptor_order, geometry_order, texture_order, Slot,
};
use crate::gpu::steps::{
    buffer_steps, filled, given_back, image_steps, lemma_object_steps, lemma_step_push,
    lemma_steps_join, orderly, plan_buffer, plan_image, push_steps, Step,
};
use crate::gpu::vk::{
    ADDRESS_CLAMP_TO_EDGE, ADDRESS_REPEAT, ASPECT_COLOR, BUFFER_INDEX, BUFFER_STORAGE,
    BUFFER_TRANSFER_SRC, BUFFER_UNIFORM, BUFFER_VERTEX, DESCRIPTOR_SAMPLED_IMAGE,
    DESCRIPTOR_SAMPLER, DESCRIPTOR_STORAGE_BUFFER, DESCRIPTOR_UNIFORM_BUFFER, FILTER_LINEAR,
    FILTER_NEAREST, FORMAT_R8G8B8A8_UNORM, IMAGE_SAMPLED, IMAGE_TRANSFER_DST, SHADER_FRAGMENT,
    SHADER_VERTEX,
};
use crate::replay::draw::{
    DescriptorSig, Geometry, SamplerCfg, StorageBlock, Texture, UniformBlock,
};
use crate::text::{decimal, push_decimal};
use vstd::prelude::*;
use vstd::string::StringExecFns;

verus! {

/// The most textures that a draw may bind.
pub const MAX_TEXTURES: usize = 8;

/// The most bytes that a storage buffer may hold.
pub const MAX_SSBO_BYTES: usize = 0x100_0000;

/// The most bytes that a uniform buffer may hold.
pub const MAX_UBO_BYTES: usize = 0x1_0000;

/// The longest side of a texture.
pub const MAX_TEXTURE_SIDE: u32 = 16384;

/// Why a draw's resources are refused.
#[derive(Debug, Clone, Copy, PartialEq, Eq, Structural)]
pub enum ResourceError {
    /// An empty or oversized uniform buffer.
    BadUniform { bytes: usize },
    /// An empty or oversized storage buffer.
    BadStorage { bytes: usize },
    TooManyTextures { count: usize },
    /// A texture without a side, with an oversized one, or with bytes for another size.
    BadTexture { width: u32, height: u32, bytes: usize },
    /// A mesh buffer without bytes.
    EmptyBuffer,
}

impl ResourceError {
    /// The words that `message` gives.
    pub open spec fn words(self) -> Seq<char> {
        match self {
            ResourceError::BadUniform { bytes } => "bad uniform block ("@ + decimal(bytes as nat)
                + " bytes)"@,
            ResourceError::BadStorage { bytes } => "bad storage block ("@ + decimal(bytes as nat)
                + " bytes)"@,
            ResourceError::TooManyTextures { count } => "too many textures ("@ + decimal(
                count as nat,
            ) + " > "@ + decimal(MAX_TEXTURES as nat) + ")"@,
            ResourceError::BadTexture { width, height, bytes } => "bad texture "@ + decimal(
                width as nat,
            ) + "x"@ + decimal(height as nat) + " ("@ + decimal(bytes as nat) + " bytes)"@,
            ResourceError::EmptyBuffer => "empty geometry buffer"@,
        }
    }

    /// The refusal in words.
    pub fn message(&self) -> (s: String)
        ensures
            s@ == self.words(),
    {
        match *self {
            ResourceError::BadUniform { bytes } => {
                let mut s = "bad uniform block (".to_owned();
                push_decimal(&mut s, bytes as u64);
                s.append(" bytes)");
                s
            },
            ResourceError::BadStorage { bytes } => {
                let mut s = "bad storage block (".to_owned();
                push_decimal(&mut s, bytes as u64);
                s.append(" bytes)");
                s
            },
            ResourceError::TooManyTextures { count } => {
                let mut s = "too many textures (".to_owned();
                push_decimal(&mut s, count as u64);
                s.append(" > ");
                push_decimal(&mut s, MAX_TEXTURES as u64);
                s.append(")");
                s
            },
            ResourceError::BadTexture { width, height, bytes } => {
                let mut s = "bad texture ".to_owned();
                push_decimal(&mut s, width as u64);
                s.append("x");
                push_decimal(&mut s, height as u64);
                s.append(" (");
                push_decimal(&mut s, bytes as u64);
                s.append(" bytes)");
                s
            },
            ResourceError::EmptyBuffer => "empty geometry buffer".to_owned(),
        }
    }
}

/// A binding of a descriptor-set layout: one descriptor of a type, read by some stages.
#[derive(Debug, Clone, Copy, PartialEq, Eq, Structural)]
pub struct BindingDesc {
    pub binding: u32,
    pub descriptor: i32,
    pub stages: u32,
}

/// Both shader stages.
pub const BOTH_STAGES: u32 = 17;

/// The bindings of the first `n` textures: an image and a sampler each, from `base` on.
pub open spec fn texture_bindings(base: u32, n: nat) -> Seq<BindingDesc>
    decreases n,
{
    if n == 0 {
        Seq::empty()
    } else {
        texture_bindings(base, (n - 1) as nat).push(
            BindingDesc {
                binding: (base + 2 * (n - 1)) as u32,
                descriptor: DESCRIPTOR_SAMPLED_IMAGE,
                stages: SHADER_FRAGMENT,
            },
        ).push(
            BindingDesc {
                binding: (base + 2 * (n - 1) + 1) as u32,
                descriptor: DESCRIPTOR_SAMPLER,
                stages: SHADER_FRAGMENT,
            },
        )
    }
}

/// The binding of a buffer, where there is one.
pub open spec fn buffer_binding(binding: Option<u32>, descriptor: i32) -> Seq<BindingDesc> {
    match binding {
        Some(b) => seq![BindingDesc { binding: b, descriptor, stages: BOTH_STAGES }],
        None => Seq::empty(),
    }
}

/// The bindings of a descriptor-set layout: the uniform buffer, the storage buffer, the textures.
pub open spec fn layout_of(sig: DescriptorSig) -> Seq<BindingDesc> {
    buffer_binding(sig.ubo_binding, DESCRIPTOR_UNIFORM_BUFFER) + buffer_binding(
        sig.ssbo_binding,
        DESCRIPTOR_STORAGE_BUFFER,
    ) + match sig.tex_binding {
        Some(base) => texture_bindings(base, sig.tex_count as nat),
        None => Seq::empty(),
    }
}

/// Whether the texture bindings are 32-bit numbers.
pub open spec fn bindings_fit(base: u32, n: int) -> bool {
    n > 0 ==> base + 2 * n - 1 <= u32::MAX
}

/// The bindings of a descriptor-set layout.
pub fn layout_bindings(sig: &DescriptorSig) -> (out: Vec<BindingDesc>)
    requires
        sig.tex_binding is Some ==> bindings_fit(sig.tex_binding->0, sig.tex_count as int),
    ensures
        out@ == layout_of(*sig),
{
    let mut out: Vec<BindingDesc> = Vec::new();
    if let Some(b) = sig.ubo_binding {
        out.push(
            BindingDesc {
                binding: b,
                descriptor: DESCRIPTOR_UNIFORM_BUFFER,
                stages: BOTH_STAGES,
            },
        );
    }
    assert(out@ =~= buffer_binding(sig.ubo_binding, DESCRIPTOR_UNIFORM_BUFFER));
    let ghost a = out@;
    if let Some(b) = sig.ssbo_binding {
        out.push(
            BindingDesc {
                binding: b,
                descriptor: DESCRIPTOR_STORAGE_BUFFER,
                stages: BOTH_STAGES,
            },
        );
    }
    assert(out@ =~= a + buffer_binding(sig.ssbo_binding, DESCRIPTOR_STORAGE_BUFFER));
    let ghost b = out@;
    if let Some(base) = sig.tex_binding {
        let mut i: u32 = 0;
        while i < sig.tex_count
            invariant
                i <= sig.tex_count,
                bindings_fit(base, sig.tex_count as int),
                out@ == b + texture_bindings(base, i as nat),
            decreases sig.tex_count - i,
        {
            let at: u32 = base + 2 * i;
            out.push(
                BindingDesc {
                    binding: at,
                    descriptor: DESCRIPTOR_SAMPLED_IMAGE,
                    stages: SHADER_FRAGMENT,
                },
            );
            out.push(
                BindingDesc {
                    binding: at + 1,
                    descriptor: DESCRIPTOR_SAMPLER,
                    stages: SHADER_FRAGMENT,
                },
            );
            assert(out@ =~= b + texture_bindings(base, (i + 1) as nat));
            i = i + 1;
        }
    }
    assert(out@ =~= layout_of(*sig));
    out
}

/// How many descriptors of a type a pool holds.
#[derive(Debug, Clone, Copy, PartialEq, Eq, Structural)]
pub struct PoolSize {
    pub descriptor: i32,
    pub count: u32,
}

/// The sizes of the pool for a draw's descriptors.
pub open spec fn pool_of(uniform: bool, storage: bool, textures: u32) -> Seq<PoolSize> {
    let u = if uniform {
        seq![PoolSize { descriptor: DESCRIPTOR_UNIFORM_BUFFER, count: 1 }]
    } else {
        Seq::empty()
    };
    let s = if storage {
        seq![PoolSize { descriptor: DESCRIPTOR_STORAGE_BUFFER, count: 1 }]
    } else {
        Seq::empty()
    };
    let t = if textures > 0 {
        seq![
            PoolSize { descriptor: DESCRIPTOR_SAMPLED_IMAGE, count: textures },
            PoolSize { descriptor: DESCRIPTOR_SAMPLER, count: textures },
        ]
    } else {
        Seq::empty()
    };
    u + s + t
}

/// The sizes of the pool for a draw's descriptors.
pub fn pool_sizes(uniform: bool, storage: bool, textures: u32) -> (out: Vec<PoolSize>)
    ensures
        out@ == pool_of(uniform, storage, textures),
{
    let mut out: Vec<PoolSize> = Vec::new();
    if uniform {
        out.push(PoolSize { descriptor: DESCRIPTOR_UNIFORM_BUFFER, count: 1 });
    }
    if storage {
        out.push(PoolSize { descriptor: DESCRIPTOR_STORAGE_BUFFER, count: 1 });
    }
    if textures > 0 {
        out.push(PoolSize { descriptor: DESCRIPTOR_SAMPLED_IMAGE, count: textures });
        out.push(PoolSize { descriptor: DESCRIPTOR_SAMPLER, count: textures });
    }
    assert(out@ =~= pool_of(uniform, storage, textures));
    out
}

/// A buffer of the descriptor set: made, filled, and written into the set.
pub open spec fn block_steps(
    buffer: Slot,
    memory: Slot,
    size: u64,
    usage: u32,
    binding: u32,
    descriptor: i32,
) -> Seq<Step> {
    buffer_steps(buffer, memory, size, usage, HOST_MEMORY, 0) + seq![
        Step::Fill { memory, size },
        Step::WriteBuffer { binding, descriptor, buffer, size },
    ]
}

fn plan_block(
    buffer: Slot,
    memory: Slot,
    size: u64,
    usage: u32,
    binding: u32,
    descriptor: i32,
) -> (out: Vec<Step>)
    ensures
        out@ == block_steps(buffer, memory, size, usage, binding, descriptor),
{
    let mut out = plan_buffer(buffer, memory, size, usage, HOST_MEMORY, 0);
    let ghost a = out@;
    out.push(Step::Fill { memory, size });
    out.push(Step::WriteBuffer { binding, descriptor, buffer, size });
    assert(out@ =~= a + seq![
        Step::Fill { memory, size },
        Step::WriteBuffer { binding, descriptor, buffer, size },
    ]);
    out
}

/// The textures of a descriptor set, each at its binding.
pub open spec fn textures_steps(base: u32, n: nat) -> Seq<Step>
    decreases n,
{
    if n == 0 {
        Seq::empty()
    } else {
        textures_steps(base, (n - 1) as nat).push(
            Step::Texture { index: (n - 1) as u32, binding: (base + 2 * (n - 1)) as u32 },
        )
    }
}

/// The plan of a draw's descriptor set: a pool, the set, the uniform buffer, the storage buffer
/// and the textures.
pub open spec fn descriptor_plan(
    uniform: Option<UniformBlock>,
    storage: Option<StorageBlock>,
    textures: nat,
    base: u32,
) -> Seq<Step> {
    seq![
        Step::DescriptorPool { into: Slot::DescPool },
        Step::DescriptorSet { pool: Slot::DescPool },
    ] + match uniform {
        Some(u) => block_steps(
            Slot::Uniform,
            Slot::UniformMem,
            u.bytes@.len() as u64,
            BUFFER_UNIFORM,
            u.binding,
            DESCRIPTOR_UNIFORM_BUFFER,
        ),
        None => Seq::empty(),
    } + match storage {
        Some(s) => block_steps(
            Slot::Storage,
            Slot::StorageMem,
            s.bytes@.len() as u64,
            BUFFER_STORAGE,
            s.binding,
            DESCRIPTOR_STORAGE_BUFFER,
        ),
        None => Seq::empty(),
    } + textures_steps(base, textures)
}

/// Why a draw's descriptor set is refused; `None` when it is planned.
pub open spec fn descriptor_refusal(
    uniform: Option<UniformBlock>,
    storage: Option<StorageBlock>,
    textures: nat,
) -> Option<ResourceError> {
    if uniform is Some && !(1 <= (uniform->0).bytes@.len() <= MAX_UBO_BYTES) {
        Some(ResourceError::BadUniform { bytes: (uniform->0).bytes@.len() as usize })
    } else if storage is Some && !(1 <= (storage->0).bytes@.len() <= MAX_SSBO_BYTES) {
        Some(ResourceError::BadStorage { bytes: (storage->0).bytes@.len() as usize })
    } else if textures > MAX_TEXTURES {
        Some(ResourceError::TooManyTextures { count: textures as usize })
    } else {
        None
    }
}

/// Plans a draw's descriptor set. Nothing is planned for an empty or oversized buffer, or for too
/// many textures.
pub fn plan_descriptors(
    uniform: Option<UniformBlock>,
    storage: Option<StorageBlock>,
    textures: usize,
    base: u32,
) -> (r: Result<Vec<Step>, ResourceError>)
    requires
        textures <= MAX_TEXTURES ==> bindings_fit(base, textures as int),
    ensures
        match descriptor_refusal(uniform, storage, textures as nat) {
            Some(e) => r is Err && r->Err_0 == e,
            None => r is Ok && r->Ok_0@ == descriptor_plan(
                uniform,
                storage,
                textures as nat,
                base,
            ),
        },
{
    if let Some(u) = &uniform {
        if u.bytes.len() == 0 || u.bytes.len() > MAX_UBO_BYTES {
            return Err(ResourceError::BadUniform { bytes: u.bytes.len() });
        }
    }
    if let Some(s) = &storage {
        if s.bytes.len() == 0 || s.bytes.len() > MAX_SSBO_BYTES {
            return Err(ResourceError::BadStorage { bytes: s.bytes.len() });
        }
    }
    if textures > MAX_TEXTURES {
        return Err(ResourceError::TooManyTextures { count: textures });
    }
    let mut out: Vec<Step> = Vec::new();
    out.push(Step::DescriptorPool { into: Slot::DescPool });
    out.push(Step::DescriptorSet { pool: Slot::DescPool });
    assert(out@ =~= seq![
        Step::DescriptorPool { into: Slot::DescPool },
        Step::DescriptorSet { pool: Slot::DescPool },
    ]);
    let ghost a = out@;
    if let Some(u) = &uniform {
        push_steps(
            &mut out,
            plan_block(
                Slot::Uniform,
                Slot::UniformMem,
                u.bytes.len() as u64,
                BUFFER_UNIFORM,
                u.binding,
                DESCRIPTOR_UNIFORM_BUFFER,
            ),
        );
    } else {
        assert(a =~= a + Seq::<Step>::empty());
    }
    let ghost b = out@;
    if let Some(s) = &storage {
        push_steps(
            &mut out,
            plan_block(
                Slot::Storage,
                Slot::StorageMem,
                s.bytes.len() as u64,
                BUFFER_STORAGE,
                s.binding,
                DESCRIPTOR_STORAGE_BUFFER,
            ),
        );
    } else {
        assert(b =~= b + Seq::<Step>::empty());
    }
    let ghost c = out@;
    let n: u32 = textures as u32;
    let mut i: u32 = 0;
    while i < n
        invariant
            i <= n,
            bindings_fit(base, n as int),
            out@ == c + textures_steps(base, i as nat),
        decreases n - i,
    {
        out.push(Step::Texture { index: i, binding: base + 2 * i });
        assert(out@ =~= c + textures_steps(base, (i + 1) as nat));
        i = i + 1;
    }
    Ok(out)
}

/// What a step writes into the descriptor set, by binding and type: a buffer where it says, a
/// texture's image and its sampler one further.
pub open spec fn writes(s: Step) -> Seq<(u32, i32)> {
    match s {
        Step::WriteBuffer { binding, descriptor, .. } => seq![(binding, descriptor)],
        Step::WriteImage { binding, .. } => seq![(binding, DESCRIPTOR_SAMPLED_IMAGE)],
        Step::WriteSampler { binding, .. } => seq![(binding, DESCRIPTOR_SAMPLER)],
        Step::Texture { binding, .. } => seq![
            (binding, DESCRIPTOR_SAMPLED_IMAGE),
            ((binding + 1) as u32, DESCRIPTOR_SAMPLER),
        ],
        _ => Seq::empty(),
    }
}

/// What the steps of a plan write into the descriptor set.
pub open spec fn written(plan: Seq<Step>) -> Seq<(u32, i32)>
    decreases plan.len(),
{
    if plan.len() == 0 {
        Seq::empty()
    } else {
        written(plan.drop_last()) + writes(plan.last())
    }
}

/// Bindings and types of a layout.
pub open spec fn declared(layout: Seq<BindingDesc>) -> Seq<(u32, i32)> {
    Seq::new(layout.len(), |i: int| (layout[i].binding, layout[i].descriptor))
}

proof fn lemma_written_join(a: Seq<Step>, b: Seq<Step>)
    ensures
        written(a + b) == written(a) + written(b),
    decreases b.len(),
{
    if b.len() == 0 {
        assert(a + b =~= a);
        assert(written(a) + written(b) =~= written(a));
    } else {
        lemma_written_join(a, b.drop_last());
        assert((a + b).drop_last() =~= a + b.drop_last());
        assert((a + b).last() == b.last());
        assert(written(a + b) =~= written(a) + written(b));
    }
}

proof fn lemma_written_push(a: Seq<Step>, s: Step)
    ensures
        written(a.push(s)) == written(a) + writes(s),
{
    assert(a.push(s).drop_last() =~= a);
}

proof fn lemma_written_block(
    buffer: Slot,
    memory: Slot,
    size: u64,
    usage: u32,
    binding: u32,
    descriptor: i32,
)
    ensures
        written(block_steps(buffer, memory, size, usage, binding, descriptor)) == seq![
            (binding, descriptor),
        ],
{
    let b = buffer_steps(buffer, memory, size, usage, HOST_MEMORY, 0);
    let e = Seq::<Step>::empty();
    lemma_written_push(e, b[0]);
    lemma_written_push(e.push(b[0]), b[1]);
    lemma_written_push(e.push(b[0]).push(b[1]), b[2]);
    assert(b =~= e.push(b[0]).push(b[1]).push(b[2]));
    let f = Step::Fill { memory, size };
    let w = Step::WriteBuffer { binding, descriptor, buffer, size };
    lemma_written_push(b, f);
    lemma_written_push(b.push(f), w);
    assert(block_steps(buffer, memory, size, usage, binding, descriptor) =~= b.push(f).push(w));
    assert(written(b.push(f).push(w)) =~= seq![(binding, descriptor)]);
}

proof fn lemma_written_textures(base: u32, n: nat)
    requires
        bindings_fit(base, n as int),
    ensures
        written(textures_steps(base, n)) == declared(texture_bindings(base, n)),
    decreases n,
{
    if n > 0 {
        lemma_written_textures(base, (n - 1) as nat);
        let a = textures_steps(base, (n - 1) as nat);
        let s = Step::Texture { index: (n - 1) as u32, binding: (base + 2 * (n - 1)) as u32 };
        lemma_written_push(a, s);
        assert(written(textures_steps(base, n)) =~= declared(texture_bindings(base, n)));
    } else {
        assert(written(textures_steps(base, n)) =~= declared(texture_bindings(base, n)));
    }
}

/// A descriptor set is written exactly as its layout declares it: every binding of the layout
/// once, with its type, and no other.
pub proof fn law_set_matches_layout(
    uniform: Option<UniformBlock>,
    storage: Option<StorageBlock>,
    textures: nat,
    base: u32,
    sig: DescriptorSig,
)
    requires
        textures <= MAX_TEXTURES,
        bindings_fit(base, textures as int),
        sig.ubo_binding == match uniform {
            Some(u) => Some(u.binding),
            None => None,
        },
        sig.ssbo_binding == match storage {
            Some(s) => Some(s.binding),
            None => None,
        },
        sig.tex_count == textures,
        sig.tex_binding == if textures > 0 {
            Some(base)
        } else {
            None
        },
    ensures
        written(descriptor_plan(uniform, storage, textures, base)) == declared(layout_of(sig)),
{
    let head = seq![
        Step::DescriptorPool { into: Slot::DescPool },
        Step::DescriptorSet { pool: Slot::DescPool },
    ];
    let u = match uniform {
        Some(u) => block_steps(
            Slot::Uniform,
            Slot::UniformMem,
            u.bytes@.len() as u64,
            BUFFER_UNIFORM,
            u.binding,
            DESCRIPTOR_UNIFORM_BUFFER,
        ),
        None => Seq::empty(),
    };
    let s = match storage {
        Some(s) => block_steps(
            Slot::Storage,
            Slot::StorageMem,
            s.bytes@.len() as u64,
            BUFFER_STORAGE,
            s.binding,
            DESCRIPTOR_STORAGE_BUFFER,
        ),
        None => Seq::empty(),
    };
    let t = textures_steps(base, textures);
    let e = Seq::<Step>::empty();
    lemma_written_push(e, head[0]);
    lemma_written_push(e.push(head[0]), head[1]);
    assert(head =~= e.push(head[0]).push(head[1]));
    assert(written(head) =~= Seq::<(u32, i32)>::empty());
    lemma_written_join(head, u);
    lemma_written_join(head + u, s);
    lemma_written_join(head + u + s, t);
    if uniform is Some {
        lemma_written_block(
            Slot::Uniform,
            Slot::UniformMem,
            (uniform->0).bytes@.len() as u64,
            BUFFER_UNIFORM,
            (uniform->0).binding,
            DESCRIPTOR_UNIFORM_BUFFER,
        );
    }
    if storage is Some {
        lemma_written_block(
            Slot::Storage,
            Slot::StorageMem,
            (storage->0).bytes@.len() as u64,
            BUFFER_STORAGE,
            (storage->0).binding,
            DESCRIPTOR_STORAGE_BUFFER,
        );
    }
    lemma_written_textures(base, textures);
    assert(written(descriptor_plan(uniform, storage, textures, base)) =~= declared(
        layout_of(sig),
    ));
}

/// The usage of a texture image.
pub const TEXTURE_USAGE: u32 = 6;

/// The combined numbers, in terms of the single ones.
pub proof fn law_resource_numbers()
    ensures
        BOTH_STAGES == SHADER_VERTEX | SHADER_FRAGMENT,
        TEXTURE_USAGE == IMAGE_SAMPLED | IMAGE_TRANSFER_DST,
{
    assert(17u32 == 1u32 | 0x10u32) by (bit_vector);
    assert(6u32 == 4u32 | 2u32) by (bit_vector);
}

/// How a sampler filters.
pub open spec fn filter_of(s: SamplerCfg) -> i32 {
    if s.linear {
        FILTER_LINEAR
    } else {
        FILTER_NEAREST
    }
}

/// How a sampler addresses.
pub open spec fn address_of(s: SamplerCfg) -> i32 {
    if s.repeat {
        ADDRESS_REPEAT
    } else {
        ADDRESS_CLAMP_TO_EDGE
    }
}

/// The plan of a texture: its pixels in a staging buffer, the image with its view, a sampler, and
/// both written into the descriptor set.
pub open spec fn texture_plan(t: Texture, binding: u32) -> Seq<Step> {
    let size = t.rgba@.len() as u64;
    buffer_steps(
        Slot::Staging,
        Slot::StagingMem,
        size,
        BUFFER_TRANSFER_SRC,
        HOST_MEMORY,
        0,
    ) + seq![Step::Fill { memory: Slot::StagingMem, size }] + image_steps(
        Slot::Image,
        Slot::ImageMem,
        FORMAT_R8G8B8A8_UNORM,
        t.width,
        t.height,
        TEXTURE_USAGE,
    ) + seq![
        Step::View {
            into: Slot::View,
            image: Slot::Image,
            format: FORMAT_R8G8B8A8_UNORM,
            aspect: ASPECT_COLOR,
        },
        Step::Sampler {
            into: Slot::Sampler,
            filter: filter_of(t.sampler),
            address: address_of(t.sampler),
        },
        Step::WriteImage { binding, view: Slot::View },
        Step::WriteSampler { binding: (binding + 1) as u32, sampler: Slot::Sampler },
    ]
}

/// Whether a texture is one that can be uploaded.
pub open spec fn texture_ok(t: Texture) -> bool {
    &&& 0 < t.width <= MAX_TEXTURE_SIDE
    &&& 0 < t.height <= MAX_TEXTURE_SIDE
    &&& t.rgba@.len() == t.width * t.height * 4
}

/// Plans the upload of a texture, unless it has no size, an oversized side, or bytes for another
/// size.
pub fn plan_texture(t: &Texture, binding: u32) -> (r: Result<Vec<Step>, ResourceError>)
    requires
        binding < u32::MAX,
    ensures
        texture_ok(*t) <==> r is Ok,
        r is Ok ==> r->Ok_0@ == texture_plan(*t, binding),
        r is Err ==> r->Err_0 == (ResourceError::BadTexture {
            width: t.width,
            height: t.height,
            bytes: t.rgba@.len() as usize,
        }),
{
    if t.width == 0 || t.height == 0 || t.width > MAX_TEXTURE_SIDE || t.height
        > MAX_TEXTURE_SIDE {
        return Err(
            ResourceError::BadTexture {
                width: t.width,
                height: t.height,
                bytes: t.rgba.len(),
            },
        );
    }
    assert(0 <= t.width * t.height <= 0x1000_0000) by (nonlinear_arith)
        requires
            0 <= t.width <= 0x4000,
            0 <= t.height <= 0x4000,
    ;
    let expected: u64 = t.width as u64 * t.height as u64 * 4;
    if expected != t.rgba.len() as u64 {
        return Err(
            ResourceError::BadTexture {
                width: t.width,
                height: t.height,
                bytes: t.rgba.len(),
            },
        );
    }
    let size: u64 = t.rgba.len() as u64;
    let mut out = plan_buffer(
        Slot::Staging,
        Slot::StagingMem,
        size,
        BUFFER_TRANSFER_SRC,
        HOST_MEMORY,
        0,
    );
    let ghost a = out@;
    out.push(Step::Fill { memory: Slot::StagingMem, size });
    assert(out@ =~= a + seq![Step::Fill { memory: Slot::StagingMem, size }]);
    push_steps(
        &mut out,
        plan_image(
            Slot::Image,
            Slot::ImageMem,
            FORMAT_R8G8B8A8_UNORM,
            t.width,
            t.height,
            TEXTURE_USAGE,
        ),
    );
    let ghost b = out@;
    out.push(
        Step::View {
            into: Slot::View,
            image: Slot::Image,
            format: FORMAT_R8G8B8A8_UNORM,
            aspect: ASPECT_COLOR,
        },
    );
    out.push(
        Step::Sampler {
            into: Slot::Sampler,
            filter: if t.sampler.linear {
                FILTER_LINEAR
            } else {
                FILTER_NEAREST
            },
            address: if t.sampler.repeat {
                ADDRESS_REPEAT
            } else {
                ADDRESS_CLAMP_TO_EDGE
            },
        },
    );
    out.push(Step::WriteImage { binding, view: Slot::View });
    out.push(Step::WriteSampler { binding: binding + 1, sampler: Slot::Sampler });
    assert(out@ =~= texture_plan(*t, binding));
    Ok(out)
}

/// A mesh buffer: made and filled.
pub open spec fn mesh_steps(buffer: Slot, memory: Slot, size: u64, usage: u32) -> Seq<Step> {
    buffer_steps(buffer, memory, size, usage, HOST_MEMORY, 0) + seq![Step::Fill { memory, size }]
}

fn plan_mesh(buffer: Slot, memory: Slot, size: u64, usage: u32) -> (out: Vec<Step>)
    ensures
        out@ == mesh_steps(buffer, memory, size, usage),
{
    let mut out = plan_buffer(buffer, memory, size, usage, HOST_MEMORY, 0);
    let ghost a = out@;
    out.push(Step::Fill { memory, size });
    assert(out@ =~= a + seq![Step::Fill { memory, size }]);
    out
}

/// The plan of a mesh: its vertex buffer, and an index buffer where it has indices.
pub open spec fn geometry_plan(g: Geometry) -> Seq<Step> {
    mesh_steps(Slot::VertexBuf, Slot::VertexMem, g.vertex_data@.len() as u64, BUFFER_VERTEX)
        + if g.index_data@.len() > 0 {
        mesh_steps(Slot::IndexBuf, Slot::IndexMem, g.index_data@.len() as u64, BUFFER_INDEX)
    } else {
        Seq::empty()
    }
}

/// Plans the upload of a mesh; one without vertices is refused.
pub fn plan_geometry(g: &Geometry) -> (r: Result<Vec<Step>, ResourceError>)
    ensures
        g.vertex_data@.len() == 0 <==> r is Err,
        r is Err ==> r->Err_0 == ResourceError::EmptyBuffer,
        r is Ok ==> r->Ok_0@ == geometry_plan(*g),
{
    if g.vertex_data.len() == 0 {
        return Err(ResourceError::EmptyBuffer);
    }
    let mut out = plan_mesh(
        Slot::VertexBuf,
        Slot::VertexMem,
        g.vertex_data.len() as u64,
        BUFFER_VERTEX,
    );
    if g.index_data.len() > 0 {
        push_steps(
            &mut out,
            plan_mesh(
                Slot::IndexBuf,
                Slot::IndexMem,
                g.index_data.len() as u64,
                BUFFER_INDEX,
            ),
        );
    }
    assert(out@ =~= geometry_plan(*g));
    Ok(out)
}

/// The plans of textures, meshes and descriptor sets make what they need before they need it, and
/// make nothing that their orders of giving back do not hold.
pub proof fn law_resource_plans_are_orderly(
    t: Texture,
    binding: u32,
    g: Geometry,
    uniform: Option<UniformBlock>,
    storage: Option<StorageBlock>,
    textures: nat,
    base: u32,
)
    ensures
        orderly(Set::empty(), texture_plan(t, binding)),
        given_back(filled(Set::empty(), texture_plan(t, binding)), texture_order()),
        orderly(Set::empty(), geometry_plan(g)),
        given_back(filled(Set::empty(), geometry_plan(g)), geometry_order()),
        orderly(Set::empty(), descriptor_plan(uniform, storage, textures, base)),
        given_back(
            filled(Set::empty(), descriptor_plan(uniform, storage, textures, base)),
            descriptor_order(),
        ),
        given_back(
            filled(Set::empty(), descriptor_plan(uniform, storage, textures, base)),
            frame_descriptor_order(),
        ),
{
    lemma_texture_orderly(t, binding);
    lemma_geometry_orderly(g);
    lemma_descriptors_orderly(uniform, storage, textures, base);
}

proof fn lemma_texture_orderly(t: Texture, binding: u32)
    ensures
        orderly(Set::empty(), texture_plan(t, binding)),
        given_back(filled(Set::empty(), texture_plan(t, binding)), texture_order()),
{
    let none = Set::<Slot>::empty();
    let size = t.rgba@.len() as u64;
    let a = buffer_steps(
        Slot::Staging,
        Slot::StagingMem,
        size,
        BUFFER_TRANSFER_SRC,
        HOST_MEMORY,
        0,
    );
    lemma_object_steps(
        none,
        Slot::Staging,
        Slot::StagingMem,
        0,
        0,
        0,
        size,
        BUFFER_TRANSFER_SRC,
        HOST_MEMORY,
        0,
    );
    let fill = Step::Fill { memory: Slot::StagingMem, size };
    lemma_step_push(none, a, fill);
    let b = a.push(fill);
    assert(b =~= a + seq![fill]);
    let i = image_steps(
        Slot::Image,
        Slot::ImageMem,
        FORMAT_R8G8B8A8_UNORM,
        t.width,
        t.height,
        TEXTURE_USAGE,
    );
    lemma_object_steps(
        filled(none, b),
        Slot::Image,
        Slot::ImageMem,
        FORMAT_R8G8B8A8_UNORM,
        t.width,
        t.height,
        0,
        TEXTURE_USAGE,
        0,
        0,
    );
    lemma_steps_join(none, b, i);
    let c = b + i;
    let p = texture_plan(t, binding);
    let n = c.len() as int;
    lemma_step_push(none, c, p[n]);
    let c1 = c.push(p[n]);
    lemma_step_push(none, c1, p[n + 1]);
    let c2 = c1.push(p[n + 1]);
    lemma_step_push(none, c2, p[n + 2]);
    let c3 = c2.push(p[n + 2]);
    lemma_step_push(none, c3, p[n + 3]);
    assert(c3.push(p[n + 3]) =~= p);
    let o = texture_order();
    assert(o[0] == Slot::Sampler && o[1] == Slot::View && o[2] == Slot::Image && o[3]
        == Slot::ImageMem && o[4] == Slot::Staging && o[5] == Slot::StagingMem);
}

proof fn lemma_geometry_orderly(g: Geometry)
    ensures
        orderly(Set::empty(), geometry_plan(g)),
        given_back(filled(Set::empty(), geometry_plan(g)), geometry_order()),
{
    let none = Set::<Slot>::empty();
    let vs = g.vertex_data@.len() as u64;
    let is = g.index_data@.len() as u64;
    let a = mesh_steps(Slot::VertexBuf, Slot::VertexMem, vs, BUFFER_VERTEX);
    lemma_mesh_orderly(none, Slot::VertexBuf, Slot::VertexMem, vs, BUFFER_VERTEX);
    let o = geometry_order();
    assert(o[0] == Slot::VertexBuf && o[1] == Slot::VertexMem && o[2] == Slot::IndexBuf && o[3]
        == Slot::IndexMem);
    if g.index_data@.len() > 0 {
        let b = mesh_steps(Slot::IndexBuf, Slot::IndexMem, is, BUFFER_INDEX);
        lemma_mesh_orderly(
            filled(none, a),
            Slot::IndexBuf,
            Slot::IndexMem,
            is,
            BUFFER_INDEX,
        );
        lemma_steps_join(none, a, b);
    } else {
        assert(geometry_plan(g) =~= a);
    }
}

proof fn lemma_mesh_orderly(given: Set<Slot>, buffer: Slot, memory: Slot, size: u64, usage: u32)
    requires
        !given.contains(buffer),
        !given.contains(memory),
        buffer != memory,
    ensures
        orderly(given, mesh_steps(buffer, memory, size, usage)),
        filled(given, mesh_steps(buffer, memory, size, usage)) == given.insert(buffer).insert(
            memory,
        ),
{
    let a = buffer_steps(buffer, memory, size, usage, HOST_MEMORY, 0);
    lemma_object_steps(given, buffer, memory, 0, 0, 0, size, usage, HOST_MEMORY, 0);
    let fill = Step::Fill { memory, size };
    lemma_step_push(given, a, fill);
    assert(a.push(fill) =~= mesh_steps(buffer, memory, size, usage));
}

proof fn lemma_block_orderly(
    given: Set<Slot>,
    buffer: Slot,
    memory: Slot,
    size: u64,
    usage: u32,
    binding: u32,
    descriptor: i32,
)
    requires
        !given.contains(buffer),
        !given.contains(memory),
        buffer != memory,
    ensures
        orderly(given, block_steps(buffer, memory, size, usage, binding, descriptor)),
        filled(given, block_steps(buffer, memory, size, usage, binding, descriptor))
            == given.insert(buffer).insert(memory),
{
    let a = mesh_steps(buffer, memory, size, usage);
    lemma_mesh_orderly(given, buffer, memory, size, usage);
    let w = Step::WriteBuffer { binding, descriptor, buffer, size };
    lemma_step_push(given, a, w);
    assert(a.push(w) =~= block_steps(buffer, memory, size, usage, binding, descriptor));
}

proof fn lemma_textures_orderly(given: Set<Slot>, base: u32, n: nat)
    requires
        given.contains(Slot::DescPool),
    ensures
        orderly(given, textures_steps(base, n)),
        filled(given, textures_steps(base, n)) == given,
    decreases n,
{
    if n > 0 {
        lemma_textures_orderly(given, base, (n - 1) as nat);
        lemma_step_push(
            given,
            textures_steps(base, (n - 1) as nat),
            Step::Texture { index: (n - 1) as u32, binding: (base + 2 * (n - 1)) as u32 },
        );
    }
}

proof fn lemma_descriptors_orderly(
    uniform: Option<UniformBlock>,
    storage: Option<StorageBlock>,
    textures: nat,
    base: u32,
)
    ensures
        orderly(Set::empty(), descriptor_plan(uniform, storage, textures, base)),
        given_back(
            filled(Set::empty(), descriptor_plan(uniform, storage, textures, base)),
            descriptor_order(),
        ),
        given_back(
            filled(Set::empty(), descriptor_plan(uniform, storage, textures, base)),
            frame_descriptor_order(),
        ),
{
    let none = Set::<Slot>::empty();
    let head = seq![
        Step::DescriptorPool { into: Slot::DescPool },
        Step::DescriptorSet { pool: Slot::DescPool },
    ];
    let e = Seq::<Step>::empty();
    lemma_step_push(none, e, head[0]);
    lemma_step_push(none, e.push(head[0]), head[1]);
    assert(head =~= e.push(head[0]).push(head[1]));
    let u = match uniform {
        Some(u) => block_steps(
            Slot::Uniform,
            Slot::UniformMem,
            u.bytes@.len() as u64,
            BUFFER_UNIFORM,
            u.binding,
            DESCRIPTOR_UNIFORM_BUFFER,
        ),
        None => Seq::empty(),
    };
    let s = match storage {
        Some(s) => block_steps(
            Slot::Storage,
            Slot::StorageMem,
            s.bytes@.len() as u64,
            BUFFER_STORAGE,
            s.binding,
            DESCRIPTOR_STORAGE_BUFFER,
        ),
        None => Seq::empty(),
    };
    let t = textures_steps(base, textures);
    let m1 = filled(none, head);
    if uniform is Some {
        lemma_block_orderly(
            m1,
            Slot::Uniform,
            Slot::UniformMem,
            (uniform->0).bytes@.len() as u64,
            BUFFER_UNIFORM,
            (uniform->0).binding,
            DESCRIPTOR_UNIFORM_BUFFER,
        );
    }
    lemma_steps_join(none, head, u);
    let m2 = filled(none, head + u);
    if storage is Some {
        lemma_block_orderly(
            m2,
            Slot::Storage,
            Slot::StorageMem,
            (storage->0).bytes@.len() as u64,
            BUFFER_STORAGE,
            (storage->0).binding,
            DESCRIPTOR_STORAGE_BUFFER,
        );
    }
    lemma_steps_join(none, head + u, s);
    let m3 = filled(none, head + u + s);
    lemma_textures_orderly(m3, base, textures);
    lemma_steps_join(none, head + u + s, t);
    let o = descriptor_order();
    assert(o[0] == Slot::Uniform && o[1] == Slot::UniformMem && o[2] == Slot::Storage && o[3]
        == Slot::StorageMem && o[4] == Slot::DescPool);
    let p = frame_descriptor_order();
    assert(p[0] == Slot::DescPool && p[1] == Slot::Uniform && p[2] == Slot::UniformMem && p[3]
        == Slot::Storage && p[4] == Slot::StorageMem);
}

/// A refusal says what was refused, with its numbers.
pub proof fn law_refusals_say_what(e: &ResourceError, s: String)
    requires
        call_ensures(ResourceError::message, (e,), s),
    ensures
        e matches ResourceError::BadUniform { bytes } ==> s@ == "bad uniform block ("@ + decimal(
            bytes as nat,
        ) + " bytes)"@,
        e matches ResourceError::BadStorage { bytes: n } ==> s@ == "bad storage block ("@ + decimal(
            n as nat,
        ) + " bytes)"@,
        e matches ResourceError::TooManyTextures { count } ==> s@ == "too many textures ("@
            + decimal(count as nat) + " > "@ + decimal(8) + ")"@,
        e matches ResourceError::BadTexture { width, height, bytes: size } ==> s@ == "bad texture "@
            + decimal(width as nat) + "x"@ + decimal(height as nat) + " ("@ + decimal(size as nat)
            + " bytes)"@,
        e is EmptyBuffer ==> s@ == "empty geometry buffer"@,
{
}

} // verus!
