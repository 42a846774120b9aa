//! Plans of GPU work: the objects to make and the calls to make, in order.
use crate::gpu::scratch::Slot;
use vstd::prelude::*;

verus! {

/// One step of a plan. A step that makes an object puts it into a slot at once, so that it is
/// given back should a later step fail.
#[derive(Debug, Clone, Copy, PartialEq, Eq, Structural)]
pub enum Step {
    /// A two-dimensional image.
    Image { into: Slot, format: i32, width: u32, height: u32, usage: u32 },
    /// A buffer; its memory can be handed out as `handle_type`, if that is not zero.
    Buffer { into: Slot, size: u64, usage: u32, handle_type: u32 },
    /// Memory for an object, of a type with these properties.
    Memory { into: Slot, object: Slot, flags: u32, handle_type: u32 },
    /// Memory for a buffer that the CPU reads.
    ReadbackMemory { into: Slot, object: Slot },
    Bind { object: Slot, memory: Slot },
    View { into: Slot, image: Slot, format: i32, aspect: u32 },
    /// A render pass of this plan's own.
    Pass { into: Slot, format: i32 },
    /// The shared render pass and pipeline of the draw.
    ResolvePipeline,
    /// A framebuffer over the colour view, and over a depth view where there is one.
    Framebuffer {
        into: Slot,
        color: Slot,
        with_depth: bool,
        own_pass: bool,
        width: u32,
        height: u32,
    },
    Sampler { into: Slot, filter: i32, address: i32 },
    /// Maps memory, copies the bytes that belong in it, and unmaps it.
    Fill { memory: Slot, size: u64 },
    CommandPool { into: Slot },
    CommandBuffer { pool: Slot },
    /// Records the plan's commands.
    Record,
    Fence { into: Slot },
    Submit { fence: Slot },
    Wait { fence: Slot },
    /// Maps memory for as long as it lives.
    MapMemory { memory: Slot, size: u64 },
    /// Reads the bytes of memory back.
    ReadBack { memory: Slot, size: u64 },
    /// Hands memory out as a file descriptor.
    ExportFd { memory: Slot, handle_type: u32 },
    DescriptorPool { into: Slot },
    DescriptorSet { pool: Slot },
    WriteBuffer { binding: u32, descriptor: i32, buffer: Slot, size: u64 },
    WriteImage { binding: u32, view: Slot },
    WriteSampler { binding: u32, sampler: Slot },
    /// Uploads a texture of the draw and writes it into the descriptor set.
    Texture { index: u32, binding: u32 },
}

impl Step {
    /// The slot that the step fills.
    pub open spec fn makes(self) -> Option<Slot> {
        match self {
            Step::Image { into, .. } => Some(into),
            Step::Buffer { into, .. } => Some(into),
            Step::Memory { into, .. } => Some(into),
            Step::ReadbackMemory { into, .. } => Some(into),
            Step::View { into, .. } => Some(into),
            Step::Pass { into, .. } => Some(into),
            Step::Framebuffer { into, .. } => Some(into),
            Step::Sampler { into, .. } => Some(into),
            Step::CommandPool { into } => Some(into),
            Step::Fence { into } => Some(into),
            Step::DescriptorPool { into } => Some(into),
            _ => None,
        }
    }

    /// Whether the step needs what is in the slot.
    pub open spec fn uses(self, s: Slot) -> bool {
        match self {
            Step::Memory { object, .. } => s == object,
            Step::ReadbackMemory { object, .. } => s == object,
            Step::Bind { object, memory } => s == object || s == memory,
            Step::View { image, .. } => s == image,
            Step::Framebuffer { color, with_depth, own_pass, .. } => s == color || (with_depth && s
                == Slot::DepthView) || (own_pass && s == Slot::RenderPass),
            Step::Fill { memory, .. } => s == memory,
            Step::CommandBuffer { pool } => s == pool,
            Step::Submit { fence } => s == fence,
            Step::Wait { fence } => s == fence,
            Step::MapMemory { memory, .. } => s == memory,
            Step::ReadBack { memory, .. } => s == memory,
            Step::ExportFd { memory, .. } => s == memory,
            Step::DescriptorSet { pool } => s == pool,
            Step::WriteBuffer { buffer, .. } => s == buffer,
            Step::WriteImage { view, .. } => s == view,
            Step::WriteSampler { sampler, .. } => s == sampler,
            Step::Texture { .. } => s == Slot::DescPool,
            _ => false,
        }
    }
}

/// The slots that are full after a plan, when those of `given` were full before.
pub open spec fn filled(given: Set<Slot>, plan: Seq<Step>) -> Set<Slot>
    decreases plan.len(),
{
    if plan.len() == 0 {
        given
    } else {
        let before = filled(given, plan.drop_last());
        match plan.last().makes() {
            Some(s) => before.insert(s),
            None => before,
        }
    }
}

/// Whether each step of a plan finds what it needs made before, and fills a slot that is still
/// empty.
pub open spec fn orderly(given: Set<Slot>, plan: Seq<Step>) -> bool
    decreases plan.len(),
{
    plan.len() > 0 ==> {
        let made = filled(given, plan.drop_last());
        &&& orderly(given, plan.drop_last())
        &&& forall|s: Slot| #[trigger] plan.last().uses(s) ==> made.contains(s)
        &&& plan.last().makes() is Some ==> !made.contains(plan.last().makes()->0)
    }
}

/// Whether all that is made is in the list by which it is given back.
pub open spec fn given_back(made: Set<Slot>, order: Seq<Slot>) -> bool {
    forall|s: Slot| #[trigger] made.contains(s) ==> order.contains(s)
}

/// Wherever a plan stops, it has made no more than it makes in all; so what gives back all of it
/// gives back what was made.
pub proof fn law_stopped_plans_make_no_more(given: Set<Slot>, plan: Seq<Step>, stop: int)
    requires
        0 <= stop <= plan.len(),
    ensures
        filled(given, plan.take(stop)).subset_of(filled(given, plan)),
    decreases plan.len(),
{
    if stop == plan.len() {
        assert(plan.take(stop) =~= plan);
    } else {
        law_stopped_plans_make_no_more(given, plan.drop_last(), stop);
        assert(plan.drop_last().take(stop) =~= plan.take(stop));
    }
}

/// One plan after another.
pub proof fn lemma_steps_join(given: Set<Slot>, a: Seq<Step>, b: Seq<Step>)
    ensures
        filled(given, a + b) == filled(filled(given, a), b),
        orderly(given, a + b) == (orderly(given, a) && orderly(filled(given, a), b)),
    decreases b.len(),
{
    if b.len() == 0 {
        assert(a + b =~= a);
    } else {
        lemma_steps_join(given, a, b.drop_last());
        assert((a + b).drop_last() =~= a + b.drop_last());
        assert((a + b).last() == b.last());
    }
}

/// One step more.
pub proof fn lemma_step_push(given: Set<Slot>, a: Seq<Step>, step: Step)
    ensures
        filled(given, a.push(step)) == match step.makes() {
            Some(s) => filled(given, a).insert(s),
            None => filled(given, a),
        },
        orderly(given, a.push(step)) == (orderly(given, a) && (forall|s: Slot| #[trigger]
            step.uses(s) ==> filled(given, a).contains(s)) && (step.makes() is Some ==> !filled(
            given,
            a,
        ).contains(step.makes()->0))),
{
    assert(a.push(step).drop_last() =~= a);
}

/// Three steps.
proof fn lemma_three_steps(given: Set<Slot>, x: Step, y: Step, z: Step)
    ensures
        ({
            let e = Seq::<Step>::empty();
            let f1 = filled(given, e.push(x));
            let f2 = filled(given, e.push(x).push(y));
            &&& seq![x, y, z] == e.push(x).push(y).push(z)
            &&& f1 == match x.makes() {
                Some(s) => given.insert(s),
                None => given,
            }
            &&& f2 == match y.makes() {
                Some(s) => f1.insert(s),
                None => f1,
            }
            &&& filled(given, seq![x, y, z]) == match z.makes() {
                Some(s) => f2.insert(s),
                None => f2,
            }
            &&& orderly(given, seq![x, y, z]) == ((forall|s: Slot| #[trigger]
                x.uses(s) ==> given.contains(s)) && (x.makes() is Some ==> !given.contains(
                x.makes()->0,
            )) && (forall|s: Slot| #[trigger] y.uses(s) ==> f1.contains(s)) && (y.makes() is Some
                ==> !f1.contains(y.makes()->0)) && (forall|s: Slot| #[trigger]
                z.uses(s) ==> f2.contains(s)) && (z.makes() is Some ==> !f2.contains(
                z.makes()->0,
            )))
        }),
{
    let e = Seq::<Step>::empty();
    assert(seq![x, y, z] =~= e.push(x).push(y).push(z));
    lemma_step_push(given, e, x);
    lemma_step_push(given, e.push(x), y);
    lemma_step_push(given, e.push(x).push(y), z);
}

/// An object with its memory needs two empty slots, and fills them.
pub proof fn lemma_object_steps(
    given: Set<Slot>,
    image: Slot,
    memory: Slot,
    format: i32,
    width: u32,
    height: u32,
    size: u64,
    usage: u32,
    flags: u32,
    handle_type: u32,
)
    requires
        !given.contains(image),
        !given.contains(memory),
        image != memory,
    ensures
        orderly(given, image_steps(image, memory, format, width, height, usage)),
        filled(given, image_steps(image, memory, format, width, height, usage)) == given.insert(
            image,
        ).insert(memory),
        orderly(given, buffer_steps(image, memory, size, usage, flags, handle_type)),
        filled(given, buffer_steps(image, memory, size, usage, flags, handle_type)) == given.insert(
            image,
        ).insert(memory),
        orderly(given, readback_steps(image, memory, size)),
        filled(given, readback_steps(image, memory, size)) == given.insert(image).insert(memory),
{
    let i = image_steps(image, memory, format, width, height, usage);
    lemma_three_steps(given, i[0], i[1], i[2]);
    assert(i =~= seq![i[0], i[1], i[2]]);
    let b = buffer_steps(image, memory, size, usage, flags, handle_type);
    lemma_three_steps(given, b[0], b[1], b[2]);
    assert(b =~= seq![b[0], b[1], b[2]]);
    let r = readback_steps(image, memory, size);
    lemma_three_steps(given, r[0], r[1], r[2]);
    assert(r =~= seq![r[0], r[1], r[2]]);
}

/// A run needs the slots of the pool and the fence empty and the memory that it reads, and fills
/// those slots.
pub proof fn lemma_run_steps(given: Set<Slot>, memory: Slot, size: u64)
    requires
        !given.contains(Slot::Pool),
        !given.contains(Slot::Fence),
        given.contains(memory),
    ensures
        orderly(given, run_steps(memory, size)),
        filled(given, run_steps(memory, size)) == given.insert(Slot::Pool).insert(Slot::Fence),
{
    let r = run_steps(memory, size);
    let e = Seq::<Step>::empty();
    let r1 = e.push(r[0]);
    let r2 = r1.push(r[1]);
    let r3 = r2.push(r[2]);
    let r4 = r3.push(r[3]);
    let r5 = r4.push(r[4]);
    let r6 = r5.push(r[5]);
    lemma_step_push(given, e, r[0]);
    lemma_step_push(given, r1, r[1]);
    lemma_step_push(given, r2, r[2]);
    lemma_step_push(given, r3, r[3]);
    lemma_step_push(given, r4, r[4]);
    lemma_step_push(given, r5, r[5]);
    lemma_step_push(given, r6, r[6]);
    assert(r =~= r6.push(r[6]));
}

/// Appends more steps.
pub fn push_steps(out: &mut Vec<Step>, more: Vec<Step>)
    ensures
        final(out)@ == old(out)@ + more@,
{
    let mut rest = more;
    out.append(&mut rest);
}

/// An image with its own memory.
pub open spec fn image_steps(
    image: Slot,
    memory: Slot,
    format: i32,
    width: u32,
    height: u32,
    usage: u32,
) -> Seq<Step> {
    seq![
        Step::Image { into: image, format, width, height, usage },
        Step::Memory {
            into: memory,
            object: image,
            flags: crate::gpu::vk::MEMORY_DEVICE_LOCAL,
            handle_type: 0,
        },
        Step::Bind { object: image, memory },
    ]
}

/// An image with its own memory.
pub fn plan_image(
    image: Slot,
    memory: Slot,
    format: i32,
    width: u32,
    height: u32,
    usage: u32,
) -> (out: Vec<Step>)
    ensures
        out@ == image_steps(image, memory, format, width, height, usage),
{
    let out = vec![
        Step::Image { into: image, format, width, height, usage },
        Step::Memory {
            into: memory,
            object: image,
            flags: crate::gpu::vk::MEMORY_DEVICE_LOCAL,
            handle_type: 0,
        },
        Step::Bind { object: image, memory },
    ];
    assert(out@ =~= image_steps(image, memory, format, width, height, usage));
    out
}

/// A buffer with its own memory of these properties, exported as `handle_type` if that is not
/// zero.
pub open spec fn buffer_steps(
    buffer: Slot,
    memory: Slot,
    size: u64,
    usage: u32,
    flags: u32,
    handle_type: u32,
) -> Seq<Step> {
    seq![
        Step::Buffer { into: buffer, size, usage, handle_type },
        Step::Memory { into: memory, object: buffer, flags, handle_type },
        Step::Bind { object: buffer, memory },
    ]
}

/// A buffer with its own memory.
pub fn plan_buffer(
    buffer: Slot,
    memory: Slot,
    size: u64,
    usage: u32,
    flags: u32,
    handle_type: u32,
) -> (out: Vec<Step>)
    ensures
        out@ == buffer_steps(buffer, memory, size, usage, flags, handle_type),
{
    let out = vec![
        Step::Buffer { into: buffer, size, usage, handle_type },
        Step::Memory { into: memory, object: buffer, flags, handle_type },
        Step::Bind { object: buffer, memory },
    ];
    assert(out@ =~= buffer_steps(buffer, memory, size, usage, flags, handle_type));
    out
}

/// A buffer that the CPU reads, with its own memory.
pub open spec fn readback_steps(buffer: Slot, memory: Slot, size: u64) -> Seq<Step> {
    seq![
        Step::Buffer {
            into: buffer,
            size,
            usage: crate::gpu::vk::BUFFER_TRANSFER_DST,
            handle_type: 0,
        },
        Step::ReadbackMemory { into: memory, object: buffer },
        Step::Bind { object: buffer, memory },
    ]
}

/// A buffer that the CPU reads, with its own memory.
pub fn plan_readback(buffer: Slot, memory: Slot, size: u64) -> (out: Vec<Step>)
    ensures
        out@ == readback_steps(buffer, memory, size),
{
    let out = vec![
        Step::Buffer {
            into: buffer,
            size,
            usage: crate::gpu::vk::BUFFER_TRANSFER_DST,
            handle_type: 0,
        },
        Step::ReadbackMemory { into: memory, object: buffer },
        Step::Bind { object: buffer, memory },
    ];
    assert(out@ =~= readback_steps(buffer, memory, size));
    out
}

/// Recording the commands, running them, and reading the result.
pub open spec fn run_steps(memory: Slot, size: u64) -> Seq<Step> {
    seq![
        Step::CommandPool { into: Slot::Pool },
        Step::CommandBuffer { pool: Slot::Pool },
        Step::Record,
        Step::Fence { into: Slot::Fence },
        Step::Submit { fence: Slot::Fence },
        Step::Wait { fence: Slot::Fence },
        Step::ReadBack { memory, size },
    ]
}

/// Recording the commands, running them, and reading the result.
pub fn plan_run(memory: Slot, size: u64) -> (out: Vec<Step>)
    ensures
        out@ == run_steps(memory, size),
{
    let out = vec![
        Step::CommandPool { into: Slot::Pool },
        Step::CommandBuffer { pool: Slot::Pool },
        Step::Record,
        Step::Fence { into: Slot::Fence },
        Step::Submit { fence: Slot::Fence },
        Step::Wait { fence: Slot::Fence },
        Step::ReadBack { memory, size },
    ];
    assert(out@ =~= run_steps(memory, size));
    out
}

} // verus!
