//! The objects that one piece of GPU work makes, and how they are given back.
use vstd::prelude::*;

verus! {

/// The part that an object plays in a piece of work.
#[derive(Debug, Clone, Copy, PartialEq, Eq, Structural)]
pub enum Slot {
    Fence,
    Pool,
    Pipeline,
    Layout,
    VertexModule,
    FragmentModule,
    Framebuffer,
    RenderPass,
    View,
    Image,
    ImageMem,
    DepthView,
    DepthImage,
    DepthMem,
    Readback,
    ReadbackMem,
    Export,
    ExportMem,
    Staging,
    StagingMem,
    SrcImage,
    SrcMem,
    Sampler,
    DescPool,
    Uniform,
    UniformMem,
    Storage,
    StorageMem,
    VertexBuf,
    VertexMem,
    IndexBuf,
    IndexMem,
}

/// The number of slots.
pub const SLOTS: usize = 32;

impl Slot {
    /// The number of the slot.
    pub open spec fn number(self) -> int {
        match self {
            Slot::Fence => 0,
            Slot::Pool => 1,
            Slot::Pipeline => 2,
            Slot::Layout => 3,
            Slot::VertexModule => 4,
            Slot::FragmentModule => 5,
            Slot::Framebuffer => 6,
            Slot::RenderPass => 7,
            Slot::View => 8,
            Slot::Image => 9,
            Slot::ImageMem => 10,
            Slot::DepthView => 11,
            Slot::DepthImage => 12,
            Slot::DepthMem => 13,
            Slot::Readback => 14,
            Slot::ReadbackMem => 15,
            Slot::Export => 16,
            Slot::ExportMem => 17,
            Slot::Staging => 18,
            Slot::StagingMem => 19,
            Slot::SrcImage => 20,
            Slot::SrcMem => 21,
            Slot::Sampler => 22,
            Slot::DescPool => 23,
            Slot::Uniform => 24,
            Slot::UniformMem => 25,
            Slot::Storage => 26,
            Slot::StorageMem => 27,
            Slot::VertexBuf => 28,
            Slot::VertexMem => 29,
            Slot::IndexBuf => 30,
            Slot::IndexMem => 31,
        }
    }

    fn index(self) -> (i: usize)
        ensures
            i == self.number(),
            i < SLOTS,
    {
        match self {
            Slot::Fence => 0,
            Slot::Pool => 1,
            Slot::Pipeline => 2,
            Slot::Layout => 3,
            Slot::VertexModule => 4,
            Slot::FragmentModule => 5,
            Slot::Framebuffer => 6,
            Slot::RenderPass => 7,
            Slot::View => 8,
            Slot::Image => 9,
            Slot::ImageMem => 10,
            Slot::DepthView => 11,
            Slot::DepthImage => 12,
            Slot::DepthMem => 13,
            Slot::Readback => 14,
            Slot::ReadbackMem => 15,
            Slot::Export => 16,
            Slot::ExportMem => 17,
            Slot::Staging => 18,
            Slot::StagingMem => 19,
            Slot::SrcImage => 20,
            Slot::SrcMem => 21,
            Slot::Sampler => 22,
            Slot::DescPool => 23,
            Slot::Uniform => 24,
            Slot::UniformMem => 25,
            Slot::Storage => 26,
            Slot::StorageMem => 27,
            Slot::VertexBuf => 28,
            Slot::VertexMem => 29,
            Slot::IndexBuf => 30,
            Slot::IndexMem => 31,
        }
    }
}

/// An object to give back.
#[derive(Debug, Clone, Copy, PartialEq, Eq, Structural)]
pub struct Release {
    pub slot: Slot,
    pub handle: u64,
}

/// The objects that a piece of work has made so far, by slot. Zero stands for none.
#[derive(Debug)]
pub struct Scratch {
    handles: Vec<u64>,
}

/// What is released, going through the slots in order and leaving out the empty ones.
pub open spec fn releases(order: Seq<Slot>, held: Map<Slot, u64>) -> Seq<Release>
    decreases order.len(),
{
    if order.len() == 0 {
        Seq::empty()
    } else {
        let before = releases(order.drop_last(), held);
        let s = order.last();
        if held[s] != 0 {
            before.push(Release { slot: s, handle: held[s] })
        } else {
            before
        }
    }
}

impl View for Scratch {
    type V = Map<Slot, u64>;

    /// The handle in every slot.
    closed spec fn view(&self) -> Map<Slot, u64> {
        Map::new(|s: Slot| true, |s: Slot| self.handles@[s.number()])
    }
}

impl Scratch {
    pub closed spec fn wf(&self) -> bool {
        self.handles@.len() == SLOTS
    }

    /// Nothing made.
    pub open spec fn bare() -> Map<Slot, u64> {
        Map::new(|s: Slot| true, |s: Slot| 0u64)
    }

    /// Nothing made yet.
    pub fn new() -> (sc: Self)
        ensures
            sc.wf(),
            sc@ == Self::bare(),
    {
        let mut handles: Vec<u64> = Vec::new();
        let mut i: usize = 0;
        while i < SLOTS
            invariant
                i <= SLOTS,
                handles@.len() == i,
                forall|j: int| 0 <= j < i ==> handles@[j] == 0,
            decreases SLOTS - i,
        {
            handles.push(0);
            i = i + 1;
        }
        let sc = Scratch { handles };
        assert forall|s: Slot| sc@[s] == 0 by {
            assert(0 <= s.number() < SLOTS);
        }
        assert(sc@ =~= Self::bare());
        sc
    }

    /// Registers an object that was made.
    pub fn put(&mut self, slot: Slot, handle: u64)
        requires
            old(self).wf(),
        ensures
            final(self).wf(),
            final(self)@ == old(self)@.insert(slot, handle),
    {
        self.handles.set(slot.index(), handle);
        assert forall|s: Slot| self@[s] == old(self)@.insert(slot, handle)[s] by {
            assert(0 <= s.number() < SLOTS);
            if s != slot {
                assert(s.number() != slot.number());
            }
        }
        assert(self@ =~= old(self)@.insert(slot, handle));
    }

    /// The object in a slot, zero where there is none.
    pub fn get(&self, slot: Slot) -> (h: u64)
        requires
            self.wf(),
        ensures
            h == self@[slot],
    {
        self.handles[slot.index()]
    }

    /// Forgets every object: they belong to someone else now.
    pub fn disarm(&mut self)
        ensures
            final(self).wf(),
            final(self)@ == Self::bare(),
    {
        *self = Scratch::new();
    }

    /// What has to be given back, in the order given.
    pub fn teardown(&self, order: &[Slot]) -> (out: Vec<Release>)
        requires
            self.wf(),
        ensures
            out@ == releases(order@, self@),
    {
        let mut out: Vec<Release> = Vec::new();
        let mut i: usize = 0;
        while i < order.len()
            invariant
                self.wf(),
                i <= order@.len(),
                out@ == releases(order@.take(i as int), self@),
            decreases order.len() - i,
        {
            let slot = order[i];
            let handle: u64 = self.get(slot);
            assert(order@.take(i + 1).drop_last() =~= order@.take(i as int));
            if handle != 0 {
                out.push(Release { slot, handle });
            }
            i = i + 1;
        }
        assert(order@.take(i as int) =~= order@);
        out
    }
}

/// What a slot's object is built on, and has to be given back before: a view on its image, a
/// framebuffer on its views and render pass, a pipeline on its layout, render pass and shader
/// modules, and whatever is bound to memory on that memory.
pub open spec fn built_on(user: Slot, used: Slot) -> bool {
    match user {
        Slot::Pipeline => used == Slot::Layout || used == Slot::RenderPass || used
            == Slot::VertexModule || used == Slot::FragmentModule,
        Slot::Framebuffer => used == Slot::RenderPass || used == Slot::View || used
            == Slot::DepthView,
        Slot::View => used == Slot::Image,
        Slot::Image => used == Slot::ImageMem,
        Slot::DepthView => used == Slot::DepthImage,
        Slot::DepthImage => used == Slot::DepthMem,
        Slot::Readback => used == Slot::ReadbackMem,
        Slot::Export => used == Slot::ExportMem,
        Slot::Staging => used == Slot::StagingMem,
        Slot::SrcImage => used == Slot::SrcMem,
        Slot::Uniform => used == Slot::UniformMem,
        Slot::Storage => used == Slot::StorageMem,
        Slot::VertexBuf => used == Slot::VertexMem,
        Slot::IndexBuf => used == Slot::IndexMem,
        _ => false,
    }
}

/// An order that releases no slot twice, and nothing before what is built on it.
pub open spec fn safe_order(order: Seq<Slot>) -> bool {
    &&& forall|i: int, j: int| 0 <= i < j < order.len() ==> order[i] != order[j]
    &&& forall|i: int, j: int| 0 <= i < j < order.len() ==> !built_on(order[j], order[i])
}

/// Going through a safe order releases every object in its slots, each once, nothing else, and
/// none before what is built on it.
pub proof fn law_teardown_is_exact(order: Seq<Slot>, held: Map<Slot, u64>)
    requires
        safe_order(order),
    ensures
        forall|s: Slot|
            order.contains(s) && held[s] != 0 ==> releases(order, held).contains(
                (Release { slot: s, handle: held[s] }),
            ),
        forall|i: int|
            0 <= i < releases(order, held).len() ==> {
                let r = #[trigger] releases(order, held)[i];
                order.contains(r.slot) && r.handle == held[r.slot] && r.handle != 0
            },
        forall|i: int, j: int|
            0 <= i < j < releases(order, held).len() ==> {
                &&& (#[trigger] releases(order, held)[i]).slot != (#[trigger] releases(
                    order,
                    held,
                )[j]).slot
                &&& !built_on(releases(order, held)[j].slot, releases(order, held)[i].slot)
            },
    decreases order.len(),
{
    if order.len() > 0 {
        let init = order.drop_last();
        assert forall|i: int, j: int| 0 <= i < j < init.len() implies init[i] != init[j]
            && !built_on(init[j], init[i]) by {
            assert(init[i] == order[i] && init[j] == order[j]);
        }
        law_teardown_is_exact(init, held);
        let s = order.last();
        let before = releases(init, held);
        let all = releases(order, held);
        assert forall|i: int| 0 <= i < before.len() implies (#[trigger] before[i]).slot != s
            && !built_on(s, before[i].slot) by {
            let k = choose|k: int| 0 <= k < init.len() && init[k] == before[i].slot;
            assert(order[k] == before[i].slot);
        }
        assert forall|t: Slot| order.contains(t) && held[t] != 0 implies all.contains(
            (Release { slot: t, handle: held[t] }),
        ) by {
            let r = Release { slot: t, handle: held[t] };
            let k = choose|k: int| 0 <= k < order.len() && order[k] == t;
            if k < init.len() {
                assert(init[k] == t);
                assert(before.contains(r));
                let m = choose|m: int| 0 <= m < before.len() && before[m] == r;
                assert(all[m] == r);
            } else {
                assert(all[before.len() as int] == r);
            }
        }
        assert forall|i: int| 0 <= i < all.len() implies {
            let r = #[trigger] all[i];
            order.contains(r.slot) && r.handle == held[r.slot] && r.handle != 0
        } by {
            if i < before.len() {
                assert(all[i] == before[i]);
                let k = choose|k: int| 0 <= k < init.len() && init[k] == before[i].slot;
                assert(order[k] == all[i].slot);
            } else {
                assert(order[order.len() - 1] == s);
            }
        }
    }
}

/// The order in which a render gives back what it made.
pub open spec fn render_order() -> Seq<Slot> {
    seq![
        Slot::Fence,
        Slot::Pool,
        Slot::Export,
        Slot::ExportMem,
        Slot::Readback,
        Slot::ReadbackMem,
        Slot::Pipeline,
        Slot::Layout,
        Slot::VertexModule,
        Slot::FragmentModule,
        Slot::Framebuffer,
        Slot::RenderPass,
        Slot::View,
        Slot::Image,
        Slot::ImageMem,
        Slot::DepthView,
        Slot::DepthImage,
        Slot::DepthMem,
    ]
}

/// The order in which a render gives back what it made.
pub fn render_slots() -> (v: Vec<Slot>)
    ensures
        v@ == render_order(),
{
    let v = vec![
        Slot::Fence,
        Slot::Pool,
        Slot::Export,
        Slot::ExportMem,
        Slot::Readback,
        Slot::ReadbackMem,
        Slot::Pipeline,
        Slot::Layout,
        Slot::VertexModule,
        Slot::FragmentModule,
        Slot::Framebuffer,
        Slot::RenderPass,
        Slot::View,
        Slot::Image,
        Slot::ImageMem,
        Slot::DepthView,
        Slot::DepthImage,
        Slot::DepthMem,
    ];
    assert(v@ =~= render_order());
    v
}

/// The order in which a format conversion gives back what it made.
pub open spec fn convert_order() -> Seq<Slot> {
    seq![
        Slot::Fence,
        Slot::Pool,
        Slot::Export,
        Slot::ExportMem,
        Slot::Readback,
        Slot::ReadbackMem,
        Slot::Staging,
        Slot::StagingMem,
        Slot::Image,
        Slot::ImageMem,
        Slot::SrcImage,
        Slot::SrcMem,
    ]
}

/// The order in which a format conversion gives back what it made.
pub fn convert_slots() -> (v: Vec<Slot>)
    ensures
        v@ == convert_order(),
{
    let v = vec![
        Slot::Fence,
        Slot::Pool,
        Slot::Export,
        Slot::ExportMem,
        Slot::Readback,
        Slot::ReadbackMem,
        Slot::Staging,
        Slot::StagingMem,
        Slot::Image,
        Slot::ImageMem,
        Slot::SrcImage,
        Slot::SrcMem,
    ];
    assert(v@ =~= convert_order());
    v
}

/// The order in which a texture is given back.
pub open spec fn texture_order() -> Seq<Slot> {
    seq![
        Slot::Sampler,
        Slot::View,
        Slot::Image,
        Slot::ImageMem,
        Slot::Staging,
        Slot::StagingMem,
    ]
}

/// The order in which a texture is given back.
pub fn texture_slots() -> (v: Vec<Slot>)
    ensures
        v@ == texture_order(),
{
    let v = vec![
        Slot::Sampler,
        Slot::View,
        Slot::Image,
        Slot::ImageMem,
        Slot::Staging,
        Slot::StagingMem,
    ];
    assert(v@ =~= texture_order());
    v
}

/// The order in which a half-built descriptor set is given back. The pool takes its set along.
pub open spec fn descriptor_order() -> Seq<Slot> {
    seq![
        Slot::Uniform,
        Slot::UniformMem,
        Slot::Storage,
        Slot::StorageMem,
        Slot::DescPool,
    ]
}

/// The order in which a half-built descriptor set is given back.
pub fn descriptor_slots() -> (v: Vec<Slot>)
    ensures
        v@ == descriptor_order(),
{
    let v = vec![
        Slot::Uniform,
        Slot::UniformMem,
        Slot::Storage,
        Slot::StorageMem,
        Slot::DescPool,
    ];
    assert(v@ =~= descriptor_order());
    v
}

/// The order in which the descriptor set of a finished frame is given back.
pub open spec fn frame_descriptor_order() -> Seq<Slot> {
    seq![
        Slot::DescPool,
        Slot::Uniform,
        Slot::UniformMem,
        Slot::Storage,
        Slot::StorageMem,
    ]
}

/// The order in which the descriptor set of a finished frame is given back.
pub fn frame_descriptor_slots() -> (v: Vec<Slot>)
    ensures
        v@ == frame_descriptor_order(),
{
    let v = vec![
        Slot::DescPool,
        Slot::Uniform,
        Slot::UniformMem,
        Slot::Storage,
        Slot::StorageMem,
    ];
    assert(v@ =~= frame_descriptor_order());
    v
}

/// The order in which mesh buffers are given back.
pub open spec fn geometry_order() -> Seq<Slot> {
    seq![Slot::VertexBuf, Slot::VertexMem, Slot::IndexBuf, Slot::IndexMem]
}

/// The order in which mesh buffers are given back.
pub fn geometry_slots() -> (v: Vec<Slot>)
    ensures
        v@ == geometry_order(),
{
    let v = vec![Slot::VertexBuf, Slot::VertexMem, Slot::IndexBuf, Slot::IndexMem];
    assert(v@ =~= geometry_order());
    v
}

/// The order in which a reusable frame target is given back, once its mapping is undone.
pub open spec fn target_order() -> Seq<Slot> {
    seq![
        Slot::Fence,
        Slot::Pool,
        Slot::Readback,
        Slot::ReadbackMem,
        Slot::Framebuffer,
        Slot::View,
        Slot::Image,
        Slot::ImageMem,
        Slot::DepthView,
        Slot::DepthImage,
        Slot::DepthMem,
    ]
}

/// The order in which a reusable frame target is given back, once its mapping is undone.
pub fn target_slots() -> (v: Vec<Slot>)
    ensures
        v@ == target_order(),
{
    let v = vec![
        Slot::Fence,
        Slot::Pool,
        Slot::Readback,
        Slot::ReadbackMem,
        Slot::Framebuffer,
        Slot::View,
        Slot::Image,
        Slot::ImageMem,
        Slot::DepthView,
        Slot::DepthImage,
        Slot::DepthMem,
    ];
    assert(v@ =~= target_order());
    v
}

/// The order in which the viewer's frame image is given back, once its mapping is undone.
pub open spec fn frame_image_order() -> Seq<Slot> {
    seq![Slot::Staging, Slot::StagingMem, Slot::Image, Slot::ImageMem]
}

/// The order in which the viewer's frame image is given back, once its mapping is undone.
pub fn frame_image_slots() -> (v: Vec<Slot>)
    ensures
        v@ == frame_image_order(),
{
    let v = vec![Slot::Staging, Slot::StagingMem, Slot::Image, Slot::ImageMem];
    assert(v@ =~= frame_image_order());
    v
}

/// Every order is safe: whatever part of the work was done, giving back in this order frees each
/// object once and none before what is built on it.
pub proof fn law_orders_are_safe()
    ensures
        safe_order(render_order()),
        safe_order(convert_order()),
        safe_order(texture_order()),
        safe_order(descriptor_order()),
        safe_order(frame_descriptor_order()),
        safe_order(geometry_order()),
        safe_order(target_order()),
        safe_order(frame_image_order()),
{
}

/// The orders of giving back are the safe ones, and what is given back is what was registered.
pub proof fn law_slots_are_given_back(
    render: Vec<Slot>,
    convert: Vec<Slot>,
    texture: Vec<Slot>,
    descriptors: Vec<Slot>,
    frame_descriptors: Vec<Slot>,
    geometry: Vec<Slot>,
    target: Vec<Slot>,
    image: Vec<Slot>,
)
    requires
        call_ensures(render_slots, (), render),
        call_ensures(convert_slots, (), convert),
        call_ensures(texture_slots, (), texture),
        call_ensures(descriptor_slots, (), descriptors),
        call_ensures(frame_descriptor_slots, (), frame_descriptors),
        call_ensures(geometry_slots, (), geometry),
        call_ensures(target_slots, (), target),
        call_ensures(frame_image_slots, (), image),
    ensures
        safe_order(render@) && safe_order(convert@) && safe_order(texture@),
        safe_order(descriptors@) && safe_order(frame_descriptors@) && safe_order(geometry@),
        safe_order(target@) && safe_order(image@),
        render@ == render_order() && convert@ == convert_order() && texture@ == texture_order(),
        descriptors@ == descriptor_order() && frame_descriptors@ == frame_descriptor_order(),
        geometry@ == geometry_order() && target@ == target_order() && image@
            == frame_image_order(),
{
    law_orders_are_safe();
}

/// What is registered in a slot is what is found there, until all is forgotten; no other slot is
/// touched.
pub proof fn law_slots_hold(
    fresh: Scratch,
    sc: &mut Scratch,
    slot: Slot,
    handle: u64,
    other: Slot,
    got: u64,
    gone: &mut Scratch,
)
    requires
        call_ensures(Scratch::new, (), fresh),
        old(sc).wf(),
        call_ensures(Scratch::put, (sc, slot, handle), ()),
        call_ensures(Scratch::get, (&*final(sc), slot), got),
        call_ensures(Scratch::disarm, (gone,), ()),
    ensures
        fresh@[slot] == 0,
        got == handle,
        other != slot ==> final(sc)@[other] == old(sc)@[other],
        final(gone)@[slot] == 0,
{
}

} // verus!
