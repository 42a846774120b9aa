//! The cache of shader modules, render passes and pipelines, and how a draw finds its pipeline.
use crate::gpu::memo::{values, Memo, MemoKey};
use crate::replay::draw::{DescriptorSig, KeyView, PipelineKey};
use crate::text::same_text;
use vstd::prelude::*;

verus! {

/// At this many cached modules the cache is emptied before anything is added.
pub const MAX_CACHED_MODULES: usize = 512;

/// At this many cached pipelines the cache is emptied before anything is added.
pub const MAX_CACHED_PIPELINES: usize = 256;

/// What a render pass is kept under.
#[derive(Debug, Clone, Copy, PartialEq, Eq, Structural)]
pub struct PassKey {
    pub format: i32,
    pub with_depth: bool,
}

impl View for PassKey {
    type V = PassKey;

    open spec fn view(&self) -> PassKey {
        *self
    }
}

impl MemoKey for PassKey {
    fn same(&self, other: &Self) -> (b: bool) {
        *self == *other
    }
}

fn same_option(a: Option<u32>, b: Option<u32>) -> (r: bool)
    ensures
        r == (a == b),
{
    match (a, b) {
        (Some(x), Some(y)) => x == y,
        (None, None) => true,
        _ => false,
    }
}

impl View for DescriptorSig {
    type V = DescriptorSig;

    open spec fn view(&self) -> DescriptorSig {
        *self
    }
}

impl MemoKey for DescriptorSig {
    fn same(&self, other: &Self) -> (b: bool) {
        same_option(self.ubo_binding, other.ubo_binding) && same_option(
            self.tex_binding,
            other.tex_binding,
        ) && self.tex_count == other.tex_count && same_option(
            self.ssbo_binding,
            other.ssbo_binding,
        )
    }
}

impl MemoKey for PipelineKey {
    fn same(&self, other: &Self) -> (b: bool) {
        let sigs: bool = match (&self.desc_sig, &other.desc_sig) {
            (Some(x), Some(y)) => x.same(y),
            (None, None) => true,
            _ => false,
        };
        sigs && same_text(self.vertex_entry.as_str(), other.vertex_entry.as_str()) && same_text(
            self.fragment_entry.as_str(),
            other.fragment_entry.as_str(),
        ) && self.vs_hash == other.vs_hash && self.fs_hash == other.fs_hash && self.topology
            == other.topology && self.format == other.format && self.vinput_hash
            == other.vinput_hash && self.depth_key == other.depth_key && self.pc_size
            == other.pc_size && self.raster_flags == other.raster_flags
    }
}

/// A pipeline and its layout.
#[derive(Debug, Clone, Copy, PartialEq, Eq, Structural)]
pub struct CachedPipeline {
    pub pipeline: u64,
    pub layout: u64,
}

/// A cached object to destroy.
#[derive(Debug, Clone, Copy, PartialEq, Eq, Structural)]
pub enum Dispose {
    Pipeline(u64),
    Layout(u64),
    Module(u64),
    RenderPass(u64),
}

/// What the cache holds.
#[verifier::ext_equal]
pub struct CacheView {
    pub modules: Map<u64, u64>,
    pub passes: Map<PassKey, u64>,
    pub pipelines: Map<KeyView, CachedPipeline>,
    pub hits: u64,
    pub misses: u64,
}

/// The compiled objects that draws share.
pub struct GpuObjCache {
    shader_modules: Memo<u64, u64>,
    render_passes: Memo<PassKey, u64>,
    pipelines: Memo<PipelineKey, CachedPipeline>,
    hits: u64,
    misses: u64,
}

/// Every pipeline with its layout, to destroy.
pub open spec fn pipelines_gone(ps: Seq<CachedPipeline>) -> Seq<Dispose>
    decreases ps.len(),
{
    if ps.len() == 0 {
        Seq::empty()
    } else {
        pipelines_gone(ps.drop_last()).push(Dispose::Pipeline(ps.last().pipeline)).push(
            Dispose::Layout(ps.last().layout),
        )
    }
}

impl View for GpuObjCache {
    type V = CacheView;

    closed spec fn view(&self) -> CacheView {
        CacheView {
            modules: self.shader_modules@,
            passes: self.render_passes@,
            pipelines: self.pipelines@,
            hits: self.hits,
            misses: self.misses,
        }
    }
}

impl CacheView {
    /// The cache with nothing in it, its counts kept.
    pub open spec fn emptied(self) -> CacheView {
        CacheView {
            modules: Map::empty(),
            passes: Map::empty(),
            pipelines: Map::empty(),
            hits: self.hits,
            misses: self.misses,
        }
    }

    /// Whether the cache is full.
    pub open spec fn full(self) -> bool {
        self.pipelines.dom().len() >= MAX_CACHED_PIPELINES || self.modules.dom().len()
            >= MAX_CACHED_MODULES
    }
}

impl GpuObjCache {
    pub closed spec fn wf(&self) -> bool {
        &&& self.shader_modules.wf()
        &&& self.render_passes.wf()
        &&& self.pipelines.wf()
    }

    /// The cached pipelines, in order.
    pub closed spec fn listed_pipelines(&self) -> Seq<CachedPipeline> {
        values(self.pipelines.listed())
    }

    /// The cached modules, in order.
    pub closed spec fn listed_modules(&self) -> Seq<u64> {
        values(self.shader_modules.listed())
    }

    /// The cached render passes, in order.
    pub closed spec fn listed_passes(&self) -> Seq<u64> {
        values(self.render_passes.listed())
    }

    /// The lists hold what the cache holds: as many as are cached, and each of them, so that
    /// emptying the cache destroys each object once.
    pub proof fn law_lists(&self)
        requires
            self.wf(),
        ensures
            self@.pipelines.dom().finite(),
            self@.modules.dom().finite(),
            self@.passes.dom().finite(),
            self.listed_pipelines().len() == self@.pipelines.dom().len(),
            self.listed_modules().len() == self@.modules.dom().len(),
            self.listed_passes().len() == self@.passes.dom().len(),
            forall|k: KeyView|
                self@.pipelines.dom().contains(k) ==> self.listed_pipelines().contains(
                    #[trigger] self@.pipelines[k],
                ),
            forall|k: u64|
                self@.modules.dom().contains(k) ==> self.listed_modules().contains(
                    #[trigger] self@.modules[k],
                ),
            forall|k: PassKey|
                self@.passes.dom().contains(k) ==> self.listed_passes().contains(
                    #[trigger] self@.passes[k],
                ),
    {
        self.pipelines.lemma_entries();
        self.shader_modules.lemma_entries();
        self.render_passes.lemma_entries();
        assert forall|k: KeyView|
            self@.pipelines.dom().contains(k) implies self.listed_pipelines().contains(
            #[trigger] self@.pipelines[k],
        ) by {
            self.pipelines.lemma_key(k);
            let i = choose|i: int|
                0 <= i < self.pipelines.listed().len() && (
                #[trigger] self.pipelines.listed()[i]).0 == k;
            assert(self.listed_pipelines()[i] == self@.pipelines[k]);
        }
        assert forall|k: u64|
            self@.modules.dom().contains(k) implies self.listed_modules().contains(
            #[trigger] self@.modules[k],
        ) by {
            self.shader_modules.lemma_key(k);
            let i = choose|i: int|
                0 <= i < self.shader_modules.listed().len() && (
                #[trigger] self.shader_modules.listed()[i]).0 == k;
            assert(self.listed_modules()[i] == self@.modules[k]);
        }
        assert forall|k: PassKey|
            self@.passes.dom().contains(k) implies self.listed_passes().contains(
            #[trigger] self@.passes[k],
        ) by {
            self.render_passes.lemma_key(k);
            let i = choose|i: int|
                0 <= i < self.render_passes.listed().len() && (
                #[trigger] self.render_passes.listed()[i]).0 == k;
            assert(self.listed_passes()[i] == self@.passes[k]);
        }
    }

    /// An empty cache.
    pub fn new() -> (c: Self)
        ensures
            c.wf(),
            c@ == (CacheView {
                modules: Map::empty(),
                passes: Map::empty(),
                pipelines: Map::empty(),
                hits: 0,
                misses: 0,
            }),
    {
        GpuObjCache {
            shader_modules: Memo::new(),
            render_passes: Memo::new(),
            pipelines: Memo::new(),
            hits: 0,
            misses: 0,
        }
    }

    /// Hits, misses and the number of cached pipelines.
    pub fn stats(&self) -> (r: (u64, u64, usize))
        requires
            self.wf(),
        ensures
            r.0 == self@.hits,
            r.1 == self@.misses,
            r.2 == self@.pipelines.dom().len(),
    {
        (self.hits, self.misses, self.pipelines.len())
    }

    /// Empties the cache; what it held is to be destroyed, every pipeline before its layout and
    /// before the modules and render passes.
    pub fn clear(&mut self) -> (out: Vec<Dispose>)
        requires
            old(self).wf(),
        ensures
            final(self).wf(),
            final(self)@ == old(self)@.emptied(),
            out@ == pipelines_gone(old(self).listed_pipelines()) + Seq::new(
                old(self).listed_modules().len(),
                |i: int| Dispose::Module(old(self).listed_modules()[i]),
            ) + Seq::new(
                old(self).listed_passes().len(),
                |i: int| Dispose::RenderPass(old(self).listed_passes()[i]),
            ),
    {
        let ps = self.pipelines.drain();
        let ms = self.shader_modules.drain();
        let rs = self.render_passes.drain();
        let mut out: Vec<Dispose> = Vec::new();
        let mut i: usize = 0;
        while i < ps.len()
            invariant
                i <= ps@.len(),
                out@ == pipelines_gone(ps@.take(i as int)),
            decreases ps.len() - i,
        {
            assert(ps@.take(i + 1).drop_last() =~= ps@.take(i as int));
            out.push(Dispose::Pipeline(ps[i].pipeline));
            out.push(Dispose::Layout(ps[i].layout));
            i = i + 1;
        }
        assert(ps@.take(i as int) =~= ps@);
        let ghost a = out@;
        let mut j: usize = 0;
        while j < ms.len()
            invariant
                j <= ms@.len(),
                out@ == a + Seq::new(j as nat, |i: int| Dispose::Module(ms@[i])),
            decreases ms.len() - j,
        {
            out.push(Dispose::Module(ms[j]));
            j = j + 1;
            assert(out@ =~= a + Seq::new(j as nat, |i: int| Dispose::Module(ms@[i])));
        }
        let ghost b = out@;
        let mut k: usize = 0;
        while k < rs.len()
            invariant
                k <= rs@.len(),
                out@ == b + Seq::new(k as nat, |i: int| Dispose::RenderPass(rs@[i])),
            decreases rs.len() - k,
        {
            out.push(Dispose::RenderPass(rs[k]));
            k = k + 1;
            assert(out@ =~= b + Seq::new(k as nat, |i: int| Dispose::RenderPass(rs@[i])));
        }
        out
    }

    /// Empties a full cache before anything is added, so that a flood of distinct shaders cannot
    /// grow it without end.
    pub fn make_room(&mut self) -> (out: Vec<Dispose>)
        requires
            old(self).wf(),
        ensures
            final(self).wf(),
            old(self)@.full() ==> final(self)@ == old(self)@.emptied() && out@ == pipelines_gone(
                old(self).listed_pipelines(),
            ) + Seq::new(
                old(self).listed_modules().len(),
                |i: int| Dispose::Module(old(self).listed_modules()[i]),
            ) + Seq::new(
                old(self).listed_passes().len(),
                |i: int| Dispose::RenderPass(old(self).listed_passes()[i]),
            ),
            !old(self)@.full() ==> final(self)@ == old(self)@ && out@ == Seq::<Dispose>::empty(),
            !final(self)@.full(),
    {
        if self.pipelines.len() >= MAX_CACHED_PIPELINES || self.shader_modules.len()
            >= MAX_CACHED_MODULES {
            self.clear()
        } else {
            Vec::new()
        }
    }
}

/// How far a draw is on the way to its pipeline.
#[derive(Debug, Clone, Copy, PartialEq, Eq, Structural)]
pub enum Stage {
    Pass,
    Lookup,
    Vertex,
    Fragment,
    Pipeline,
    Done,
}

/// A shader module, and whether it was made for this draw.
#[derive(Debug, Clone, Copy, PartialEq, Eq, Structural)]
pub struct Module {
    pub handle: u64,
    pub fresh: bool,
}

/// What has to be done next for a draw's pipeline.
#[derive(Debug, Clone, Copy, PartialEq, Eq, Structural)]
pub enum ResolveAction {
    /// Build the render pass.
    BuildRenderPass { format: i32, with_depth: bool },
    /// Compile the vertex shader.
    BuildVertexModule,
    /// Compile the fragment shader.
    BuildFragmentModule,
    /// Build the pipeline from these.
    BuildPipeline { render_pass: u64, vertex: u64, fragment: u64 },
    /// Draw with these.
    Done { render_pass: u64, pipeline: u64, layout: u64 },
}

/// A draw on the way to its pipeline.
#[derive(Debug)]
pub struct Resolver {
    pub key: PipelineKey,
    pub pass: PassKey,
    pub stage: Stage,
    pub render_pass: u64,
    pub vertex: Module,
    pub fragment: Module,
    pub found: CachedPipeline,
}

impl Resolver {
    /// A draw that has nothing yet.
    pub open spec fn started(key: PipelineKey, with_depth: bool) -> Resolver {
        Resolver {
            key,
            pass: PassKey { format: key.format, with_depth },
            stage: Stage::Pass,
            render_pass: 0,
            vertex: Module { handle: 0, fresh: false },
            fragment: Module { handle: 0, fresh: false },
            found: CachedPipeline { pipeline: 0, layout: 0 },
        }
    }

    /// What is next, in this stage and with this cache; `None` where the cache has what the stage
    /// needs.
    pub open spec fn wants(self, c: CacheView) -> Option<ResolveAction> {
        match self.stage {
            Stage::Pass => if c.passes.dom().contains(self.pass) {
                None
            } else {
                Some(
                    ResolveAction::BuildRenderPass {
                        format: self.pass.format,
                        with_depth: self.pass.with_depth,
                    },
                )
            },
            Stage::Lookup => None,
            Stage::Vertex => if c.modules.dom().contains(self.key.vs_hash) {
                None
            } else {
                Some(ResolveAction::BuildVertexModule)
            },
            Stage::Fragment => if self.key.fs_hash == self.key.vs_hash || c.modules.dom().contains(
                self.key.fs_hash,
            ) {
                None
            } else {
                Some(ResolveAction::BuildFragmentModule)
            },
            Stage::Pipeline => Some(
                ResolveAction::BuildPipeline {
                    render_pass: self.render_pass,
                    vertex: self.vertex.handle,
                    fragment: self.fragment.handle,
                },
            ),
            Stage::Done => Some(
                ResolveAction::Done {
                    render_pass: self.render_pass,
                    pipeline: self.found.pipeline,
                    layout: self.found.layout,
                },
            ),
        }
    }

    /// The draw one stage on, with what the cache has. Identical shaders share one module.
    pub open spec fn moved(self, c: CacheView) -> Resolver {
        match self.stage {
            Stage::Pass => Resolver {
                stage: Stage::Lookup,
                render_pass: c.passes[self.pass],
                ..self
            },
            Stage::Lookup => if c.pipelines.dom().contains(self.key@) {
                Resolver { stage: Stage::Done, found: c.pipelines[self.key@], ..self }
            } else {
                Resolver { stage: Stage::Vertex, ..self }
            },
            Stage::Vertex => Resolver {
                stage: Stage::Fragment,
                vertex: Module { handle: c.modules[self.key.vs_hash], fresh: false },
                ..self
            },
            Stage::Fragment => Resolver {
                stage: Stage::Pipeline,
                fragment: Module {
                    handle: if self.key.fs_hash == self.key.vs_hash {
                        self.vertex.handle
                    } else {
                        c.modules[self.key.fs_hash]
                    },
                    fresh: false,
                },
                ..self
            },
            _ => self,
        }
    }

    /// The cache once the draw moved a stage on: a pipeline that was found counts as a hit.
    pub open spec fn counted(self, c: CacheView) -> CacheView {
        if self.stage is Lookup && c.pipelines.dom().contains(self.key@) {
            CacheView { hits: (c.hits + 1) as u64, ..c }
        } else {
            c
        }
    }

    /// How many stages are left at most.
    pub open spec fn left(self) -> nat {
        match self.stage {
            Stage::Pass => 5,
            Stage::Lookup => 4,
            Stage::Vertex => 3,
            Stage::Fragment => 2,
            Stage::Pipeline => 1,
            Stage::Done => 0,
        }
    }

    /// The draw, moved on as far as the cache has what is needed.
    pub open spec fn settled(self, c: CacheView) -> Resolver
        decreases self.left(),
    {
        if self.wants(c) is Some {
            self
        } else {
            self.moved(c).settled(self.counted(c))
        }
    }

    /// The cache, once the draw moved on as far as it could.
    pub open spec fn settled_cache(self, c: CacheView) -> CacheView
        decreases self.left(),
    {
        if self.wants(c) is Some {
            c
        } else {
            self.moved(c).settled_cache(self.counted(c))
        }
    }

    /// What was made for this draw alone so far, and is to be destroyed when a build fails.
    pub open spec fn made(self) -> Seq<Dispose> {
        let v = if self.vertex.fresh {
            seq![Dispose::Module(self.vertex.handle)]
        } else {
            Seq::empty()
        };
        let f = if self.fragment.fresh {
            seq![Dispose::Module(self.fragment.handle)]
        } else {
            Seq::empty()
        };
        v + f
    }

    /// The draw once the object that it wanted was made.
    pub open spec fn given(self, handle: u64) -> Resolver {
        match self.stage {
            Stage::Pass => Resolver { stage: Stage::Lookup, render_pass: handle, ..self },
            Stage::Vertex => Resolver {
                stage: Stage::Fragment,
                vertex: Module { handle, fresh: true },
                ..self
            },
            Stage::Fragment => Resolver {
                stage: Stage::Pipeline,
                fragment: Module { handle, fresh: true },
                ..self
            },
            _ => self,
        }
    }

    /// The cache once the object that a draw wanted was made: a render pass is kept at once,
    /// shader modules only with their pipeline.
    pub open spec fn kept(self, c: CacheView, handle: u64) -> CacheView {
        if self.stage is Pass {
            CacheView { passes: c.passes.insert(self.pass, handle), ..c }
        } else {
            c
        }
    }

    /// The modules with those of the draw that are fresh.
    pub open spec fn modules_kept(self, m: Map<u64, u64>) -> Map<u64, u64> {
        let v = if self.vertex.fresh {
            m.insert(self.key.vs_hash, self.vertex.handle)
        } else {
            m
        };
        if self.fragment.fresh {
            v.insert(self.key.fs_hash, self.fragment.handle)
        } else {
            v
        }
    }

    /// The cache once a draw's pipeline was built: the pipeline and the fresh modules are kept,
    /// and a miss is counted.
    pub open spec fn filled(self, c: CacheView, p: CachedPipeline) -> CacheView {
        CacheView {
            modules: self.modules_kept(c.modules),
            pipelines: c.pipelines.insert(self.key@, p),
            misses: (c.misses + 1) as u64,
            ..c
        }
    }

    /// What the stages so far found out about the cache.
    pub open spec fn agrees(self, c: CacheView) -> bool {
        &&& self.stage is Pass ==> !self.vertex.fresh && !self.fragment.fresh
        &&& self.stage is Lookup ==> !self.vertex.fresh && !self.fragment.fresh
        &&& self.stage is Vertex ==> !self.vertex.fresh && !self.fragment.fresh
            && !c.pipelines.dom().contains(self.key@)
        &&& self.stage is Fragment ==> !self.fragment.fresh && !c.pipelines.dom().contains(
            self.key@,
        ) && (self.vertex.fresh ==> !c.modules.dom().contains(self.key.vs_hash))
        &&& self.stage is Pipeline ==> !c.pipelines.dom().contains(self.key@) && (self.vertex.fresh
            ==> !c.modules.dom().contains(self.key.vs_hash)) && (self.fragment.fresh
            ==> self.key.fs_hash != self.key.vs_hash && !c.modules.dom().contains(
            self.key.fs_hash,
        ))
    }

    /// Starts on the way to the pipeline of a draw. A full cache is emptied first.
    pub fn start(cache: &mut GpuObjCache, key: PipelineKey, with_depth: bool) -> (r: (
        Resolver,
        Vec<Dispose>,
    ))
        requires
            old(cache).wf(),
        ensures
            final(cache).wf(),
            r.0 == Resolver::started(key, with_depth),
            r.0.agrees(final(cache)@),
            old(cache)@.full() ==> final(cache)@ == old(cache)@.emptied() && r.1@
                == pipelines_gone(old(cache).listed_pipelines()) + Seq::new(
                old(cache).listed_modules().len(),
                |i: int| Dispose::Module(old(cache).listed_modules()[i]),
            ) + Seq::new(
                old(cache).listed_passes().len(),
                |i: int| Dispose::RenderPass(old(cache).listed_passes()[i]),
            ),
            !old(cache)@.full() ==> final(cache)@ == old(cache)@ && r.1@ == Seq::<
                Dispose,
            >::empty(),
    {
        let gone = cache.make_room();
        let pass = PassKey { format: key.format, with_depth };
        (
            Resolver {
                key,
                pass,
                stage: Stage::Pass,
                render_pass: 0,
                vertex: Module { handle: 0, fresh: false },
                fragment: Module { handle: 0, fresh: false },
                found: CachedPipeline { pipeline: 0, layout: 0 },
            },
            gone,
        )
    }

    /// Moves on as far as the cache has what is needed, and says what has to be made next.
    pub fn next(&mut self, cache: &mut GpuObjCache) -> (a: ResolveAction)
        requires
            old(cache).wf(),
            old(self).agrees(old(cache)@),
            old(cache)@.hits < u64::MAX,
        ensures
            final(cache).wf(),
            *final(self) == old(self).settled(old(cache)@),
            final(cache)@ == old(self).settled_cache(old(cache)@),
            final(self).agrees(final(cache)@),
            final(self).wants(final(cache)@) == Some(a),
        decreases old(self).left(),
    {
        match self.stage {
            Stage::Pass => {
                match cache.render_passes.get(&self.pass) {
                    Some(h) => {
                        self.render_pass = h;
                        self.stage = Stage::Lookup;
                        self.next(cache)
                    },
                    None => ResolveAction::BuildRenderPass {
                        format: self.pass.format,
                        with_depth: self.pass.with_depth,
                    },
                }
            },
            Stage::Lookup => {
                match cache.pipelines.get(&self.key) {
                    Some(p) => {
                        self.found = p;
                        self.stage = Stage::Done;
                        cache.hits = cache.hits + 1;
                        assert(self.settled(cache@) == *self);
                        assert(self.settled_cache(cache@) == cache@);
                        assert(cache@ =~= old(self).counted(old(cache)@));
                        ResolveAction::Done {
                            render_pass: self.render_pass,
                            pipeline: p.pipeline,
                            layout: p.layout,
                        }
                    },
                    None => {
                        self.stage = Stage::Vertex;
                        self.next(cache)
                    },
                }
            },
            Stage::Vertex => {
                match cache.shader_modules.get(&self.key.vs_hash) {
                    Some(h) => {
                        self.vertex = Module { handle: h, fresh: false };
                        self.stage = Stage::Fragment;
                        self.next(cache)
                    },
                    None => ResolveAction::BuildVertexModule,
                }
            },
            Stage::Fragment => {
                if self.key.fs_hash == self.key.vs_hash {
                    self.fragment = Module { handle: self.vertex.handle, fresh: false };
                    self.stage = Stage::Pipeline;
                    self.next(cache)
                } else {
                    match cache.shader_modules.get(&self.key.fs_hash) {
                        Some(h) => {
                            self.fragment = Module { handle: h, fresh: false };
                            self.stage = Stage::Pipeline;
                            self.next(cache)
                        },
                        None => ResolveAction::BuildFragmentModule,
                    }
                }
            },
            Stage::Pipeline => ResolveAction::BuildPipeline {
                render_pass: self.render_pass,
                vertex: self.vertex.handle,
                fragment: self.fragment.handle,
            },
            Stage::Done => ResolveAction::Done {
                render_pass: self.render_pass,
                pipeline: self.found.pipeline,
                layout: self.found.layout,
            },
        }
    }

    /// The render pass or shader module that was wanted is made.
    pub fn give(&mut self, cache: &mut GpuObjCache, handle: u64)
        requires
            old(cache).wf(),
            old(self).agrees(old(cache)@),
            old(self).stage is Pass || old(self).stage is Vertex || old(self).stage is Fragment,
            old(self).wants(old(cache)@) is Some,
        ensures
            final(cache).wf(),
            *final(self) == old(self).given(handle),
            final(cache)@ == old(self).kept(old(cache)@, handle),
            final(self).agrees(final(cache)@),
    {
        match self.stage {
            Stage::Pass => {
                cache.render_passes.insert(self.pass, handle);
                self.render_pass = handle;
                self.stage = Stage::Lookup;
            },
            Stage::Vertex => {
                self.vertex = Module { handle, fresh: true };
                self.stage = Stage::Fragment;
            },
            _ => {
                self.fragment = Module { handle, fresh: true };
                self.stage = Stage::Pipeline;
            },
        }
    }

    /// The pipeline that was wanted is built.
    pub fn finish(&mut self, cache: &mut GpuObjCache, p: CachedPipeline)
        requires
            old(cache).wf(),
            old(self).agrees(old(cache)@),
            old(self).stage is Pipeline,
            old(cache)@.misses < u64::MAX,
        ensures
            final(cache).wf(),
            *final(self) == (Resolver { stage: Stage::Done, found: p, ..*old(self) }),
            final(cache)@ == old(self).filled(old(cache)@, p),
    {
        if self.vertex.fresh {
            cache.shader_modules.insert(self.key.vs_hash, self.vertex.handle);
        }
        if self.fragment.fresh {
            cache.shader_modules.insert(self.key.fs_hash, self.fragment.handle);
        }
        cache.misses = cache.misses + 1;
        cache.pipelines.insert(self.key.duplicate(), p);
        self.found = p;
        self.stage = Stage::Done;
    }

    /// A build failed: the modules that were made for this draw are to be destroyed. The cache
    /// keeps none of them, and is left as it is.
    pub fn fail(&self) -> (out: Vec<Dispose>)
        ensures
            out@ == self.made(),
    {
        let mut out: Vec<Dispose> = Vec::new();
        if self.vertex.fresh {
            out.push(Dispose::Module(self.vertex.handle));
        }
        if self.fragment.fresh {
            out.push(Dispose::Module(self.fragment.handle));
        }
        assert(out@ =~= self.made());
        out
    }
}

/// The cache stays within its bounds: with room made first, adding a draw's objects leaves at
/// most the bound of pipelines, and at most one module more than the bound.
pub proof fn law_cache_is_bounded(r: Resolver, c: CacheView, p: CachedPipeline)
    requires
        c.modules.dom().finite(),
        c.pipelines.dom().finite(),
        !c.full(),
    ensures
        r.filled(c, p).pipelines.dom().len() <= MAX_CACHED_PIPELINES,
        r.filled(c, p).modules.dom().len() <= MAX_CACHED_MODULES + 1,
{
}

/// A failed build leaves no trace: looking for a pipeline and making shader modules changes
/// neither the cached pipelines nor the cached modules, so what is destroyed on failure is cached
/// nowhere.
pub proof fn law_search_keeps_cache(r: Resolver, c: CacheView, handle: u64)
    ensures
        r.settled_cache(c).modules == c.modules,
        r.settled_cache(c).pipelines == c.pipelines,
        r.settled_cache(c).passes == c.passes,
        r.settled_cache(c).misses == c.misses,
        r.kept(c, handle).modules == c.modules,
        r.kept(c, handle).pipelines == c.pipelines,
        r.kept(c, handle).misses == c.misses,
    decreases r.left(),
{
    if r.wants(c) is None {
        law_search_keeps_cache(r.moved(c), r.counted(c), handle);
    }
}

/// A failed build frees what it made and no more: a module that was found in the cache, or is
/// shared by both stages, is not destroyed, and none is destroyed twice as long as the two that
/// were made are not the same.
pub proof fn law_failure_frees_fresh_modules(r: Resolver)
    requires
        r.vertex.handle != r.fragment.handle || !r.vertex.fresh || !r.fragment.fresh,
    ensures
        forall|h: u64|
            r.made().contains(Dispose::Module(h)) ==> (r.vertex.fresh && r.vertex.handle == h) || (
            r.fragment.fresh && r.fragment.handle == h),
        r.vertex.fresh ==> r.made().contains(Dispose::Module(r.vertex.handle)),
        r.fragment.fresh ==> r.made().contains(Dispose::Module(r.fragment.handle)),
        r.made().no_duplicates(),
{
    let m = r.made();
    if r.vertex.fresh {
        assert(m[0] == Dispose::Module(r.vertex.handle));
        if r.fragment.fresh {
            assert(m[1] == Dispose::Module(r.fragment.handle));
        }
    } else if r.fragment.fresh {
        assert(m[0] == Dispose::Module(r.fragment.handle));
    }
}

/// A draw whose pipeline was built finds it again: with the render pass cached, a second draw of
/// the same key is done at once, with the same pipeline, and counts as a hit.
pub proof fn law_second_draw_hits(
    r: Resolver,
    key: PipelineKey,
    c: CacheView,
    p: CachedPipeline,
    with_depth: bool,
)
    requires
        key@ == r.key@,
        c.passes.dom().contains((PassKey { format: r.key.format, with_depth })),
        c.hits < u64::MAX,
    ensures
        ({
            let after = r.filled(c, p);
            let again = Resolver::started(key, with_depth).settled(after);
            &&& again.wants(after) == Some(
                ResolveAction::Done {
                    render_pass: c.passes[PassKey { format: r.key.format, with_depth }],
                    pipeline: p.pipeline,
                    layout: p.layout,
                },
            )
            &&& Resolver::started(key, with_depth).settled_cache(after).hits == c.hits + 1
        }),
{
    let after = r.filled(c, p);
    let s0 = Resolver::started(key, with_depth);
    let s1 = s0.moved(after);
    let s2 = s1.moved(after);
    assert(s0.wants(after) is None);
    assert(s1.wants(after) is None);
    assert(s2.stage is Done);
    reveal_with_fuel(Resolver::settled, 3);
    reveal_with_fuel(Resolver::settled_cache, 3);
}

/// A draw never shares a pipeline with one of another key: what is kept for the one changes
/// nothing for the other.
pub proof fn law_other_keys_untouched(r: Resolver, c: CacheView, p: CachedPipeline, other: KeyView)
    requires
        other != r.key@,
    ensures
        r.filled(c, p).pipelines.dom().contains(other) == c.pipelines.dom().contains(other),
        c.pipelines.dom().contains(other) ==> r.filled(c, p).pipelines[other]
            == c.pipelines[other],
{
}

/// A draw whose pipeline was not built has it built, whatever else the cache holds of it, its
/// modules among that: where the module lacks the entry point that it names the build, and so the
/// draw, fails as it would have without the cache.
pub proof fn law_new_entry_is_built(key: PipelineKey, c: CacheView, with_depth: bool)
    requires
        !c.pipelines.dom().contains(key@),
        c.passes.dom().contains((PassKey { format: key.format, with_depth })),
        c.modules.dom().contains(key.vs_hash),
        c.modules.dom().contains(key.fs_hash),
    ensures
        Resolver::started(key, with_depth).settled(c).wants(c) == Some(
            ResolveAction::BuildPipeline {
                render_pass: c.passes[PassKey { format: key.format, with_depth }],
                vertex: c.modules[key.vs_hash],
                fragment: c.modules[key.fs_hash],
            },
        ),
{
    let s0 = Resolver::started(key, with_depth);
    let s1 = s0.moved(c);
    let s2 = s1.moved(c);
    let s3 = s2.moved(c);
    assert(s0.wants(c) is None && s1.wants(c) is None && s2.wants(c) is None && s3.wants(c)
        is None);
    reveal_with_fuel(Resolver::settled, 5);
}

/// Something that was done with the cache for a draw.
pub enum CacheEvent {
    /// Room was made, or everything was given up.
    Emptied,
    /// A draw moved on as far as it could.
    Moved(Resolver),
    /// A render pass or a module was made for a draw.
    Given(Resolver, u64),
    /// A draw's pipeline was built.
    Built(Resolver, CachedPipeline),
}

/// The cache after something was done with it. A build that fails does nothing with it.
pub open spec fn cache_after(c: CacheView, e: CacheEvent) -> CacheView {
    match e {
        CacheEvent::Emptied => c.emptied(),
        CacheEvent::Moved(r) => r.settled_cache(c),
        CacheEvent::Given(r, handle) => r.kept(c, handle),
        CacheEvent::Built(r, p) => r.filled(c, p),
    }
}

/// The cache after some events.
pub open spec fn cache_after_all(c: CacheView, events: Seq<CacheEvent>) -> CacheView
    decreases events.len(),
{
    if events.len() == 0 {
        c
    } else {
        cache_after(cache_after_all(c, events.drop_last()), events.last())
    }
}

/// Whether an event is the build of a pipeline under this key.
pub open spec fn builds(e: CacheEvent, k: KeyView) -> bool {
    e matches CacheEvent::Built(r, _) && r.key@ == k
}

/// Only what was built is found: whatever was drawn before, a key that no pipeline was built
/// under is not in the cache, so that its draw is never done without a build.
pub proof fn law_unbuilt_is_never_found(c: CacheView, events: Seq<CacheEvent>, k: KeyView)
    requires
        !c.pipelines.dom().contains(k),
        forall|i: int| 0 <= i < events.len() ==> !builds(#[trigger] events[i], k),
    ensures
        !cache_after_all(c, events).pipelines.dom().contains(k),
        forall|key: PipelineKey, with_depth: bool|
            key@ == k ==> !(#[trigger] Resolver::started(key, with_depth).settled(
                cache_after_all(c, events),
            ).stage is Done),
    decreases events.len(),
{
    if events.len() > 0 {
        let before = events.drop_last();
        assert forall|i: int| 0 <= i < before.len() implies !builds(#[trigger] before[i], k) by {
            assert(before[i] == events[i]);
        }
        law_unbuilt_is_never_found(c, before, k);
        assert(!builds(events[events.len() - 1], k));
        if let CacheEvent::Moved(r) = events.last() {
            law_search_keeps_cache(r, cache_after_all(c, before), 0);
        }
    }
    let d = cache_after_all(c, events);
    assert forall|key: PipelineKey, with_depth: bool| key@ == k implies !(
    #[trigger] Resolver::started(key, with_depth).settled(d).stage is Done) by {
        lemma_not_done(Resolver::started(key, with_depth), d);
    }
}

/// A draw whose key is not in the cache does not come to its end there.
proof fn lemma_not_done(r: Resolver, c: CacheView)
    requires
        !(r.stage is Done),
        !c.pipelines.dom().contains(r.key@),
    ensures
        !(r.settled(c).stage is Done),
    decreases r.left(),
{
    if r.wants(c) is None {
        lemma_not_done(r.moved(c), r.counted(c));
    }
}

/// A draw is not disturbed by others: as long as the cache is not emptied, the pipeline of a draw
/// stays what it was, whatever other draws do and however many of them fail, so that the draw is
/// drawn with it again.
pub proof fn law_built_stays(
    r: Resolver,
    c: CacheView,
    p: CachedPipeline,
    events: Seq<CacheEvent>,
)
    requires
        forall|i: int|
            0 <= i < events.len() ==> !builds(#[trigger] events[i], r.key@)
                && !(events[i] is Emptied),
    ensures
        cache_after_all(r.filled(c, p), events).pipelines.dom().contains(r.key@),
        cache_after_all(r.filled(c, p), events).pipelines[r.key@] == p,
        forall|key: PipelineKey, with_depth: bool|
            key@ == r.key@ && cache_after_all(r.filled(c, p), events).passes.dom().contains(
                (PassKey { format: key.format, with_depth }),
            ) ==> {
                let again = #[trigger] Resolver::started(key, with_depth).settled(
                    cache_after_all(r.filled(c, p), events),
                );
                again.stage is Done && again.found == p
            },
    decreases events.len(),
{
    if events.len() > 0 {
        let before = events.drop_last();
        assert forall|i: int| 0 <= i < before.len() implies !builds(#[trigger] before[i], r.key@)
            && !(before[i] is Emptied) by {
            assert(before[i] == events[i]);
        }
        law_built_stays(r, c, p, before);
        assert(!builds(events[events.len() - 1], r.key@));
        if let CacheEvent::Moved(q) = events.last() {
            law_search_keeps_cache(q, cache_after_all(r.filled(c, p), before), 0);
        }
    }
    let d = cache_after_all(r.filled(c, p), events);
    assert forall|key: PipelineKey, with_depth: bool|
        key@ == r.key@ && d.passes.dom().contains(
            (PassKey { format: key.format, with_depth }),
        ) implies {
        let again = #[trigger] Resolver::started(key, with_depth).settled(d);
        again.stage is Done && again.found == p
    } by {
        let s0 = Resolver::started(key, with_depth);
        let s1 = s0.moved(d);
        assert(s0.wants(d) is None && s1.wants(d) is None && s1.moved(d).stage is Done);
        reveal_with_fuel(Resolver::settled, 3);
    }
}

/// A draw that starts anew is told to make what is missing, and nothing that is there: its render
/// pass first, then, unless its pipeline is there, the vertex shader and the fragment shader, unless
/// the two are one; then its pipeline, of its own parts. Where the pipeline is there it is given
/// with its layout and counted as a hit; nothing else of the cache changes.
pub proof fn law_draws_use_what_is_kept(
    r: &mut Resolver,
    cache: &mut GpuObjCache,
    a: ResolveAction,
)
    requires
        old(cache).wf(),
        old(r).stage is Pass,
        old(r).agrees(old(cache)@),
        old(cache)@.hits < u64::MAX,
        call_ensures(Resolver::next, (r, cache), a),
    ensures
        ({
            let c = old(cache)@;
            let d = final(cache)@;
            let k = old(r).key;
            let pass = c.passes.dom().contains(old(r).pass);
            let hit = c.pipelines.dom().contains(k@);
            let vs = c.modules.dom().contains(k.vs_hash);
            let fs = c.modules.dom().contains(k.fs_hash) || k.fs_hash == k.vs_hash;
            &&& !pass <==> a is BuildRenderPass
            &&& a matches ResolveAction::BuildRenderPass { format, with_depth } ==> format == old(
                r,
            ).pass.format && with_depth == old(r).pass.with_depth
            &&& pass && hit <==> a is Done
            &&& a matches ResolveAction::Done { render_pass, pipeline, layout } ==> render_pass
                == c.passes[old(r).pass] && pipeline == c.pipelines[k@].pipeline && layout
                == c.pipelines[k@].layout
            &&& pass && !hit && !vs <==> a is BuildVertexModule
            &&& pass && !hit && vs && !fs <==> a is BuildFragmentModule
            &&& pass && !hit && vs && fs <==> a is BuildPipeline
            &&& a matches ResolveAction::BuildPipeline { render_pass: rp, vertex, fragment } ==> rp
                == c.passes[old(r).pass] && vertex == c.modules[k.vs_hash] && (k.fs_hash
                == k.vs_hash ==> fragment == vertex) && (k.fs_hash != k.vs_hash ==> fragment
                == c.modules[k.fs_hash])
            &&& d.hits == c.hits + if pass && hit {
                1int
            } else {
                0
            }
            &&& d.misses == c.misses
            &&& d.modules == c.modules
            &&& d.passes == c.passes
            &&& d.pipelines == c.pipelines
        }),
{
    reveal_with_fuel(Resolver::settled, 6);
    reveal_with_fuel(Resolver::settled_cache, 6);
}

/// What is made for a draw is what it goes on with: a render pass is kept at once, a shader with the
/// pipeline that is built of it; the pipeline is kept under the draw's own key and counted as a
/// miss.
pub proof fn law_draws_keep_what_is_made(r: Resolver, c: CacheView, handle: u64, p: CachedPipeline)
    requires
        c.misses < u64::MAX,
    ensures
        r.stage is Pass ==> r.given(handle).render_pass == handle && r.kept(
            c,
            handle,
        ).passes[r.pass] == handle,
        r.stage is Vertex ==> r.given(handle).vertex.handle == handle && r.given(
            handle,
        ).vertex.fresh && r.given(handle).fragment == r.fragment && r.kept(c, handle) == c,
        r.stage is Fragment ==> r.given(handle).fragment.handle == handle && r.given(
            handle,
        ).fragment.fresh && r.given(handle).vertex == r.vertex && r.kept(c, handle) == c,
        r.filled(c, p).pipelines[r.key@] == p,
        r.filled(c, p).misses == c.misses + 1,
        r.filled(c, p).hits == c.hits,
        r.filled(c, p).passes == c.passes,
        r.vertex.fresh && !r.fragment.fresh ==> r.filled(c, p).modules[r.key.vs_hash]
            == r.vertex.handle,
        r.fragment.fresh ==> r.filled(c, p).modules[r.key.fs_hash] == r.fragment.handle,
        r.vertex.fresh && r.key.vs_hash != r.key.fs_hash ==> r.filled(
            c,
            p,
        ).modules[r.key.vs_hash] == r.vertex.handle,
        !r.vertex.fresh && !r.fragment.fresh ==> r.filled(c, p).modules == c.modules,
{
}

/// A draw whose build failed gives up the shaders that were made for it, and no other.
pub proof fn law_failed_builds_give_up_their_own(r: &Resolver, out: Vec<Dispose>, h: u64)
    requires
        call_ensures(Resolver::fail, (r,), out),
    ensures
        out@.contains(Dispose::Module(h)) <==> (r.vertex.fresh && r.vertex.handle == h) || (
        r.fragment.fresh && r.fragment.handle == h),
        !out@.contains(Dispose::Pipeline(h)),
        !out@.contains(Dispose::Layout(h)),
        !out@.contains(Dispose::RenderPass(h)),
{
    if r.vertex.fresh {
        assert(out@[0] == Dispose::Module(r.vertex.handle));
        if r.fragment.fresh {
            assert(out@[1] == Dispose::Module(r.fragment.handle));
        }
    } else if r.fragment.fresh {
        assert(out@[0] == Dispose::Module(r.fragment.handle));
    }
}

/// Which objects have to go before which: pipelines and layouts before modules, modules before
/// render passes.
pub open spec fn turn(d: Dispose) -> int {
    match d {
        Dispose::Pipeline(_) => 0,
        Dispose::Layout(_) => 0,
        Dispose::Module(_) => 1,
        Dispose::RenderPass(_) => 2,
    }
}

proof fn lemma_gone(ps: Seq<CachedPipeline>, i: int)
    ensures
        pipelines_gone(ps).len() == 2 * ps.len(),
        forall|j: int| 0 <= j < 2 * ps.len() ==> turn(#[trigger] pipelines_gone(ps)[j]) == 0,
        0 <= i < ps.len() ==> pipelines_gone(ps)[2 * i] == Dispose::Pipeline(ps[i].pipeline)
            && pipelines_gone(ps)[2 * i + 1] == Dispose::Layout(ps[i].layout),
    decreases ps.len(),
{
    if ps.len() > 0 {
        lemma_gone(ps.drop_last(), i);
        let a = pipelines_gone(ps.drop_last());
        let b = pipelines_gone(ps);
        assert forall|j: int| 0 <= j < 2 * ps.len() implies turn(#[trigger] b[j]) == 0 by {
            if j < a.len() {
                assert(b[j] == a[j]);
            }
        }
    }
}

/// Emptying the cache gives up each of its objects in an order in which none is used any more: every
/// pipeline with its layout behind it, then the shaders, then the render passes. The counts stay.
pub proof fn law_cache_is_emptied_in_order(
    cache: &mut GpuObjCache,
    out: Vec<Dispose>,
    i: int,
    j: int,
)
    requires
        old(cache).wf(),
        call_ensures(GpuObjCache::clear, (cache,), out),
        0 <= i < j < out@.len(),
    ensures
        turn(out@[i]) <= turn(out@[j]),
        out@.len() == 2 * old(cache)@.pipelines.dom().len() + old(cache)@.modules.dom().len() + old(
            cache,
        )@.passes.dom().len(),
        out@[i] is Pipeline ==> out@[i + 1] is Layout,
        final(cache)@.hits == old(cache)@.hits && final(cache)@.misses == old(cache)@.misses,
        final(cache)@.pipelines.dom().len() == 0,
        final(cache)@.modules.dom().len() == 0,
        final(cache)@.passes.dom().len() == 0,
{
    old(cache).law_lists();
    let ps = old(cache).listed_pipelines();
    let n = 2 * ps.len();
    lemma_gone(ps, i / 2);
    let a = pipelines_gone(ps);
    if i < n {
        assert(out@[i] == a[i]);
        assert(turn(a[i]) == 0);
        assert(i == 2 * (i / 2) || i == 2 * (i / 2) + 1);
        if i == 2 * (i / 2) {
            assert(out@[i + 1] == a[i + 1]);
        }
    }
    if j < n {
        assert(out@[j] == a[j]);
        assert(turn(a[j]) == 0);
    }
}

/// Room is made only where there is none: at 256 pipelines or at 512 shaders.
pub proof fn law_room_is_made_at_the_bounds(cache: &mut GpuObjCache, out: Vec<Dispose>)
    requires
        old(cache).wf(),
        call_ensures(GpuObjCache::make_room, (cache,), out),
    ensures
        old(cache)@.pipelines.dom().len() < 256 && old(cache)@.modules.dom().len() < 512
            ==> out@.len() == 0 && final(cache)@ == old(cache)@,
        old(cache)@.pipelines.dom().len() >= 256 || old(cache)@.modules.dom().len() >= 512
            ==> final(cache)@.pipelines.dom().len() == 0 && final(cache)@.modules.dom().len() == 0
            && final(cache)@.passes.dom().len() == 0,
{
}

/// The counts that are shown are those of the cache.
pub proof fn law_counts_are_shown(cache: &GpuObjCache, r: (u64, u64, usize), fresh: GpuObjCache)
    requires
        cache.wf(),
        call_ensures(GpuObjCache::stats, (cache,), r),
        call_ensures(GpuObjCache::new, (), fresh),
    ensures
        r.0 == cache@.hits,
        r.1 == cache@.misses,
        r.2 == cache@.pipelines.dom().len(),
        fresh@.hits == 0 && fresh@.misses == 0,
        fresh@.pipelines.dom().len() == 0 && fresh@.modules.dom().len() == 0
            && fresh@.passes.dom().len() == 0,
{
}

/// An object that was made is taken over, and a pipeline that was built is kept and drawn with.
pub proof fn law_objects_are_taken_over(
    r: &mut Resolver,
    cache: &mut GpuObjCache,
    handle: u64,
    s: &mut Resolver,
    other: &mut GpuObjCache,
    p: CachedPipeline,
)
    requires
        call_ensures(Resolver::give, (r, cache, handle), ()),
        call_ensures(Resolver::finish, (s, other, p), ()),
        old(other)@.misses < u64::MAX,
    ensures
        *final(r) == old(r).given(handle),
        final(cache)@ == old(r).kept(old(cache)@, handle),
        final(s).found == p,
        final(s).stage is Done,
        final(other)@.pipelines[old(s).key@] == p,
        final(other)@.misses == old(other)@.misses + 1,
        final(other)@.passes == old(other)@.passes,
{
}

} // verus!
