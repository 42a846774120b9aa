//! One forwarded frame on kept objects: what is done in which order, and what is freed when
//! something fails.
use crate::replay::draw::{desc_sig_of, sig_of, ForwardedDraw};
use crate::replay::plans::PlanError;
use crate::replay::record::Uploaded;
use vstd::prelude::*;

verus! {

/// Whether a mesh has a vertex buffer to upload.
pub open spec fn has_vertices(d: ForwardedDraw) -> bool {
    match d.geometry {
        Some(g) => g.vertex_stride != 0 && g.vertex_data@.len() > 0,
        None => false,
    }
}

/// What of a draw's mesh is uploaded.
pub open spec fn uploads_of(d: ForwardedDraw) -> Uploaded {
    match d.geometry {
        Some(g) => if has_vertices(d) {
            if g.index_data@.len() > 0 {
                Uploaded::VerticesAndIndices
            } else {
                Uploaded::Vertices
            }
        } else {
            Uploaded::Nothing
        },
        None => Uploaded::Nothing,
    }
}

/// What of a draw's mesh is uploaded.
pub fn uploaded(d: &ForwardedDraw) -> (u: Uploaded)
    ensures
        u == uploads_of(*d),
{
    match &d.geometry {
        Some(g) => if g.vertex_stride != 0 && g.vertex_data.len() > 0 {
            if g.index_data.len() > 0 {
                Uploaded::VerticesAndIndices
            } else {
                Uploaded::Vertices
            }
        } else {
            Uploaded::Nothing
        },
        None => Uploaded::Nothing,
    }
}

/// Where a frame is.
#[derive(Debug, Clone, Copy, PartialEq, Eq, Structural)]
pub enum FrameStage {
    Geometry,
    Descriptors,
    Record,
    Submit,
    Wait,
    FreeGeometry,
    FreeDescriptors,
    Invalidate,
    Present,
    Finished,
    Failed,
}

/// A frame on its way: what it needs, what is live of it, and where it is.
#[derive(Debug, Clone, Copy, PartialEq, Eq, Structural)]
pub struct FrameRun {
    pub geometry: bool,
    pub descriptors: bool,
    /// Whether the CPU sees what the GPU wrote without more ado.
    pub coherent: bool,
    pub geometry_live: bool,
    pub descriptors_live: bool,
    pub failed: bool,
    pub stage: FrameStage,
}

impl FrameRun {
    /// The stage that is next when the mesh is freed.
    pub open spec fn past_geometry(self) -> FrameStage {
        if self.descriptors_live {
            FrameStage::FreeDescriptors
        } else if self.failed {
            FrameStage::Failed
        } else if self.coherent {
            FrameStage::Present
        } else {
            FrameStage::Invalidate
        }
    }

    /// The frame without the stages that it has nothing to do in.
    pub open spec fn skipped(self) -> FrameRun {
        let stage = match self.stage {
            FrameStage::Geometry => if self.geometry {
                FrameStage::Geometry
            } else if self.descriptors {
                FrameStage::Descriptors
            } else {
                FrameStage::Record
            },
            FrameStage::Descriptors => if self.descriptors {
                FrameStage::Descriptors
            } else {
                FrameStage::Record
            },
            FrameStage::FreeGeometry => if self.geometry_live {
                FrameStage::FreeGeometry
            } else {
                self.past_geometry()
            },
            FrameStage::FreeDescriptors => self.past_geometry(),
            FrameStage::Invalidate => if self.coherent {
                FrameStage::Present
            } else {
                FrameStage::Invalidate
            },
            other => other,
        };
        FrameRun { stage, ..self }
    }

    /// How many stages are left at most.
    pub open spec fn left(self) -> nat {
        match self.stage {
            FrameStage::Geometry => 9,
            FrameStage::Descriptors => 8,
            FrameStage::Record => 7,
            FrameStage::Submit => 6,
            FrameStage::Wait => 5,
            FrameStage::FreeGeometry => 4,
            FrameStage::FreeDescriptors => 3,
            FrameStage::Invalidate => 2,
            FrameStage::Present => 1,
            FrameStage::Finished => 0,
            FrameStage::Failed => 0,
        }
    }

    /// The frame once the work of its stage is done (`ok`) or has failed. After a failure, and
    /// after the wait, what is live is freed.
    pub open spec fn after(self, ok: bool) -> FrameRun {
        if !ok && !(self.stage is FreeGeometry || self.stage is FreeDescriptors) {
            if self.stage is Invalidate || self.stage is Present {
                FrameRun { failed: true, stage: FrameStage::Failed, ..self }
            } else {
                FrameRun { failed: true, stage: FrameStage::FreeGeometry, ..self }.skipped()
            }
        } else {
            match self.stage {
                FrameStage::Geometry => FrameRun {
                    geometry_live: true,
                    stage: FrameStage::Descriptors,
                    ..self
                }.skipped(),
                FrameStage::Descriptors => FrameRun {
                    descriptors_live: true,
                    stage: FrameStage::Record,
                    ..self
                },
                FrameStage::Record => FrameRun { stage: FrameStage::Submit, ..self },
                FrameStage::Submit => FrameRun { stage: FrameStage::Wait, ..self },
                FrameStage::Wait => FrameRun {
                    stage: FrameStage::FreeGeometry,
                    ..self
                }.skipped(),
                FrameStage::FreeGeometry => FrameRun {
                    geometry_live: false,
                    stage: FrameStage::FreeDescriptors,
                    ..self
                }.skipped(),
                FrameStage::FreeDescriptors => FrameRun {
                    descriptors_live: false,
                    ..self
                }.skipped(),
                FrameStage::Invalidate => FrameRun { stage: FrameStage::Present, ..self },
                FrameStage::Present => FrameRun { stage: FrameStage::Finished, ..self },
                _ => self,
            }
        }
    }

    /// Whether what is live fits where the frame is.
    pub open spec fn consistent(self) -> bool {
        match self.stage {
            FrameStage::Geometry => !self.geometry_live && !self.descriptors_live && !self.failed
                && self.geometry,
            FrameStage::Descriptors => self.geometry_live == self.geometry
                && !self.descriptors_live && !self.failed && self.descriptors,
            FrameStage::Record | FrameStage::Submit | FrameStage::Wait => self.geometry_live
                == self.geometry && self.descriptors_live == self.descriptors && !self.failed,
            FrameStage::FreeGeometry => self.geometry_live,
            FrameStage::FreeDescriptors => !self.geometry_live && self.descriptors_live,
            FrameStage::Invalidate => !self.geometry_live && !self.descriptors_live && !self.failed
                && !self.coherent,
            FrameStage::Present => !self.geometry_live && !self.descriptors_live && !self.failed,
            FrameStage::Finished => !self.geometry_live && !self.descriptors_live && !self.failed,
            FrameStage::Failed => !self.geometry_live && !self.descriptors_live && self.failed,
        }
    }

    /// Starts a frame of a draw.
    pub fn start(d: &ForwardedDraw, coherent: bool) -> (r: FrameRun)
        ensures
            r == (FrameRun {
                geometry: has_vertices(*d),
                descriptors: sig_of(*d) is Some,
                coherent,
                geometry_live: false,
                descriptors_live: false,
                failed: false,
                stage: FrameStage::Geometry,
            }).skipped(),
            r.consistent(),
    {
        let geometry: bool = match uploaded(d) {
            Uploaded::Nothing => false,
            _ => true,
        };
        let mut r = FrameRun {
            geometry,
            descriptors: desc_sig_of(d).is_some(),
            coherent,
            geometry_live: false,
            descriptors_live: false,
            failed: false,
            stage: FrameStage::Geometry,
        };
        r.skip();
        r
    }

    fn skip(&mut self)
        ensures
            *final(self) == old(self).skipped(),
    {
        if self.stage == FrameStage::Geometry && !self.geometry {
            self.stage = FrameStage::Descriptors;
        }
        if self.stage == FrameStage::Descriptors && !self.descriptors {
            self.stage = FrameStage::Record;
        }
        if self.stage == FrameStage::FreeGeometry && !self.geometry_live {
            self.stage = FrameStage::FreeDescriptors;
        }
        if self.stage == FrameStage::FreeDescriptors && !self.descriptors_live {
            self.stage = if self.failed {
                FrameStage::Failed
            } else {
                FrameStage::Invalidate
            };
        }
        if self.stage == FrameStage::Invalidate && self.coherent {
            self.stage = FrameStage::Present;
        }
    }

    /// The work of the stage is done, or has failed.
    pub fn advance(&mut self, ok: bool)
        requires
            old(self).consistent(),
        ensures
            *final(self) == old(self).after(ok),
            final(self).consistent(),
    {
        if !ok {
            match self.stage {
                FrameStage::FreeGeometry | FrameStage::FreeDescriptors => {},
                FrameStage::Invalidate | FrameStage::Present => {
                    self.failed = true;
                    self.stage = FrameStage::Failed;
                    return ;
                },
                _ => {
                    self.failed = true;
                    self.stage = FrameStage::FreeGeometry;
                    self.skip();
                    return ;
                },
            }
        }
        match self.stage {
            FrameStage::Geometry => {
                self.geometry_live = true;
                self.stage = FrameStage::Descriptors;
                self.skip();
            },
            FrameStage::Descriptors => {
                self.descriptors_live = true;
                self.stage = FrameStage::Record;
            },
            FrameStage::Record => {
                self.stage = FrameStage::Submit;
            },
            FrameStage::Submit => {
                self.stage = FrameStage::Wait;
            },
            FrameStage::Wait => {
                self.stage = FrameStage::FreeGeometry;
                self.skip();
            },
            FrameStage::FreeGeometry => {
                self.geometry_live = false;
                self.stage = FrameStage::FreeDescriptors;
                self.skip();
            },
            FrameStage::FreeDescriptors => {
                self.descriptors_live = false;
                self.skip();
            },
            FrameStage::Invalidate => {
                self.stage = FrameStage::Present;
            },
            FrameStage::Present => {
                self.stage = FrameStage::Finished;
            },
            _ => {},
        }
    }
}

/// A frame that is over holds nothing: whether it finished or failed, and wherever it failed, its
/// mesh and its descriptors were freed if they were made.
pub proof fn law_over_means_freed(r: FrameRun)
    requires
        r.consistent(),
        r.stage is Finished || r.stage is Failed,
    ensures
        !r.geometry_live,
        !r.descriptors_live,
        r.failed == r.stage is Failed,
{
}

/// Every piece of work brings a frame closer to its end, unless it is there.
pub proof fn law_frames_end(r: FrameRun, ok: bool)
    requires
        r.consistent(),
        !(r.stage is Finished || r.stage is Failed),
    ensures
        r.after(ok).left() < r.left(),
        r.after(ok).consistent(),
{
}

/// Objects are freed once: what is freed was live, and is not live after.
pub proof fn law_freed_once(r: FrameRun, ok: bool)
    requires
        r.consistent(),
    ensures
        r.stage is FreeGeometry ==> r.geometry_live && !r.after(ok).geometry_live,
        r.stage is FreeDescriptors ==> r.descriptors_live && !r.after(ok).descriptors_live,
        r.after(ok).geometry_live && !r.geometry_live ==> r.stage is Geometry,
        r.after(ok).descriptors_live && !r.descriptors_live ==> r.stage is Descriptors,
        r.geometry_live && !r.after(ok).geometry_live ==> r.stage is FreeGeometry,
        r.descriptors_live && !r.after(ok).descriptors_live ==> r.stage is FreeDescriptors,
{
}

/// Nothing is freed while the GPU may still use it: between the submit and the end of the wait
/// nothing is freed.
pub proof fn law_not_freed_in_flight(r: FrameRun, ok: bool)
    requires
        r.consistent(),
        r.stage is Record || r.stage is Submit || r.stage is Wait,
    ensures
        r.after(ok).geometry_live == r.geometry_live,
        r.after(ok).descriptors_live == r.descriptors_live,
        r.stage is Wait || !ok || r.after(ok).stage is Submit || r.after(ok).stage is Wait,
{
}

/// Copying straight into guest memory is for draws without a mesh.
pub fn check_zerocopy(d: &ForwardedDraw) -> (r: Result<(), PlanError>)
    ensures
        d.geometry is Some <==> r is Err,
        r is Err ==> r->Err_0 == PlanError::HasGeometry,
{
    match &d.geometry {
        Some(_) => Err(PlanError::HasGeometry),
        None => Ok(()),
    }
}

/// Where the time of kept-object frames goes, summed over the frames, in nanoseconds.
#[derive(Debug)]
pub struct Breakdown {
    setup_ns: u64,
    record_ns: u64,
    gpu_ns: u64,
    copy_ns: u64,
    present_ns: u64,
    count: u64,
}

/// The times of one frame, in nanoseconds.
#[derive(Debug, Clone, Copy)]
pub struct FrameTimes {
    pub setup_ns: u64,
    pub record_ns: u64,
    pub gpu_ns: u64,
    /// From the end of the wait to the end of the present callback.
    pub copy_ns: u64,
    /// The present callback alone.
    pub present_ns: u64,
}

/// The average times over `count` frames, in nanoseconds.
#[derive(Debug, Clone, Copy, PartialEq, Eq, Structural)]
pub struct Averages {
    pub count: u64,
    pub setup_ns: u64,
    pub record_ns: u64,
    pub gpu_ns: u64,
    pub copy_ns: u64,
    pub present_ns: u64,
    /// The copy without the callback.
    pub invalidate_ns: u64,
}

/// The sums of a breakdown.
pub struct Sums {
    pub setup_ns: u64,
    pub record_ns: u64,
    pub gpu_ns: u64,
    pub copy_ns: u64,
    pub present_ns: u64,
    pub count: u64,
}

/// A sum past the largest number starts over.
pub open spec fn wrapped_sum(a: u64, b: u64) -> u64 {
    ((a + b) % 0x1_0000_0000_0000_0000) as u64
}

impl Sums {
    /// The sums with one more frame.
    pub open spec fn with(self, t: FrameTimes) -> Sums {
        Sums {
            setup_ns: wrapped_sum(self.setup_ns, t.setup_ns),
            record_ns: wrapped_sum(self.record_ns, t.record_ns),
            gpu_ns: wrapped_sum(self.gpu_ns, t.gpu_ns),
            copy_ns: wrapped_sum(self.copy_ns, t.copy_ns),
            present_ns: wrapped_sum(self.present_ns, t.present_ns),
            count: (self.count + 1) as u64,
        }
    }

    /// The averages.
    pub open spec fn averages(self) -> Averages {
        Averages {
            count: self.count,
            setup_ns: self.setup_ns / self.count,
            record_ns: self.record_ns / self.count,
            gpu_ns: self.gpu_ns / self.count,
            copy_ns: self.copy_ns / self.count,
            present_ns: self.present_ns / self.count,
            invalidate_ns: (crate::arith::monus(self.copy_ns as int, self.present_ns as int)
                / self.count as int) as u64,
        }
    }
}

impl View for Breakdown {
    type V = Sums;

    closed spec fn view(&self) -> Sums {
        Sums {
            setup_ns: self.setup_ns,
            record_ns: self.record_ns,
            gpu_ns: self.gpu_ns,
            copy_ns: self.copy_ns,
            present_ns: self.present_ns,
            count: self.count,
        }
    }
}

impl Default for Breakdown {
    fn default() -> (b: Self)
        ensures
            b@ == (Sums {
                setup_ns: 0,
                record_ns: 0,
                gpu_ns: 0,
                copy_ns: 0,
                present_ns: 0,
                count: 0,
            }),
    {
        Breakdown { setup_ns: 0, record_ns: 0, gpu_ns: 0, copy_ns: 0, present_ns: 0, count: 0 }
    }
}

impl Breakdown {
    /// Adds a frame, and gives the averages with every thousandth.
    pub fn frame(&mut self, t: FrameTimes) -> (r: Option<Averages>)
        requires
            old(self)@.count < u64::MAX,
        ensures
            final(self)@ == old(self)@.with(t),
            final(self)@.count % 1000 == 0 <==> r is Some,
            r is Some ==> r->0 == final(self)@.averages(),
    {
        self.setup_ns = self.setup_ns.wrapping_add(t.setup_ns);
        self.record_ns = self.record_ns.wrapping_add(t.record_ns);
        self.gpu_ns = self.gpu_ns.wrapping_add(t.gpu_ns);
        self.copy_ns = self.copy_ns.wrapping_add(t.copy_ns);
        self.present_ns = self.present_ns.wrapping_add(t.present_ns);
        let n: u64 = self.count + 1;
        self.count = n;
        if n % 1000 == 0 {
            Some(
                Averages {
                    count: n,
                    setup_ns: self.setup_ns / n,
                    record_ns: self.record_ns / n,
                    gpu_ns: self.gpu_ns / n,
                    copy_ns: self.copy_ns / n,
                    present_ns: self.present_ns / n,
                    invalidate_ns: self.copy_ns.saturating_sub(self.present_ns) / n,
                },
            )
        } else {
            None
        }
    }
}

/// A mesh is uploaded where it has vertices and a stride to read them by, its indices with it where
/// it has some; without vertices nothing is.
pub proof fn law_what_is_uploaded(d: &ForwardedDraw, u: Uploaded)
    requires
        call_ensures(uploaded, (d,), u),
    ensures
        d.geometry is None ==> u is Nothing,
        d.geometry is Some ==> {
            let g = d.geometry->0;
            &&& u is Nothing <==> g.vertex_stride == 0 || g.vertex_data@.len() == 0
            &&& u is VerticesAndIndices ==> g.index_data@.len() > 0
            &&& u is Vertices ==> g.index_data@.len() == 0
        },
{
}

/// A frame begins with what it needs: its mesh, else its descriptors, else the recording; nothing of
/// it is live and nothing has failed.
pub proof fn law_frame_starts(d: &ForwardedDraw, coherent: bool, r: FrameRun)
    requires
        call_ensures(FrameRun::start, (d, coherent), r),
        d.geometry is Some ==> (d.geometry->0).textures@.len() < 0x1_0000_0000,
    ensures
        r.coherent == coherent,
        !r.geometry_live && !r.descriptors_live && !r.failed,
        d.geometry is None ==> r.stage is Record && !r.geometry && !r.descriptors,
        d.geometry is Some ==> {
            let g = d.geometry->0;
            &&& r.geometry == (g.vertex_stride != 0 && g.vertex_data@.len() > 0)
            &&& r.descriptors == (g.uniform is Some || g.storage is Some || g.textures@.len() > 0)
            &&& r.geometry ==> r.stage is Geometry
            &&& !r.geometry && r.descriptors ==> r.stage is Descriptors
            &&& !r.geometry && !r.descriptors ==> r.stage is Record
        },
{
}

/// The stages of a frame that goes well follow each other: the mesh, the descriptors, the
/// recording, the submit and the wait, then what is live is freed, the CPU's view is brought up to
/// date where it has to be, and the frame is presented.
pub proof fn law_stages_follow(r: FrameRun)
    requires
        r.consistent(),
        !r.failed,
    ensures
        ({
            let next = r.after(true).stage;
            let freed = if r.coherent {
                FrameStage::Present
            } else {
                FrameStage::Invalidate
            };
            &&& r.stage is Geometry ==> next == if r.descriptors {
                FrameStage::Descriptors
            } else {
                FrameStage::Record
            }
            &&& r.stage is Descriptors ==> next is Record
            &&& r.stage is Record ==> next is Submit
            &&& r.stage is Submit ==> next is Wait
            &&& r.stage is Wait && r.geometry ==> next is FreeGeometry
            &&& r.stage is Wait && !r.geometry && r.descriptors ==> next is FreeDescriptors
            &&& r.stage is Wait && !r.geometry && !r.descriptors ==> next == freed
            &&& r.stage is FreeGeometry && r.descriptors_live ==> next is FreeDescriptors
            &&& r.stage is FreeGeometry && !r.descriptors_live ==> next == freed
            &&& r.stage is FreeDescriptors ==> next == freed
            &&& r.stage is Invalidate ==> next is Present
            &&& r.stage is Present ==> next is Finished
            &&& r.stage is Finished ==> next is Finished
            &&& !r.after(true).failed
            &&& r.stage is Geometry ==> r.after(true).geometry_live
            &&& r.stage is Descriptors ==> r.after(true).descriptors_live
        }),
{
}

/// A frame that failed is never presented, nor recorded or submitted: what is live of it is freed,
/// and then it is over. It stays failed.
pub proof fn law_failed_frames_are_not_presented(r: FrameRun, ok: bool)
    requires
        r.consistent(),
    ensures
        r.failed ==> r.after(ok).failed && (r.after(ok).stage is FreeDescriptors || r.after(
            ok,
        ).stage is Failed),
        !ok && !(r.stage is FreeGeometry) && !(r.stage is FreeDescriptors) && !(
        r.stage is Finished) && !(r.stage is Failed) ==> {
            let s = r.after(false);
            &&& s.failed
            &&& r.geometry_live ==> s.stage is FreeGeometry
            &&& !r.geometry_live && r.descriptors_live ==> s.stage is FreeDescriptors
            &&& !r.geometry_live && !r.descriptors_live ==> s.stage is Failed
        },
{
}

/// Only a draw without a mesh is copied straight into guest memory.
pub proof fn law_direct_copies(d: &ForwardedDraw, r: Result<(), PlanError>)
    requires
        call_ensures(check_zerocopy, (d,), r),
    ensures
        d.geometry is None ==> r is Ok,
        d.geometry is Some ==> r == Err::<(), PlanError>(PlanError::HasGeometry),
{
}

/// Every frame's times are added to the sums, each to its own, and every thousandth frame gives the
/// averages: each sum shared out over all frames, and the copy without the callback.
pub proof fn law_times_are_averaged(b: &mut Breakdown, t: FrameTimes, r: Option<Averages>)
    requires
        old(b)@.count < u64::MAX,
        old(b)@.setup_ns + t.setup_ns <= u64::MAX,
        old(b)@.record_ns + t.record_ns <= u64::MAX,
        old(b)@.gpu_ns + t.gpu_ns <= u64::MAX,
        old(b)@.copy_ns + t.copy_ns <= u64::MAX,
        old(b)@.present_ns + t.present_ns <= u64::MAX,
        call_ensures(Breakdown::frame, (b, t), r),
    ensures
        final(b)@.count == old(b)@.count + 1,
        final(b)@.setup_ns == old(b)@.setup_ns + t.setup_ns,
        final(b)@.record_ns == old(b)@.record_ns + t.record_ns,
        final(b)@.gpu_ns == old(b)@.gpu_ns + t.gpu_ns,
        final(b)@.copy_ns == old(b)@.copy_ns + t.copy_ns,
        final(b)@.present_ns == old(b)@.present_ns + t.present_ns,
        r is Some <==> (old(b)@.count + 1) % 1000 == 0,
        r is Some ==> {
            let n = old(b)@.count + 1;
            let s = final(b)@;
            let a = r->0;
            &&& a.count == n
            &&& a.setup_ns * n <= s.setup_ns < (a.setup_ns + 1) * n
            &&& a.record_ns * n <= s.record_ns < (a.record_ns + 1) * n
            &&& a.gpu_ns * n <= s.gpu_ns < (a.gpu_ns + 1) * n
            &&& a.copy_ns * n <= s.copy_ns < (a.copy_ns + 1) * n
            &&& a.present_ns * n <= s.present_ns < (a.present_ns + 1) * n
            &&& s.copy_ns >= s.present_ns ==> a.invalidate_ns * n <= s.copy_ns - s.present_ns < (
            a.invalidate_ns + 1) * n
            &&& s.copy_ns < s.present_ns ==> a.invalidate_ns == 0
        },
{
    let n = old(b)@.count + 1;
    if r is Some {
        let s = final(b)@;
        lemma_shared(s.setup_ns as int, n);
        lemma_shared(s.record_ns as int, n);
        lemma_shared(s.gpu_ns as int, n);
        lemma_shared(s.copy_ns as int, n);
        lemma_shared(s.present_ns as int, n);
        lemma_shared(crate::arith::monus(s.copy_ns as int, s.present_ns as int), n);
    }
}

proof fn lemma_shared(s: int, n: int)
    requires
        n > 0,
        0 <= s <= u64::MAX,
    ensures
        (s / n) * n <= s < (s / n + 1) * n,
        0 <= s / n <= s,
        s == 0 ==> s / n == 0,
{
    assert((s / n) * n <= s < (s / n + 1) * n && 0 <= s / n <= s && (s == 0 ==> s / n == 0))
        by (nonlinear_arith)
        requires
            n > 0,
            s >= 0,
    ;
}

/// A frame moves on as the laws of its stages say.
pub proof fn law_frame_moves_on(r: &mut FrameRun, ok: bool)
    requires
        old(r).consistent(),
        call_ensures(FrameRun::advance, (r, ok), ()),
    ensures
        *final(r) == old(r).after(ok),
        final(r).consistent(),
        final(r).geometry == old(r).geometry,
        final(r).descriptors == old(r).descriptors,
        final(r).coherent == old(r).coherent,
{
}

} // verus!
