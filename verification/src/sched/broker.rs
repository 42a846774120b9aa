//! The broker: a ledger of VRAM and encode sessions, and a token bucket per VM.
use crate::arith::{monus, smaller};
use crate::sched::account::{opened, Begin, VmAccount};
use crate::sched::clock::{Clock, MonotonicClock};
use crate::sched::policy::{
    AdmitError, AdmitRequest, BrokerConfig, Micros, PriorityTier, VmConfig,
};
use crate::sched::roster::{
    by_name, encoders, holders, in_order, lemma_by_name, lemma_count, lemma_holders, lemma_insert,
    lemma_remove, lemma_sums, lemma_update, locate, name_before, reserved, Place, VmEntry,
};
use vstd::prelude::*;

verus! {

/// Returned when a VM asks to render without being admitted.
#[derive(Debug, Clone, Copy, PartialEq, Eq, Structural)]
pub struct NotAdmitted;

/// Why a submission gave no value.
#[derive(Debug, Clone, Copy, PartialEq, Eq, Structural)]
pub enum RunError {
    /// The VM was never admitted, or is reaped already.
    NotAdmitted,
    /// The render panicked. The panic was contained and the VM charged for the time.
    Panicked,
}

/// A render that panicked, as its caller caught it.
#[derive(Debug, Clone, Copy, PartialEq, Eq, Structural)]
pub struct RenderPanic;

/// What became of one attempt to run a submission.
pub enum Attempt<R, F> {
    /// The submission ran, or the VM is not admitted.
    Finished(Result<R, RunError>),
    /// The bucket is empty: sleep this long, then try again with the same render.
    Throttled { sleep_us: Micros, render: F },
}

/// What became of one attempt, where the machine's numbers may not reach for it.
pub enum Checked<R, F> {
    /// They did.
    Attempt(Attempt<R, F>),
    /// Asking for budget is out of range: nothing ran.
    CannotBegin { render: F },
    /// The render ran, and charging its time is out of range: nothing is charged.
    CannotCharge { out: Result<R, RenderPanic> },
}

/// What a VM that asks to run a submission is told.
#[derive(Debug, Clone, Copy, PartialEq, Eq, Structural)]
pub enum Asked {
    NotAdmitted,
    /// It may run.
    Run,
    /// The bucket is empty: sleep this long, then ask again.
    Sleep { us: Micros },
    /// The machine's numbers do not reach for an answer.
    OutOfRange,
}

/// What became of a submission that ran.
pub enum Settled<R> {
    /// Its time is charged.
    Charged(Result<R, RunError>),
    /// Charging its time is out of range: nothing is charged.
    OutOfRange(Result<R, RenderPanic>),
}

/// The longest sleep between two attempts.
pub const MAX_SLEEP_US: Micros = 50_000;

/// One VM in the fleet view.
#[derive(Debug)]
pub struct VmStat {
    pub vm_id: String,
    pub weight: u32,
    pub priority: PriorityTier,
    pub vram_reserved_mb: u64,
    pub tokens_us: i64,
    pub gpu_time_used_us: Micros,
    pub vruntime_us: Micros,
    pub submissions: u64,
    pub throttle_events: u64,
    pub watchdog_trips: u64,
}

impl VmStat {
    /// Whether the row shows this account.
    pub open spec fn shows(self, a: VmAccount) -> bool {
        &&& self.weight == a.weight
        &&& self.priority == a.priority
        &&& self.vram_reserved_mb == a.vram_reserved_mb
        &&& self.tokens_us == a.tokens_us
        &&& self.gpu_time_used_us == a.gpu_time_used_us
        &&& self.vruntime_us == a.vruntime_us
        &&& self.submissions == a.submissions
        &&& self.throttle_events == a.throttle_events
        &&& self.watchdog_trips == a.watchdog_trips
    }
}

/// The VRAM that the rows show as reserved, in all.
pub open spec fn rows_reserved(rows: Seq<VmStat>) -> int
    decreases rows.len(),
{
    if rows.len() == 0 {
        0
    } else {
        rows_reserved(rows.drop_last()) + rows.last().vram_reserved_mb
    }
}

/// A snapshot of the host's capacity.
#[derive(Debug)]
pub struct FleetView {
    pub total_vram_mb: u64,
    pub vram_used_mb: u64,
    pub vram_free_mb: u64,
    pub admitted_vms: u32,
    pub max_concurrent_gpu_vms: u32,
    /// Encode sessions in use.
    pub enc_sessions_used: u32,
    /// The cap on encode sessions, `None` when unlimited.
    pub max_enc_sessions: Option<u32>,
    pub vms: Vec<VmStat>,
}

/// What the broker holds: the accounts by VM name, and the two ledgers.
#[verifier::ext_equal]
pub struct Ledger {
    pub vms: Map<Seq<char>, VmAccount>,
    pub vram_used_mb: int,
    pub enc_sessions_used: int,
}

impl Ledger {
    /// Nothing admitted.
    pub open spec fn empty() -> Ledger {
        Ledger { vms: Map::empty(), vram_used_mb: 0, enc_sessions_used: 0 }
    }

    pub open spec fn admitted(self, id: Seq<char>) -> bool {
        self.vms.dom().contains(id)
    }

    /// VRAM that may still be reserved.
    pub open spec fn available(self, host: BrokerConfig) -> int {
        monus(host.budget(), self.vram_used_mb)
    }

    /// Why an admission is refused; `None` when it is granted.
    pub open spec fn refusal(
        self,
        host: BrokerConfig,
        id: Seq<char>,
        vram_cap_mb: u64,
        req: AdmitRequest,
    ) -> Option<AdmitError> {
        if self.admitted(id) {
            Some(AdmitError::AlreadyAdmitted)
        } else if self.vms.dom().len() >= host.max_concurrent_gpu_vms {
            Some(AdmitError::AtConcurrencyCap { cap: host.max_concurrent_gpu_vms })
        } else if req.vram_mb > vram_cap_mb {
            Some(AdmitError::ExceedsVmCap { requested_mb: req.vram_mb, cap_mb: vram_cap_mb })
        } else if req.needs_encoder && host.max_enc_sessions is Some && self.enc_sessions_used
            >= host.max_enc_sessions->0 {
            Some(AdmitError::NoEncoderSession { cap: host.max_enc_sessions->0 })
        } else if req.vram_mb > self.available(host) {
            Some(
                AdmitError::InsufficientVram {
                    requested_mb: req.vram_mb,
                    available_mb: self.available(host) as u64,
                },
            )
        } else {
            None
        }
    }

    /// The ledger with one more VM.
    pub open spec fn with_vm(self, id: Seq<char>, a: VmAccount) -> Ledger {
        Ledger {
            vms: self.vms.insert(id, a),
            vram_used_mb: self.vram_used_mb + a.vram_reserved_mb,
            enc_sessions_used: self.enc_sessions_used + if a.holds_encoder {
                1int
            } else {
                0
            },
        }
    }

    /// The ledger without a VM; without change where it is not admitted.
    pub open spec fn without_vm(self, id: Seq<char>) -> Ledger {
        if self.admitted(id) {
            Ledger {
                vms: self.vms.remove(id),
                vram_used_mb: self.vram_used_mb - self.vms[id].vram_reserved_mb,
                enc_sessions_used: self.enc_sessions_used - if self.vms[id].holds_encoder {
                    1int
                } else {
                    0
                },
            }
        } else {
            self
        }
    }

    /// The ledger with a VM's account replaced by one of the same reservation.
    pub open spec fn with_account(self, id: Seq<char>, a: VmAccount) -> Ledger {
        Ledger { vms: self.vms.insert(id, a), ..self }
    }

    /// Why a revised reservation is refused; `None` when it is granted. Growing stops at the VM's
    /// own cap and takes only the difference from the free VRAM; shrinking is always granted.
    pub open spec fn adjust_refusal(
        self,
        host: BrokerConfig,
        id: Seq<char>,
        new_mb: u64,
    ) -> Option<AdmitError> {
        if !self.admitted(id) {
            Some(AdmitError::AlreadyAdmitted)
        } else if new_mb > self.vms[id].vram_reserved_mb && new_mb > self.vms[id].vram_cap_mb {
            Some(
                AdmitError::ExceedsVmCap {
                    requested_mb: new_mb,
                    cap_mb: self.vms[id].vram_cap_mb,
                },
            )
        } else if new_mb - self.vms[id].vram_reserved_mb > self.available(host) {
            Some(
                AdmitError::InsufficientVram {
                    requested_mb: (new_mb - self.vms[id].vram_reserved_mb) as u64,
                    available_mb: self.available(host) as u64,
                },
            )
        } else {
            None
        }
    }

    /// The ledger with a VM's reservation revised.
    pub open spec fn adjusted(self, id: Seq<char>, new_mb: u64) -> Ledger {
        let a = self.vms[id];
        Ledger {
            vms: self.vms.insert(id, VmAccount { vram_reserved_mb: new_mb, ..a }),
            vram_used_mb: self.vram_used_mb - a.vram_reserved_mb + new_mb,
            ..self
        }
    }

    /// The ledger after a finished render; without change where the VM is not admitted.
    pub open spec fn recorded(self, host: BrokerConfig, id: Seq<char>, gpu_us: Micros) -> Ledger {
        if self.admitted(id) {
            self.with_account(id, self.vms[id].charged(host, gpu_us))
        } else {
            self
        }
    }
}

/// An admission ticket: while it is live the VM occupies a slot and its reservation. Reaping
/// it, on stop or on a crash, frees both.
#[derive(Debug)]
pub struct VmTicket {
    vm_id: String,
    released: bool,
}

/// The cooperative GPU broker. It never touches the GPU itself: it decides, and accounts for
/// what it is told.
pub struct GpuBroker<C: Clock> {
    cfg: BrokerConfig,
    clock: C,
    vram_used_mb: u64,
    enc_sessions_used: u32,
    vms: Vec<VmEntry>,
}

impl<C: Clock> View for GpuBroker<C> {
    type V = Ledger;

    closed spec fn view(&self) -> Ledger {
        Ledger {
            vms: by_name(self.vms@),
            vram_used_mb: self.vram_used_mb as int,
            enc_sessions_used: self.enc_sessions_used as int,
        }
    }
}

/// A render that the clock saw start at `t0` and end at `t1`, and that ended as `out`.
pub open spec fn rendered<C: Clock, R, F: FnOnce() -> Result<R, RenderPanic>>(
    clock: C,
    render: F,
    t0: Micros,
    t1: Micros,
    out: Result<R, RenderPanic>,
) -> bool {
    clock.may_read(t0) && clock.may_read(t1) && call_ensures(render, (), out)
}

/// What one attempt to run a submission does to the ledger, and what it gives.
pub open spec fn run_post<C: Clock, R, F: FnOnce() -> Result<R, RenderPanic>>(
    before: Ledger,
    after: Ledger,
    host: BrokerConfig,
    clock: C,
    id: Seq<char>,
    render: F,
    r: Attempt<R, F>,
) -> bool {
    if before.admitted(id) {
        exists|t: Micros|
            {
                let asked = before.with_account(id, before.vms[id].begun(host, t));
                #[trigger] clock.may_read(t) && match before.vms[id].begin_answer(host, t) {
                    Begin::Throttled { wait_us } => {
                        &&& after == asked
                        &&& r == Attempt::<R, F>::Throttled {
                            sleep_us: smaller(wait_us as int, MAX_SLEEP_US as int) as u64,
                            render,
                        }
                    },
                    Begin::Ready => exists|t0: Micros, t1: Micros, out: Result<R, RenderPanic>|
                        {
                            &&& #[trigger] rendered(clock, render, t0, t1, out)
                            &&& after == asked.recorded(
                                host,
                                id,
                                monus(t1 as int, t0 as int) as u64,
                            )
                            &&& r == Attempt::<R, F>::Finished(
                                match out {
                                    Ok(v) => Ok(v),
                                    Err(_) => Err(RunError::Panicked),
                                },
                            )
                        },
                }
            }
    } else {
        after == before && r == Attempt::<R, F>::Finished(Err(RunError::NotAdmitted))
    }
}

/// What one attempt leaves and gives, where the machine's numbers may not reach for it.
pub open spec fn checked_post<C: Clock, R, F: FnOnce() -> Result<R, RenderPanic>>(
    before: Ledger,
    after: Ledger,
    host: BrokerConfig,
    clock: C,
    id: Seq<char>,
    render: F,
    r: Checked<R, F>,
) -> bool {
    if before.admitted(id) {
        exists|t: Micros|
            {
                let begun = before.vms[id].begun(host, t);
                let asked = before.with_account(id, begun);
                #[trigger] clock.may_read(t) && if !before.vms[id].begin_fits(host, t) {
                    after == before && r == Checked::<R, F>::CannotBegin { render }
                } else {
                    match before.vms[id].begin_answer(host, t) {
                        Begin::Throttled { wait_us } => {
                            &&& after == asked
                            &&& r == Checked::Attempt(
                                Attempt::<R, F>::Throttled {
                                    sleep_us: smaller(wait_us as int, MAX_SLEEP_US as int) as u64,
                                    render,
                                },
                            )
                        },
                        Begin::Ready => exists|t0: Micros, t1: Micros, out: Result<R, RenderPanic>|
                            {
                                let used = monus(t1 as int, t0 as int) as u64;
                                #[trigger] rendered(clock, render, t0, t1, out)
                                    && if begun.charge_fits(host, used) {
                                    &&& after == asked.recorded(host, id, used)
                                    &&& r == Checked::Attempt(
                                        Attempt::<R, F>::Finished(
                                            match out {
                                                Ok(v) => Ok(v),
                                                Err(_) => Err(RunError::Panicked),
                                            },
                                        ),
                                    )
                                } else {
                                    after == asked && r == Checked::<R, F>::CannotCharge { out }
                                }
                            },
                    }
                }
            }
    } else {
        &&& after == before
        &&& r == Checked::Attempt(Attempt::<R, F>::Finished(Err(RunError::NotAdmitted)))
    }
}

impl<C: Clock> GpuBroker<C> {
    /// The host policy.
    pub closed spec fn host(&self) -> BrokerConfig {
        self.cfg
    }

    /// Where the broker reads the time.
    pub closed spec fn timepiece(&self) -> C {
        self.clock
    }

    /// The ledgers are the sums over the admitted VMs, and within the host's limits; each VM is
    /// within its own.
    pub closed spec fn wf(&self) -> bool {
        &&& in_order(self.vms@)
        &&& forall|i: int| 0 <= i < self.vms@.len() ==> (#[trigger] self.vms@[i]).account.wf()
        &&& self.vram_used_mb == reserved(self.vms@)
        &&& self.enc_sessions_used == encoders(self.vms@)
        &&& self.vram_used_mb <= self.cfg.budget()
        &&& self.vms@.len() <= self.cfg.max_concurrent_gpu_vms
        &&& self.cfg.max_enc_sessions is Some ==> self.enc_sessions_used
            <= self.cfg.max_enc_sessions->0
    }

    /// Neither the host policy nor the clock is another.
    pub open spec fn same_host(&self, other: &Self) -> bool {
        self.host() == other.host() && self.timepiece() == other.timepiece()
    }

    /// No limit is ever passed: the reserved VRAM stays within the budget and each VM's within
    /// its own cap, no more VMs are admitted than allowed, and no more encode sessions are held
    /// than there are. The sessions in use are those of the VMs that hold one.
    pub proof fn law_limits_hold(&self)
        requires
            self.wf(),
        ensures
            0 <= self@.vram_used_mb <= self.host().budget(),
            self@.vms.dom().finite(),
            self@.vms.dom().len() <= self.host().max_concurrent_gpu_vms,
            self@.enc_sessions_used == holders(self@.vms).len(),
            0 <= self@.enc_sessions_used <= self@.vms.dom().len(),
            self.host().max_enc_sessions is Some ==> self@.enc_sessions_used
                <= self.host().max_enc_sessions->0,
            forall|id: Seq<char>|
                self@.admitted(id) ==> (#[trigger] self@.vms[id]).vram_reserved_mb
                    <= self@.vram_used_mb && self@.vms[id].wf(),
    {
        lemma_count(self.vms@);
        lemma_holders(self.vms@);
        lemma_sums(self.vms@);
        lemma_by_name(self.vms@);
        assert forall|id: Seq<char>| self@.admitted(id) implies (
        #[trigger] self@.vms[id]).vram_reserved_mb <= self@.vram_used_mb && self@.vms[id].wf() by {
            let i = choose|i: int| crate::sched::roster::stands_at(self.vms@, id, i);
            assert(self.vms@[i].vm_id@ == id);
        }
    }

    /// A broker with nothing admitted.
    pub fn new(cfg: BrokerConfig, clock: C) -> (b: Self)
        ensures
            b.wf(),
            b@ == Ledger::empty(),
            b.host() == cfg,
            b.timepiece() == clock,
    {
        let b = GpuBroker {
            cfg,
            clock,
            vram_used_mb: 0,
            enc_sessions_used: 0,
            vms: Vec::new(),
        };
        assert(b@.vms =~= Map::empty());
        b
    }

    /// The host policy.
    pub fn config(&self) -> (c: &BrokerConfig)
        ensures
            *c == self.host(),
    {
        &self.cfg
    }

    /// The clock, to read.
    pub fn clock(&self) -> (c: &C)
        ensures
            *c == self.timepiece(),
    {
        &self.clock
    }

    /// The clock, to set: nothing else of the broker changes.
    pub fn clock_mut(&mut self) -> (c: &mut C)
        ensures
            *c == old(self).timepiece(),
            final(self).timepiece() == *final(c),
            final(self)@ == old(self)@,
            final(self).host() == old(self).host(),
            final(self).wf() == old(self).wf(),
    {
        &mut self.clock
    }

    /// Admission at `now`: a VM that passes every check gets its VRAM reserved, its encode
    /// session if it needs one, and a full bucket. A refusal changes nothing.
    pub fn admit_at(&mut self, cfg: VmConfig, req: AdmitRequest, now: Micros) -> (r: Result<
        VmTicket,
        AdmitError,
    >)
        requires
            old(self).wf(),
        ensures
            final(self).wf(),
            final(self).same_host(old(self)),
            admit_post(old(self)@, final(self)@, old(self).host(), cfg, req, now, r),
    {
        let place = locate(&self.vms, cfg.vm_id.as_str());
        proof {
            lemma_count(self.vms@);
            lemma_sums(self.vms@);
        }
        let at: usize = match place {
            Place::Found(_) => {
                return Err(AdmitError::AlreadyAdmitted);
            },
            Place::Free(i) => i,
        };
        if self.vms.len() >= self.cfg.max_concurrent_gpu_vms as usize {
            return Err(AdmitError::AtConcurrencyCap { cap: self.cfg.max_concurrent_gpu_vms });
        }
        if req.vram_mb > cfg.vram_cap_mb {
            return Err(
                AdmitError::ExceedsVmCap { requested_mb: req.vram_mb, cap_mb: cfg.vram_cap_mb },
            );
        }
        if req.needs_encoder {
            if let Some(cap) = self.cfg.max_enc_sessions {
                if self.enc_sessions_used >= cap {
                    return Err(AdmitError::NoEncoderSession { cap });
                }
            }
        }
        let available: u64 = self.cfg.budget_mb().saturating_sub(self.vram_used_mb);
        if req.vram_mb > available {
            return Err(
                AdmitError::InsufficientVram { requested_mb: req.vram_mb, available_mb: available },
            );
        }
        self.vram_used_mb = self.vram_used_mb + req.vram_mb;
        if req.needs_encoder {
            self.enc_sessions_used = self.enc_sessions_used + 1;
        }
        let account = VmAccount::open_account(
            &self.cfg,
            cfg.weight,
            cfg.priority,
            cfg.vram_cap_mb,
            req,
            now,
        );
        let ticket = VmTicket { vm_id: cfg.vm_id.clone(), released: false };
        let entry = VmEntry { vm_id: cfg.vm_id, account };
        proof {
            lemma_insert(self.vms@, at as int, entry);
        }
        self.vms.insert(at, entry);
        Ok(ticket)
    }

    /// Admission at the time that the clock shows.
    pub fn admit_request(&mut self, cfg: VmConfig, req: AdmitRequest) -> (r: Result<
        VmTicket,
        AdmitError,
    >)
        requires
            old(self).wf(),
        ensures
            final(self).wf(),
            final(self).same_host(old(self)),
            exists|now: Micros|
                #![trigger old(self).timepiece().may_read(now)]
                old(self).timepiece().may_read(now) && admit_post(
                    old(self)@,
                    final(self)@,
                    old(self).host(),
                    cfg,
                    req,
                    now,
                    r,
                ),
    {
        let now: u64 = self.clock.now_us();
        self.admit_at(cfg, req, now)
    }

    /// Admission at the time that the clock shows, of anything that becomes a request: a bare
    /// number of megabytes asks for VRAM only.
    pub fn admit_vm<Q: Into<AdmitRequest>>(&mut self, cfg: VmConfig, req: Q) -> (r: Result<
        VmTicket,
        AdmitError,
    >)
        requires
            old(self).wf(),
        ensures
            final(self).wf(),
            final(self).same_host(old(self)),
            exists|now: Micros, ask: AdmitRequest|
                #![trigger old(self).timepiece().may_read(now), call_ensures(Q::into, (req,), ask)]
                old(self).timepiece().may_read(now) && call_ensures(Q::into, (req,), ask)
                    && admit_post(old(self)@, final(self)@, old(self).host(), cfg, ask, now, r),
    {
        let ghost q = req;
        let ask = req.into();
        assert(call_ensures(Q::into, (q,), ask));
        self.admit_request(cfg, ask)
    }

    /// Revises a reservation. A grow past the VM's cap or the free VRAM is refused and the old
    /// reservation stands; a shrink is always granted.
    pub fn adjust_vram(&mut self, vm_id: &str, new_mb: u64) -> (r: Result<u64, AdmitError>)
        requires
            old(self).wf(),
        ensures
            final(self).wf(),
            final(self).same_host(old(self)),
            match old(self)@.adjust_refusal(old(self).host(), vm_id@, new_mb) {
                Some(e) => r == Err::<u64, AdmitError>(e) && final(self)@ == old(self)@,
                None => r == Ok::<u64, AdmitError>(new_mb) && final(self)@ == old(self)@.adjusted(
                    vm_id@,
                    new_mb,
                ),
            },
    {
        let at: usize = match locate(&self.vms, vm_id) {
            Place::Found(i) => i,
            Place::Free(_) => {
                return Err(AdmitError::AlreadyAdmitted);
            },
        };
        proof {
            lemma_sums(self.vms@);
        }
        let mut account = self.vms[at].account;
        let had: u64 = account.vram_reserved_mb;
        if new_mb > had {
            if new_mb > account.vram_cap_mb {
                return Err(
                    AdmitError::ExceedsVmCap { requested_mb: new_mb, cap_mb: account.vram_cap_mb },
                );
            }
            let available: u64 = self.cfg.budget_mb().saturating_sub(self.vram_used_mb);
            let delta: u64 = new_mb - had;
            if delta > available {
                return Err(
                    AdmitError::InsufficientVram { requested_mb: delta, available_mb: available },
                );
            }
            self.vram_used_mb = self.vram_used_mb + delta;
        } else {
            assert(self.vms@[at as int].account.vram_reserved_mb <= self.vram_used_mb);
            self.vram_used_mb = self.vram_used_mb - (had - new_mb);
        }
        account.vram_reserved_mb = new_mb;
        self.set_account(at, vm_id, account);
        Ok(new_mb)
    }

    /// Replaces the account that stands at `at`.
    fn set_account(&mut self, at: usize, vm_id: &str, account: VmAccount)
        requires
            in_order(old(self).vms@),
            crate::sched::roster::stands_at(old(self).vms@, vm_id@, at as int),
            account.holds_encoder == old(self).vms@[at as int].account.holds_encoder,
            account.wf(),
            forall|i: int|
                0 <= i < old(self).vms@.len() ==> (#[trigger] old(self).vms@[i]).account.wf(),
        ensures
            final(self).same_host(old(self)),
            final(self).cfg == old(self).cfg,
            final(self).vram_used_mb == old(self).vram_used_mb,
            final(self).enc_sessions_used == old(self).enc_sessions_used,
            in_order(final(self).vms@),
            forall|i: int|
                0 <= i < final(self).vms@.len() ==> (#[trigger] final(self).vms@[i]).account.wf(),
            final(self).vms@.len() == old(self).vms@.len(),
            by_name(final(self).vms@) == by_name(old(self).vms@).insert(vm_id@, account),
            reserved(final(self).vms@) == reserved(old(self).vms@) - old(
                self,
            ).vms@[at as int].account.vram_reserved_mb + account.vram_reserved_mb,
            encoders(final(self).vms@) == encoders(old(self).vms@),
    {
        let entry = VmEntry { vm_id: vm_id.to_owned(), account };
        proof {
            lemma_update(self.vms@, at as int, entry);
        }
        self.vms.set(at, entry);
    }

    /// Whether a VM that asks at `now` is within the machine's numbers (so is every VM that is
    /// not admitted).
    pub open spec fn begin_fits(&self, id: Seq<char>, now: Micros) -> bool {
        self@.admitted(id) ==> self@.vms[id].begin_fits(self.host(), now)
    }

    /// Whether a VM that asks at `now` is within the machine's numbers.
    pub fn can_begin_at(&self, vm_id: &str, now: Micros) -> (b: bool)
        requires
            self.wf(),
        ensures
            b == self.begin_fits(vm_id@, now),
    {
        match locate(&self.vms, vm_id) {
            Place::Found(i) => self.vms[i].account.can_begin(now, &self.cfg),
            Place::Free(_) => true,
        }
    }

    /// Refills the VM's bucket for the time up to `now` and says whether it may render.
    pub fn begin_at(&mut self, vm_id: &str, now: Micros) -> (r: Result<Begin, NotAdmitted>)
        requires
            old(self).wf(),
            old(self).begin_fits(vm_id@, now),
        ensures
            final(self).wf(),
            final(self).same_host(old(self)),
            begin_post(old(self)@, final(self)@, old(self).host(), vm_id@, now, r),
    {
        match locate(&self.vms, vm_id) {
            Place::Found(i) => {
                let mut account = self.vms[i].account;
                let answer = account.begin(now, &self.cfg);
                self.set_account(i, vm_id, account);
                Ok(answer)
            },
            Place::Free(_) => Err(NotAdmitted),
        }
    }

    /// Asks at the time that the clock shows.
    pub fn begin(&mut self, vm_id: &str) -> (r: Result<Begin, NotAdmitted>)
        requires
            old(self).wf(),
            forall|now: Micros|
                #![trigger old(self).timepiece().may_read(now)]
                old(self).timepiece().may_read(now) ==> old(self).begin_fits(vm_id@, now),
        ensures
            final(self).wf(),
            final(self).same_host(old(self)),
            exists|now: Micros|
                #![trigger old(self).timepiece().may_read(now)]
                old(self).timepiece().may_read(now) && begin_post(
                    old(self)@,
                    final(self)@,
                    old(self).host(),
                    vm_id@,
                    now,
                    r,
                ),
    {
        let now: u64 = self.clock.now_us();
        self.begin_at(vm_id, now)
    }

    /// Whether charging a render is within the machine's numbers (so is one of a VM that is
    /// not admitted).
    pub open spec fn record_fits(&self, id: Seq<char>, gpu_us: Micros) -> bool {
        self@.admitted(id) ==> self@.vms[id].charge_fits(self.host(), gpu_us)
    }

    /// Whether charging a render is within the machine's numbers.
    pub fn can_record(&self, vm_id: &str, gpu_us: Micros) -> (b: bool)
        requires
            self.wf(),
        ensures
            b == self.record_fits(vm_id@, gpu_us),
    {
        match locate(&self.vms, vm_id) {
            Place::Found(i) => self.vms[i].account.can_charge(gpu_us, &self.cfg),
            Place::Free(_) => true,
        }
    }

    /// Charges a finished render to the VM, if it is still admitted.
    pub fn record(&mut self, vm_id: &str, gpu_us: Micros)
        requires
            old(self).wf(),
            old(self).record_fits(vm_id@, gpu_us),
        ensures
            final(self).wf(),
            final(self).same_host(old(self)),
            final(self)@ == old(self)@.recorded(old(self).host(), vm_id@, gpu_us),
    {
        match locate(&self.vms, vm_id) {
            Place::Found(i) => {
                let mut account = self.vms[i].account;
                account.charge(gpu_us, &self.cfg);
                self.set_account(i, vm_id, account);
            },
            Place::Free(_) => {},
        }
    }

    /// Closes a submission that ran from `t0` to `t1`: the VM is charged for that time whether
    /// or not the render panicked, and a panic becomes an error of this VM alone.
    pub fn settle<R>(&mut self, vm_id: &str, t0: Micros, t1: Micros, out: Result<
        R,
        RenderPanic,
    >) -> (r: Result<R, RunError>)
        requires
            old(self).wf(),
            old(self).record_fits(vm_id@, monus(t1 as int, t0 as int) as u64),
        ensures
            final(self).wf(),
            final(self).same_host(old(self)),
            final(self)@ == old(self)@.recorded(
                old(self).host(),
                vm_id@,
                monus(t1 as int, t0 as int) as u64,
            ),
            r == match out {
                Ok(v) => Ok::<R, RunError>(v),
                Err(_) => Err(RunError::Panicked),
            },
    {
        self.record(vm_id, t1.saturating_sub(t0));
        match out {
            Ok(v) => Ok(v),
            Err(_) => Err(RunError::Panicked),
        }
    }

    /// Answers a VM that asks at `now` to run a submission.
    pub fn ask_at(&mut self, vm_id: &str, now: Micros) -> (a: Asked)
        requires
            old(self).wf(),
        ensures
            final(self).wf(),
            final(self).same_host(old(self)),
            ask_post(old(self)@, final(self)@, old(self).host(), vm_id@, now, a),
    {
        if !self.can_begin_at(vm_id, now) {
            return Asked::OutOfRange;
        }
        match self.begin_at(vm_id, now) {
            Err(_) => Asked::NotAdmitted,
            Ok(Begin::Ready) => Asked::Run,
            Ok(Begin::Throttled { wait_us }) => {
                Asked::Sleep { us: crate::arith::min_u64(wait_us, MAX_SLEEP_US) }
            },
        }
    }

    /// Closes a submission that ran from `t0` to `t1`, as [`GpuBroker::settle`] does, where its time
    /// can be charged.
    pub fn settle_checked<R>(&mut self, vm_id: &str, t0: Micros, t1: Micros, out: Result<
        R,
        RenderPanic,
    >) -> (r: Settled<R>)
        requires
            old(self).wf(),
        ensures
            final(self).wf(),
            final(self).same_host(old(self)),
            if old(self).record_fits(vm_id@, monus(t1 as int, t0 as int) as u64) {
                &&& final(self)@ == old(self)@.recorded(
                    old(self).host(),
                    vm_id@,
                    monus(t1 as int, t0 as int) as u64,
                )
                &&& r == Settled::Charged(
                    match out {
                        Ok(v) => Ok::<R, RunError>(v),
                        Err(_) => Err(RunError::Panicked),
                    },
                )
            } else {
                final(self)@ == old(self)@ && r == Settled::<R>::OutOfRange(out)
            },
    {
        if self.can_record(vm_id, t1.saturating_sub(t0)) {
            Settled::Charged(self.settle(vm_id, t0, t1, out))
        } else {
            Settled::OutOfRange(out)
        }
    }

    /// Whether an attempt is within the machine's numbers, whatever the clock shows.
    pub open spec fn run_fits(&self, id: Seq<char>) -> bool {
        self@.admitted(id) ==> {
            &&& forall|t: Micros| #[trigger]
                self.timepiece().may_read(t) ==> self@.vms[id].begin_fits(self.host(), t)
            &&& forall|t: Micros, t0: Micros, t1: Micros| #[trigger]
                self.timepiece().may_read(t) && #[trigger] self.timepiece().may_read(t0)
                    && #[trigger] self.timepiece().may_read(t1) ==> self@.vms[id].begun(
                    self.host(),
                    t,
                ).charge_fits(self.host(), monus(t1 as int, t0 as int) as u64)
        }
    }

    /// One attempt to run a submission: asks for budget, and with budget runs the render and
    /// charges the time that the clock measured. The render hands a caught panic back as an
    /// error. Without budget nothing runs, and the render comes back with how long to sleep.
    pub fn run<R, F: FnOnce() -> Result<R, RenderPanic>>(&mut self, vm_id: &str, render: F) -> (r:
        Attempt<R, F>)
        requires
            old(self).wf(),
            old(self).run_fits(vm_id@),
            call_requires(render, ()),
        ensures
            final(self).wf(),
            final(self).same_host(old(self)),
            run_post(
                old(self)@,
                final(self)@,
                old(self).host(),
                old(self).timepiece(),
                vm_id@,
                render,
                r,
            ),
    {
        let t: u64 = self.clock.now_us();
        assert(self.timepiece().may_read(t));
        match self.begin_at(vm_id, t) {
            Err(_) => Attempt::Finished(Err(RunError::NotAdmitted)),
            Ok(Begin::Throttled { wait_us }) => {
                Attempt::Throttled {
                    sleep_us: crate::arith::min_u64(wait_us, MAX_SLEEP_US),
                    render,
                }
            },
            Ok(Begin::Ready) => {
                let t0: u64 = self.clock.now_us();
                let ghost f = render;
                let out = render();
                let t1: u64 = self.clock.now_us();
                assert(rendered(self.timepiece(), f, t0, t1, out));
                assert(old(self).timepiece().may_read(t0) && old(self).timepiece().may_read(t1));
                let r = self.settle(vm_id, t0, t1, out);
                Attempt::Finished(r)
            },
        }
    }

    /// One attempt to run a submission, whatever the clock shows: where asking for budget or
    /// charging the render is out of the machine's range, the result says so.
    pub fn run_checked<R, F: FnOnce() -> Result<R, RenderPanic>>(
        &mut self,
        vm_id: &str,
        render: F,
    ) -> (r: Checked<R, F>)
        requires
            old(self).wf(),
            call_requires(render, ()),
        ensures
            final(self).wf(),
            final(self).same_host(old(self)),
            checked_post(
                old(self)@,
                final(self)@,
                old(self).host(),
                old(self).timepiece(),
                vm_id@,
                render,
                r,
            ),
    {
        let t: u64 = self.clock.now_us();
        assert(self.timepiece().may_read(t));
        match self.ask_at(vm_id, t) {
            Asked::OutOfRange => Checked::CannotBegin { render },
            Asked::NotAdmitted => Checked::Attempt(Attempt::Finished(Err(RunError::NotAdmitted))),
            Asked::Sleep { us } => Checked::Attempt(Attempt::Throttled { sleep_us: us, render }),
            Asked::Run => {
                let t0: u64 = self.clock.now_us();
                let ghost f = render;
                let out = render();
                let t1: u64 = self.clock.now_us();
                assert(rendered(self.timepiece(), f, t0, t1, out));
                match self.settle_checked(vm_id, t0, t1, out) {
                    Settled::Charged(r) => Checked::Attempt(Attempt::Finished(r)),
                    Settled::OutOfRange(out) => Checked::CannotCharge { out },
                }
            },
        }
    }

    /// A snapshot: the ledgers, and one row per VM in the order of their names.
    pub fn fleet_view(&self) -> (v: FleetView)
        requires
            self.wf(),
        ensures
            v.total_vram_mb == self.host().total_vram_mb,
            v.vram_used_mb == self@.vram_used_mb,
            v.vram_free_mb == self@.available(self.host()),
            v.admitted_vms == self@.vms.dom().len(),
            v.max_concurrent_gpu_vms == self.host().max_concurrent_gpu_vms,
            v.enc_sessions_used == self@.enc_sessions_used,
            v.max_enc_sessions == self.host().max_enc_sessions,
            v.vms@.len() == self@.vms.dom().len(),
            forall|i: int|
                0 <= i < v.vms@.len() ==> self@.admitted((#[trigger] v.vms@[i]).vm_id@)
                    && v.vms@[i].shows(self@.vms[v.vms@[i].vm_id@]),
            forall|id: Seq<char>| #[trigger]
                self@.admitted(id) ==> exists|i: int|
                    0 <= i < v.vms@.len() && (#[trigger] v.vms@[i]).vm_id@ == id,
            forall|i: int, j: int|
                0 <= i < j < v.vms@.len() ==> name_before(
                    (#[trigger] v.vms@[i]).vm_id@,
                    (#[trigger] v.vms@[j]).vm_id@,
                ),
            rows_reserved(v.vms@) == self@.vram_used_mb,
    {
        let mut rows: Vec<VmStat> = Vec::new();
        let mut i: usize = 0;
        while i < self.vms.len()
            invariant
                i <= self.vms@.len(),
                rows@.len() == i,
                forall|j: int|
                    0 <= j < i ==> (#[trigger] rows@[j]).vm_id@ == self.vms@[j].vm_id@
                        && rows@[j].shows(self.vms@[j].account),
                rows_reserved(rows@) == reserved(self.vms@.take(i as int)),
            decreases self.vms.len() - i,
        {
            let e = &self.vms[i];
            let row = VmStat {
                vm_id: e.vm_id.clone(),
                weight: e.account.weight,
                priority: e.account.priority,
                vram_reserved_mb: e.account.vram_reserved_mb,
                tokens_us: e.account.tokens_us,
                gpu_time_used_us: e.account.gpu_time_used_us,
                vruntime_us: e.account.vruntime_us,
                submissions: e.account.submissions,
                throttle_events: e.account.throttle_events,
                watchdog_trips: e.account.watchdog_trips,
            };
            let ghost before = rows@;
            rows.push(row);
            proof {
                assert(rows@.drop_last() =~= before);
                assert(self.vms@.take(i + 1).drop_last() =~= self.vms@.take(i as int));
            }
            i = i + 1;
        }
        proof {
            lemma_count(self.vms@);
            lemma_by_name(self.vms@);
            assert(self.vms@.take(i as int) =~= self.vms@);
            assert forall|j: int| 0 <= j < rows@.len() implies self@.admitted(
                (#[trigger] rows@[j]).vm_id@,
            ) && rows@[j].shows(self@.vms[rows@[j].vm_id@]) by {
                assert(self.vms@[j].vm_id@ == rows@[j].vm_id@);
            }
            assert forall|id: Seq<char>| #[trigger] self@.admitted(id) implies exists|j: int|
                0 <= j < rows@.len() && (#[trigger] rows@[j]).vm_id@ == id by {
                let j = choose|j: int| crate::sched::roster::stands_at(self.vms@, id, j);
                assert(rows@[j].vm_id@ == id);
            }
            assert forall|j: int, k: int| 0 <= j < k < rows@.len() implies name_before(
                (#[trigger] rows@[j]).vm_id@,
                (#[trigger] rows@[k]).vm_id@,
            ) by {
                assert(name_before(self.vms@[j].vm_id@, self.vms@[k].vm_id@));
            }
        }
        FleetView {
            total_vram_mb: self.cfg.total_vram_mb,
            vram_used_mb: self.vram_used_mb,
            vram_free_mb: self.cfg.budget_mb().saturating_sub(self.vram_used_mb),
            admitted_vms: self.vms.len() as u32,
            max_concurrent_gpu_vms: self.cfg.max_concurrent_gpu_vms,
            enc_sessions_used: self.enc_sessions_used,
            max_enc_sessions: self.cfg.max_enc_sessions,
            vms: rows,
        }
    }

    /// Frees what a VM holds; nothing happens where it is not admitted.
    pub fn release(&mut self, vm_id: &str)
        requires
            old(self).wf(),
        ensures
            final(self).wf(),
            final(self).same_host(old(self)),
            final(self)@ == old(self)@.without_vm(vm_id@),
    {
        match locate(&self.vms, vm_id) {
            Place::Found(i) => {
                proof {
                    lemma_sums(self.vms@);
                    lemma_remove(self.vms@, i as int);
                }
                let gone = self.vms.remove(i);
                self.vram_used_mb = self.vram_used_mb - gone.account.vram_reserved_mb;
                if gone.account.holds_encoder {
                    self.enc_sessions_used = self.enc_sessions_used - 1;
                }
                proof {
                    lemma_sums(self.vms@);
                }
            },
            Place::Free(_) => {},
        }
    }
}

/// What an admission does to the ledger, and what it gives.
pub open spec fn admit_post(
    before: Ledger,
    after: Ledger,
    host: BrokerConfig,
    cfg: VmConfig,
    req: AdmitRequest,
    now: Micros,
    r: Result<VmTicket, AdmitError>,
) -> bool {
    match before.refusal(host, cfg.vm_id@, cfg.vram_cap_mb, req) {
        Some(e) => r == Err::<VmTicket, AdmitError>(e) && after == before,
        None => {
            &&& r is Ok
            &&& r->Ok_0.names() == cfg.vm_id@
            &&& r->Ok_0.live()
            &&& after == before.with_vm(
                cfg.vm_id@,
                opened(host, cfg.weight, cfg.priority, cfg.vram_cap_mb, req, now),
            )
        },
    }
}

/// What asking for budget does to the ledger, and what it gives.
pub open spec fn begin_post(
    before: Ledger,
    after: Ledger,
    host: BrokerConfig,
    id: Seq<char>,
    now: Micros,
    r: Result<Begin, NotAdmitted>,
) -> bool {
    if before.admitted(id) {
        &&& r == Ok::<Begin, NotAdmitted>(before.vms[id].begin_answer(host, now))
        &&& after == before.with_account(id, before.vms[id].begun(host, now))
    } else {
        r == Err::<Begin, NotAdmitted>(NotAdmitted) && after == before
    }
}

/// What asking to run a submission does to the ledger, and what the VM is told.
pub open spec fn ask_post(
    before: Ledger,
    after: Ledger,
    host: BrokerConfig,
    id: Seq<char>,
    now: Micros,
    a: Asked,
) -> bool {
    if !before.admitted(id) {
        a == Asked::NotAdmitted && after == before
    } else if !before.vms[id].begin_fits(host, now) {
        a == Asked::OutOfRange && after == before
    } else {
        &&& after == before.with_account(id, before.vms[id].begun(host, now))
        &&& a == match before.vms[id].begin_answer(host, now) {
            Begin::Ready => Asked::Run,
            Begin::Throttled { wait_us } => Asked::Sleep {
                us: smaller(wait_us as int, MAX_SLEEP_US as int) as u64,
            },
        }
    }
}

impl GpuBroker<MonotonicClock> {
    /// A broker on the machine's clock.
    pub fn with_real_clock(cfg: BrokerConfig) -> (b: Self)
        ensures
            b.wf(),
            b@ == Ledger::empty(),
            b.host() == cfg,
    {
        GpuBroker::new(cfg, MonotonicClock::default())
    }
}

impl VmTicket {
    /// The VM that the ticket names.
    pub closed spec fn names(&self) -> Seq<char> {
        self.vm_id@
    }

    /// Whether the ticket is not reaped yet.
    pub closed spec fn live(&self) -> bool {
        !self.released
    }

    pub fn vm_id(&self) -> (s: &str)
        ensures
            s@ == self.names(),
    {
        self.vm_id.as_str()
    }

    /// Revises the reservation of the ticket's VM.
    pub fn adjust_vram<C: Clock>(&self, broker: &mut GpuBroker<C>, new_mb: u64) -> (r: Result<
        u64,
        AdmitError,
    >)
        requires
            old(broker).wf(),
        ensures
            final(broker).wf(),
            final(broker).same_host(old(broker)),
            match old(broker)@.adjust_refusal(old(broker).host(), self.names(), new_mb) {
                Some(e) => r == Err::<u64, AdmitError>(e) && final(broker)@ == old(broker)@,
                None => r == Ok::<u64, AdmitError>(new_mb) && final(broker)@ == old(
                    broker,
                )@.adjusted(self.names(), new_mb),
            },
    {
        broker.adjust_vram(self.vm_id.as_str(), new_mb)
    }

    /// Reaps the ticket: the first time its VM is released, later nothing happens.
    pub fn reap<C: Clock>(&mut self, broker: &mut GpuBroker<C>)
        requires
            old(broker).wf(),
        ensures
            final(broker).wf(),
            final(broker).same_host(old(broker)),
            !final(self).live(),
            final(self).names() == old(self).names(),
            final(broker)@ == if old(self).live() {
                old(broker)@.without_vm(old(self).names())
            } else {
                old(broker)@
            },
    {
        if !self.released {
            self.released = true;
            broker.release(self.vm_id.as_str());
        }
    }

    /// One attempt to run a submission of the ticket's VM.
    pub fn run<C: Clock, R, F: FnOnce() -> Result<R, RenderPanic>>(
        &self,
        broker: &mut GpuBroker<C>,
        render: F,
    ) -> (r: Attempt<R, F>)
        requires
            old(broker).wf(),
            old(broker).run_fits(self.names()),
            call_requires(render, ()),
        ensures
            final(broker).wf(),
            final(broker).same_host(old(broker)),
            run_post(
                old(broker)@,
                final(broker)@,
                old(broker).host(),
                old(broker).timepiece(),
                self.names(),
                render,
                r,
            ),
    {
        broker.run(self.vm_id.as_str(), render)
    }

    /// One attempt to run a submission of the ticket's VM, whatever the clock shows.
    pub fn run_checked<C: Clock, R, F: FnOnce() -> Result<R, RenderPanic>>(
        &self,
        broker: &mut GpuBroker<C>,
        render: F,
    ) -> (r: Checked<R, F>)
        requires
            old(broker).wf(),
            call_requires(render, ()),
        ensures
            final(broker).wf(),
            final(broker).same_host(old(broker)),
            checked_post(
                old(broker)@,
                final(broker)@,
                old(broker).host(),
                old(broker).timepiece(),
                self.names(),
                render,
                r,
            ),
    {
        broker.run_checked(self.vm_id.as_str(), render)
    }
}

} // verus!
