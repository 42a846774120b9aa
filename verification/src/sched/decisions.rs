//! What the broker grants and refuses, in numbers: when a request is granted, what a refusal
//! says, and what each decision changes.
use crate::sched::account::{Begin, VmAccount};
use crate::sched::broker::{
    admit_post, ask_post, begin_post, checked_post, run_post, Asked, Attempt, Checked, FleetView,
    GpuBroker, Ledger, NotAdmitted, RenderPanic, RunError, Settled, VmTicket,
};
use crate::sched::clock::Clock;
use crate::sched::policy::{
    scanout_vram_estimate_mb, AdmitError, AdmitRequest, BrokerConfig, Micros, PriorityTier,
    VmConfig,
};
use crate::text::decimal;
use vstd::prelude::*;

verus! {

/// A reservation is revised wherever it fits: for an admitted VM and a size within its cap, it is
/// granted where all reservations together, its own replaced by the new one, stay within the
/// memory that is not held back.
pub proof fn law_fitting_revision_is_granted(
    l: Ledger,
    host: BrokerConfig,
    id: Seq<char>,
    new_mb: u64,
)
    requires
        l.vms.dom().contains(id),
        new_mb <= l.vms[id].vram_cap_mb,
        host.vram_reserve_mb <= host.total_vram_mb,
        l.vram_used_mb - l.vms[id].vram_reserved_mb + new_mb <= host.total_vram_mb
            - host.vram_reserve_mb,
    ensures
        l.adjust_refusal(host, id, new_mb) is None,
{
}

/// A revision is refused only with cause, and the refusal tells it: more megabytes are asked for
/// than are free, or the reservation would grow past the VM's cap, or the VM is not admitted.
pub proof fn law_refused_revision_has_a_cause(
    l: Ledger,
    host: BrokerConfig,
    id: Seq<char>,
    new_mb: u64,
)
    requires
        host.vram_reserve_mb <= host.total_vram_mb,
        0 <= l.vram_used_mb <= host.total_vram_mb - host.vram_reserve_mb,
        l.vms.dom().contains(id) ==> l.vms[id].vram_reserved_mb <= l.vms[id].vram_cap_mb,
    ensures
        ({
            let r = l.adjust_refusal(host, id, new_mb);
            let held = l.vms[id].vram_reserved_mb;
            &&& r matches Some(AdmitError::InsufficientVram { requested_mb, available_mb }) ==> {
                &&& requested_mb > available_mb
                &&& requested_mb == new_mb - held
                &&& available_mb == host.total_vram_mb - host.vram_reserve_mb - l.vram_used_mb
            }
            &&& r matches Some(AdmitError::ExceedsVmCap { requested_mb: asked, cap_mb }) ==> {
                &&& asked > cap_mb
                &&& asked == new_mb
                &&& cap_mb == l.vms[id].vram_cap_mb
            }
            &&& r == Some(AdmitError::AlreadyAdmitted) <==> !l.vms.dom().contains(id)
            &&& !(r matches Some(AdmitError::AtConcurrencyCap { .. }))
            &&& !(r matches Some(AdmitError::NoEncoderSession { .. }))
            &&& l.vms.dom().contains(id) && new_mb > l.vms[id].vram_cap_mb ==> r is Some
            &&& l.vms.dom().contains(id) && l.vram_used_mb - held + new_mb > host.total_vram_mb
                - host.vram_reserve_mb ==> r is Some
        }),
{
}

/// A granted revision changes one number of one VM, and the sum by as much.
pub proof fn law_revision_changes_one_reservation(l: Ledger, id: Seq<char>, new_mb: u64)
    requires
        l.vms.dom().contains(id),
    ensures
        ({
            let m = l.adjusted(id, new_mb);
            &&& m.vms.dom() =~= l.vms.dom()
            &&& m.vms[id] == (VmAccount { vram_reserved_mb: new_mb, ..l.vms[id] })
            &&& forall|other: Seq<char>|
                other != id && l.vms.dom().contains(other) ==> #[trigger] m.vms[other]
                    == l.vms[other]
            &&& m.vram_used_mb - l.vram_used_mb == new_mb - l.vms[id].vram_reserved_mb
            &&& m.enc_sessions_used == l.enc_sessions_used
        }),
{
}

/// A VM is admitted wherever every limit allows it, and the admission reserves what it asked for,
/// takes a session where it needs one, and opens an account with a full bucket and no history.
pub proof fn law_fitting_vm_is_admitted(
    before: Ledger,
    after: Ledger,
    host: BrokerConfig,
    cfg: VmConfig,
    req: AdmitRequest,
    now: Micros,
    r: Result<VmTicket, AdmitError>,
)
    requires
        admit_post(before, after, host, cfg, req, now, r),
        !before.vms.dom().contains(cfg.vm_id@),
        before.vms.dom().len() < host.max_concurrent_gpu_vms,
        req.vram_mb <= cfg.vram_cap_mb,
        req.needs_encoder && host.max_enc_sessions is Some ==> before.enc_sessions_used
            < host.max_enc_sessions->0,
        host.vram_reserve_mb <= host.total_vram_mb,
        before.vram_used_mb + req.vram_mb <= host.total_vram_mb - host.vram_reserve_mb,
    ensures
        r is Ok,
        r->Ok_0.names() == cfg.vm_id@,
        r->Ok_0.live(),
        after.vms.dom() =~= before.vms.dom().insert(cfg.vm_id@),
        after.vram_used_mb == before.vram_used_mb + req.vram_mb,
        after.enc_sessions_used == before.enc_sessions_used + if req.needs_encoder {
            1int
        } else {
            0int
        },
        ({
            let a = after.vms[cfg.vm_id@];
            &&& a.weight == cfg.weight
            &&& a.priority == cfg.priority
            &&& a.vram_cap_mb == cfg.vram_cap_mb
            &&& a.vram_reserved_mb == req.vram_mb
            &&& a.holds_encoder == req.needs_encoder
            &&& a.last_refill_us == now
            &&& host.bucket_burst_us <= i64::MAX ==> a.tokens_us == host.bucket_burst_us
            &&& host.bucket_burst_us > i64::MAX ==> a.tokens_us == i64::MAX
            &&& a.carry == 0
            &&& a.gpu_time_used_us == 0
            &&& a.vruntime_us == 0
            &&& a.submissions == 0
            &&& a.throttle_events == 0
            &&& a.watchdog_trips == 0
        }),
{
}

/// A refused admission changes nothing, and the refusal tells its cause in numbers. The causes are
/// looked at in this order: the name, the number of VMs, the VM's cap, the sessions, the memory.
pub proof fn law_refused_vm_is_told_why(
    before: Ledger,
    after: Ledger,
    host: BrokerConfig,
    cfg: VmConfig,
    req: AdmitRequest,
    now: Micros,
    r: Result<VmTicket, AdmitError>,
)
    requires
        admit_post(before, after, host, cfg, req, now, r),
        host.vram_reserve_mb <= host.total_vram_mb,
        0 <= before.vram_used_mb <= host.total_vram_mb - host.vram_reserve_mb,
    ensures
        r is Err ==> after == before,
        r == Err::<VmTicket, AdmitError>(AdmitError::AlreadyAdmitted)
            <==> before.vms.dom().contains(cfg.vm_id@),
        r matches Err(AdmitError::AtConcurrencyCap { cap }) ==> {
            &&& cap == host.max_concurrent_gpu_vms
            &&& before.vms.dom().len() >= cap
        },
        r matches Err(AdmitError::ExceedsVmCap { requested_mb: asked, cap_mb }) ==> {
            &&& asked == req.vram_mb > cap_mb == cfg.vram_cap_mb
            &&& before.vms.dom().len() < host.max_concurrent_gpu_vms
        },
        r matches Err(AdmitError::NoEncoderSession { cap: sessions }) ==> {
            &&& req.needs_encoder
            &&& host.max_enc_sessions == Some(sessions)
            &&& before.enc_sessions_used >= sessions
            &&& req.vram_mb <= cfg.vram_cap_mb
        },
        r matches Err(AdmitError::InsufficientVram { requested_mb, available_mb }) ==> {
            &&& requested_mb == req.vram_mb > available_mb
            &&& available_mb == host.total_vram_mb - host.vram_reserve_mb - before.vram_used_mb
            &&& req.vram_mb <= cfg.vram_cap_mb
        },
        before.vms.dom().len() >= host.max_concurrent_gpu_vms ==> r is Err,
        req.vram_mb > cfg.vram_cap_mb ==> r is Err,
        before.vram_used_mb + req.vram_mb > host.total_vram_mb - host.vram_reserve_mb ==> r is Err,
{
}

/// Releasing a VM gives back its reservation and its session, and touches no other VM.
pub proof fn law_release_gives_back(l: Ledger, id: Seq<char>)
    ensures
        l.vms.dom().contains(id) ==> {
            let m = l.without_vm(id);
            &&& !m.vms.dom().contains(id)
            &&& m.vram_used_mb == l.vram_used_mb - l.vms[id].vram_reserved_mb
            &&& l.vms[id].holds_encoder ==> m.enc_sessions_used == l.enc_sessions_used - 1
            &&& !l.vms[id].holds_encoder ==> m.enc_sessions_used == l.enc_sessions_used
            &&& forall|other: Seq<char>|
                other != id && l.vms.dom().contains(other) ==> m.vms.dom().contains(other)
                    && #[trigger] m.vms[other] == l.vms[other]
        },
        !l.vms.dom().contains(id) ==> l.without_vm(id) == l,
{
}

/// A VM may render exactly while there is budget in its bucket. A refusal is counted and names a
/// wait of at least a microsecond; a grant counts nothing. Neither changes what was used so far.
pub proof fn law_budget_decides(
    before: Ledger,
    after: Ledger,
    host: BrokerConfig,
    id: Seq<char>,
    now: Micros,
    r: Result<Begin, NotAdmitted>,
)
    requires
        begin_post(before, after, host, id, now, r),
        before.vms.dom().contains(id) ==> before.vms[id].begin_fits(host, now),
    ensures
        r is Err <==> !before.vms.dom().contains(id),
        r is Err ==> after == before,
        r is Ok ==> {
            let a = before.vms[id];
            let b = after.vms[id];
            &&& after.vms.dom() =~= before.vms.dom()
            &&& after.vram_used_mb == before.vram_used_mb
            &&& after.enc_sessions_used == before.enc_sessions_used
            &&& r->Ok_0 is Ready <==> b.tokens_us > 0
            &&& r->Ok_0 is Ready ==> b.throttle_events == a.throttle_events
            &&& r->Ok_0 is Throttled ==> b.throttle_events == a.throttle_events + 1
            &&& r->Ok_0 is Throttled ==> r->Ok_0->wait_us >= 1
            &&& b.gpu_time_used_us == a.gpu_time_used_us
            &&& b.vruntime_us == a.vruntime_us
            &&& b.submissions == a.submissions
            &&& b.watchdog_trips == a.watchdog_trips
            &&& b.vram_reserved_mb == a.vram_reserved_mb
            &&& b.holds_encoder == a.holds_encoder
            &&& b.weight == a.weight
            &&& b.priority == a.priority
            &&& now <= a.last_refill_us ==> b.tokens_us == a.tokens_us && b.last_refill_us
                == a.last_refill_us && b.carry == a.carry
            &&& now > a.last_refill_us ==> b.last_refill_us == now
        },
{
    if before.vms.dom().contains(id) {
        let a = before.vms[id];
        assert(after.vms.dom() =~= before.vms.dom());
    }
}

/// The wait of a throttled VM is what its bucket needs to get back to a millisecond at its rate,
/// rounded down to a microsecond and no shorter than one.
pub proof fn law_wait_fits_the_deficit(a: VmAccount, host: BrokerConfig)
    requires
        a.tokens_us <= 0,
        a.refill_rate(host) >= 1,
        a.wait(host) < u64::MAX,
    ensures
        a.wait(host) >= 1,
        a.wait(host) > 1 ==> a.wait(host) * a.refill_rate(host) <= (1000 - a.tokens_us) * 1_000_000,
        (1000 - a.tokens_us) * 1_000_000 < (a.wait(host) + 1) * a.refill_rate(host),
{
    let n = (1000 - a.tokens_us) * 1_000_000;
    let r = a.refill_rate(host);
    let q = n / r;
    assert(q * r <= n < (q + 1) * r && q >= 0) by (nonlinear_arith)
        requires
            q == n / r,
            r >= 1,
            n >= 0,
    ;
    let w = a.wait(host);
    assert(w >= q);
    assert((w + 1) * r >= (q + 1) * r) by (nonlinear_arith)
        requires
            w >= q,
            r >= 1,
    ;
}

/// A refill grants the wall time since the last one at the VM's rate: the grant and what rounding
/// leaves are together exactly what was earned, and less than a microsecond is left. The bucket
/// gets all of the grant that it can hold.
pub proof fn law_refill_grants_what_was_earned(a: VmAccount, host: BrokerConfig, now: Micros)
    requires
        a.carry < 1_000_000,
        now > a.last_refill_us,
        host.bucket_burst_us <= i64::MAX,
        a.tokens_us <= host.bucket_burst_us,
    ensures
        ({
            let b = a.refilled(host, now);
            let got = a.grant(host, now);
            &&& got * 1_000_000 + b.carry == a.refill_rate(host) * (now - a.last_refill_us)
                + a.carry
            &&& b.carry < 1_000_000
            &&& b.last_refill_us == now
            &&& a.tokens_us + got <= host.bucket_burst_us ==> b.tokens_us == a.tokens_us + got
            &&& a.tokens_us + got > host.bucket_burst_us ==> b.tokens_us == host.bucket_burst_us
        }),
{
    assert(a.refill_rate(host) >= 0);
    let dt = now - a.last_refill_us;
    assert(a.refill_rate(host) * dt >= 0) by (nonlinear_arith)
        requires
            a.refill_rate(host) >= 0,
            dt >= 0,
    ;
}

/// The refill rate follows the weight: half as fast again for an interactive VM, the plain product
/// of weight and base rate for any other, and never under the floor.
pub proof fn law_rate_by_tier(a: VmAccount, host: BrokerConfig)
    ensures
        a.refill_rate(host) >= host.min_refill_us_per_s,
        a.priority is Interactive ==> {
            let p = 3 * (a.weight * host.refill_us_per_s_per_weight) / 2;
            a.refill_rate(host) == if p >= host.min_refill_us_per_s {
                p
            } else {
                host.min_refill_us_per_s as int
            }
        },
        !(a.priority is Interactive) ==> {
            let p = a.weight * host.refill_us_per_s_per_weight;
            a.refill_rate(host) == if p >= host.min_refill_us_per_s {
                p
            } else {
                host.min_refill_us_per_s as int
            }
        },
{
    let w = a.weight as int;
    let b = host.refill_us_per_s_per_weight as int;
    assert((w * 384) * b == (w * b) * 384) by (nonlinear_arith);
    assert((w * 256) * b == (w * b) * 256) by (nonlinear_arith);
    assert(w * b >= 0) by (nonlinear_arith)
        requires
            w >= 0,
            b >= 0,
    ;
    let n = w * b;
    assert(n * 384 / 256 == 3 * n / 2);
}

/// A finished render is charged once: its time leaves the bucket and is added to what was used,
/// the submission is counted, and a trip of the watchdog where it took longer than allowed.
pub proof fn law_render_is_charged(
    l: Ledger,
    host: BrokerConfig,
    id: Seq<char>,
    gpu_us: Micros,
)
    requires
        l.vms.dom().contains(id) ==> l.vms[id].charge_fits(host, gpu_us),
    ensures
        !l.vms.dom().contains(id) ==> l.recorded(host, id, gpu_us) == l,
        l.vms.dom().contains(id) ==> {
            let a = l.vms[id];
            let m = l.recorded(host, id, gpu_us);
            let b = m.vms[id];
            &&& m.vms.dom() =~= l.vms.dom()
            &&& m.vram_used_mb == l.vram_used_mb
            &&& m.enc_sessions_used == l.enc_sessions_used
            &&& a.tokens_us - gpu_us >= i64::MIN ==> b.tokens_us == a.tokens_us - gpu_us
            &&& a.tokens_us - gpu_us < i64::MIN ==> b.tokens_us == i64::MIN
            &&& b.gpu_time_used_us == a.gpu_time_used_us + gpu_us
            &&& b.submissions == a.submissions + 1
            &&& gpu_us > host.watchdog_us ==> b.watchdog_trips == a.watchdog_trips + 1
            &&& gpu_us <= host.watchdog_us ==> b.watchdog_trips == a.watchdog_trips
            &&& b.throttle_events == a.throttle_events
            &&& b.last_refill_us == a.last_refill_us
            &&& b.carry == a.carry
            &&& b.vram_reserved_mb == a.vram_reserved_mb
            &&& b.weight == a.weight
            &&& b.priority == a.priority
            &&& b.holds_encoder == a.holds_encoder
            &&& a.priority is Interactive && gpu_us * 2 < 0x1_0000_0000_0000_0000 ==> (
            b.vruntime_us - a.vruntime_us) * (3 * a.weight) <= 2 * gpu_us < (b.vruntime_us
                - a.vruntime_us + 1) * (3 * a.weight)
            &&& !(a.priority is Interactive) ==> (b.vruntime_us - a.vruntime_us) * a.weight
                <= gpu_us < (b.vruntime_us - a.vruntime_us + 1) * a.weight
        },
{
    if l.vms.dom().contains(id) {
        let a = l.vms[id];
        assert(l.recorded(host, id, gpu_us).vms.dom() =~= l.vms.dom());
        crate::sched::laws::law_vruntime_step(a, gpu_us);
        let v = a.vruntime_step(gpu_us);
        let w = a.weight as int;
        if a.priority is Interactive {
            assert(v * (3 * w) <= 2 * gpu_us < (v + 1) * (3 * w)) by (nonlinear_arith)
                requires
                    v * (w * 384) <= gpu_us * 256,
                    gpu_us * 256 < (v + 1) * (w * 384),
            ;
        } else {
            assert(v * w <= gpu_us < (v + 1) * w) by (nonlinear_arith)
                requires
                    v * (w * 256) <= gpu_us * 256,
                    gpu_us * 256 < (v + 1) * (w * 256),
            ;
        }
    }
}

/// A VM that asks to run is told to run where there is budget, or to sleep: for as long as its wait
/// is, but no longer than 50 milliseconds.
pub proof fn law_sleeps_are_short(
    before: Ledger,
    after: Ledger,
    host: BrokerConfig,
    id: Seq<char>,
    now: Micros,
    a: Asked,
)
    requires
        ask_post(before, after, host, id, now, a),
    ensures
        a is NotAdmitted <==> !before.vms.dom().contains(id),
        a is NotAdmitted || a is OutOfRange ==> after == before,
        a is Run ==> after.vms[id].tokens_us > 0,
        a matches Asked::Sleep { us } ==> {
            &&& 1 <= us <= 50_000
            &&& after.vms[id].tokens_us <= 0
            &&& after.vms[id].throttle_events == before.vms[id].throttle_events + 1
            &&& us < 50_000 ==> us == before.vms[id].begin_answer(host, now)->wait_us
        },
{
}

/// One attempt to run a submission counts as at most one: it is charged once where it ran, and
/// whether it panicked is what its render did. Where it did not run, the render is handed back.
pub proof fn law_attempt_runs_at_most_once<C: Clock, R, F: FnOnce() -> Result<R, RenderPanic>>(
    before: Ledger,
    after: Ledger,
    host: BrokerConfig,
    clock: C,
    id: Seq<char>,
    render: F,
    r: Attempt<R, F>,
)
    requires
        run_post(before, after, host, clock, id, render, r),
        before.vms.dom().contains(id) ==> before.vms[id].throttle_events < u64::MAX
            && before.vms[id].submissions < u64::MAX,
    ensures
        !before.vms.dom().contains(id) ==> after == before && r == Attempt::<R, F>::Finished(
            Err(RunError::NotAdmitted),
        ),
        before.vms.dom().contains(id) ==> {
            let a = before.vms[id];
            let b = after.vms[id];
            &&& after.vms.dom() =~= before.vms.dom()
            &&& r matches Attempt::Throttled { sleep_us, render: f } ==> {
                &&& f == render
                &&& 1 <= sleep_us <= 50_000
                &&& b.submissions == a.submissions
                &&& b.throttle_events == a.throttle_events + 1
                &&& b.gpu_time_used_us == a.gpu_time_used_us
            }
            &&& r matches Attempt::Finished(out) ==> {
                &&& b.submissions == a.submissions + 1
                &&& b.throttle_events == a.throttle_events
                &&& out != Err::<R, RunError>(RunError::NotAdmitted)
                &&& out is Ok ==> call_ensures(render, (), Ok::<R, RenderPanic>(out->Ok_0))
            }
        },
{
    if before.vms.dom().contains(id) {
        assert(after.vms.dom() =~= before.vms.dom());
    }
}

/// The same where the machine's numbers may not reach: then nothing is charged, and what was not
/// run or not charged is handed back.
pub proof fn law_checked_attempt_runs_at_most_once<
    C: Clock,
    R,
    F: FnOnce() -> Result<R, RenderPanic>,
>(
    before: Ledger,
    after: Ledger,
    host: BrokerConfig,
    clock: C,
    id: Seq<char>,
    render: F,
    r: Checked<R, F>,
)
    requires
        checked_post(before, after, host, clock, id, render, r),
    ensures
        !before.vms.dom().contains(id) ==> after == before,
        r matches Checked::CannotBegin { render: f } ==> after == before && f == render,
        r matches Checked::CannotCharge { out } ==> {
            &&& after.vms[id].submissions == before.vms[id].submissions
            &&& after.vms[id].gpu_time_used_us == before.vms[id].gpu_time_used_us
            &&& call_ensures(render, (), out)
        },
        before.vms.dom().contains(id) ==> {
            let a = before.vms[id];
            let b = after.vms[id];
            &&& after.vms.dom() =~= before.vms.dom()
            &&& r matches Checked::Attempt(Attempt::Throttled { sleep_us, render: g }) ==> {
                &&& g == render
                &&& 1 <= sleep_us <= 50_000
                &&& b.submissions == a.submissions
                &&& b.throttle_events == a.throttle_events + 1
            }
            &&& r matches Checked::Attempt(Attempt::Finished(got)) ==> {
                &&& b.submissions == a.submissions + 1
                &&& b.throttle_events == a.throttle_events
                &&& got is Ok ==> call_ensures(render, (), Ok::<R, RenderPanic>(got->Ok_0))
            }
        },
{
    if before.vms.dom().contains(id) {
        assert(after.vms.dom() =~= before.vms.dom());
    }
}

/// The estimate of a scanout's memory is the least number of megabytes that holds all of its
/// surfaces of four bytes per pixel, of which there is at least one.
pub proof fn law_estimate_holds_the_surfaces(width: u32, height: u32, factor: u32, mb: u64)
    requires
        call_ensures(scanout_vram_estimate_mb, (width, height, factor), mb),
        width * height * 4 * (if factor == 0 {
            1int
        } else {
            factor as int
        }) <= u64::MAX,
    ensures
        ({
            let bytes = width * height * 4 * (if factor == 0 {
                1int
            } else {
                factor as int
            });
            &&& mb * 1_048_576 >= bytes
            &&& mb > 0 ==> (mb - 1) * 1_048_576 < bytes
        }),
{
    let f: int = if factor == 0 {
        1
    } else {
        factor as int
    };
    let bytes = width * height * 4 * f;
    assert(bytes >= 0) by (nonlinear_arith)
        requires
            bytes == width * height * 4 * f,
            width >= 0,
            height >= 0,
            f >= 1,
    ;
}

/// A policy keeps what it is given, in the default tier, with a weight of at least one; another
/// tier changes the tier alone.
pub proof fn law_policy_keeps_its_numbers(
    vm_id: &str,
    weight: u32,
    vram_cap_mb: u64,
    c: VmConfig,
    p: PriorityTier,
    d: VmConfig,
)
    requires
        call_ensures(VmConfig::new, (vm_id, weight, vram_cap_mb), c),
        call_ensures(VmConfig::with_priority, (c, p), d),
    ensures
        c.vm_id@ == vm_id@,
        weight >= 1 ==> c.weight == weight,
        weight == 0 ==> c.weight == 1,
        c.vram_cap_mb == vram_cap_mb,
        c.priority is Normal,
        d.vm_id@ == c.vm_id@,
        d.weight == c.weight,
        d.vram_cap_mb == c.vram_cap_mb,
        d.priority == p,
{
}

/// What a snapshot shows as used and as free make up the memory that is not held back, and its rows
/// are the VMs that are admitted, each with its own numbers.
pub proof fn law_snapshot_adds_up<C: Clock>(b: &GpuBroker<C>, v: FleetView)
    requires
        b.wf(),
        call_ensures(GpuBroker::<C>::fleet_view, (b,), v),
        b.host().vram_reserve_mb <= b.host().total_vram_mb,
    ensures
        v.vram_used_mb + v.vram_free_mb == b.host().total_vram_mb - b.host().vram_reserve_mb,
        v.total_vram_mb == b.host().total_vram_mb,
        v.admitted_vms == v.vms@.len(),
        v.admitted_vms <= v.max_concurrent_gpu_vms,
        v.max_concurrent_gpu_vms == b.host().max_concurrent_gpu_vms,
        v.enc_sessions_used == b@.enc_sessions_used,
        v.max_enc_sessions == b.host().max_enc_sessions,
        forall|i: int|
            0 <= i < v.vms@.len() ==> b@.vms.dom().contains((#[trigger] v.vms@[i]).vm_id@)
                && v.vms@[i].tokens_us == b@.vms[v.vms@[i].vm_id@].tokens_us
                && v.vms@[i].vram_reserved_mb == b@.vms[v.vms@[i].vm_id@].vram_reserved_mb
                && v.vms@[i].gpu_time_used_us == b@.vms[v.vms@[i].vm_id@].gpu_time_used_us
                && v.vms@[i].vruntime_us == b@.vms[v.vms@[i].vm_id@].vruntime_us
                && v.vms@[i].submissions == b@.vms[v.vms@[i].vm_id@].submissions
                && v.vms@[i].throttle_events == b@.vms[v.vms@[i].vm_id@].throttle_events
                && v.vms@[i].watchdog_trips == b@.vms[v.vms@[i].vm_id@].watchdog_trips
                && v.vms@[i].weight == b@.vms[v.vms@[i].vm_id@].weight
                && v.vms@[i].priority == b@.vms[v.vms@[i].vm_id@].priority,
{
    b.law_limits_hold();
}

/// Ordinary numbers are in range: asking is answered while the refill rate is a 64-bit number and
/// refusals can still be counted, and a render can be charged while the sums and counters can grow.
pub proof fn law_ordinary_numbers_fit(
    a: VmAccount,
    host: BrokerConfig,
    now: Micros,
    gpu_us: Micros,
)
    ensures
        a.weight * 384 * host.refill_us_per_s_per_weight <= u64::MAX && a.throttle_events < u64::MAX
            ==> a.begin_fits(host, now),
        a.weight >= 1 && a.gpu_time_used_us + gpu_us <= u64::MAX && a.vruntime_us + gpu_us
            <= u64::MAX && a.submissions < u64::MAX && a.watchdog_trips < u64::MAX
            ==> a.charge_fits(host, gpu_us),
        a.weight == 0 ==> !a.charge_fits(host, gpu_us),
        a.submissions == u64::MAX ==> !a.charge_fits(host, gpu_us),
        a.gpu_time_used_us + gpu_us > u64::MAX ==> !a.charge_fits(host, gpu_us),
{
    let w = a.weight as int;
    let b = host.refill_us_per_s_per_weight as int;
    assert((w * 256) * b <= (w * 384) * b) by (nonlinear_arith)
        requires
            w >= 0,
            b >= 0,
    ;
    if a.weight >= 1 {
        crate::sched::laws::law_vruntime_step(a, gpu_us);
        let v = a.vruntime_step(gpu_us);
        let e = crate::sched::policy::effective_weight(a.weight, a.priority);
        assert(e >= 256) by (nonlinear_arith)
            requires
                e == w * 256 || e == w * 384,
                w >= 1,
        ;
        assert(v <= gpu_us) by (nonlinear_arith)
            requires
                v * e <= gpu_us * 256,
                e >= 256,
                gpu_us >= 0,
        ;
    }
}

/// A request for memory alone takes no session, one for a stream takes one, and a bare number is a
/// request for memory alone; each asks for the megabytes that it was given.
pub proof fn law_requests(
    vram_mb: u64,
    plain: AdmitRequest,
    stream: AdmitRequest,
    bare: AdmitRequest,
)
    requires
        call_ensures(AdmitRequest::vram, (vram_mb,), plain),
        call_ensures(AdmitRequest::streaming, (vram_mb,), stream),
        bare == <AdmitRequest as vstd::std_specs::convert::FromSpec<u64>>::from_spec(vram_mb),
    ensures
        plain.vram_mb == vram_mb && !plain.needs_encoder,
        stream.vram_mb == vram_mb && stream.needs_encoder,
        bare == plain,
{
}

/// A ticket is reaped once: the first time all that its VM holds is given back, and afterwards
/// nothing happens.
pub proof fn law_ticket_is_reaped_once<C: Clock>(
    t: &mut VmTicket,
    b: &mut GpuBroker<C>,
    u: &mut VmTicket,
    c: &mut GpuBroker<C>,
)
    requires
        old(b).wf(),
        call_ensures(VmTicket::reap::<C>, (t, b), ()),
        *old(u) == *final(t),
        *old(c) == *final(b),
        call_ensures(VmTicket::reap::<C>, (u, c), ()),
    ensures
        !final(t).live(),
        final(t).names() == old(t).names(),
        old(t).live() ==> !final(b)@.vms.dom().contains(old(t).names()),
        old(t).live() && old(b)@.vms.dom().contains(old(t).names()) ==> final(b)@.vram_used_mb
            == old(b)@.vram_used_mb - old(b)@.vms[old(t).names()].vram_reserved_mb,
        !old(t).live() ==> final(b)@ == old(b)@,
        final(c)@ == final(b)@,
{
}

/// A new broker holds nothing, whatever its policy and clock, which it keeps.
pub proof fn law_new_broker_is_empty<C: Clock>(cfg: BrokerConfig, clock: C, b: GpuBroker<C>)
    requires
        call_ensures(GpuBroker::<C>::new, (cfg, clock), b),
    ensures
        b@.vms.dom().len() == 0,
        b@.vram_used_mb == 0,
        b@.enc_sessions_used == 0,
        b.host() == cfg,
        b.timepiece() == clock,
{
}

/// A refusal says its numbers: in order, those that were asked for and those that there are.
pub proof fn law_refusals_say_their_numbers(e: &AdmitError, s: String)
    requires
        call_ensures(AdmitError::message, (e,), s),
    ensures
        e matches AdmitError::AtConcurrencyCap { cap } ==> s@ == "at concurrent-GPU-VM cap ("@
            + decimal(cap as nat) + ")"@,
        e matches AdmitError::InsufficientVram { requested_mb, available_mb } ==> s@
            == "insufficient VRAM: requested "@ + decimal(requested_mb as nat) + " MB, "@ + decimal(
            available_mb as nat,
        ) + " MB free"@,
        e matches AdmitError::ExceedsVmCap { requested_mb: asked, cap_mb } ==> s@ == "requested "@
            + decimal(asked as nat) + " MB exceeds VM cap "@ + decimal(cap_mb as nat) + " MB"@,
        e matches AdmitError::NoEncoderSession { cap: sessions } ==> s@ == "no free NVENC session ("@
            + decimal(sessions as nat) + " in use \u{2014} host encode cap)"@,
        e is AlreadyAdmitted ==> s@ == "VM already admitted"@,
{
}

/// Revising a reservation: it is granted wherever it fits, and is then the VM's reservation; it is
/// refused for want of memory only where more is asked for than is free; a refusal changes nothing,
/// and neither the policy nor the clock ever changes.
pub proof fn law_revision<C: Clock>(
    b: &mut GpuBroker<C>,
    id: &str,
    new_mb: u64,
    r: Result<u64, AdmitError>,
)
    requires
        old(b).wf(),
        call_ensures(GpuBroker::<C>::adjust_vram, (b, id, new_mb), r),
        old(b).host().vram_reserve_mb <= old(b).host().total_vram_mb,
    ensures
        ({
            let l = old(b)@;
            let m = final(b)@;
            let room = old(b).host().total_vram_mb - old(b).host().vram_reserve_mb;
            let fits = l.vms.dom().contains(id@) && new_mb <= l.vms[id@].vram_cap_mb
                && l.vram_used_mb - l.vms[id@].vram_reserved_mb + new_mb <= room;
            &&& r is Ok <==> fits
            &&& fits ==> r == Ok::<u64, AdmitError>(new_mb) && m.vms[id@].vram_reserved_mb == new_mb
                && m.vram_used_mb == l.vram_used_mb - l.vms[id@].vram_reserved_mb + new_mb
            &&& r is Err ==> m == l
            &&& r matches Err(AdmitError::InsufficientVram { requested_mb, available_mb }) ==> {
                &&& requested_mb > available_mb
                &&& requested_mb == new_mb - l.vms[id@].vram_reserved_mb
                &&& available_mb == room - l.vram_used_mb
            }
            &&& final(b).host() == old(b).host()
            &&& final(b).timepiece() == old(b).timepiece()
        }),
{
    old(b).law_limits_hold();
    let l = old(b)@;
    if l.vms.dom().contains(id@) {
        assert(l.vms[id@].wf());
    }
}

/// Admitting a VM: it is admitted exactly where its name is new and every limit allows it, with what
/// it asked for; a refusal changes nothing.
pub proof fn law_admission<C: Clock>(
    b: &mut GpuBroker<C>,
    cfg: VmConfig,
    req: AdmitRequest,
    now: Micros,
    r: Result<VmTicket, AdmitError>,
)
    requires
        old(b).wf(),
        call_ensures(GpuBroker::<C>::admit_at, (b, cfg, req, now), r),
        old(b).host().vram_reserve_mb <= old(b).host().total_vram_mb,
    ensures
        ({
            let l = old(b)@;
            let m = final(b)@;
            let host = old(b).host();
            &&& r is Ok <==> {
                &&& !l.vms.dom().contains(cfg.vm_id@)
                &&& l.vms.dom().len() < host.max_concurrent_gpu_vms
                &&& req.vram_mb <= cfg.vram_cap_mb
                &&& req.needs_encoder && host.max_enc_sessions is Some ==> l.enc_sessions_used
                    < host.max_enc_sessions->0
                &&& l.vram_used_mb + req.vram_mb <= host.total_vram_mb - host.vram_reserve_mb
            }
            &&& r is Err ==> m == l
            &&& r is Ok ==> {
                &&& r->Ok_0.names() == cfg.vm_id@
                &&& m.vms.dom().contains(cfg.vm_id@)
                &&& m.vms[cfg.vm_id@].vram_reserved_mb == req.vram_mb
                &&& m.vms[cfg.vm_id@].weight == cfg.weight
                &&& m.vms[cfg.vm_id@].last_refill_us == now
                &&& m.vram_used_mb == l.vram_used_mb + req.vram_mb
            }
            &&& final(b).host() == host
        }),
{
    old(b).law_limits_hold();
}

/// Asking, recording and releasing, as the laws of their ledgers say.
pub proof fn law_operations<C: Clock>(
    asked: &mut GpuBroker<C>,
    recorded: &mut GpuBroker<C>,
    released: &mut GpuBroker<C>,
    told: &mut GpuBroker<C>,
    id: &str,
    now: Micros,
    gpu_us: Micros,
    r: Result<Begin, NotAdmitted>,
    a: Asked,
)
    requires
        old(asked).wf() && old(recorded).wf() && old(released).wf() && old(told).wf(),
        call_ensures(GpuBroker::<C>::begin_at, (asked, id, now), r),
        call_ensures(GpuBroker::<C>::record, (recorded, id, gpu_us), ()),
        call_ensures(GpuBroker::<C>::release, (released, id), ()),
        call_ensures(GpuBroker::<C>::ask_at, (told, id, now), a),
        old(recorded)@.vms.dom().contains(id@) ==> old(recorded)@.vms[id@].charge_fits(
            old(recorded).host(),
            gpu_us,
        ),
    ensures
        begin_post(old(asked)@, final(asked)@, old(asked).host(), id@, now, r),
        ask_post(old(told)@, final(told)@, old(told).host(), id@, now, a),
        old(recorded)@.vms.dom().contains(id@) ==> {
            let x = old(recorded)@.vms[id@];
            let y = final(recorded)@.vms[id@];
            &&& y.submissions == x.submissions + 1
            &&& y.gpu_time_used_us == x.gpu_time_used_us + gpu_us
            &&& final(recorded)@.vms.dom() =~= old(recorded)@.vms.dom()
        },
        !old(recorded)@.vms.dom().contains(id@) ==> final(recorded)@ == old(recorded)@,
        !final(released)@.vms.dom().contains(id@),
        old(released)@.vms.dom().contains(id@) ==> final(released)@.vram_used_mb == old(
            released,
        )@.vram_used_mb - old(released)@.vms[id@].vram_reserved_mb,
        !old(released)@.vms.dom().contains(id@) ==> final(released)@ == old(released)@,
        final(asked).host() == old(asked).host() && final(recorded).host() == old(recorded).host()
            && final(released).host() == old(released).host(),
{
    law_render_is_charged(old(recorded)@, old(recorded).host(), id@, gpu_us);
}

/// A submission that ran from one reading of the clock to another is charged the time between them,
/// or none where the second is the earlier; a panic becomes the error of this submission.
pub proof fn law_settled_submission<C: Clock, R>(
    b: &mut GpuBroker<C>,
    id: &str,
    t0: Micros,
    t1: Micros,
    out: Result<R, RenderPanic>,
    r: Result<R, RunError>,
)
    requires
        old(b).wf(),
        call_ensures(GpuBroker::<C>::settle::<R>, (b, id, t0, t1, out), r),
        old(b)@.vms.dom().contains(id@),
        old(b)@.vms[id@].gpu_time_used_us + t1 <= u64::MAX,
    ensures
        t0 <= t1 ==> final(b)@.vms[id@].gpu_time_used_us == old(b)@.vms[id@].gpu_time_used_us + (t1
            - t0),
        t0 > t1 ==> final(b)@.vms[id@].gpu_time_used_us == old(b)@.vms[id@].gpu_time_used_us,
        out is Ok ==> r == Ok::<R, RunError>(out->Ok_0),
        out is Err ==> r == Err::<R, RunError>(RunError::Panicked),
{
}

/// One VM's account: a refill, an answer and a charge do what the laws of the account say of them,
/// and the rate is that of the tier.
pub proof fn law_account_operations(
    refilled: &mut VmAccount,
    asked: &mut VmAccount,
    charged: &mut VmAccount,
    a: &VmAccount,
    host: &BrokerConfig,
    now: Micros,
    gpu_us: Micros,
    answer: Begin,
    rate: u64,
)
    requires
        call_ensures(VmAccount::refill, (refilled, now, host), ()),
        call_ensures(VmAccount::begin, (asked, now, host), answer),
        call_ensures(VmAccount::charge, (charged, gpu_us, host), ()),
        call_ensures(VmAccount::rate, (a, host), rate),
        old(charged).charge_fits(*host, gpu_us),
        old(asked).begin_fits(*host, now),
    ensures
        now <= old(refilled).last_refill_us ==> *final(refilled) == *old(refilled),
        now > old(refilled).last_refill_us ==> {
            let want = old(refilled).refilled(*host, now);
            &&& final(refilled).last_refill_us == now
            &&& final(refilled).tokens_us == want.tokens_us
            &&& final(refilled).carry == want.carry
        },
        answer is Ready <==> final(asked).tokens_us > 0,
        answer is Throttled ==> final(asked).throttle_events == old(asked).throttle_events + 1,
        final(asked).tokens_us == old(asked).refilled(*host, now).tokens_us,
        answer matches Begin::Throttled { wait_us } ==> wait_us == old(asked).refilled(
            *host,
            now,
        ).wait(*host),
        old(charged).tokens_us - gpu_us >= i64::MIN ==> final(charged).tokens_us == old(
            charged,
        ).tokens_us - gpu_us,
        final(charged).submissions == old(charged).submissions + 1,
        final(charged).gpu_time_used_us == old(charged).gpu_time_used_us + gpu_us,
        rate == a.refill_rate(*host),
        rate >= host.min_refill_us_per_s,
{
    let x = old(asked).refilled(*host, now);
    assert(x.wait(*host) <= u64::MAX);
}

/// Opening an account fills its bucket and starts its counters at zero.
pub proof fn law_opened_account(
    host: &BrokerConfig,
    weight: u32,
    priority: PriorityTier,
    vram_cap_mb: u64,
    req: AdmitRequest,
    now: Micros,
    a: VmAccount,
)
    requires
        call_ensures(
            VmAccount::open_account,
            (host, weight, priority, vram_cap_mb, req, now),
            a,
        ),
    ensures
        a.weight == weight && a.priority == priority && a.vram_cap_mb == vram_cap_mb,
        a.vram_reserved_mb == req.vram_mb && a.holds_encoder == req.needs_encoder,
        a.last_refill_us == now && a.carry == 0,
        host.bucket_burst_us <= i64::MAX ==> a.tokens_us == host.bucket_burst_us,
        a.gpu_time_used_us == 0 && a.vruntime_us == 0 && a.submissions == 0 && a.throttle_events
            == 0 && a.watchdog_trips == 0,
{
}

/// Asking and admitting by the clock go as at a time that the clock may show.
pub proof fn law_operations_by_the_clock<C: Clock>(
    asked: &mut GpuBroker<C>,
    id: &str,
    r: Result<Begin, NotAdmitted>,
    b: &mut GpuBroker<C>,
    cfg: VmConfig,
    req: AdmitRequest,
    t: Result<VmTicket, AdmitError>,
)
    requires
        old(asked).wf(),
        call_ensures(GpuBroker::<C>::begin, (asked, id), r),
        old(b).wf(),
        call_ensures(GpuBroker::<C>::admit_request, (b, cfg, req), t),
    ensures
        r is Err <==> !old(asked)@.vms.dom().contains(id@),
        r is Ok ==> (r->Ok_0 is Ready <==> final(asked)@.vms[id@].tokens_us > 0),
        t is Ok ==> !old(b)@.vms.dom().contains(cfg.vm_id@) && final(b)@.vms.dom().contains(
            cfg.vm_id@,
        ) && final(b)@.vram_used_mb == old(b)@.vram_used_mb + req.vram_mb,
        t is Err ==> final(b)@ == old(b)@,
        t is Ok ==> t->Ok_0.names() == cfg.vm_id@,
{
}

/// Where a submission's time fits the counters it is settled like any other; where it does not,
/// nothing is charged and what the render gave comes back as it is.
pub proof fn law_checked_settlement<C: Clock, R>(
    b: &mut GpuBroker<C>,
    id: &str,
    t0: Micros,
    t1: Micros,
    out: Result<R, RenderPanic>,
    r: Settled<R>,
)
    requires
        old(b).wf(),
        call_ensures(GpuBroker::<C>::settle_checked::<R>, (b, id, t0, t1, out), r),
    ensures
        r is OutOfRange ==> final(b)@ == old(b)@ && r == Settled::<R>::OutOfRange(out),
        r is Charged && out is Ok ==> r == Settled::<R>::Charged(Ok(out->Ok_0)),
        r is Charged && out is Err ==> r == Settled::<R>::Charged(Err(RunError::Panicked)),
        r is Charged && t0 <= t1 && old(b)@.vms.dom().contains(id@) ==> final(
            b)@.vms[id@].gpu_time_used_us == old(b)@.vms[id@].gpu_time_used_us + (t1 - t0),
        r is Charged && t0 > t1 && old(b)@.vms.dom().contains(id@) ==> final(
            b)@.vms[id@].gpu_time_used_us == old(b)@.vms[id@].gpu_time_used_us,
        !old(b)@.vms.dom().contains(id@) ==> final(b)@ == old(b)@,
{
}

} // verus!
