//! What holds of the broker as a whole.
use crate::arith::{larger, monus, smaller};
use crate::sched::account::{full_bucket, opened, VmAccount, PARTS};
use crate::sched::broker::Ledger;
use crate::sched::policy::{
    boost, effective_weight, AdmitError, AdmitRequest, BrokerConfig, Micros,
};
use vstd::prelude::*;

verus! {

/// Releasing a VM gives back all that its admission took, and leaves no trace.
pub proof fn law_release_undoes_admission(l: Ledger, id: Seq<char>, a: VmAccount)
    requires
        !l.admitted(id),
    ensures
        l.with_vm(id, a).without_vm(id) == l,
{
    assert(l.with_vm(id, a).without_vm(id) =~= l);
}

/// Something that was done for a VM.
pub enum VmEvent {
    /// It was admitted, with this account.
    Admitted(VmAccount),
    /// It asked to render at this time.
    Began(Micros),
    /// A render of this long was charged to it.
    Rendered(Micros),
    /// Its reservation was revised.
    Adjusted(u64),
    /// It was released.
    Released,
}

/// The ledger after something was done for a VM. Nothing but an admission is done for a VM that
/// is not admitted, and an admission only for such a one.
pub open spec fn after_event(l: Ledger, host: BrokerConfig, id: Seq<char>, e: VmEvent) -> Ledger {
    match e {
        VmEvent::Admitted(a) => if l.admitted(id) {
            l
        } else {
            l.with_vm(id, a)
        },
        VmEvent::Began(now) => if l.admitted(id) {
            l.with_account(id, l.vms[id].begun(host, now))
        } else {
            l
        },
        VmEvent::Rendered(gpu_us) => l.recorded(host, id, gpu_us),
        VmEvent::Adjusted(mb) => if l.admitted(id) {
            l.adjusted(id, mb)
        } else {
            l
        },
        VmEvent::Released => l.without_vm(id),
    }
}

/// The ledger after some events.
pub open spec fn after_events(
    l: Ledger,
    host: BrokerConfig,
    events: Seq<(Seq<char>, VmEvent)>,
) -> Ledger
    decreases events.len(),
{
    if events.len() == 0 {
        l
    } else {
        after_event(
            after_events(l, host, events.drop_last()),
            host,
            events.last().0,
            events.last().1,
        )
    }
}

/// The events of the other VMs.
pub open spec fn of_others(
    events: Seq<(Seq<char>, VmEvent)>,
    id: Seq<char>,
) -> Seq<(Seq<char>, VmEvent)>
    decreases events.len(),
{
    if events.len() == 0 {
        Seq::empty()
    } else if events.last().0 == id {
        of_others(events.drop_last(), id)
    } else {
        of_others(events.drop_last(), id).push(events.last())
    }
}

/// Whatever happens between the admission of a VM and its release (its renders, throttled
/// requests and revised reservations, and all that is done for other VMs in between), the
/// release leaves the ledger as if the VM had never been there.
pub proof fn law_release_frees_what_is_held(
    l: Ledger,
    host: BrokerConfig,
    id: Seq<char>,
    a: VmAccount,
    events: Seq<(Seq<char>, VmEvent)>,
)
    requires
        !l.admitted(id),
        forall|i: int|
            0 <= i < events.len() && (#[trigger] events[i]).0 == id ==> !(events[i].1 is Admitted)
                && !(events[i].1 is Released),
    ensures
        after_events(l.with_vm(id, a), host, events).without_vm(id) == after_events(
            l,
            host,
            of_others(events, id),
        ),
        after_events(l.with_vm(id, a), host, events).admitted(id),
        !after_events(l, host, of_others(events, id)).admitted(id),
    decreases events.len(),
{
    if events.len() == 0 {
        law_release_undoes_admission(l, id, a);
    } else {
        let before = events.drop_last();
        assert forall|i: int| 0 <= i < before.len() && (#[trigger] before[i]).0 == id implies !(
        before[i].1 is Admitted) && !(before[i].1 is Released) by {
            assert(before[i] == events[i]);
        }
        law_release_frees_what_is_held(l, host, id, a, before);
        let m = after_events(l.with_vm(id, a), host, before);
        let n = after_events(l, host, of_others(before, id));
        let (vm, e) = events.last();
        assert(events[events.len() - 1] == events.last());
        if vm == id {
            assert(after_event(m, host, vm, e).without_vm(id) =~= n);
        } else {
            let others = of_others(before, id);
            assert(of_others(events, id).drop_last() =~= others);
            assert(after_event(m, host, vm, e).without_vm(id) =~= after_event(n, host, vm, e));
        }
    }
}

/// Reaping twice is reaping once.
pub proof fn law_release_once(l: Ledger, id: Seq<char>)
    ensures
        l.without_vm(id).without_vm(id) == l.without_vm(id),
{
}

/// What is done for one VM (a render charged, a panicking one too, a refill, a revised
/// reservation, a release) leaves every other VM's account as it was.
pub proof fn law_others_are_untouched(
    l: Ledger,
    host: BrokerConfig,
    id: Seq<char>,
    other: Seq<char>,
    a: VmAccount,
    gpu_us: Micros,
    mb: u64,
)
    requires
        id != other,
    ensures
        forall|m: Ledger|
            (m == l.with_vm(id, a) || m == l.with_account(id, a) || m == l.recorded(
                host,
                id,
                gpu_us,
            ) || m == l.adjusted(id, mb) || m == l.without_vm(id)) ==> {
                &&& (#[trigger] m.admitted(other)) == l.admitted(other)
                &&& l.admitted(other) ==> m.vms[other] == l.vms[other]
            },
{
}

/// Admission fails closed: what is granted is within the free VRAM, within the VM's own cap,
/// under the cap on VMs and, where a session is needed, under the cap on sessions.
pub proof fn law_granted_within_limits(
    l: Ledger,
    host: BrokerConfig,
    id: Seq<char>,
    cap_mb: u64,
    req: AdmitRequest,
)
    requires
        l.vram_used_mb <= host.budget(),
        l.refusal(host, id, cap_mb, req) is None,
    ensures
        l.vram_used_mb + req.vram_mb <= host.budget(),
        req.vram_mb <= cap_mb,
        l.vms.dom().len() < host.max_concurrent_gpu_vms,
        req.needs_encoder && host.max_enc_sessions is Some ==> l.enc_sessions_used
            < host.max_enc_sessions->0,
{
}

/// Nothing is refused for want of an encode session where sessions are unlimited, or to a VM
/// that needs none; and a VM that needs none takes none.
pub proof fn law_encoder_denials(
    l: Ledger,
    host: BrokerConfig,
    id: Seq<char>,
    cap_mb: u64,
    req: AdmitRequest,
    a: VmAccount,
)
    ensures
        host.max_enc_sessions is None || !req.needs_encoder ==> !(l.refusal(host, id, cap_mb, req)
            matches Some(AdmitError::NoEncoderSession { .. })),
        !a.holds_encoder ==> l.with_vm(id, a).enc_sessions_used == l.enc_sessions_used,
{
}

/// A revised reservation keeps to the limits: it is within the VM's own cap, and the whole within
/// the budget.
pub proof fn law_adjusted_within_limits(l: Ledger, host: BrokerConfig, id: Seq<char>, new_mb: u64)
    requires
        l.vram_used_mb <= host.budget(),
        l.admitted(id),
        l.vms[id].wf(),
        l.adjust_refusal(host, id, new_mb) is None,
    ensures
        new_mb <= l.vms[id].vram_cap_mb,
        l.adjusted(id, new_mb).vms[id].wf(),
        l.adjusted(id, new_mb).vram_used_mb <= host.budget(),
{
}

/// A reservation may always shrink, and revising it back restores the ledger.
pub proof fn law_shrink_always_granted(l: Ledger, host: BrokerConfig, id: Seq<char>, new_mb: u64)
    requires
        l.admitted(id),
        new_mb <= l.vms[id].vram_reserved_mb,
    ensures
        l.adjust_refusal(host, id, new_mb) is None,
        l.adjusted(id, new_mb).adjusted(id, l.vms[id].vram_reserved_mb) == l,
{
    let back = l.adjusted(id, new_mb).adjusted(id, l.vms[id].vram_reserved_mb);
    assert(back.vms[id] == l.vms[id]);
    assert(back =~= l);
}

/// The account after refills at some times.
pub open spec fn refilled_at(a: VmAccount, host: BrokerConfig, times: Seq<Micros>) -> VmAccount
    decreases times.len(),
{
    if times.len() == 0 {
        a
    } else {
        refilled_at(a, host, times.drop_last()).refilled(host, times.last())
    }
}

/// What refills at some times grant together.
pub open spec fn granted_at(a: VmAccount, host: BrokerConfig, times: Seq<Micros>) -> int
    decreases times.len(),
{
    if times.len() == 0 {
        0
    } else {
        granted_at(a, host, times.drop_last()) + refilled_at(a, host, times.drop_last()).grant(
            host,
            times.last(),
        )
    }
}

/// How a single refill settles its accounts.
proof fn lemma_refill(a: VmAccount, host: BrokerConfig, now: Micros)
    requires
        a.wf(),
    ensures
        ({
            let b = a.refilled(host, now);
            let g = a.grant(host, now);
            &&& b.wf()
            &&& b.refill_rate(host) == a.refill_rate(host) >= 0
            &&& b.last_refill_us == larger(a.last_refill_us as int, now as int)
            &&& g >= 0
            &&& g * PARTS + b.carry == a.refill_rate(host) * (b.last_refill_us - a.last_refill_us)
                + a.carry
            &&& now <= a.last_refill_us ==> g == 0
            &&& a.tokens_us <= full_bucket(host) ==> b.tokens_us == smaller(
                a.tokens_us + g,
                full_bucket(host),
            )
        }),
{
    let dt = monus(now as int, a.last_refill_us as int);
    let r = a.refill_rate(host);
    assert(effective_weight(a.weight, a.priority) * host.refill_us_per_s_per_weight >= 0)
        by (nonlinear_arith)
        requires
            effective_weight(a.weight, a.priority) >= 0,
            host.refill_us_per_s_per_weight >= 0,
    ;
    assert(r * dt >= 0 && r * 0 == 0) by (nonlinear_arith)
        requires
            r >= 0,
            dt >= 0,
    ;
    let e = a.earned(host, now);
    assert(e == (e / 1_000_000) * 1_000_000 + e % 1_000_000);
}

/// How refills at some times settle their accounts.
proof fn lemma_refills(a: VmAccount, host: BrokerConfig, times: Seq<Micros>)
    requires
        a.wf(),
    ensures
        ({
            let b = refilled_at(a, host, times);
            let g = granted_at(a, host, times);
            &&& b.wf()
            &&& b.refill_rate(host) == a.refill_rate(host) >= 0
            &&& b.last_refill_us >= a.last_refill_us
            &&& forall|i: int| 0 <= i < times.len() ==> #[trigger] times[i] <= b.last_refill_us
            &&& g >= 0
            &&& g * PARTS + b.carry == a.refill_rate(host) * (b.last_refill_us - a.last_refill_us)
                + a.carry
            &&& a.tokens_us <= full_bucket(host) ==> b.tokens_us == smaller(
                a.tokens_us + g,
                full_bucket(host),
            )
        }),
    decreases times.len(),
{
    let r = a.refill_rate(host);
    if times.len() == 0 {
        lemma_refill(a, host, a.last_refill_us);
        assert(r * 0 == 0) by (nonlinear_arith);
    } else {
        let before = times.drop_last();
        lemma_refills(a, host, before);
        let m = refilled_at(a, host, before);
        lemma_refill(m, host, times.last());
        let b = refilled_at(a, host, times);
        let t0 = a.last_refill_us as int;
        let t1 = m.last_refill_us as int;
        let t2 = b.last_refill_us as int;
        assert(r * (t1 - t0) + r * (t2 - t1) == r * (t2 - t0)) by (nonlinear_arith);
        assert forall|i: int| 0 <= i < times.len() implies #[trigger] times[i]
            <= b.last_refill_us by {
            if i < before.len() {
                assert(before[i] == times[i]);
            }
        }
    }
}

/// It makes no difference how often a bucket is refilled: nothing is lost to rounding between.
pub proof fn law_refills_compose(a: VmAccount, host: BrokerConfig, mid: Micros, now: Micros)
    requires
        a.wf(),
        a.tokens_us <= full_bucket(host),
        mid <= now,
    ensures
        a.refilled(host, mid).refilled(host, now) == a.refilled(host, now),
{
    let m = a.refilled(host, mid);
    lemma_refill(a, host, mid);
    lemma_refill(a, host, now);
    lemma_refill(m, host, now);
    if a.last_refill_us < mid < now {
        let r = a.refill_rate(host);
        let t0 = a.last_refill_us as int;
        assert(r * (mid - t0) + r * (now - mid) == r * (now - t0)) by (nonlinear_arith);
        let e1 = a.earned(host, mid);
        let e2 = m.earned(host, now);
        let e = a.earned(host, now);
        assert(e2 + (e1 / 1_000_000) * 1_000_000 == e);
        assert(e1 / 1_000_000 + e2 / 1_000_000 == e / 1_000_000);
        assert(e2 % 1_000_000 == e % 1_000_000);
        assert(m.refilled(host, now) == a.refilled(host, now));
    }
}

/// The anti-starvation floor: however light a VM is and however often its bucket is refilled, it
/// is granted the floor's share of the time, until the bucket is full.
pub proof fn law_floor(a: VmAccount, host: BrokerConfig, times: Seq<Micros>)
    requires
        a.wf(),
        a.tokens_us <= full_bucket(host),
    ensures
        ({
            let b = refilled_at(a, host, times);
            let dt = b.last_refill_us - a.last_refill_us;
            &&& dt >= 0
            &&& forall|i: int| 0 <= i < times.len() ==> #[trigger] times[i] <= b.last_refill_us
            &&& granted_at(a, host, times) >= host.min_refill_us_per_s * dt / 1_000_000
            &&& b.tokens_us >= smaller(
                a.tokens_us + host.min_refill_us_per_s * dt / 1_000_000,
                full_bucket(host),
            )
        }),
{
    lemma_refills(a, host, times);
    let b = refilled_at(a, host, times);
    let dt = b.last_refill_us - a.last_refill_us;
    let r = a.refill_rate(host);
    assert(r * dt >= host.min_refill_us_per_s * dt) by (nonlinear_arith)
        requires
            r >= host.min_refill_us_per_s,
            dt >= 0,
    ;
    let g = granted_at(a, host, times);
    assert(g * 1_000_000 + 999_999 >= host.min_refill_us_per_s * dt);
}

/// Without the floor and the boost the refill rate is the weight times the base rate.
pub proof fn law_rate_is_weight_times_base(a: VmAccount, host: BrokerConfig)
    requires
        host.min_refill_us_per_s == 0,
        !(a.priority is Interactive),
    ensures
        a.refill_rate(host) == a.weight * host.refill_us_per_s_per_weight,
{
    let w = a.weight as int;
    let b = host.refill_us_per_s_per_weight as int;
    assert((w * 256) * b == (w * b) * 256) by (nonlinear_arith);
    assert(w * b >= 0) by (nonlinear_arith)
        requires
            w >= 0,
            b >= 0,
    ;
}

/// Shares follow weights: with the floor off, a VM of the same tier and `k` times the weight
/// is granted, over the same wall time and whenever either is refilled, `k` times as much GPU
/// time, up to the rounding of one microsecond per unit of `k`.
pub proof fn law_share_scales_with_weight(
    light: VmAccount,
    heavy: VmAccount,
    host: BrokerConfig,
    k: int,
    light_times: Seq<Micros>,
    heavy_times: Seq<Micros>,
)
    requires
        light.wf(),
        heavy.wf(),
        host.min_refill_us_per_s == 0,
        !(light.priority is Interactive),
        !(heavy.priority is Interactive),
        k >= 1,
        heavy.weight == k * light.weight,
        heavy.last_refill_us == light.last_refill_us,
        refilled_at(heavy, host, heavy_times).last_refill_us == refilled_at(
            light,
            host,
            light_times,
        ).last_refill_us,
    ensures
        heavy.refill_rate(host) == k * light.refill_rate(host),
        k * granted_at(light, host, light_times) - k <= granted_at(heavy, host, heavy_times) <= k
            * granted_at(light, host, light_times) + k,
{
    law_rate_is_weight_times_base(light, host);
    law_rate_is_weight_times_base(heavy, host);
    let w = light.weight as int;
    let b = host.refill_us_per_s_per_weight as int;
    assert((k * w) * b == k * (w * b)) by (nonlinear_arith);
    lemma_refills(light, host, light_times);
    lemma_refills(heavy, host, heavy_times);
    let l = refilled_at(light, host, light_times);
    let h = refilled_at(heavy, host, heavy_times);
    let dt = l.last_refill_us - light.last_refill_us;
    let gl = granted_at(light, host, light_times);
    let gh = granted_at(heavy, host, heavy_times);
    let rl = light.refill_rate(host);
    let x = rl * dt;
    assert((k * rl) * dt == k * x) by (nonlinear_arith)
        requires
            x == rl * dt,
    ;
    let cl = light.carry - l.carry;
    let ch = heavy.carry - h.carry;
    assert(gl * 1_000_000 == x + cl);
    assert(gh * 1_000_000 == k * x + ch);
    assert(k * gl * 1_000_000 == k * x + k * cl) by (nonlinear_arith)
        requires
            gl * 1_000_000 == x + cl,
    ;
    assert(-k * 999_999 <= k * cl <= k * 999_999) by (nonlinear_arith)
        requires
            -999_999 <= cl <= 999_999,
            k >= 1,
    ;
}

/// The interactive tier refills half as fast again as another tier of the same weight, up to
/// the rounding of half a microsecond per second.
pub proof fn law_interactive_boost(fast: VmAccount, plain: VmAccount, host: BrokerConfig)
    requires
        host.min_refill_us_per_s == 0,
        fast.priority is Interactive,
        !(plain.priority is Interactive),
        fast.weight == plain.weight,
    ensures
        3 * plain.refill_rate(host) - 1 <= 2 * fast.refill_rate(host) <= 3 * plain.refill_rate(
            host,
        ),
{
    law_rate_is_weight_times_base(plain, host);
    let w = fast.weight as int;
    let b = host.refill_us_per_s_per_weight as int;
    assert((w * 384) * b == (w * b) * 384) by (nonlinear_arith);
    assert(w * b >= 0) by (nonlinear_arith)
        requires
            w >= 0,
            b >= 0,
    ;
}

/// The virtual runtime grows by the GPU time over the effective weight, rounded down.
pub proof fn law_vruntime_step(a: VmAccount, gpu_us: Micros)
    requires
        a.weight != 0,
    ensures
        a.vruntime_step(gpu_us) * effective_weight(a.weight, a.priority) <= gpu_us * 256,
        gpu_us * 256 < (a.vruntime_step(gpu_us) + 1) * effective_weight(a.weight, a.priority),
{
    let e = effective_weight(a.weight, a.priority);
    assert(e >= 256) by (nonlinear_arith)
        requires
            e == a.weight * boost(a.priority),
            a.weight >= 1,
            boost(a.priority) >= 256,
    ;
    let n = gpu_us * 256;
    let q = n / e;
    assert(q * e <= n < (q + 1) * e && 0 <= q <= gpu_us) by (nonlinear_arith)
        requires
            q == n / e,
            n == gpu_us * 256,
            gpu_us >= 0,
            e >= 256,
    ;
}

/// The bucket never holds more than the burst: not when it is opened, not after a refill, and
/// not after a render.
pub proof fn law_bucket_within_burst(
    a: VmAccount,
    host: BrokerConfig,
    req: AdmitRequest,
    now: Micros,
    gpu_us: Micros,
)
    requires
        a.tokens_us <= full_bucket(host),
    ensures
        opened(host, a.weight, a.priority, a.vram_cap_mb, req, now).tokens_us == full_bucket(host)
            <= host.bucket_burst_us,
        a.refilled(host, now).tokens_us <= full_bucket(host),
        a.begun(host, now).tokens_us <= full_bucket(host),
        a.charged(host, gpu_us).tokens_us <= full_bucket(host),
{
    lemma_grant_nonneg(a, host, now);
}

/// Asking again at the same time changes the bucket no further.
pub proof fn law_refill_settles(a: VmAccount, host: BrokerConfig, now: Micros)
    ensures
        a.refilled(host, now).refilled(host, now) == a.refilled(host, now),
{
}

/// A throttled VM that waits as long as it was told, and renders nothing meanwhile, is ready.
pub proof fn law_waiting_suffices(a: VmAccount, host: BrokerConfig, now: Micros, later: Micros)
    requires
        a.begin_fits(host, now),
        a.begin_answer(host, now) is Throttled,
        1 <= a.refill_rate(host) <= 999_000_001,
        host.bucket_burst_us >= 1,
        (1000 - a.refilled(host, now).tokens_us) * 1_000_000 / a.refill_rate(host) <= u64::MAX,
        later >= a.begun(host, now).last_refill_us + a.begin_answer(host, now)->wait_us,
    ensures
        a.begun(host, now).refill_fits(host, later),
        a.begun(host, now).begin_answer(host, later) is Ready,
{
    let b = a.begun(host, now);
    let t = a.refilled(host, now).tokens_us as int;
    let r = a.refill_rate(host);
    assert(b.refill_rate(host) == r);
    let d = 1000 - t;
    assert(larger(d, 1) == d);
    let n = d * 1_000_000;
    let q = n / r;
    assert(q * r <= n < (q + 1) * r && 0 <= q <= n) by (nonlinear_arith)
        requires
            q == n / r,
            n >= 0,
            r >= 1,
    ;
    let w = a.begin_answer(host, now)->wait_us as int;
    assert(w >= q && w >= 1);
    let dt = monus(later as int, b.last_refill_us as int);
    assert(dt >= w);
    assert(r * dt >= r * q) by (nonlinear_arith)
        requires
            dt >= q,
            r >= 1,
    ;
    assert(r * q > n - r) by (nonlinear_arith)
        requires
            n < (q + 1) * r,
    ;
    let g = b.grant(host, later);
    assert(g >= (n - r + 1) / 1_000_000);
    assert(t + g >= 1);
}

/// A render of a VM: asked for and granted at `at`, and then charged.
pub struct Spend {
    pub at: Micros,
    pub gpu_us: Micros,
}

/// The account after a run of renders.
pub open spec fn spent_down(a: VmAccount, host: BrokerConfig, run: Seq<Spend>) -> VmAccount
    decreases run.len(),
{
    if run.len() == 0 {
        a
    } else {
        spent_down(a, host, run.drop_last()).begun(host, run.last().at).charged(
            host,
            run.last().gpu_us,
        )
    }
}

/// The GPU time of a run of renders.
pub open spec fn gpu_time(run: Seq<Spend>) -> int
    decreases run.len(),
{
    if run.len() == 0 {
        0
    } else {
        gpu_time(run.drop_last()) + run.last().gpu_us
    }
}

/// What the bucket was granted during a run of renders.
pub open spec fn granted(a: VmAccount, host: BrokerConfig, run: Seq<Spend>) -> int
    decreases run.len(),
{
    if run.len() == 0 {
        0
    } else {
        granted(a, host, run.drop_last()) + spent_down(a, host, run.drop_last()).grant(
            host,
            run.last().at,
        )
    }
}

/// A run that the broker let happen: time does not go back, every render was ready when it was
/// asked for, no debit was cut off at the lowest number, and the numbers stay within the
/// machine's.
pub open spec fn lawful(a: VmAccount, host: BrokerConfig, run: Seq<Spend>) -> bool
    decreases run.len(),
{
    run.len() > 0 ==> {
        let b = spent_down(a, host, run.drop_last());
        let e = run.last();
        &&& lawful(a, host, run.drop_last())
        &&& b.last_refill_us <= e.at
        &&& b.begin_fits(host, e.at)
        &&& b.begin_answer(host, e.at) is Ready
        &&& b.begun(host, e.at).charge_fits(host, e.gpu_us)
        &&& b.begun(host, e.at).tokens_us - e.gpu_us >= i64::MIN
    }
}

/// A run during which no grant was cut off at the burst.
pub open spec fn uncut(a: VmAccount, host: BrokerConfig, run: Seq<Spend>) -> bool
    decreases run.len(),
{
    run.len() > 0 ==> {
        let b = spent_down(a, host, run.drop_last());
        &&& uncut(a, host, run.drop_last())
        &&& b.tokens_us + b.grant(host, run.last().at) <= full_bucket(host)
    }
}

/// Budget is conserved: what a run spent and what is left in the bucket make at most what was
/// in it and what was granted, and exactly that where no grant was cut off at the burst.
pub proof fn law_budget_is_conserved(a: VmAccount, host: BrokerConfig, run: Seq<Spend>)
    requires
        a.wf(),
        lawful(a, host, run),
    ensures
        spent_down(a, host, run).wf(),
        spent_down(a, host, run).tokens_us + gpu_time(run) <= a.tokens_us + granted(a, host, run),
        uncut(a, host, run) ==> spent_down(a, host, run).tokens_us + gpu_time(run) == a.tokens_us
            + granted(a, host, run),
    decreases run.len(),
{
    if run.len() > 0 {
        law_budget_is_conserved(a, host, run.drop_last());
        let b = spent_down(a, host, run.drop_last());
        lemma_refill(b, host, run.last().at);
    }
}

proof fn lemma_grant_nonneg(a: VmAccount, host: BrokerConfig, now: Micros)
    ensures
        a.grant(host, now) >= 0,
{
    let dt = monus(now as int, a.last_refill_us as int);
    let r = a.refill_rate(host);
    assert(r * dt >= 0) by (nonlinear_arith)
        requires
            r >= 0,
            dt >= 0,
    ;
}

/// During a run the grants together are the rate times the wall time, up to what rounding left
/// before and after.
pub proof fn law_grants_follow_rate(a: VmAccount, host: BrokerConfig, run: Seq<Spend>)
    requires
        a.wf(),
        lawful(a, host, run),
    ensures
        ({
            let b = spent_down(a, host, run);
            &&& b.wf()
            &&& b.refill_rate(host) == a.refill_rate(host)
            &&& a.last_refill_us <= b.last_refill_us
            &&& run.len() > 0 ==> b.last_refill_us == run.last().at
            &&& granted(a, host, run) * 1_000_000 + b.carry == a.refill_rate(host) * (
            b.last_refill_us - a.last_refill_us) + a.carry
        }),
    decreases run.len(),
{
    let r = a.refill_rate(host);
    if run.len() == 0 {
        assert(r * 0 == 0) by (nonlinear_arith);
    } else {
        law_grants_follow_rate(a, host, run.drop_last());
        let b = spent_down(a, host, run.drop_last());
        lemma_refill(b, host, run.last().at);
        let t0 = a.last_refill_us as int;
        let t1 = b.last_refill_us as int;
        let t2 = run.last().at as int;
        assert(r * (t1 - t0) + r * (t2 - t1) == r * (t2 - t0)) by (nonlinear_arith);
    }
}

/// A hog is held to its share: up to its last render a VM spent less than it had in the bucket
/// plus what its rate gives over the wall time, with what rounding left before.
pub proof fn law_spending_is_bounded(a: VmAccount, host: BrokerConfig, run: Seq<Spend>)
    requires
        a.wf(),
        run.len() > 0,
        lawful(a, host, run),
    ensures
        gpu_time(run.drop_last()) < a.tokens_us + (a.refill_rate(host) * (run.last().at
            - a.last_refill_us) + a.carry) / 1_000_000,
{
    law_grants_follow_rate(a, host, run);
    let b = spent_down(a, host, run.drop_last());
    law_budget_is_conserved(a, host, run.drop_last());
    lemma_refill(b, host, run.last().at);
    assert(b.begun(host, run.last().at).tokens_us > 0);
    let g = granted(a, host, run);
    let x = a.refill_rate(host) * (run.last().at - a.last_refill_us) + a.carry;
    assert(g * 1_000_000 <= x ==> g <= x / 1_000_000);
}

} // verus!
