//! One VM's account: its token bucket, its reservation and its counters.
use crate::arith::{larger, low_u64, max_u64, monus, smaller, wrap_u64};
use crate::sched::policy::{
    effective_weight, AdmitRequest, BrokerConfig, Micros, PriorityTier,
};
use vstd::prelude::*;

verus! {

/// What the broker holds of one admitted VM, apart from its name.
#[derive(Debug, Clone, Copy)]
pub struct VmAccount {
    pub weight: u32,
    pub priority: PriorityTier,
    pub vram_cap_mb: u64,
    /// GPU time left in the bucket; negative after a render that took more than was left.
    pub tokens_us: i64,
    pub last_refill_us: Micros,
    /// What rounding left of the grants so far, in millionths of a microsecond.
    pub carry: u64,
    pub holds_encoder: bool,
    pub vram_reserved_mb: u64,
    pub gpu_time_used_us: Micros,
    /// GPU time over effective weight.
    pub vruntime_us: Micros,
    pub submissions: u64,
    pub throttle_events: u64,
    pub watchdog_trips: u64,
}

/// Whether a VM may render now.
#[derive(Debug, Clone, Copy, PartialEq, Eq, Structural)]
pub enum Begin {
    /// The bucket has budget.
    Ready,
    /// The bucket is empty: try again after this much wall time.
    Throttled { wait_us: Micros },
}

/// Millionths of a microsecond in one.
pub const PARTS: u64 = 1_000_000;

/// What a full bucket holds: the burst, or the largest signed number where that is less.
pub open spec fn full_bucket(host: BrokerConfig) -> int {
    smaller(host.bucket_burst_us as int, i64::MAX as int)
}

fn full_bucket_us(host: &BrokerConfig) -> (t: i64)
    ensures
        t == full_bucket(*host),
{
    if host.bucket_burst_us <= i64::MAX as u64 {
        host.bucket_burst_us as i64
    } else {
        i64::MAX
    }
}

/// A fresh account: a full bucket and no history.
pub open spec fn opened(
    host: BrokerConfig,
    weight: u32,
    priority: PriorityTier,
    vram_cap_mb: u64,
    req: AdmitRequest,
    now: Micros,
) -> VmAccount {
    VmAccount {
        weight,
        priority,
        vram_cap_mb,
        tokens_us: full_bucket(host) as i64,
        last_refill_us: now,
        carry: 0,
        holds_encoder: req.needs_encoder,
        vram_reserved_mb: req.vram_mb,
        gpu_time_used_us: 0,
        vruntime_us: 0,
        submissions: 0,
        throttle_events: 0,
        watchdog_trips: 0,
    }
}

impl VmAccount {
    /// No whole microsecond is left over, and the reservation is within the VM's own cap.
    pub open spec fn wf(self) -> bool {
        self.carry < PARTS && self.vram_reserved_mb <= self.vram_cap_mb
    }

    /// GPU microseconds that the bucket gains per wall second: proportional to the effective
    /// weight, and never under the anti-starvation floor.
    pub open spec fn refill_rate(self, host: BrokerConfig) -> int {
        larger(
            effective_weight(self.weight, self.priority) * host.refill_us_per_s_per_weight / 256,
            host.min_refill_us_per_s as int,
        )
    }

    /// What the VM has earned at `now` and not been granted yet, in millionths of a microsecond:
    /// the wall time since the last refill at its rate, and what rounding left before.
    pub open spec fn earned(self, host: BrokerConfig, now: Micros) -> int {
        self.refill_rate(host) * monus(now as int, self.last_refill_us as int) + self.carry
    }

    /// What the bucket is granted at `now`: the whole microseconds earned.
    pub open spec fn grant(self, host: BrokerConfig, now: Micros) -> int {
        self.earned(host, now) / (PARTS as int)
    }

    /// Whether the refill rate is a 64-bit number.
    pub open spec fn rate_fits(self, host: BrokerConfig) -> bool {
        effective_weight(self.weight, self.priority) * host.refill_us_per_s_per_weight <= u64::MAX
    }

    /// Whether a refill at `now` stays within the machine's numbers.
    pub open spec fn refill_fits(self, host: BrokerConfig, now: Micros) -> bool {
        now > self.last_refill_us ==> self.rate_fits(host)
    }

    /// The account after a refill at `now`: the grant is added and the bucket held at the
    /// burst size, and what rounding left is kept for the next time. At a time not after the
    /// last refill nothing changes.
    pub open spec fn refilled(self, host: BrokerConfig, now: Micros) -> VmAccount {
        if now <= self.last_refill_us {
            self
        } else {
            VmAccount {
                last_refill_us: now,
                tokens_us: smaller(
                    self.tokens_us + self.grant(host, now),
                    full_bucket(host),
                ) as i64,
                carry: (self.earned(host, now) % (PARTS as int)) as u64,
                ..self
            }
        }
    }

    /// Wall time until an empty bucket is back at one millisecond of budget, or the largest
    /// number where that is less.
    pub open spec fn wait(self, host: BrokerConfig) -> int {
        larger(
            smaller(
                larger(1000 - self.tokens_us, 1) * 1_000_000 / larger(self.refill_rate(host), 1),
                u64::MAX as int,
            ),
            1,
        )
    }

    /// Whether asking to render at `now` stays within the machine's numbers.
    pub open spec fn begin_fits(self, host: BrokerConfig, now: Micros) -> bool {
        &&& self.refill_fits(host, now)
        &&& self.refilled(host, now).tokens_us <= 0 ==> {
            &&& self.rate_fits(host)
            &&& self.throttle_events < u64::MAX
        }
    }

    /// The answer to a VM that asks to render at `now`.
    pub open spec fn begin_answer(self, host: BrokerConfig, now: Micros) -> Begin {
        let a = self.refilled(host, now);
        if a.tokens_us > 0 {
            Begin::Ready
        } else {
            Begin::Throttled { wait_us: a.wait(host) as u64 }
        }
    }

    /// The account after a VM asked to render at `now`: refilled, and a refusal counted.
    pub open spec fn begun(self, host: BrokerConfig, now: Micros) -> VmAccount {
        let a = self.refilled(host, now);
        if a.tokens_us > 0 {
            a
        } else {
            VmAccount { throttle_events: (a.throttle_events + 1) as u64, ..a }
        }
    }

    /// What a render of `gpu_us` adds to the virtual runtime.
    pub open spec fn vruntime_step(self, gpu_us: Micros) -> int {
        wrap_u64(gpu_us * 256 / effective_weight(self.weight, self.priority))
    }

    /// Whether charging `gpu_us` stays within the machine's numbers.
    pub open spec fn charge_fits(self, host: BrokerConfig, gpu_us: Micros) -> bool {
        &&& self.weight != 0
        &&& self.gpu_time_used_us + gpu_us <= u64::MAX
        &&& self.vruntime_us + self.vruntime_step(gpu_us) <= u64::MAX
        &&& self.submissions < u64::MAX
        &&& gpu_us > host.watchdog_us ==> self.watchdog_trips < u64::MAX
    }

    /// The account after a render that took `gpu_us`: the bucket is debited, down to the lowest
    /// number that it can hold.
    pub open spec fn charged(self, host: BrokerConfig, gpu_us: Micros) -> VmAccount {
        VmAccount {
            tokens_us: larger(self.tokens_us - gpu_us, i64::MIN as int) as i64,
            gpu_time_used_us: (self.gpu_time_used_us + gpu_us) as u64,
            vruntime_us: (self.vruntime_us + self.vruntime_step(gpu_us)) as u64,
            submissions: (self.submissions + 1) as u64,
            watchdog_trips: if gpu_us > host.watchdog_us {
                (self.watchdog_trips + 1) as u64
            } else {
                self.watchdog_trips
            },
            ..self
        }
    }

    /// Opens an account for an admitted VM.
    pub fn open_account(
        host: &BrokerConfig,
        weight: u32,
        priority: PriorityTier,
        vram_cap_mb: u64,
        req: AdmitRequest,
        now: Micros,
    ) -> (a: VmAccount)
        ensures
            a == opened(*host, weight, priority, vram_cap_mb, req, now),
            req.vram_mb <= vram_cap_mb ==> a.wf(),
    {
        VmAccount {
            weight,
            priority,
            vram_cap_mb,
            tokens_us: full_bucket_us(host),
            last_refill_us: now,
            carry: 0,
            holds_encoder: req.needs_encoder,
            vram_reserved_mb: req.vram_mb,
            gpu_time_used_us: 0,
            vruntime_us: 0,
            submissions: 0,
            throttle_events: 0,
            watchdog_trips: 0,
        }
    }

    fn effective_weight_num(&self) -> (n: u64)
        ensures
            n == effective_weight(self.weight, self.priority),
            self.weight != 0 ==> n != 0,
    {
        let b: u64 = self.priority.boost_num();
        assert(self.weight * b <= 0xffff_ffff * 384) by (nonlinear_arith)
            requires
                self.weight <= 0xffff_ffff,
                b <= 384,
        ;
        assert(self.weight != 0 ==> self.weight * b != 0) by (nonlinear_arith)
            requires
                b >= 256,
        ;
        self.weight as u64 * b
    }

    /// The refill rate, where it is a 64-bit number.
    pub fn rate(&self, host: &BrokerConfig) -> (r: u64)
        requires
            self.rate_fits(*host),
        ensures
            r == self.refill_rate(*host),
    {
        let w: u64 = self.effective_weight_num();
        assert(w * host.refill_us_per_s_per_weight >= 0) by (nonlinear_arith)
            requires
                w >= 0,
                host.refill_us_per_s_per_weight >= 0,
        ;
        max_u64(w * host.refill_us_per_s_per_weight / 256, host.min_refill_us_per_s)
    }

    fn rate_in_range(&self, host: &BrokerConfig) -> (b: bool)
        ensures
            b == self.rate_fits(*host),
    {
        let w: u64 = self.effective_weight_num();
        let p: u128 = product(w, host.refill_us_per_s_per_weight);
        p <= u64::MAX as u128
    }

    fn earned_parts(&self, host: &BrokerConfig, now: Micros) -> (e: u128)
        requires
            self.rate_fits(*host),
        ensures
            e == self.earned(*host, now),
    {
        let r: u64 = self.rate(host);
        product(r, now.saturating_sub(self.last_refill_us)) + self.carry as u128
    }

    /// Refills the bucket for the wall time that has passed.
    pub fn refill(&mut self, now: Micros, host: &BrokerConfig)
        requires
            old(self).refill_fits(*host, now),
        ensures
            *final(self) == old(self).refilled(*host, now),
            old(self).wf() ==> final(self).wf(),
    {
        if now <= self.last_refill_us {
            return;
        }
        let e: u128 = self.earned_parts(host, now);
        let full: i64 = full_bucket_us(host);
        self.last_refill_us = now;
        self.carry = (e % PARTS as u128) as u64;
        self.tokens_us = raised(self.tokens_us, e / PARTS as u128, full);
    }

    /// Whether asking to render at `now` stays within the machine's numbers.
    pub fn can_begin(&self, now: Micros, host: &BrokerConfig) -> (b: bool)
        ensures
            b == self.begin_fits(*host, now),
    {
        if now > self.last_refill_us && !self.rate_in_range(host) {
            return false;
        }
        let mut a = *self;
        a.refill(now, host);
        if a.tokens_us > 0 {
            return true;
        }
        a.rate_in_range(host) && a.throttle_events < u64::MAX
    }

    /// Refills, and decides whether the VM may render.
    pub fn begin(&mut self, now: Micros, host: &BrokerConfig) -> (r: Begin)
        requires
            old(self).begin_fits(*host, now),
        ensures
            r == old(self).begin_answer(*host, now),
            *final(self) == old(self).begun(*host, now),
            old(self).wf() ==> final(self).wf(),
    {
        self.refill(now, host);
        if self.tokens_us > 0 {
            Begin::Ready
        } else {
            let deficit: u64 = (1000 - self.tokens_us as i128) as u64;
            let rate: u64 = max_u64(self.rate(host), 1);
            let us: u128 = product(deficit, 1_000_000) / rate as u128;
            let w: u64 = if us <= u64::MAX as u128 {
                us as u64
            } else {
                u64::MAX
            };
            self.throttle_events = self.throttle_events + 1;
            Begin::Throttled { wait_us: max_u64(w, 1) }
        }
    }

    /// Whether charging `gpu_us` stays within the machine's numbers.
    pub fn can_charge(&self, gpu_us: Micros, host: &BrokerConfig) -> (b: bool)
        ensures
            b == self.charge_fits(*host, gpu_us),
    {
        if self.weight == 0 {
            return false;
        }
        let step: u64 = self.vruntime_gain(gpu_us);
        self.gpu_time_used_us.checked_add(gpu_us).is_some() && self.vruntime_us.checked_add(
            step,
        ).is_some() && self.submissions < u64::MAX && (gpu_us <= host.watchdog_us
            || self.watchdog_trips < u64::MAX)
    }

    fn vruntime_gain(&self, gpu_us: Micros) -> (g: u64)
        requires
            self.weight != 0,
        ensures
            g == self.vruntime_step(gpu_us),
    {
        let w: u64 = self.effective_weight_num();
        let us: u128 = gpu_us as u128 * 256 / w as u128;
        low_u64(us)
    }

    /// Charges a finished render: debits the bucket, advances the counters and runs the
    /// watchdog.
    pub fn charge(&mut self, gpu_us: Micros, host: &BrokerConfig)
        requires
            old(self).charge_fits(*host, gpu_us),
        ensures
            *final(self) == old(self).charged(*host, gpu_us),
            old(self).wf() ==> final(self).wf(),
    {
        let step: u64 = self.vruntime_gain(gpu_us);
        self.tokens_us = lowered(self.tokens_us, gpu_us);
        self.gpu_time_used_us = self.gpu_time_used_us + gpu_us;
        self.vruntime_us = self.vruntime_us + step;
        self.submissions = self.submissions + 1;
        if gpu_us > host.watchdog_us {
            self.watchdog_trips = self.watchdog_trips + 1;
        }
    }
}

/// `t + g`, held at `full`.
fn raised(t: i64, g: u128, full: i64) -> (r: i64)
    ensures
        r == smaller(t + g, full as int),
{
    if t >= full {
        return full;
    }
    let room: u128 = (full as i128 - t as i128) as u128;
    if g >= room {
        full
    } else {
        (t as i128 + g as i128) as i64
    }
}

/// `t - d`, held at the lowest number.
fn lowered(t: i64, d: u64) -> (r: i64)
    ensures
        r == larger(t - d, i64::MIN as int),
{
    let left: i128 = t as i128 - d as i128;
    if left >= i64::MIN as i128 {
        left as i64
    } else {
        i64::MIN
    }
}

/// The product of two 64-bit numbers, in full.
fn product(x: u64, y: u64) -> (p: u128)
    ensures
        p == x * y,
        p <= 0xffff_ffff_ffff_ffff * 0xffff_ffff_ffff_ffff,
{
    assert(0 <= x * y <= 0xffff_ffff_ffff_ffff * 0xffff_ffff_ffff_ffff) by (nonlinear_arith)
        requires
            0 <= x <= 0xffff_ffff_ffff_ffff,
            0 <= y <= 0xffff_ffff_ffff_ffff,
    ;
    x as u128 * y as u128
}

} // verus!
