//! What the broker is configured with, what a VM asks for, and why it may be refused.
use crate::arith::{ceil_div, larger, max_u64, smaller};
use crate::text::push_decimal;
use vstd::prelude::*;
use vstd::string::StringExecFns;

verus! {

/// Microseconds: the one unit of wall time and of GPU time.
pub type Micros = u64;

/// VDI priority tier: a multiplier on the refill rate. Interactive desktops are
/// latency-critical but cheap in GPU time, so they refill faster.
#[derive(Debug, Clone, Copy, PartialEq, Eq, Structural)]
pub enum PriorityTier {
    /// Foreground interactive desktop.
    Interactive,
    /// The default.
    Normal,
    /// Background work.
    Batch,
}

/// The refill multiplier of a tier, in 256ths.
pub open spec fn boost(p: PriorityTier) -> int {
    match p {
        PriorityTier::Interactive => 384,
        PriorityTier::Normal => 256,
        PriorityTier::Batch => 256,
    }
}

/// Weight times tier boost, in 256ths: the one weight behind refill, wait and vruntime.
pub open spec fn effective_weight(weight: u32, priority: PriorityTier) -> int {
    weight * boost(priority)
}

impl PriorityTier {
    /// The refill multiplier, in 256ths.
    pub fn boost_num(self) -> (n: u64)
        ensures
            n == boost(self),
    {
        match self {
            PriorityTier::Interactive => 384,
            PriorityTier::Normal => 256,
            PriorityTier::Batch => 256,
        }
    }
}

/// Per-VM policy.
#[derive(Debug, Clone)]
pub struct VmConfig {
    pub vm_id: String,
    /// GPU-time weight (at least 1): the share of GPU time is proportional to it.
    pub weight: u32,
    /// Hard ceiling on what the VM may reserve, in MB.
    pub vram_cap_mb: u64,
    pub priority: PriorityTier,
}

impl VmConfig {
    /// A policy of the default tier; a weight of zero counts as one.
    pub fn new(vm_id: &str, weight: u32, vram_cap_mb: u64) -> (c: Self)
        ensures
            c.vm_id@ == vm_id@,
            c.weight == larger(weight as int, 1),
            c.vram_cap_mb == vram_cap_mb,
            c.priority == PriorityTier::Normal,
    {
        VmConfig {
            vm_id: vm_id.to_owned(),
            weight: if weight == 0 {
                1
            } else {
                weight
            },
            vram_cap_mb,
            priority: PriorityTier::Normal,
        }
    }

    /// The same policy in another tier.
    pub fn with_priority(self, p: PriorityTier) -> (c: Self)
        ensures
            c.vm_id@ == self.vm_id@,
            c.weight == self.weight,
            c.vram_cap_mb == self.vram_cap_mb,
            c.priority == p,
    {
        VmConfig { vm_id: self.vm_id, weight: self.weight, vram_cap_mb: self.vram_cap_mb, priority: p }
    }
}

/// Host-wide broker policy.
#[derive(Debug, Clone, Copy)]
pub struct BrokerConfig {
    /// Device VRAM, in MB.
    pub total_vram_mb: u64,
    /// VRAM held back for the driver and the host, never admitted.
    pub vram_reserve_mb: u64,
    /// Cap on admitted GPU VMs.
    pub max_concurrent_gpu_vms: u32,
    /// GPU time granted per wall second and unit of weight, in microseconds.
    pub refill_us_per_s_per_weight: u64,
    /// GPU time that a VM may bank while idle.
    pub bucket_burst_us: Micros,
    /// Anti-starvation floor: every admitted VM refills at least this much per second.
    pub min_refill_us_per_s: u64,
    /// A single render longer than this trips the watchdog.
    pub watchdog_us: Micros,
    /// Concurrent hardware-encode sessions; `None` is unlimited.
    pub max_enc_sessions: Option<u32>,
}

impl BrokerConfig {
    /// The VRAM that may be reserved in all: the total less the held-back part.
    pub open spec fn budget(self) -> int {
        crate::arith::monus(self.total_vram_mb as int, self.vram_reserve_mb as int)
    }

    pub fn budget_mb(&self) -> (b: u64)
        ensures
            b == self.budget(),
    {
        self.total_vram_mb.saturating_sub(self.vram_reserve_mb)
    }
}

impl Default for BrokerConfig {
    fn default() -> (c: Self)
        ensures
            c == (BrokerConfig {
                total_vram_mb: 24576,
                vram_reserve_mb: 1024,
                max_concurrent_gpu_vms: 16,
                refill_us_per_s_per_weight: 200_000,
                bucket_burst_us: 50_000,
                min_refill_us_per_s: 20_000,
                watchdog_us: 2_000_000,
                max_enc_sessions: None,
            }),
    {
        BrokerConfig {
            total_vram_mb: 24 * 1024,
            vram_reserve_mb: 1024,
            max_concurrent_gpu_vms: 16,
            refill_us_per_s_per_weight: 200_000,
            bucket_burst_us: 50_000,
            min_refill_us_per_s: 20_000,
            watchdog_us: 2_000_000,
            max_enc_sessions: None,
        }
    }
}

/// Bytes of one megabyte.
pub const MB: u64 = 0x10_0000;

/// `x * y`, held at the largest 64-bit number.
fn saturating_product(x: u64, y: u64) -> (r: u64)
    ensures
        r == smaller(x * y, u64::MAX as int),
{
    assert(x * y <= 0xffff_ffff_ffff_ffff * 0xffff_ffff_ffff_ffff) by (nonlinear_arith)
        requires
            x <= 0xffff_ffff_ffff_ffff,
            y <= 0xffff_ffff_ffff_ffff,
    ;
    assert(x * y >= 0) by (nonlinear_arith)
        requires
            x >= 0,
            y >= 0,
    ;
    let p: u128 = x as u128 * y as u128;
    if p > u64::MAX as u128 {
        u64::MAX
    } else {
        p as u64
    }
}

/// Megabytes, rounded up, that a BGRA scanout of `width` by `height` needs with `factor`
/// surfaces of that size alive (zero counts as one). A size past the 64-bit range is held
/// there, so an absurd geometry is never cheap.
pub fn scanout_vram_estimate_mb(width: u32, height: u32, factor: u32) -> (mb: u64)
    ensures
        mb == ceil_div(
            smaller(width * height * 4 * larger(factor as int, 1), u64::MAX as int),
            MB as int,
        ),
{
    let surfaces: u64 = max_u64(factor as u64, 1);
    assert(width * height <= 0xffff_fffe_0000_0001) by (nonlinear_arith)
        requires
            width <= 0xffff_ffff,
            height <= 0xffff_ffff,
    ;
    let area: u64 = saturating_product(width as u64, height as u64);
    let frame: u64 = saturating_product(area, 4);
    let raw: u64 = saturating_product(frame, surfaces);
    proof {
        let whole = width * height * 4;
        assert(whole >= 0) by (nonlinear_arith)
            requires
                whole == width * height * 4,
                width >= 0,
                height >= 0,
        ;
        if whole > u64::MAX {
            assert(frame * surfaces >= u64::MAX) by (nonlinear_arith)
                requires
                    frame == u64::MAX,
                    surfaces >= 1,
            ;
            assert(whole * surfaces >= u64::MAX) by (nonlinear_arith)
                requires
                    whole > u64::MAX,
                    surfaces >= 1,
            ;
        }
    }
    let q: u64 = raw / MB;
    if raw % MB == 0 {
        q
    } else {
        q + 1
    }
}

/// What a VM asks for at admission.
#[derive(Debug, Clone, Copy, PartialEq, Eq, Structural)]
pub struct AdmitRequest {
    /// VRAM to reserve, in MB.
    pub vram_mb: u64,
    /// Whether the VM will hold a hardware-encode session.
    pub needs_encoder: bool,
}

impl AdmitRequest {
    /// VRAM only.
    pub fn vram(vram_mb: u64) -> (r: Self)
        ensures
            r == (AdmitRequest { vram_mb, needs_encoder: false }),
    {
        AdmitRequest { vram_mb, needs_encoder: false }
    }

    /// VRAM and one hardware-encode session.
    pub fn streaming(vram_mb: u64) -> (r: Self)
        ensures
            r == (AdmitRequest { vram_mb, needs_encoder: true }),
    {
        AdmitRequest { vram_mb, needs_encoder: true }
    }
}

impl From<u64> for AdmitRequest {
    fn from(vram_mb: u64) -> (r: Self) {
        AdmitRequest::vram(vram_mb)
    }
}

impl vstd::std_specs::convert::FromSpecImpl<u64> for AdmitRequest {
    open spec fn obeys_from_spec() -> bool {
        true
    }

    open spec fn from_spec(vram_mb: u64) -> Self {
        AdmitRequest { vram_mb, needs_encoder: false }
    }
}

/// Why a reservation was refused. Every refusal leaves the ledger as it was.
#[derive(Debug, Clone, Copy, PartialEq, Eq, Structural)]
pub enum AdmitError {
    /// As many VMs are admitted as the host allows.
    AtConcurrencyCap { cap: u32 },
    /// Less VRAM is free than was asked for.
    InsufficientVram { requested_mb: u64, available_mb: u64 },
    /// The request is above the VM's own cap.
    ExceedsVmCap { requested_mb: u64, cap_mb: u64 },
    /// The VM is admitted already.
    AlreadyAdmitted,
    /// Every hardware-encode session is taken.
    NoEncoderSession { cap: u32 },
}

impl AdmitError {
    /// The words that `message` gives.
    pub open spec fn words(self) -> Seq<char> {
        match self {
            AdmitError::AtConcurrencyCap { cap } => "at concurrent-GPU-VM cap ("@
                + crate::text::decimal(cap as nat) + ")"@,
            AdmitError::InsufficientVram { requested_mb, available_mb } =>
                "insufficient VRAM: requested "@ + crate::text::decimal(requested_mb as nat)
                + " MB, "@ + crate::text::decimal(available_mb as nat) + " MB free"@,
            AdmitError::ExceedsVmCap { requested_mb, cap_mb } => "requested "@
                + crate::text::decimal(requested_mb as nat) + " MB exceeds VM cap "@
                + crate::text::decimal(cap_mb as nat) + " MB"@,
            AdmitError::AlreadyAdmitted => "VM already admitted"@,
            AdmitError::NoEncoderSession { cap } => "no free NVENC session ("@
                + crate::text::decimal(cap as nat) + " in use \u{2014} host encode cap)"@,
        }
    }

    /// The refusal in words.
    pub fn message(&self) -> (s: String)
        ensures
            s@ == self.words(),
    {
        match *self {
            AdmitError::AtConcurrencyCap { cap } => {
                let mut s = "at concurrent-GPU-VM cap (".to_owned();
                push_decimal(&mut s, cap as u64);
                s.append(")");
                s
            },
            AdmitError::InsufficientVram { requested_mb, available_mb } => {
                let mut s = "insufficient VRAM: requested ".to_owned();
                push_decimal(&mut s, requested_mb);
                s.append(" MB, ");
                push_decimal(&mut s, available_mb);
                s.append(" MB free");
                s
            },
            AdmitError::ExceedsVmCap { requested_mb, cap_mb } => {
                let mut s = "requested ".to_owned();
                push_decimal(&mut s, requested_mb);
                s.append(" MB exceeds VM cap ");
                push_decimal(&mut s, cap_mb);
                s.append(" MB");
                s
            },
            AdmitError::AlreadyAdmitted => "VM already admitted".to_owned(),
            AdmitError::NoEncoderSession { cap } => {
                let mut s = "no free NVENC session (".to_owned();
                push_decimal(&mut s, cap as u64);
                s.append(" in use \u{2014} host encode cap)");
                s
            },
        }
    }
}

} // verus!
