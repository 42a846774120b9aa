//! Choosing the device and its features, and what it is to report.
use crate::gpu::memory::{has_all, zerocopy_alignment_ok};
use crate::gpu::vk::{
    ACCESS_COLOR_ATTACHMENT_WRITE, ACCESS_DEPTH_ATTACHMENT_WRITE, ACCESS_TRANSFER_READ,
    DEVICE_DISCRETE_GPU, DRIVER_AMD_OPEN_SOURCE, DRIVER_AMD_PROPRIETARY,
    DRIVER_INTEL_OPEN_SOURCE_MESA, DRIVER_INTEL_PROPRIETARY_WINDOWS, DRIVER_MESA_LLVMPIPE,
    DRIVER_MESA_RADV, DRIVER_NVIDIA_PROPRIETARY, FORMAT_D32_SFLOAT, LAYOUT_COLOR_ATTACHMENT,
    LAYOUT_DEPTH_ATTACHMENT, LAYOUT_TRANSFER_SRC, LAYOUT_UNDEFINED, LOAD_CLEAR, QUEUE_GRAPHICS,
    STAGE_COLOR_ATTACHMENT_OUTPUT, STAGE_EARLY_FRAGMENT_TESTS, STAGE_LATE_FRAGMENT_TESTS,
    STAGE_TRANSFER, STORE_DONT_CARE, STORE_STORE, SUBPASS_OUTSIDE,
};
use crate::text::{
    digits_of, eq_ignoring_case, number, parse_u64, same_ignoring_case, same_text, writes_u64,
};
use vstd::prelude::*;

verus! {

/// A physical device, as far as the choice goes by it.
#[derive(Debug, Clone, Copy, PartialEq, Eq, Structural)]
pub struct Candidate {
    pub driver_id: i32,
    pub device_type: i32,
}

/// How good a device is: the NVIDIA proprietary driver before all, then a discrete GPU.
pub open spec fn score(c: Candidate) -> int {
    (if c.driver_id == DRIVER_NVIDIA_PROPRIETARY {
        100int
    } else {
        0
    }) + (if c.device_type == DEVICE_DISCRETE_GPU {
        10int
    } else {
        0
    })
}

fn score_of(c: &Candidate) -> (n: u32)
    ensures
        n == score(*c),
{
    let driver: u32 = if c.driver_id == DRIVER_NVIDIA_PROPRIETARY {
        100
    } else {
        0
    };
    let kind: u32 = if c.device_type == DEVICE_DISCRETE_GPU {
        10
    } else {
        0
    };
    driver + kind
}

/// The first of the best devices; none where there is no device.
pub fn pick_device(candidates: &[Candidate]) -> (r: Option<usize>)
    ensures
        r is None <==> candidates@.len() == 0,
        r is Some ==> {
            &&& (r->0) < candidates@.len()
            &&& forall|i: int|
                0 <= i < candidates@.len() ==> score(#[trigger] candidates@[i]) <= score(
                    candidates@[r->0 as int],
                )
            &&& forall|i: int|
                0 <= i < r->0 ==> score(#[trigger] candidates@[i]) < score(
                    candidates@[r->0 as int],
                )
        },
{
    if candidates.len() == 0 {
        return None;
    }
    let mut best: usize = 0;
    let mut i: usize = 1;
    while i < candidates.len()
        invariant
            1 <= i <= candidates@.len(),
            best < i,
            forall|j: int|
                0 <= j < i ==> score(#[trigger] candidates@[j]) <= score(candidates@[best as int]),
            forall|j: int|
                0 <= j < best ==> score(#[trigger] candidates@[j]) < score(
                    candidates@[best as int],
                ),
        decreases candidates.len() - i,
    {
        if score_of(&candidates[i]) > score_of(&candidates[best]) {
            best = i;
        }
        i = i + 1;
    }
    Some(best)
}

/// Whether none of the first `n` queue families does graphics.
pub open spec fn none_draws(flags: Seq<u32>, n: int) -> bool {
    forall|i: int| 0 <= i < n ==> !has_all(#[trigger] flags[i], QUEUE_GRAPHICS)
}

/// The first queue family that does graphics.
pub fn graphics_family(flags: &[u32]) -> (r: Option<usize>)
    ensures
        r is None <==> forall|i: int|
            0 <= i < flags@.len() ==> !has_all(#[trigger] flags@[i], QUEUE_GRAPHICS),
        r is Some ==> {
            &&& (r->0) < flags@.len()
            &&& has_all(flags@[r->0 as int], QUEUE_GRAPHICS)
            &&& forall|i: int| 0 <= i < r->0 ==> !has_all(#[trigger] flags@[i], QUEUE_GRAPHICS)
        },
        r is None ==> none_draws(flags@, flags@.len() as int),
        r is Some ==> none_draws(flags@, r->0 as int),
{
    let mut i: usize = 0;
    while i < flags.len()
        invariant
            i <= flags@.len(),
            forall|j: int| 0 <= j < i ==> !has_all(#[trigger] flags@[j], QUEUE_GRAPHICS),
        decreases flags.len() - i,
    {
        if flags[i] & QUEUE_GRAPHICS == QUEUE_GRAPHICS {
            assert(has_all(flags@[i as int], QUEUE_GRAPHICS));
            return Some(i);
        }
        i = i + 1;
    }
    None
}

/// The extension that hands memory out as a file descriptor.
pub open spec fn fd_extension() -> Seq<char> {
    "VK_KHR_external_memory_fd"@
}

/// The extension that hands memory out as a dma-buf.
pub open spec fn dma_buf_extension() -> Seq<char> {
    "VK_EXT_external_memory_dma_buf"@
}

/// The extension that imports a host pointer.
pub open spec fn host_extension() -> Seq<char> {
    "VK_EXT_external_memory_host"@
}

/// The optional features that a device is opened with.
#[derive(Debug, Clone, Copy, PartialEq, Eq, Structural)]
pub struct Features {
    pub export_fd: bool,
    pub export_dma_buf: bool,
    pub import_host: bool,
}

/// Whether an extension is among those that a device has.
pub open spec fn offered(names: Seq<String>, want: Seq<char>) -> bool {
    exists|i: int| 0 <= i < names.len() && #[trigger] names[i]@ == want
}

fn has_extension(names: &Vec<String>, want: &str) -> (b: bool)
    ensures
        b == offered(names@, want@),
{
    let mut i: usize = 0;
    while i < names.len()
        invariant
            i <= names@.len(),
            forall|j: int| 0 <= j < i ==> #[trigger] names@[j]@ != want@,
        decreases names.len() - i,
    {
        if same_text(names[i].as_str(), want) {
            assert(names@[i as int]@ == want@);
            return true;
        }
        i = i + 1;
    }
    false
}

/// The optional features to open a device with: those that it has. Without file descriptors there
/// are no dma-bufs.
pub fn choose_features(names: &Vec<String>) -> (f: Features)
    ensures
        f.export_fd == offered(names@, fd_extension()),
        f.export_dma_buf == (offered(names@, fd_extension()) && offered(
            names@,
            dma_buf_extension(),
        )),
        f.import_host == offered(names@, host_extension()),
{
    let export_fd: bool = has_extension(names, "VK_KHR_external_memory_fd");
    let export_dma_buf: bool = export_fd && has_extension(names, "VK_EXT_external_memory_dma_buf");
    let import_host: bool = has_extension(names, "VK_EXT_external_memory_host");
    Features { export_fd, export_dma_buf, import_host }
}

/// The extensions of the chosen features, in order.
pub open spec fn enabled_list(f: Features) -> Seq<Seq<char>> {
    let a = if f.export_fd {
        seq![fd_extension()]
    } else {
        Seq::empty()
    };
    let b = if f.export_dma_buf {
        a.push(dma_buf_extension())
    } else {
        a
    };
    if f.import_host {
        b.push(host_extension())
    } else {
        b
    }
}

/// The extensions of the chosen features, in order.
pub fn enabled_extensions(f: &Features) -> (out: Vec<&'static str>)
    ensures
        out@.len() == enabled_list(*f).len(),
        forall|i: int| 0 <= i < out@.len() ==> (#[trigger] out@[i])@ == enabled_list(*f)[i],
{
    let mut out: Vec<&'static str> = Vec::new();
    if f.export_fd {
        out.push("VK_KHR_external_memory_fd");
    }
    if f.export_dma_buf {
        out.push("VK_EXT_external_memory_dma_buf");
    }
    if f.import_host {
        out.push("VK_EXT_external_memory_host");
    }
    out
}

/// Whether a setting is on: it is, unless it is set to zero or to some spelling of "false".
pub open spec fn setting_on(v: Option<Seq<char>>) -> bool {
    match v {
        Some(t) => t != "0"@ && !same_ignoring_case(t, "false"@),
        None => true,
    }
}

/// Whether a setting is on: it is, unless it is set to zero or to some spelling of "false".
pub fn flag_on(v: Option<&str>) -> (b: bool)
    ensures
        b == setting_on(
            match v {
                Some(t) => Some(t@),
                None => None,
            },
        ),
{
    match v {
        Some(t) => !same_text(t, "0") && !eq_ignoring_case(t, "false"),
        None => true,
    }
}

/// Whether the two caches are on: frame targets are kept only where pipelines are.
pub fn caches_on(pipelines: Option<&str>, targets: Option<&str>) -> (r: (bool, bool))
    ensures
        r.0 == setting_on(
            match pipelines {
                Some(t) => Some(t@),
                None => None,
            },
        ),
        r.1 == (r.0 && setting_on(
            match targets {
                Some(t) => Some(t@),
                None => None,
            },
        )),
{
    let p: bool = flag_on(pipelines);
    let t: bool = flag_on(targets);
    (p, p && t)
}

/// The number that a setting gives, or another where it gives none.
pub fn number_setting(v: Option<&str>, otherwise: u64) -> (n: u64)
    ensures
        n == match v {
            Some(t) => if writes_u64(t@) {
                number(digits_of(t@)) as u64
            } else {
                otherwise
            },
            None => otherwise,
        },
{
    match v {
        Some(t) => match parse_u64(t) {
            Some(n) => n,
            None => otherwise,
        },
        None => otherwise,
    }
}

/// Whether frames can be copied straight into guest memory.
pub fn supports_zerocopy_scanout(import_host: bool, align: u64) -> (b: bool)
    ensures
        b == (import_host && 0 < align <= 4096),
{
    import_host && zerocopy_alignment_ok(align)
}

/// What polling a fence gave.
#[derive(Debug, Clone, Copy, PartialEq, Eq, Structural)]
pub enum FenceStatus {
    Signaled,
    NotReady,
    Failed,
}

/// What to do about a fence.
#[derive(Debug, Clone, Copy, PartialEq, Eq, Structural)]
pub enum FenceStep {
    /// It is signaled.
    Done,
    /// Poll again.
    Spin,
    /// Wait for it, blocking. A failure shows there.
    Block,
}

/// Whether a fence is polled at all before it is waited for.
pub fn polls_fence(spin_us: u64) -> (b: bool)
    ensures
        b == (spin_us != 0),
{
    spin_us != 0
}

/// What to do after a poll, `elapsed_us` after the first.
pub fn fence_step(status: FenceStatus, elapsed_us: u64, spin_us: u64) -> (s: FenceStep)
    ensures
        s == match status {
            FenceStatus::Signaled => FenceStep::Done,
            FenceStatus::NotReady => if elapsed_us >= spin_us {
                FenceStep::Block
            } else {
                FenceStep::Spin
            },
            FenceStatus::Failed => FenceStep::Block,
        },
{
    match status {
        FenceStatus::Signaled => FenceStep::Done,
        FenceStatus::NotReady => if elapsed_us >= spin_us {
            FenceStep::Block
        } else {
            FenceStep::Spin
        },
        FenceStatus::Failed => FenceStep::Block,
    }
}

/// A GPU vendor.
#[derive(Debug, Clone, Copy, PartialEq, Eq, Structural)]
pub enum Vendor {
    Nvidia,
    Amd,
    Intel,
    Software,
    Other,
}

/// The vendor behind a driver.
pub open spec fn vendor(driver_id: i32) -> Vendor {
    if driver_id == DRIVER_NVIDIA_PROPRIETARY {
        Vendor::Nvidia
    } else if driver_id == DRIVER_MESA_RADV || driver_id == DRIVER_AMD_PROPRIETARY || driver_id
        == DRIVER_AMD_OPEN_SOURCE {
        Vendor::Amd
    } else if driver_id == DRIVER_INTEL_OPEN_SOURCE_MESA || driver_id
        == DRIVER_INTEL_PROPRIETARY_WINDOWS {
        Vendor::Intel
    } else if driver_id == DRIVER_MESA_LLVMPIPE {
        Vendor::Software
    } else {
        Vendor::Other
    }
}

/// What a device can do.
#[derive(Debug)]
pub struct GpuCaps {
    pub vendor: Vendor,
    pub device_name: String,
    pub driver_name: String,
    pub vulkan_render: bool,
    pub timestamp_queries: bool,
    pub external_memory: bool,
    pub global_priority: bool,
}

/// What a device can do, by its driver. A priority hint is taken to be there on the hardware
/// vendors.
pub fn caps(driver_id: i32, device_name: &str, driver_name: &str) -> (c: GpuCaps)
    ensures
        c.vendor == vendor(driver_id),
        c.device_name@ == device_name@,
        c.driver_name@ == driver_name@,
        c.vulkan_render,
        c.timestamp_queries,
        c.external_memory,
        c.global_priority == (vendor(driver_id) is Nvidia || vendor(driver_id) is Amd || vendor(
            driver_id,
        ) is Intel),
{
    let v = if driver_id == DRIVER_NVIDIA_PROPRIETARY {
        Vendor::Nvidia
    } else if driver_id == DRIVER_MESA_RADV || driver_id == DRIVER_AMD_PROPRIETARY || driver_id
        == DRIVER_AMD_OPEN_SOURCE {
        Vendor::Amd
    } else if driver_id == DRIVER_INTEL_OPEN_SOURCE_MESA || driver_id
        == DRIVER_INTEL_PROPRIETARY_WINDOWS {
        Vendor::Intel
    } else if driver_id == DRIVER_MESA_LLVMPIPE {
        Vendor::Software
    } else {
        Vendor::Other
    };
    GpuCaps {
        vendor: v,
        device_name: device_name.to_owned(),
        driver_name: driver_name.to_owned(),
        vulkan_render: true,
        timestamp_queries: true,
        external_memory: true,
        global_priority: match v {
            Vendor::Nvidia | Vendor::Amd | Vendor::Intel => true,
            _ => false,
        },
    }
}

/// An attachment of a render pass.
#[derive(Debug, Clone, Copy, PartialEq, Eq, Structural)]
pub struct Attachment {
    pub format: i32,
    pub load: i32,
    pub store: i32,
    pub initial_layout: i32,
    pub final_layout: i32,
    /// The layout while the pass runs.
    pub pass_layout: i32,
}

/// An ordering between a pass and what is outside it.
#[derive(Debug, Clone, Copy, PartialEq, Eq, Structural)]
pub struct Dependency {
    pub src_subpass: u32,
    pub dst_subpass: u32,
    pub src_stages: u32,
    pub dst_stages: u32,
    pub src_access: u32,
    pub dst_access: u32,
}

/// A render pass: a colour attachment, perhaps a depth attachment, and its dependencies.
#[derive(Debug, Clone, Copy, PartialEq, Eq, Structural)]
pub struct PassDesc {
    pub color: Attachment,
    pub depth: Option<Attachment>,
    /// The colour writes before the copy of the result.
    pub color_dependency: Option<Dependency>,
    /// The depth tests after those of an earlier frame.
    pub depth_dependency: Option<Dependency>,
}

/// Both stages of the depth test.
pub const DEPTH_TESTS: u32 = 0x300;

/// The colour attachment: cleared, stored, and handed over for a transfer.
pub open spec fn color_attachment(format: i32) -> Attachment {
    Attachment {
        format,
        load: LOAD_CLEAR,
        store: STORE_STORE,
        initial_layout: LAYOUT_UNDEFINED,
        final_layout: LAYOUT_TRANSFER_SRC,
        pass_layout: LAYOUT_COLOR_ATTACHMENT,
    }
}

/// The depth attachment: cleared, and not stored.
pub open spec fn depth_attachment() -> Attachment {
    Attachment {
        format: FORMAT_D32_SFLOAT,
        load: LOAD_CLEAR,
        store: STORE_DONT_CARE,
        initial_layout: LAYOUT_UNDEFINED,
        final_layout: LAYOUT_DEPTH_ATTACHMENT,
        pass_layout: LAYOUT_DEPTH_ATTACHMENT,
    }
}

/// The shared render pass of draws into `format`.
pub open spec fn shared_pass(format: i32, with_depth: bool) -> PassDesc {
    PassDesc {
        color: color_attachment(format),
        depth: if with_depth {
            Some(depth_attachment())
        } else {
            None
        },
        color_dependency: Some(
            Dependency {
                src_subpass: 0,
                dst_subpass: SUBPASS_OUTSIDE,
                src_stages: STAGE_COLOR_ATTACHMENT_OUTPUT,
                dst_stages: STAGE_TRANSFER,
                src_access: ACCESS_COLOR_ATTACHMENT_WRITE,
                dst_access: ACCESS_TRANSFER_READ,
            },
        ),
        depth_dependency: if with_depth {
            Some(
                Dependency {
                    src_subpass: SUBPASS_OUTSIDE,
                    dst_subpass: 0,
                    src_stages: DEPTH_TESTS,
                    dst_stages: DEPTH_TESTS,
                    src_access: ACCESS_DEPTH_ATTACHMENT_WRITE,
                    dst_access: ACCESS_DEPTH_ATTACHMENT_WRITE,
                },
            )
        } else {
            None
        },
    }
}

/// The shared render pass of draws into `format`.
pub fn render_pass_desc(format: i32, with_depth: bool) -> (p: PassDesc)
    ensures
        p == shared_pass(format, with_depth),
{
    PassDesc {
        color: Attachment {
            format,
            load: LOAD_CLEAR,
            store: STORE_STORE,
            initial_layout: LAYOUT_UNDEFINED,
            final_layout: LAYOUT_TRANSFER_SRC,
            pass_layout: LAYOUT_COLOR_ATTACHMENT,
        },
        depth: if with_depth {
            Some(
                Attachment {
                    format: FORMAT_D32_SFLOAT,
                    load: LOAD_CLEAR,
                    store: STORE_DONT_CARE,
                    initial_layout: LAYOUT_UNDEFINED,
                    final_layout: LAYOUT_DEPTH_ATTACHMENT,
                    pass_layout: LAYOUT_DEPTH_ATTACHMENT,
                },
            )
        } else {
            None
        },
        color_dependency: Some(
            Dependency {
                src_subpass: 0,
                dst_subpass: SUBPASS_OUTSIDE,
                src_stages: STAGE_COLOR_ATTACHMENT_OUTPUT,
                dst_stages: STAGE_TRANSFER,
                src_access: ACCESS_COLOR_ATTACHMENT_WRITE,
                dst_access: ACCESS_TRANSFER_READ,
            },
        ),
        depth_dependency: if with_depth {
            Some(
                Dependency {
                    src_subpass: SUBPASS_OUTSIDE,
                    dst_subpass: 0,
                    src_stages: DEPTH_TESTS,
                    dst_stages: DEPTH_TESTS,
                    src_access: ACCESS_DEPTH_ATTACHMENT_WRITE,
                    dst_access: ACCESS_DEPTH_ATTACHMENT_WRITE,
                },
            )
        } else {
            None
        },
    }
}

/// The render pass of a plain clear: nothing orders it but the fence.
pub fn clear_pass_desc(format: i32) -> (p: PassDesc)
    ensures
        p == (PassDesc {
            color: color_attachment(format),
            depth: None,
            color_dependency: None,
            depth_dependency: None,
        }),
{
    PassDesc {
        color: Attachment {
            format,
            load: LOAD_CLEAR,
            store: STORE_STORE,
            initial_layout: LAYOUT_UNDEFINED,
            final_layout: LAYOUT_TRANSFER_SRC,
            pass_layout: LAYOUT_COLOR_ATTACHMENT,
        },
        depth: None,
        color_dependency: None,
        depth_dependency: None,
    }
}

/// The depth tests are both stages of it.
pub proof fn law_depth_tests()
    ensures
        DEPTH_TESTS == STAGE_EARLY_FRAGMENT_TESTS | STAGE_LATE_FRAGMENT_TESTS,
{
    assert(0x300u32 == 0x100u32 | 0x200u32) by (bit_vector);
}

/// The device that is taken is one of NVIDIA's own driver (Vulkan's 4) wherever there is one, and a
/// discrete one (2) wherever there is one among those; of equals it is the first.
pub proof fn law_best_device(candidates: &[Candidate], r: Option<usize>, j: int)
    requires
        call_ensures(pick_device, (candidates,), r),
        0 <= j < candidates@.len(),
    ensures
        r is Some,
        r->0 < candidates@.len(),
        ({
            let best = candidates@[r->0 as int];
            let c = candidates@[j];
            &&& c.driver_id == 4 ==> best.driver_id == 4
            &&& c.driver_id == 4 && c.device_type == 2 ==> best.device_type == 2
            &&& c.device_type == 2 && best.driver_id != 4 ==> best.device_type == 2
            &&& (c.driver_id == 4) == (best.driver_id == 4) && (c.device_type == 2) == (
            best.device_type == 2) ==> r->0 <= j
        }),
{
    lemma_best(candidates@, r->0 as int, j);
}

proof fn lemma_best(cs: Seq<Candidate>, k: int, j: int)
    requires
        0 <= k < cs.len(),
        0 <= j < cs.len(),
        forall|i: int| 0 <= i < cs.len() ==> score(#[trigger] cs[i]) <= score(cs[k]),
        forall|i: int| 0 <= i < k ==> score(#[trigger] cs[i]) < score(cs[k]),
    ensures
        cs[j].driver_id == 4 ==> cs[k].driver_id == 4,
        cs[j].driver_id == 4 && cs[j].device_type == 2 ==> cs[k].device_type == 2,
        cs[j].device_type == 2 && cs[k].driver_id != 4 ==> cs[k].device_type == 2,
        (cs[j].driver_id == 4) == (cs[k].driver_id == 4) && (cs[j].device_type == 2) == (
        cs[k].device_type == 2) ==> k <= j,
{
    assert(score(cs[j]) <= score(cs[k]));
    if j < k {
        assert(score(cs[j]) < score(cs[k]));
    }
}

/// The queue family that is taken does graphics (Vulkan's bit 1), and is the first that does.
pub proof fn law_graphics_family(flags: &[u32], r: Option<usize>, j: int)
    requires
        call_ensures(graphics_family, (flags,), r),
    ensures
        0 <= j < flags@.len() && flags@[j] & 1 == 1 ==> r is Some && r->0 <= j,
        r is Some ==> r->0 < flags@.len() && flags@[r->0 as int] & 1 == 1,
        flags@.len() == 0 ==> r is None,
{
}

/// Features are opened where the device has their extensions, and dma-bufs only where descriptors
/// are; as many extensions are enabled as features are opened.
pub proof fn law_features_are_offered(
    names: &Vec<String>,
    f: Features,
    list: Vec<&'static str>,
    i: int,
)
    requires
        call_ensures(choose_features, (names,), f),
        call_ensures(enabled_extensions, (&f,), list),
    ensures
        names@.len() == 0 ==> !f.export_fd && !f.export_dma_buf && !f.import_host,
        0 <= i < names@.len() && names@[i]@ == "VK_KHR_external_memory_fd"@ ==> f.export_fd,
        0 <= i < names@.len() && names@[i]@ == "VK_EXT_external_memory_host"@ ==> f.import_host,
        0 <= i < names@.len() && names@[i]@ == "VK_EXT_external_memory_dma_buf"@ ==> f.export_dma_buf
            == f.export_fd,
        f.export_dma_buf ==> f.export_fd,
        list@.len() == (if f.export_fd {
            1int
        } else {
            0
        }) + (if f.export_dma_buf {
            1int
        } else {
            0
        }) + (if f.import_host {
            1int
        } else {
            0
        }),
        f.export_fd ==> list@[0]@ == "VK_KHR_external_memory_fd"@,
        f.export_dma_buf ==> list@[1]@ == "VK_EXT_external_memory_dma_buf"@,
        f.import_host ==> list@[list@.len() - 1]@ == "VK_EXT_external_memory_host"@,
{
    if 0 <= i < names@.len() {
        assert(names@[i]@ == names@[i]@);
    }
    if f.export_fd {
        assert(list@[0]@ == enabled_list(f)[0]);
    }
    if f.export_dma_buf {
        assert(list@[1]@ == enabled_list(f)[1]);
    }
    if f.import_host {
        let k = list@.len() - 1;
        assert(list@[k]@ == enabled_list(f)[k]);
    }
}

/// A setting is on where it is not set, and off where it is `0` or `false`; frame targets are kept
/// only where pipelines are.
pub proof fn law_settings(
    v: Option<&str>,
    w: Option<&str>,
    b: bool,
    r: (bool, bool),
)
    requires
        call_ensures(flag_on, (v,), b),
        call_ensures(caches_on, (v, w), r),
    ensures
        v is None ==> b,
        v is Some && (v->0)@ == "0"@ ==> !b,
        v is Some && (v->0)@ == "false"@ ==> !b,
        v is Some && (v->0)@ == "FALSE"@ ==> !b,
        v is Some && (v->0)@ == "1"@ ==> b,
        r.0 == b,
        !b ==> !r.1,
        b && w is None ==> r.1,
        w is Some && (w->0)@ == "0"@ ==> !r.1,
{
    reveal_strlit("0");
    reveal_strlit("1");
    reveal_strlit("false");
    reveal_strlit("FALSE");
    assert("1"@[0] != "0"@[0]);
}

/// A setting that writes a number gives it, and any other gives what is taken otherwise.
pub proof fn law_number_settings(v: Option<&str>, otherwise: u64, n: u64, k: nat)
    requires
        call_ensures(number_setting, (v, otherwise), n),
    ensures
        v is None ==> n == otherwise,
        v is Some && (v->0)@ == crate::text::decimal(k) && k <= u64::MAX ==> n == k,
        v is Some && (v->0)@ == crate::text::decimal(k) && k > u64::MAX ==> n == otherwise,
        v is Some && (v->0)@.len() == 0 ==> n == otherwise,
{
    crate::text::law_decimal_reads_back(k);
}

/// A signaled fence is done with; one that is not is polled again until the time for polling is
/// over, and then waited for, as is one that failed. Without such time it is never polled. Frames go
/// straight into guest memory only on a device that imports pointers in units of a page at most.
pub proof fn law_fences(
    status: FenceStatus,
    elapsed_us: u64,
    spin_us: u64,
    s: FenceStep,
    polls: bool,
    import_host: bool,
    align: u64,
    direct: bool,
)
    requires
        call_ensures(fence_step, (status, elapsed_us, spin_us), s),
        call_ensures(polls_fence, (spin_us,), polls),
        call_ensures(supports_zerocopy_scanout, (import_host, align), direct),
    ensures
        status is Signaled <==> s is Done,
        status is NotReady && elapsed_us < spin_us <==> s is Spin,
        status is Failed || (status is NotReady && elapsed_us >= spin_us) <==> s is Block,
        polls <==> spin_us > 0,
        !polls ==> !(s is Spin),
        direct <==> import_host && 1 <= align <= 4096,
{
}

/// The vendor goes by the driver, in Vulkan's numbers: 4 is NVIDIA's, 1 to 3 are AMD's, 5 and 6
/// Intel's, 13 draws in software. A hardware vendor has a priority hint.
pub proof fn law_vendors(driver_id: i32, device_name: &str, driver_name: &str, c: GpuCaps)
    requires
        call_ensures(caps, (driver_id, device_name, driver_name), c),
    ensures
        driver_id == 4 <==> c.vendor is Nvidia,
        1 <= driver_id <= 3 <==> c.vendor is Amd,
        driver_id == 5 || driver_id == 6 <==> c.vendor is Intel,
        driver_id == 13 <==> c.vendor is Software,
        c.global_priority <==> 1 <= driver_id <= 6,
        c.device_name@ == device_name@,
        c.driver_name@ == driver_name@,
        c.vulkan_render && c.timestamp_queries && c.external_memory,
{
}

/// A render pass clears its target (Vulkan's load operation 1), keeps what was drawn (store
/// operation 0) and leaves it ready to be copied out (layout 6), whatever was there before. Its
/// colour writes come before the copy: the output stage (0x400) and its writes (0x100) before the
/// transfer stage (0x1000) and its reads (0x800). A depth buffer is cleared too, not kept, and its
/// tests (0x300) follow those of the pass before.
pub proof fn law_passes(format: i32, with_depth: bool, p: PassDesc, q: PassDesc)
    requires
        call_ensures(render_pass_desc, (format, with_depth), p),
        call_ensures(clear_pass_desc, (format,), q),
    ensures
        p.color == q.color,
        p.color.format == format,
        p.color.load == 1 && p.color.store == 0,
        p.color.initial_layout == 0 && p.color.pass_layout == 2 && p.color.final_layout == 6,
        p.depth is Some == with_depth,
        p.depth_dependency is Some == with_depth,
        with_depth ==> {
            let d = p.depth->0;
            let x = p.depth_dependency->0;
            &&& d.format == 126
            &&& d.load == 1 && d.store == 1
            &&& d.initial_layout == 0 && d.pass_layout == 3 && d.final_layout == 3
            &&& x.src_subpass == 0xffff_ffff && x.dst_subpass == 0
            &&& x.src_stages == 0x300 && x.dst_stages == 0x300
            &&& x.src_access == 0x400 && x.dst_access == 0x400
        },
        p.color_dependency is Some,
        ({
            let x = p.color_dependency->0;
            &&& x.src_subpass == 0 && x.dst_subpass == 0xffff_ffff
            &&& x.src_stages == 0x400 && x.dst_stages == 0x1000
            &&& x.src_access == 0x100 && x.dst_access == 0x800
        }),
        q.depth is None && q.color_dependency is None && q.depth_dependency is None,
{
}

} // verus!
