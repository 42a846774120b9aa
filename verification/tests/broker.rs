use infinigpu::sched::account::{Begin, VmAccount};
use infinigpu::sched::broker::{
    Asked, Attempt, Checked, GpuBroker, NotAdmitted, RenderPanic, RunError, Settled, MAX_SLEEP_US,
};
use infinigpu::sched::clock::{Clock, ManualClock, MonotonicClock};
use infinigpu::sched::policy::{
    scanout_vram_estimate_mb, AdmitError, AdmitRequest, BrokerConfig, Micros, PriorityTier, VmConfig,
};

fn broker_with(cfg: BrokerConfig) -> GpuBroker<ManualClock> {
    GpuBroker::new(cfg, ManualClock::default())
}

/// The value of a submission that ran.
fn finished<R, F>(a: Attempt<R, F>) -> Result<R, RunError> {
    match a {
        Attempt::Finished(r) => r,
        Attempt::Throttled { sleep_us, .. } => panic!("throttled for {sleep_us} us"),
    }
}

/// The value of a submission that ran, with numbers in range.
fn ran<R, F>(c: Checked<R, F>) -> Result<R, RunError> {
    match c {
        Checked::Attempt(a) => finished(a),
        _ => panic!("out of range"),
    }
}

#[test]
fn admits_until_vram_ledger_is_full_then_fails_closed() {
    let cfg = BrokerConfig {
        total_vram_mb: 10_000,
        vram_reserve_mb: 1_000,
        max_concurrent_gpu_vms: 8,
        ..Default::default()
    };
    let mut b = broker_with(cfg);
    let _a = b.admit_vm(VmConfig::new("a", 1, 8_000), 4_000).unwrap();
    let _c = b.admit_vm(VmConfig::new("c", 1, 8_000), 4_000).unwrap();
    let err = b.admit_vm(VmConfig::new("d", 1, 8_000), 2_000).unwrap_err();
    assert_eq!(err, AdmitError::InsufficientVram { requested_mb: 2_000, available_mb: 1_000 });
    assert_eq!(b.fleet_view().vram_free_mb, 1_000);
}

#[test]
fn enforces_concurrency_cap() {
    let cfg = BrokerConfig { max_concurrent_gpu_vms: 2, ..Default::default() };
    let mut b = broker_with(cfg);
    let _a = b.admit_vm(VmConfig::new("a", 1, 4_000), 1_000).unwrap();
    let _c = b.admit_vm(VmConfig::new("c", 1, 4_000), 1_000).unwrap();
    assert_eq!(
        b.admit_vm(VmConfig::new("d", 1, 4_000), 1_000).unwrap_err(),
        AdmitError::AtConcurrencyCap { cap: 2 }
    );
}

#[test]
fn per_vm_cap_is_enforced() {
    let mut b = broker_with(BrokerConfig::default());
    assert_eq!(
        b.admit_vm(VmConfig::new("a", 1, 1_500), 2_000).unwrap_err(),
        AdmitError::ExceedsVmCap { requested_mb: 2_000, cap_mb: 1_500 }
    );
}

#[test]
fn double_admit_is_rejected() {
    let mut b = broker_with(BrokerConfig::default());
    let _a = b.admit_vm(VmConfig::new("a", 1, 4_000), 1_000).unwrap();
    assert_eq!(
        b.admit_vm(VmConfig::new("a", 1, 4_000), 1_000).unwrap_err(),
        AdmitError::AlreadyAdmitted
    );
}

#[test]
fn reap_on_drop_frees_capacity() {
    let cfg = BrokerConfig {
        total_vram_mb: 5_000,
        vram_reserve_mb: 0,
        max_concurrent_gpu_vms: 1,
        ..Default::default()
    };
    let mut b = broker_with(cfg);
    {
        let mut a = b.admit_vm(VmConfig::new("a", 1, 4_000), 4_000).unwrap();
        assert_eq!(b.fleet_view().admitted_vms, 1);
        assert!(b.admit_vm(VmConfig::new("b", 1, 4_000), 1_000).is_err());
        a.reap(&mut b);
        a.reap(&mut b);
    }
    let fv = b.fleet_view();
    assert_eq!(fv.admitted_vms, 0);
    assert_eq!(fv.vram_used_mb, 0);
    let _b = b.admit_vm(VmConfig::new("b", 1, 4_000), 1_000).unwrap();
}

#[test]
fn running_without_admission_errors() {
    let mut b = GpuBroker::new(BrokerConfig::default(), MonotonicClock::default());
    assert_eq!(finished(b.run("ghost", || Ok(1))), Err(RunError::NotAdmitted));
}

/// GPU time that `vm` sustains over `wall_us`, draining greedily as its bucket refills.
fn sustained_over_us(b: &mut GpuBroker<ManualClock>, vm: &str, wall_us: Micros) -> Micros {
    const STEP: Micros = 10_000;
    const CHUNK: Micros = 100;
    let end = b.clock().now_us() + wall_us;
    let mut spent = 0;
    while b.clock().now_us() < end {
        while let Begin::Ready = b.begin(vm).unwrap() {
            b.record(vm, CHUNK);
            spent += CHUNK;
        }
        b.clock_mut().advance_us(STEP);
    }
    spent
}

#[test]
fn gpu_time_share_scales_with_weight() {
    let cfg = BrokerConfig {
        bucket_burst_us: 10_000,
        refill_us_per_s_per_weight: 100_000,
        min_refill_us_per_s: 0,
        ..Default::default()
    };
    let mut b = broker_with(cfg);
    let heavy = b.admit_vm(VmConfig::new("heavy", 3, 4_000), 1_000).unwrap();
    let light = b.admit_vm(VmConfig::new("light", 1, 4_000), 1_000).unwrap();
    let bh = sustained_over_us(&mut b, heavy.vm_id(), 10_000_000);
    let bl = sustained_over_us(&mut b, light.vm_id(), 10_000_000);
    let ratio = bh as f64 / bl as f64;
    assert!(
        (2.9..=3.1).contains(&ratio),
        "weighted fair-share ratio {ratio} (heavy={bh} light={bl}) should be about 3"
    );
}

#[test]
fn interactive_priority_boosts_share() {
    let cfg = BrokerConfig {
        bucket_burst_us: 10_000,
        refill_us_per_s_per_weight: 100_000,
        min_refill_us_per_s: 0,
        ..Default::default()
    };
    let mut b = broker_with(cfg);
    let office = b
        .admit_vm(
            VmConfig::new("office", 1, 4_000).with_priority(PriorityTier::Interactive),
            1_000,
        )
        .unwrap();
    let batch = b
        .admit_vm(VmConfig::new("batch", 1, 4_000).with_priority(PriorityTier::Batch), 1_000)
        .unwrap();
    let ratio = sustained_over_us(&mut b, office.vm_id(), 10_000_000) as f64
        / sustained_over_us(&mut b, batch.vm_id(), 10_000_000) as f64;
    assert!((1.45..=1.55).contains(&ratio), "interactive boost ratio {ratio} should be about 1.5");
}

#[test]
fn anti_starvation_floor_keeps_the_lightest_vm_moving() {
    let cfg = BrokerConfig {
        bucket_burst_us: 1_000,
        refill_us_per_s_per_weight: 1,
        min_refill_us_per_s: 50_000,
        ..Default::default()
    };
    let mut b = broker_with(cfg);
    let tiny = b.admit_vm(VmConfig::new("tiny", 1, 4_000), 1_000).unwrap();
    assert!(sustained_over_us(&mut b, tiny.vm_id(), 10_000_000) >= 400_000);
}

#[test]
fn watchdog_flags_a_runaway_render() {
    let cfg = BrokerConfig { watchdog_us: 100_000, ..Default::default() };
    let mut b = broker_with(BrokerConfig { ..cfg });
    let vm = b.admit_vm(VmConfig::new("hog", 1, 4_000), 1_000).unwrap();
    b.record(vm.vm_id(), 500_000);
    let fv = b.fleet_view();
    assert_eq!(fv.vms[0].watchdog_trips, 1);
}

#[test]
fn a_panicking_render_is_contained_and_does_not_brick_the_fleet() {
    let mut b = GpuBroker::new(BrokerConfig::default(), MonotonicClock::default());
    let a = b.admit_vm(VmConfig::new("a", 1, 4_000), 1_000).unwrap();
    let other = b.admit_vm(VmConfig::new("b", 1, 4_000), 1_000).unwrap();
    let r: Result<i32, RunError> = ran(a.run_checked(&mut b, || Err(RenderPanic)));
    assert_eq!(r, Err(RunError::Panicked));
    assert_eq!(ran(other.run_checked(&mut b, || Ok(7))).unwrap(), 7);
    assert_eq!(ran(a.run_checked(&mut b, || Ok(9))).unwrap(), 9);
    let fv = b.fleet_view();
    assert_eq!(fv.vms[0].submissions, 2, "the panicking render was charged too");
    assert_eq!(fv.vms[1].submissions, 1);
}

#[test]
fn encoder_session_admission_is_fail_closed() {
    let cfg = BrokerConfig { max_enc_sessions: Some(1), ..Default::default() };
    let mut b = broker_with(cfg);
    let mut a = b.admit_vm(VmConfig::new("a", 1, 4_000), AdmitRequest::streaming(500)).unwrap();
    assert_eq!(b.fleet_view().enc_sessions_used, 1);
    let before = b.fleet_view().vram_used_mb;
    assert_eq!(
        b.admit_vm(VmConfig::new("b", 1, 4_000), AdmitRequest::streaming(500)).unwrap_err(),
        AdmitError::NoEncoderSession { cap: 1 }
    );
    assert_eq!(b.fleet_view().vram_used_mb, before, "denied admit must not reserve VRAM");
    let _c = b.admit_vm(VmConfig::new("c", 1, 4_000), AdmitRequest::vram(500)).unwrap();
    assert_eq!(b.fleet_view().enc_sessions_used, 1);
    a.reap(&mut b);
    assert_eq!(b.fleet_view().enc_sessions_used, 0);
    let _d = b.admit_vm(VmConfig::new("d", 1, 4_000), AdmitRequest::streaming(500)).unwrap();
    assert_eq!(b.fleet_view().enc_sessions_used, 1);
}

#[test]
fn unlimited_encoder_sessions_never_deny() {
    let mut b = broker_with(BrokerConfig::default());
    let mut held = Vec::new();
    for i in 0..5 {
        held.push(
            b.admit_vm(VmConfig::new(&format!("vm{i}"), 1, 4_000), AdmitRequest::streaming(100))
                .unwrap(),
        );
    }
    let fv = b.fleet_view();
    assert_eq!(fv.enc_sessions_used, 5);
    assert_eq!(fv.max_enc_sessions, None);
}

#[test]
fn bare_u64_admit_claims_no_encoder_session() {
    let cfg = BrokerConfig { max_enc_sessions: Some(1), ..Default::default() };
    let mut b = broker_with(cfg);
    let _a = b.admit_vm(VmConfig::new("a", 1, 4_000), 1_000).unwrap();
    let _c = b.admit_vm(VmConfig::new("c", 1, 4_000), 1_000).unwrap();
    assert_eq!(b.fleet_view().enc_sessions_used, 0, "vram-only admits hold no session");
}

#[test]
fn adjust_vram_trues_up_and_is_fail_closed() {
    let cfg = BrokerConfig { total_vram_mb: 10_000, vram_reserve_mb: 1_000, ..Default::default() };
    let mut b = broker_with(cfg);
    let _a = b.admit_vm(VmConfig::new("a", 1, 9_000), 256).unwrap();
    assert_eq!(b.adjust_vram("a", 2_000).unwrap(), 2_000);
    assert_eq!(b.fleet_view().vram_used_mb, 2_000);
    let _c = b.admit_vm(VmConfig::new("c", 1, 9_000), 6_500).unwrap();
    let err = b.adjust_vram("a", 3_000).unwrap_err();
    assert!(matches!(err, AdmitError::InsufficientVram { .. }));
    assert_eq!(b.fleet_view().vram_used_mb, 8_500, "rejected true-up must not change the ledger");
    assert_eq!(b.adjust_vram("a", 500).unwrap(), 500);
    assert_eq!(b.fleet_view().vram_used_mb, 7_000);
    assert!(b.adjust_vram("ghost", 100).is_err());
}

#[test]
fn scanout_vram_estimate_is_overflow_safe_and_rounds_up() {
    assert_eq!(scanout_vram_estimate_mb(1920, 1080, 3), 24);
    assert_eq!(scanout_vram_estimate_mb(16, 16, 1), 1);
    assert_eq!(scanout_vram_estimate_mb(1920, 1080, 0), scanout_vram_estimate_mb(1920, 1080, 1));
    assert!(scanout_vram_estimate_mb(u32::MAX, u32::MAX, 3) > 0);
}

#[test]
fn scanout_estimate_saturates_at_the_largest_number_of_bytes() {
    assert_eq!(scanout_vram_estimate_mb(u32::MAX, u32::MAX, 3), 1 << 44);
    assert_eq!(scanout_vram_estimate_mb(0, 1080, 3), 0);
    assert_eq!(scanout_vram_estimate_mb(1024, 256, 1), 1);
    assert_eq!(scanout_vram_estimate_mb(1024, 257, 1), 2);
}

#[test]
fn weight_zero_counts_as_one() {
    let c = VmConfig::new("a", 0, 5);
    assert_eq!((c.weight, c.vram_cap_mb, c.priority), (1, 5, PriorityTier::Normal));
}

#[test]
fn default_policy() {
    let c = BrokerConfig::default();
    assert_eq!(c.total_vram_mb, 24 * 1024);
    assert_eq!(c.vram_reserve_mb, 1024);
    assert_eq!(c.max_concurrent_gpu_vms, 16);
    assert_eq!(c.refill_us_per_s_per_weight, 200_000);
    assert_eq!(c.bucket_burst_us, 50_000);
    assert_eq!(c.min_refill_us_per_s, 20_000);
    assert_eq!(c.watchdog_us, 2_000_000);
    assert_eq!(c.max_enc_sessions, None);
}

#[test]
fn refusals_in_words() {
    assert_eq!(AdmitError::AtConcurrencyCap { cap: 16 }.message(), "at concurrent-GPU-VM cap (16)");
    assert_eq!(
        AdmitError::InsufficientVram { requested_mb: 2000, available_mb: 10 }.message(),
        "insufficient VRAM: requested 2000 MB, 10 MB free"
    );
    assert_eq!(
        AdmitError::ExceedsVmCap { requested_mb: 7, cap_mb: 0 }.message(),
        "requested 7 MB exceeds VM cap 0 MB"
    );
    assert_eq!(AdmitError::AlreadyAdmitted.message(), "VM already admitted");
    assert_eq!(
        AdmitError::NoEncoderSession { cap: 3 }.message(),
        "no free NVENC session (3 in use \u{2014} host encode cap)"
    );
}

#[test]
fn an_empty_bucket_throttles_until_it_is_refilled() {
    let cfg = BrokerConfig {
        bucket_burst_us: 1_000,
        refill_us_per_s_per_weight: 100_000,
        min_refill_us_per_s: 0,
        ..Default::default()
    };
    let mut b = broker_with(cfg);
    let vm = b.admit_vm(VmConfig::new("a", 1, 100), 1).unwrap();
    assert_eq!(b.begin("a"), Ok(Begin::Ready));
    b.record("a", 2_000);
    // One millisecond short, at a tenth of a second per second: 2000 us back takes 20 ms.
    assert_eq!(b.begin("a"), Ok(Begin::Throttled { wait_us: 20_000 }));
    assert_eq!(b.fleet_view().vms[0].tokens_us, -1_000);
    match vm.run(&mut b, || Ok(5)) {
        Attempt::Throttled { sleep_us, render } => {
            assert_eq!(sleep_us, 20_000);
            assert_eq!(render(), Ok::<i32, RenderPanic>(5));
        }
        Attempt::Finished(_) => panic!("ran without budget"),
    }
    assert_eq!(b.fleet_view().vms[0].throttle_events, 2);
    b.clock_mut().advance_us(20_000);
    assert_eq!(b.begin("a"), Ok(Begin::Ready));
    assert_eq!(b.fleet_view().vms[0].tokens_us, 1_000);
    assert_eq!(b.begin("ghost"), Err(NotAdmitted));
}

#[test]
fn a_long_wait_is_slept_in_pieces() {
    let cfg = BrokerConfig {
        bucket_burst_us: 1_000,
        refill_us_per_s_per_weight: 1_000,
        min_refill_us_per_s: 0,
        ..Default::default()
    };
    let mut b = broker_with(cfg);
    let vm = b.admit_vm(VmConfig::new("a", 1, 100), 1).unwrap();
    b.record("a", 1_000);
    match vm.run(&mut b, || Ok(())) {
        Attempt::Throttled { sleep_us, .. } => assert_eq!(sleep_us, MAX_SLEEP_US),
        Attempt::Finished(_) => panic!("ran without budget"),
    }
}

#[test]
fn charging_moves_every_counter() {
    let mut b = broker_with(BrokerConfig::default());
    let _a = b
        .admit_vm(VmConfig::new("a", 2, 100).with_priority(PriorityTier::Interactive), 1)
        .unwrap();
    b.record("a", 3_000);
    let v = &b.fleet_view().vms[0];
    assert_eq!(v.tokens_us, 47_000);
    assert_eq!(v.gpu_time_used_us, 3_000);
    assert_eq!(v.vruntime_us, 1_000);
    assert_eq!((v.submissions, v.throttle_events, v.watchdog_trips), (1, 0, 0));
    b.record("ghost", 1);
    assert_eq!(b.fleet_view().vms.len(), 1);
}

#[test]
fn rows_come_in_the_order_of_names() {
    let mut b = broker_with(BrokerConfig::default());
    for id in ["b", "a\u{e9}", "", "aa", "a", "z"] {
        b.admit_vm(VmConfig::new(id, 1, 100), 1).unwrap();
    }
    let names: Vec<String> = b.fleet_view().vms.into_iter().map(|v| v.vm_id).collect();
    let mut sorted = names.clone();
    sorted.sort();
    assert_eq!(names, sorted);
    assert_eq!(names.len(), 6);
}

#[test]
fn the_ledger_is_the_sum_of_the_rows() {
    let mut b = broker_with(BrokerConfig::default());
    for (id, mb) in [("x", 5), ("y", 700), ("z", 31)] {
        b.admit_vm(VmConfig::new(id, 1, 1_000), mb).unwrap();
    }
    b.adjust_vram("y", 9).unwrap();
    b.release("x");
    b.release("x");
    let fv = b.fleet_view();
    let sum: u64 = fv.vms.iter().map(|v| v.vram_reserved_mb).sum();
    assert_eq!((fv.vram_used_mb, sum), (40, 40));
    assert_eq!(fv.vram_free_mb, 23 * 1024 - 40);
    assert_eq!(b.config().max_concurrent_gpu_vms, 16);
}

#[test]
fn numbers_out_of_range_are_seen_before_they_are_used() {
    let cfg = BrokerConfig { refill_us_per_s_per_weight: u64::MAX, ..Default::default() };
    let mut b = broker_with(cfg);
    b.admit_vm(VmConfig::new("a", 1, 100), 1).unwrap();
    assert!(b.can_begin_at("a", 0));
    assert!(!b.can_begin_at("a", 1));
    assert!(b.can_begin_at("ghost", 1));
    assert!(b.can_record("a", 5));
    b.record("a", 5);
    assert!(!b.can_record("a", u64::MAX));
}

#[test]
fn settling_charges_the_measured_time() {
    let mut b = broker_with(BrokerConfig::default());
    b.admit_vm(VmConfig::new("a", 1, 100), 1).unwrap();
    assert_eq!(b.settle("a", 100, 350, Ok(1)), Ok(1));
    assert_eq!(b.settle::<i32>("a", 350, 100, Err(RenderPanic)), Err(RunError::Panicked));
    let v = &b.fleet_view().vms[0];
    assert_eq!((v.gpu_time_used_us, v.submissions), (250, 2));
}

#[test]
fn the_manual_clock_moves_when_told() {
    let mut c = ManualClock::default();
    assert_eq!(c.now_us(), 0);
    c.advance_us(7);
    c.advance_us(u64::MAX);
    assert_eq!(c.now_us(), 6);
}

#[test]
fn the_real_clock_does_not_go_back() {
    let b = GpuBroker::with_real_clock(BrokerConfig::default());
    let t = b.clock().now_us();
    assert!(b.clock().now_us() >= t);
    assert!(t < 60_000_000);
}

#[test]
fn run_serializes_and_accounts_on_the_real_clock() {
    let mut b = GpuBroker::with_real_clock(BrokerConfig::default());
    let t = b.admit_vm(VmConfig::new("a", 1, 4_000), 1_000).unwrap();
    let out = b.run_checked(t.vm_id(), || {
        let start = std::time::Instant::now();
        while start.elapsed() < std::time::Duration::from_millis(2) {
            std::hint::spin_loop();
        }
        Ok(42)
    });
    assert_eq!(ran(out).unwrap(), 42);
    let s = &b.fleet_view().vms[0];
    assert_eq!(s.submissions, 1);
    assert!(s.gpu_time_used_us >= 1_000, "~2ms debited, got {}", s.gpu_time_used_us);
}

#[test]
fn an_attempt_out_of_range_says_so() {
    let cfg = BrokerConfig { refill_us_per_s_per_weight: u64::MAX, ..Default::default() };
    let mut b = broker_with(cfg);
    b.admit_vm(VmConfig::new("a", 1, 100), 1).unwrap();
    assert!(matches!(b.run_checked("ghost", || Ok(1)), Checked::Attempt(Attempt::Finished(Err(_)))));
    assert!(matches!(b.run_checked("a", || Ok(1)), Checked::Attempt(Attempt::Finished(Ok(1)))));
    b.clock_mut().advance_us(1);
    let before = b.fleet_view().vms[0].submissions;
    assert!(matches!(b.run_checked("a", || Ok(1)), Checked::CannotBegin { .. }));
    assert_eq!(b.fleet_view().vms[0].submissions, before);
}

#[test]
fn an_attempt_without_budget_says_how_long_to_sleep() {
    let cfg = BrokerConfig { bucket_burst_us: 1_000, ..Default::default() };
    let mut b = broker_with(cfg);
    b.admit_vm(VmConfig::new("a", 1, 100), 1).unwrap();
    b.record("a", 5_000);
    match b.run_checked("a", || Ok(1)) {
        Checked::Attempt(Attempt::Throttled { sleep_us, .. }) => {
            assert!(0 < sleep_us && sleep_us <= MAX_SLEEP_US);
        }
        _ => panic!("a wait was expected"),
    }
    assert_eq!(b.fleet_view().vms[0].throttle_events, 1);
}

#[test]
fn asking_says_whether_to_run_or_how_long_to_sleep() {
    let cfg = BrokerConfig {
        bucket_burst_us: 1_000,
        refill_us_per_s_per_weight: 100_000,
        min_refill_us_per_s: 0,
        ..Default::default()
    };
    let mut b = broker_with(cfg);
    b.admit_vm(VmConfig::new("a", 1, 100), 1).unwrap();
    assert_eq!(b.ask_at("ghost", 0), Asked::NotAdmitted);
    assert_eq!(b.ask_at("a", 0), Asked::Run);
    assert!(matches!(b.settle_checked("a", 0, 2_000, Ok(3)), Settled::Charged(Ok(3))));
    assert_eq!(b.ask_at("a", 0), Asked::Sleep { us: 20_000 });
    b.record("a", 1_000_000);
    assert_eq!(b.ask_at("a", 0), Asked::Sleep { us: MAX_SLEEP_US });
    let out: Result<u8, RenderPanic> = Err(RenderPanic);
    assert!(matches!(b.settle_checked("a", 0, u64::MAX, out), Settled::OutOfRange(Err(_))));

    let cfg = BrokerConfig { refill_us_per_s_per_weight: u64::MAX, ..Default::default() };
    let mut b = broker_with(cfg);
    b.admit_vm(VmConfig::new("a", 1, 100), 1).unwrap();
    assert_eq!(b.ask_at("a", 1), Asked::OutOfRange);
}

#[test]
fn a_time_that_cannot_be_charged_is_reported() {
    let mut b = broker_with(BrokerConfig::default());
    b.admit_vm(VmConfig { weight: 0, ..VmConfig::new("a", 1, 100) }, 1).unwrap();
    match b.run_checked("a", || Ok(7)) {
        Checked::CannotCharge { out } => assert_eq!(out, Ok(7)),
        _ => panic!("a render that cannot be charged was expected"),
    }
    assert_eq!(b.fleet_view().vms[0].submissions, 0);
}

#[test]
fn a_reservation_never_grows_past_the_cap_of_its_vm() {
    let mut b = broker_with(BrokerConfig::default());
    let a = b.admit_vm(VmConfig::new("a", 1, 1_500), 1_000).unwrap();
    assert_eq!(
        b.adjust_vram("a", 2_000),
        Err(AdmitError::ExceedsVmCap { requested_mb: 2_000, cap_mb: 1_500 })
    );
    assert_eq!(b.fleet_view().vms[0].vram_reserved_mb, 1_000);
    assert_eq!(b.fleet_view().vram_used_mb, 1_000);
    assert_eq!(a.adjust_vram(&mut b, 1_500), Ok(1_500));
    assert_eq!(a.adjust_vram(&mut b, 10), Ok(10));
}

/// An account with an empty bucket.
fn empty_account(cfg: &BrokerConfig, weight: u32) -> VmAccount {
    let req = AdmitRequest::vram(1);
    let mut a = VmAccount::open_account(cfg, weight, PriorityTier::Normal, 1, req, 0);
    a.tokens_us = 0;
    a
}

#[test]
fn the_floor_holds_however_often_a_bucket_is_refilled() {
    let cfg = BrokerConfig {
        min_refill_us_per_s: 50_000,
        refill_us_per_s_per_weight: 1,
        bucket_burst_us: 1_000_000,
        ..Default::default()
    };
    let mut often = empty_account(&cfg, 1);
    for t in 1..=100_000 {
        often.refill(t * 10, &cfg);
    }
    assert_eq!(often.tokens_us, 50_000);
    let mut once = empty_account(&cfg, 1);
    once.refill(1_000_000, &cfg);
    assert_eq!((once.tokens_us, once.carry), (often.tokens_us, often.carry));
}

#[test]
fn what_rounding_leaves_is_kept() {
    let cfg = BrokerConfig {
        min_refill_us_per_s: 0,
        refill_us_per_s_per_weight: 300_000,
        bucket_burst_us: 1_000,
        ..Default::default()
    };
    let mut a = empty_account(&cfg, 1);
    a.refill(3, &cfg);
    assert_eq!((a.tokens_us, a.carry), (0, 900_000));
    a.refill(4, &cfg);
    assert_eq!((a.tokens_us, a.carry), (1, 200_000));
}

#[test]
fn the_bucket_stays_within_its_numbers() {
    let cfg = BrokerConfig { bucket_burst_us: u64::MAX, ..Default::default() };
    let mut a = empty_account(&cfg, u32::MAX);
    a.tokens_us = i64::MIN;
    a.charge(u64::MAX, &cfg);
    assert_eq!(a.tokens_us, i64::MIN);
    assert_eq!(a.begin(0, &cfg), Begin::Throttled { wait_us: 10_737_418_242 });
    a.refill(u64::MAX, &cfg);
    assert_eq!(a.tokens_us, i64::MAX);
    let b = VmAccount::open_account(&cfg, 1, PriorityTier::Normal, 1, AdmitRequest::vram(1), 0);
    assert_eq!(b.tokens_us, i64::MAX);
}
