use sampler_core::config::{default_percentiles, TcpConfig};
use sampler_core::error::AgentError;
use sampler_core::probe::{attach_plan, AttachSession, ProbeHandle, ProbeInitOutcome};
use sampler_core::registry::Registry;
use sampler_core::sampler::{Common, FileHandle, General, InputRead, ProbeRead, ProbeTable, Tcp};
use sampler_core::stat::TcpStatistic;

fn common(enabled: bool, bpf: bool, fault_tolerant: bool, window: u64) -> Common {
    Common {
        general: General { fault_tolerant, window },
        tcp: TcpConfig::new(enabled, None, default_percentiles(), bpf, TcpStatistic::all())
            .unwrap(),
    }
}

fn snmp_two_line() -> InputRead {
    InputRead::Content(b"Tcp: ActiveOpens PassiveOpens\nTcp: 5 3\n".to_vec())
}

fn empty_input() -> InputRead {
    InputRead::Content(Vec::new())
}

#[test]
fn end_to_end_records_counter() {
    let mut t = Tcp::new(common(true, false, true, 10), ProbeInitOutcome::NotNeeded, 0).unwrap();
    let mut reg = Registry::new();
    let r = t.sample(&mut reg, 100, &snmp_two_line(), &empty_input(), &ProbeRead::NotRead);
    assert!(r.is_ok());
    assert_eq!(reg.counter(TcpStatistic::ConnectionInitiated), Some((5, 100)));
    assert_eq!(reg.counter(TcpStatistic::ConnectionAccepted), Some((3, 100)));
    assert_eq!(reg.counter(TcpStatistic::SegmentsRetransmitted), None);
}

#[test]
fn disabled_pass_is_noop_and_keeps_handles() {
    let mut t = Tcp::new(common(true, false, true, 10), ProbeInitOutcome::NotNeeded, 0).unwrap();
    let mut reg = Registry::new();
    assert!(t.needs_snmp_open());
    t.note_snmp_open(FileHandle { id: 7 });
    assert!(!t.needs_snmp_open());
    t.sample(&mut reg, 100, &snmp_two_line(), &empty_input(), &ProbeRead::NotRead).unwrap();
    assert_eq!(reg.counter(TcpStatistic::ConnectionInitiated), Some((5, 100)));

    t.reload(common(false, false, true, 10));
    let later = InputRead::Content(b"Tcp: ActiveOpens\nTcp: 999\n".to_vec());
    let r = t.sample(&mut reg, 200, &later, &empty_input(), &ProbeRead::NotRead);
    assert!(r.is_ok());
    assert_eq!(reg.counter(TcpStatistic::ConnectionInitiated), Some((5, 100)));
    assert!(!t.needs_snmp_open());

    t.reload(common(true, false, true, 10));
    t.sample(&mut reg, 300, &later, &empty_input(), &ProbeRead::NotRead).unwrap();
    assert_eq!(reg.counter(TcpStatistic::ConnectionInitiated), Some((999, 300)));
    assert!(!t.needs_snmp_open());
}

#[test]
fn absent_key_retains_previous_value() {
    let mut t = Tcp::new(common(true, false, true, 10), ProbeInitOutcome::NotNeeded, 0).unwrap();
    let mut reg = Registry::new();
    t.sample(&mut reg, 100, &snmp_two_line(), &empty_input(), &ProbeRead::NotRead).unwrap();
    let partial = InputRead::Content(b"Tcp: PassiveOpens\nTcp: 9\n".to_vec());
    t.sample(&mut reg, 200, &partial, &empty_input(), &ProbeRead::NotRead).unwrap();
    assert_eq!(reg.counter(TcpStatistic::ConnectionInitiated), Some((5, 100)));
    assert_eq!(reg.counter(TcpStatistic::ConnectionAccepted), Some((9, 200)));
}

#[test]
fn repeated_pass_with_same_reading_is_idempotent() {
    let mut t = Tcp::new(common(true, false, true, 10), ProbeInitOutcome::NotNeeded, 0).unwrap();
    let mut reg = Registry::new();
    t.sample(&mut reg, 100, &snmp_two_line(), &empty_input(), &ProbeRead::NotRead).unwrap();
    t.sample(&mut reg, 100, &snmp_two_line(), &empty_input(), &ProbeRead::NotRead).unwrap();
    assert_eq!(reg.counter(TcpStatistic::ConnectionInitiated), Some((5, 100)));
}

#[test]
fn unavailable_input_fails_only_its_step() {
    let mut t = Tcp::new(common(true, false, true, 10), ProbeInitOutcome::NotNeeded, 0).unwrap();
    let mut reg = Registry::new();
    let netstat = InputRead::Content(b"TcpExt: ListenDrops\nTcpExt: 4\n".to_vec());
    let r = t.sample(&mut reg, 100, &InputRead::Unavailable, &netstat, &ProbeRead::NotRead);
    assert_eq!(r.unwrap_err(), AgentError::InputUnavailable);
    assert_eq!(reg.counter(TcpStatistic::ListenDrops), Some((4, 100)));
}

#[test]
fn malformed_input_fails_only_its_step() {
    let mut t = Tcp::new(common(true, false, true, 10), ProbeInitOutcome::NotNeeded, 0).unwrap();
    let mut reg = Registry::new();
    let bad = InputRead::Content(b"no colon here\n".to_vec());
    let netstat = InputRead::Content(b"TcpExt: ListenDrops\nTcpExt: 4\n".to_vec());
    let r = t.sample(&mut reg, 100, &bad, &netstat, &ProbeRead::NotRead);
    assert_eq!(r.unwrap_err(), AgentError::ParseMalformed);
    assert_eq!(reg.counter(TcpStatistic::ListenDrops), Some((4, 100)));
}

#[test]
fn gauge_recorded_via_pass() {
    let mut t = Tcp::new(common(true, false, true, 10), ProbeInitOutcome::NotNeeded, 0).unwrap();
    let mut reg = Registry::new();
    let input = InputRead::Content(b"Tcp: CurrEstab\nTcp: 12\n".to_vec());
    t.sample(&mut reg, 100, &input, &empty_input(), &ProbeRead::NotRead).unwrap();
    assert_eq!(reg.gauge(TcpStatistic::CurrentEstablished), Some((12, 100)));
}

#[test]
fn dual_locator_statistic_active_without_probe_mode() {
    let mut t = Tcp::new(common(true, false, true, 10), ProbeInitOutcome::NotNeeded, 0).unwrap();
    let mut reg = Registry::new();
    let input = InputRead::Content(b"Tcp: InSegs\nTcp: 33\n".to_vec());
    t.sample(&mut reg, 100, &input, &empty_input(), &ProbeRead::NotRead).unwrap();
    assert_eq!(reg.counter(TcpStatistic::SegmentsReceived), Some((33, 100)));
}

fn one_table() -> ProbeRead {
    ProbeRead::Tables(vec![ProbeTable {
        name: b"connlat".to_vec(),
        buckets: vec![(7, 2), (9, 0)],
    }])
}

#[test]
fn drain_scales_buckets_and_skips_zero_counts() {
    let c = common(true, true, true, 10);
    let mut t = Tcp::new(c, ProbeInitOutcome::Attached(ProbeHandle { id: 1 }), 0).unwrap();
    let mut reg = Registry::new();
    assert!(!t.should_drain(5));
    assert!(t.should_drain(10));
    t.sample(&mut reg, 10, &empty_input(), &empty_input(), &one_table()).unwrap();
    assert_eq!(reg.distribution(TcpStatistic::ConnectLatency), &vec![(10, 7000, 2)]);
}

#[test]
fn second_drain_within_window_is_noop() {
    let c = common(true, true, true, 10);
    let mut t = Tcp::new(c, ProbeInitOutcome::Attached(ProbeHandle { id: 1 }), 0).unwrap();
    let mut reg = Registry::new();
    t.sample(&mut reg, 10, &empty_input(), &empty_input(), &one_table()).unwrap();
    assert_eq!(reg.distribution(TcpStatistic::ConnectLatency).len(), 1);
    assert!(!t.should_drain(15));
    t.sample(&mut reg, 15, &empty_input(), &empty_input(), &one_table()).unwrap();
    assert_eq!(reg.distribution(TcpStatistic::ConnectLatency).len(), 1);
    assert!(t.should_drain(20));
    t.sample(&mut reg, 20, &empty_input(), &empty_input(), &one_table()).unwrap();
    assert_eq!(
        reg.distribution(TcpStatistic::ConnectLatency),
        &vec![(10, 7000, 2), (20, 7000, 2)]
    );
}

#[test]
fn drain_without_handle_records_nothing() {
    let c = common(true, true, true, 10);
    let mut t = Tcp::new(c, ProbeInitOutcome::NotNeeded, 0).unwrap();
    let mut reg = Registry::new();
    t.sample(&mut reg, 10, &empty_input(), &empty_input(), &one_table()).unwrap();
    assert_eq!(reg.distribution(TcpStatistic::ConnectLatency).len(), 0);
}

#[test]
fn attach_failure_leaves_nothing_attached() {
    let plan = attach_plan();
    assert_eq!(plan.len(), 3);
    let mut session = AttachSession::begin(plan.len());
    assert_eq!(session.next_index(), Some(0));
    session.note_attached();
    assert_eq!(session.next_index(), Some(1));
    let to_detach = session.note_failed();
    assert_eq!(to_detach, 1);
    assert_eq!(session.next_index(), None);
    assert_eq!(
        session.outcome(ProbeHandle { id: 1 }),
        ProbeInitOutcome::Failed
    );
}

#[test]
fn attach_success_yields_handle() {
    let plan = attach_plan();
    let mut session = AttachSession::begin(plan.len());
    session.note_attached();
    session.note_attached();
    session.note_attached();
    assert_eq!(session.next_index(), None);
    assert_eq!(
        session.outcome(ProbeHandle { id: 9 }),
        ProbeInitOutcome::Attached(ProbeHandle { id: 9 })
    );
}

#[test]
fn attach_plan_is_fixed_and_ordered() {
    let plan = attach_plan();
    assert_eq!(plan[0].handler, "trace_connect");
    assert_eq!(plan[0].function, "tcp_v4_connect");
    assert_eq!(plan[1].handler, "trace_connect");
    assert_eq!(plan[1].function, "tcp_v6_connect");
    assert_eq!(plan[2].handler, "trace_tcp_rcv_state_process");
    assert_eq!(plan[2].function, "tcp_rcv_state_process");
}

#[test]
fn probe_failure_is_fatal_only_in_strict_mode() {
    let strict = common(true, true, false, 10);
    assert_eq!(
        Tcp::new(strict, ProbeInitOutcome::Failed, 0).unwrap_err(),
        AgentError::ProbeInitFailed
    );
    let tolerant = common(true, true, true, 10);
    let mut t = Tcp::new(tolerant, ProbeInitOutcome::Failed, 0).unwrap();
    let mut reg = Registry::new();
    t.sample(&mut reg, 100, &snmp_two_line(), &empty_input(), &ProbeRead::NotRead).unwrap();
    assert_eq!(reg.counter(TcpStatistic::ConnectionInitiated), Some((5, 100)));
    assert_eq!(reg.distribution(TcpStatistic::ConnectLatency).len(), 0);
}

#[test]
fn spawn_and_probe_decisions_follow_config() {
    assert!(Tcp::should_spawn(&common(true, false, true, 10)));
    assert!(!Tcp::should_spawn(&common(false, false, true, 10)));
    assert!(Tcp::needs_kernel_probes(&common(true, true, true, 10)));
    assert!(!Tcp::needs_kernel_probes(&common(true, false, true, 10)));
    let lookup_only = Common {
        general: General { fault_tolerant: true, window: 10 },
        tcp: TcpConfig::new(
            true,
            None,
            default_percentiles(),
            true,
            vec![TcpStatistic::ConnectionInitiated],
        )
        .unwrap(),
    };
    assert!(!Tcp::needs_kernel_probes(&lookup_only));
}

#[test]
fn tick_interval_prefers_override() {
    let mut c = common(true, false, true, 10);
    c.tcp = TcpConfig::new(true, Some(7), default_percentiles(), false, TcpStatistic::all())
        .unwrap();
    let t = Tcp::new(c, ProbeInitOutcome::NotNeeded, 0).unwrap();
    assert_eq!(t.tick_interval(42), 7);
    let d = Tcp::new(common(true, false, true, 10), ProbeInitOutcome::NotNeeded, 0).unwrap();
    assert_eq!(d.tick_interval(42), 42);
}
