use sampler_core::config::{default_percentiles, CpuConfig, TcpConfig};
use sampler_core::error::AgentError;
use sampler_core::registry::Registry;
use sampler_core::stat::{CpuStatistic, MetricKind, TcpStatistic};

#[test]
fn tcp_defaults() {
    let c = TcpConfig::default();
    assert!(!c.enabled());
    assert_eq!(c.interval(), None);
    assert!(!c.bpf());
    assert_eq!(c.percentiles(), &vec![100, 1000, 5000, 9000, 9900]);
    assert_eq!(c.statistics().len(), 6);
}

#[test]
fn cpu_defaults() {
    let c = CpuConfig::default();
    assert!(!c.enabled());
    assert_eq!(c.interval(), None);
    assert!(!c.perf_events());
    assert_eq!(c.statistics(), CpuStatistic::all()[0..3].to_vec());
}

#[test]
fn active_statistics_follow_probe_mode() {
    // A carries only a lookup key, B only a probe table, C both.
    let a = TcpStatistic::ConnectionInitiated;
    let b = TcpStatistic::ConnectLatency;
    let c = TcpStatistic::SegmentsReceived;
    let off = TcpConfig::new(true, None, default_percentiles(), false, vec![a, b, c]).unwrap();
    assert_eq!(off.statistics(), vec![a, c]);
    let on = TcpConfig::new(true, None, default_percentiles(), true, vec![a, b, c]).unwrap();
    assert_eq!(on.statistics(), vec![a, b, c]);
}

#[test]
fn cpu_statistics_follow_perf_events() {
    let all = CpuStatistic::all();
    let off = CpuConfig::new(true, None, default_percentiles(), false, all.clone()).unwrap();
    assert_eq!(
        off.statistics(),
        vec![CpuStatistic::UsageUser, CpuStatistic::UsageSystem, CpuStatistic::UsageIdle]
    );
    let on = CpuConfig::new(true, None, default_percentiles(), true, all.clone()).unwrap();
    assert_eq!(on.statistics(), all);
}

#[test]
fn bad_percentiles_are_config_invalid() {
    let stats = TcpStatistic::all();
    assert_eq!(
        TcpConfig::new(true, None, vec![0], false, stats.clone()).unwrap_err(),
        AgentError::ConfigInvalid
    );
    assert_eq!(
        TcpConfig::new(true, None, vec![100, 100], false, stats.clone()).unwrap_err(),
        AgentError::ConfigInvalid
    );
    assert_eq!(
        TcpConfig::new(true, None, vec![5000, 10000], false, stats).unwrap_err(),
        AgentError::ConfigInvalid
    );
}

#[test]
fn catalog_shapes() {
    assert_eq!(TcpStatistic::all().len(), 7);
    assert_eq!(
        TcpStatistic::ConnectionInitiated.keys(),
        Some(("Tcp", "ActiveOpens"))
    );
    assert_eq!(TcpStatistic::ConnectionInitiated.table(), None);
    assert_eq!(TcpStatistic::ConnectLatency.keys(), None);
    assert_eq!(TcpStatistic::ConnectLatency.table(), Some("connlat"));
    assert_eq!(TcpStatistic::SegmentsReceived.keys(), Some(("Tcp", "InSegs")));
    assert_eq!(TcpStatistic::SegmentsReceived.table(), Some("rx_segs"));
    assert_eq!(TcpStatistic::ConnectLatency.kind(), MetricKind::Distribution);
    assert_eq!(TcpStatistic::CurrentEstablished.kind(), MetricKind::Gauge);
    for (i, s) in TcpStatistic::all().iter().enumerate() {
        assert_eq!(s.index(), i);
        assert!(s.keys().is_some() || s.table().is_some());
    }
}

#[test]
fn counter_recording_is_idempotent() {
    let mut r = Registry::new();
    let s = TcpStatistic::ConnectionInitiated;
    r.record_counter(s, 40, 17).unwrap();
    assert_eq!(r.counter(s), Some((17, 40)));
    r.record_counter(s, 40, 17).unwrap();
    assert_eq!(r.counter(s), Some((17, 40)));
}

#[test]
fn out_of_order_counter_write_is_noop() {
    let mut r = Registry::new();
    let s = TcpStatistic::ConnectionAccepted;
    r.record_counter(s, 50, 8).unwrap();
    r.record_counter(s, 30, 99).unwrap();
    assert_eq!(r.counter(s), Some((8, 50)));
    r.record_counter(s, 60, 9).unwrap();
    assert_eq!(r.counter(s), Some((9, 60)));
}

#[test]
fn kind_mismatch_is_rejected() {
    let mut r = Registry::new();
    assert_eq!(
        r.record_counter(TcpStatistic::ConnectLatency, 1, 1).unwrap_err(),
        AgentError::TypeMismatch
    );
    assert_eq!(
        r.record_bucket(TcpStatistic::ConnectionInitiated, 1, 1, 1).unwrap_err(),
        AgentError::TypeMismatch
    );
    assert_eq!(
        r.record_gauge(TcpStatistic::ConnectionInitiated, 1, 1).unwrap_err(),
        AgentError::TypeMismatch
    );
    assert_eq!(r.counter(TcpStatistic::ConnectionInitiated), None);
    assert_eq!(r.distribution(TcpStatistic::ConnectLatency).len(), 0);
}

#[test]
fn gauge_last_write_wins() {
    let mut r = Registry::new();
    let s = TcpStatistic::CurrentEstablished;
    r.record_gauge(s, 10, 4).unwrap();
    r.record_gauge(s, 5, 2).unwrap();
    assert_eq!(r.gauge(s), Some((2, 5)));
}

#[test]
fn bucket_observations_accumulate() {
    let mut r = Registry::new();
    let s = TcpStatistic::ConnectLatency;
    r.record_bucket(s, 100, 7000, 2).unwrap();
    r.record_bucket(s, 100, 9000, 1).unwrap();
    assert_eq!(r.distribution(s), &vec![(100, 7000, 2), (100, 9000, 1)]);
}

#[test]
fn error_descriptions() {
    assert_eq!(AgentError::ConfigInvalid.describe(), "invalid configuration value");
    assert_eq!(
        AgentError::ProbeInitFailed.describe(),
        "kernel probe initialization failed"
    );
    assert_eq!(AgentError::InputUnavailable.describe(), "input unavailable");
    assert_eq!(AgentError::ParseMalformed.describe(), "malformed input");
    assert_eq!(AgentError::TypeMismatch.describe(), "metric kind mismatch");
}
