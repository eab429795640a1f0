//! The TCP sampler: construction under the fault-tolerance policy, the
//! per-tick sampling pass over the parsed text inputs, and the rate-limited
//! drain of kernel-probe tables.
//!
//! The surrounding process owns every file descriptor, clock reading and
//! kernel-probe call; it hands this module the file contents, the current
//! time in nanoseconds, and probe-table snapshots, and receives every
//! decision back: whether to spawn, whether probes are needed, when to open
//! a file, and when a drain is due.

use vstd::prelude::*;

use crate::config::TcpConfig;
use crate::error::AgentError;
use crate::parse::{lookup, parse, sections_model, spec_lookup, spec_parse, Section};
use crate::probe::{ProbeHandle, ProbeInitOutcome};
use crate::registry::{Registry, RegistryModel};
use crate::stat::{MetricKind, TcpStatistic};
use crate::BUCKET_SCALE;

verus! {

/// Process-wide settings shared by every sampler.
#[derive(Debug)]
pub struct General {
    /// Degrade and continue on construction failure instead of aborting.
    pub fault_tolerant: bool,
    /// The sampling window, in nanoseconds; probe tables are drained at most
    /// once per window.
    pub window: u64,
}

/// What a sampler shares with the agent: the process-wide settings and its
/// own source configuration, replaced wholesale on a reload.
#[derive(Debug)]
pub struct Common {
    pub general: General,
    pub tcp: TcpConfig,
}

/// A token for an open input file, minted by the surrounding process.
#[derive(Clone, Copy, Debug, PartialEq, Eq, Structural)]
pub struct FileHandle {
    pub id: u64,
}

/// One text input as the surrounding process read it this pass.
#[derive(Debug)]
pub enum InputRead {
    /// The input could not be opened or read.
    Unavailable,
    /// The input's full contents.
    Content(Vec<u8>),
}

/// A snapshot of one kernel-probe table: its name and its
/// `(bucket value, occurrence count)` pairs.
#[derive(Debug)]
pub struct ProbeTable {
    pub name: Vec<u8>,
    pub buckets: Vec<(u64, u64)>,
}

pub open spec fn probe_table_model(t: ProbeTable) -> (Seq<u8>, Seq<(u64, u64)>) {
    (t.name@, t.buckets@)
}

pub open spec fn tables_model(ts: Seq<ProbeTable>) -> Seq<(Seq<u8>, Seq<(u64, u64)>)> {
    ts.map_values(|t: ProbeTable| probe_table_model(t))
}

/// Whether the surrounding process read the probe tables this pass.
#[derive(Debug)]
pub enum ProbeRead {
    NotRead,
    Tables(Vec<ProbeTable>),
}

/// What one statistic's lookup does to the registry: a statistic without a
/// lookup key, or whose key is absent from the parsed input, changes
/// nothing; otherwise the value is recorded under the statistic's kind.
pub open spec fn lookup_record_step(
    m: RegistryModel,
    s: TcpStatistic,
    secs: Seq<(Seq<u8>, Seq<(Seq<u8>, u64)>)>,
    now: u64,
) -> RegistryModel {
    match s.spec_keys() {
        None => m,
        Some(k) => match spec_lookup(secs, k.0, k.1) {
            None => m,
            Some(v) => match s.spec_kind() {
                MetricKind::Counter => m.spec_record_counter(s, now, v),
                MetricKind::Gauge => m.spec_record_gauge(s, now, v),
                MetricKind::Distribution => m,
            },
        },
    }
}

/// The lookup recordings of a whole pass, applied in catalog-selection order.
pub open spec fn lookup_record_pass(
    m: RegistryModel,
    stats: Seq<TcpStatistic>,
    secs: Seq<(Seq<u8>, Seq<(Seq<u8>, u64)>)>,
    now: u64,
) -> RegistryModel
    decreases stats.len(),
{
    if stats.len() == 0 {
        m
    } else {
        lookup_record_step(lookup_record_pass(m, stats.drop_last(), secs, now), stats.last(), secs, now)
    }
}

/// One text input's contribution to the pass: nothing when the input was
/// unavailable or malformed, the lookup recordings otherwise.
pub open spec fn text_step(
    m: RegistryModel,
    stats: Seq<TcpStatistic>,
    input: InputRead,
    now: u64,
) -> RegistryModel {
    match input {
        InputRead::Unavailable => m,
        InputRead::Content(c) => match spec_parse(c@) {
            Some(secs) => lookup_record_pass(m, stats, secs, now),
            None => m,
        },
    }
}

/// The per-step failure of one text input, if any.
pub open spec fn text_step_error(input: InputRead) -> Option<AgentError> {
    match input {
        InputRead::Unavailable => Some(AgentError::InputUnavailable),
        InputRead::Content(c) => if spec_parse(c@) is None {
            Some(AgentError::ParseMalformed)
        } else {
            None
        },
    }
}

/// The first failure of the pass's text steps, if any; later steps run
/// regardless.
pub open spec fn spec_pass_error(snmp: InputRead, netstat: InputRead) -> Option<AgentError> {
    match text_step_error(snmp) {
        Some(e) => Some(e),
        None => text_step_error(netstat),
    }
}

/// The first table of a snapshot with the given name.
pub open spec fn find_table(
    ts: Seq<(Seq<u8>, Seq<(u64, u64)>)>,
    name: Seq<u8>,
) -> Option<Seq<(u64, u64)>>
    decreases ts.len(),
{
    if ts.len() == 0 {
        None
    } else if ts[0].0 == name {
        Some(ts[0].1)
    } else {
        find_table(ts.skip(1), name)
    }
}

/// Folding one table's buckets into a distribution: each pair with a
/// nonzero count is recorded at `now` with its bucket value scaled by
/// `BUCKET_SCALE`; a bucket value too large to scale is dropped.
pub open spec fn drain_buckets(
    m: RegistryModel,
    s: TcpStatistic,
    buckets: Seq<(u64, u64)>,
    now: u64,
) -> RegistryModel
    decreases buckets.len(),
{
    if buckets.len() == 0 {
        m
    } else {
        let m1 = drain_buckets(m, s, buckets.drop_last(), now);
        let b = buckets.last();
        if b.1 > 0 && b.0 <= u64::MAX / BUCKET_SCALE {
            m1.spec_record_bucket(s, now, (b.0 * BUCKET_SCALE) as u64, b.1)
        } else {
            m1
        }
    }
}

/// One statistic's drain: only a distribution statistic with a probe table
/// present in the snapshot contributes.
pub open spec fn drain_table_step(
    m: RegistryModel,
    s: TcpStatistic,
    ts: Seq<(Seq<u8>, Seq<(u64, u64)>)>,
    now: u64,
) -> RegistryModel {
    match s.spec_table() {
        None => m,
        Some(name) => if s.spec_kind() == MetricKind::Distribution {
            match find_table(ts, name) {
                Some(b) => drain_buckets(m, s, b, now),
                None => m,
            }
        } else {
            m
        },
    }
}

/// The drain of a whole snapshot over the active statistics.
pub open spec fn drain_pass(
    m: RegistryModel,
    stats: Seq<TcpStatistic>,
    ts: Seq<(Seq<u8>, Seq<(u64, u64)>)>,
    now: u64,
) -> RegistryModel
    decreases stats.len(),
{
    if stats.len() == 0 {
        m
    } else {
        drain_table_step(drain_pass(m, stats.drop_last(), ts, now), stats.last(), ts, now)
    }
}

/// The TCP sampler: its configuration snapshot, its probe handle, the time
/// of the last probe drain, its lazily opened input handles, and the
/// statistics selected at construction.
#[derive(Debug)]
pub struct Tcp {
    common: Common,
    bpf: Option<ProbeHandle>,
    bpf_last: u64,
    proc_net_snmp: Option<FileHandle>,
    proc_net_netstat: Option<FileHandle>,
    statistics: Vec<TcpStatistic>,
}

impl Tcp {
    pub closed spec fn spec_common(self) -> Common {
        self.common
    }

    pub closed spec fn spec_bpf(self) -> Option<ProbeHandle> {
        self.bpf
    }

    /// The time of the last probe-table drain, in nanoseconds.
    pub closed spec fn spec_bpf_last(self) -> u64 {
        self.bpf_last
    }

    pub closed spec fn spec_snmp_handle(self) -> Option<FileHandle> {
        self.proc_net_snmp
    }

    pub closed spec fn spec_netstat_handle(self) -> Option<FileHandle> {
        self.proc_net_netstat
    }

    /// The statistics selected at construction.
    pub closed spec fn spec_stats(self) -> Seq<TcpStatistic> {
        self.statistics@
    }

    /// A drain is due once a full window has passed since the last one.
    pub open spec fn spec_drain_due(self, now: u64) -> bool {
        now >= self.spec_bpf_last() + self.spec_common().general.window
    }

    /// Whether this source should be spawned at all.
    pub fn should_spawn(common: &Common) -> (r: bool)
        ensures
            r == common.tcp.spec_enabled(),
    {
        common.tcp.enabled()
    }

    /// Whether construction must attempt kernel-probe initialization: probe
    /// mode is on and some active statistic is probe-table-backed.
    pub fn needs_kernel_probes(common: &Common) -> (r: bool)
        ensures
            r == (common.tcp.spec_bpf() && exists|i: int|
                0 <= i < common.tcp.spec_statistics().len() && (#[trigger] common.tcp.spec_statistics()[i]).spec_table() is Some),
    {
        if !common.tcp.bpf() {
            return false;
        }
        let active = common.tcp.statistics();
        let mut i: usize = 0;
        while i < active.len()
            invariant
                common.tcp.spec_bpf(),
                i <= active@.len(),
                active@ == common.tcp.spec_statistics(),
                forall|j: int| 0 <= j < i ==> (#[trigger] active@[j]).spec_table() is None,
            decreases active@.len() - i,
        {
            if active[i].table().is_some() {
                return true;
            }
            i += 1;
        }
        false
    }

    /// Builds the sampler. A probe failure aborts construction with
    /// `ProbeInitFailed` unless the process is fault tolerant, in which case
    /// the sampler runs with probe-backed statistics absent.
    pub fn new(common: Common, probe: ProbeInitOutcome, now: u64) -> (r: Result<Tcp, AgentError>)
        ensures
            match r {
                Ok(t) => {
                    &&& (probe == ProbeInitOutcome::Failed ==> common.general.fault_tolerant)
                    &&& t.spec_common() == common
                    &&& t.spec_stats() == common.tcp.spec_statistics()
                    &&& (match probe {
                        ProbeInitOutcome::Attached(h) => t.spec_bpf() == Some(h),
                        _ => t.spec_bpf() is None,
                    })
                    &&& t.spec_bpf_last() == now
                    &&& t.spec_snmp_handle() is None
                    &&& t.spec_netstat_handle() is None
                },
                Err(e) => {
                    &&& e == AgentError::ProbeInitFailed
                    &&& probe == ProbeInitOutcome::Failed
                    &&& !common.general.fault_tolerant
                },
            },
    {
        let statistics = common.tcp.statistics();
        let bpf = match probe {
            ProbeInitOutcome::Attached(h) => Some(h),
            ProbeInitOutcome::NotNeeded => None,
            ProbeInitOutcome::Failed => {
                if !common.general.fault_tolerant {
                    return Err(AgentError::ProbeInitFailed);
                }
                None
            },
        };
        Ok(
            Tcp {
                common,
                bpf,
                bpf_last: now,
                proc_net_snmp: None,
                proc_net_netstat: None,
                statistics,
            },
        )
    }

    pub fn common(&self) -> (r: &Common)
        ensures
            *r == self.spec_common(),
    {
        &self.common
    }

    pub fn sampler_config(&self) -> (r: &TcpConfig)
        ensures
            *r == self.spec_common().tcp,
    {
        &self.common.tcp
    }

    pub fn enabled(&self) -> (r: bool)
        ensures
            r == self.spec_common().tcp.spec_enabled(),
    {
        self.common.tcp.enabled()
    }

    /// Replaces the shared settings wholesale, as a configuration reload
    /// does. Handles, the probe state and the selected statistics are kept.
    pub fn reload(&mut self, common: Common)
        ensures
            final(self).spec_common() == common,
            final(self).spec_bpf() == old(self).spec_bpf(),
            final(self).spec_bpf_last() == old(self).spec_bpf_last(),
            final(self).spec_snmp_handle() == old(self).spec_snmp_handle(),
            final(self).spec_netstat_handle() == old(self).spec_netstat_handle(),
            final(self).spec_stats() == old(self).spec_stats(),
    {
        self.common = common;
    }

    /// The wait before the next pass: the source's interval override, or the
    /// given process-wide default.
    pub fn tick_interval(&self, default_interval: u64) -> (r: u64)
        ensures
            r == match self.spec_common().tcp.spec_interval() {
                Some(v) => v,
                None => default_interval,
            },
    {
        match self.common.tcp.interval() {
            Some(v) => v,
            None => default_interval,
        }
    }

    /// Whether the lazily opened handle for the first text input is missing.
    pub fn needs_snmp_open(&self) -> (r: bool)
        ensures
            r == (self.spec_snmp_handle() is None),
    {
        self.proc_net_snmp.is_none()
    }

    /// Caches the handle the surrounding process opened; idempotent opens
    /// keep the handle across passes.
    pub fn note_snmp_open(&mut self, h: FileHandle)
        ensures
            final(self).spec_snmp_handle() == Some(h),
            final(self).spec_common() == old(self).spec_common(),
            final(self).spec_bpf() == old(self).spec_bpf(),
            final(self).spec_bpf_last() == old(self).spec_bpf_last(),
            final(self).spec_netstat_handle() == old(self).spec_netstat_handle(),
            final(self).spec_stats() == old(self).spec_stats(),
    {
        self.proc_net_snmp = Some(h);
    }

    /// Whether the lazily opened handle for the second text input is missing.
    pub fn needs_netstat_open(&self) -> (r: bool)
        ensures
            r == (self.spec_netstat_handle() is None),
    {
        self.proc_net_netstat.is_none()
    }

    pub fn note_netstat_open(&mut self, h: FileHandle)
        ensures
            final(self).spec_netstat_handle() == Some(h),
            final(self).spec_common() == old(self).spec_common(),
            final(self).spec_bpf() == old(self).spec_bpf(),
            final(self).spec_bpf_last() == old(self).spec_bpf_last(),
            final(self).spec_snmp_handle() == old(self).spec_snmp_handle(),
            final(self).spec_stats() == old(self).spec_stats(),
    {
        self.proc_net_netstat = Some(h);
    }

    /// Whether a probe-table drain is due, so the surrounding process knows
    /// when reading the tables is worthwhile.
    pub fn should_drain(&self, now: u64) -> (r: bool)
        ensures
            r == (self.spec_bpf() is Some && self.spec_drain_due(now)),
    {
        self.bpf.is_some() && now >= self.bpf_last && now - self.bpf_last
            >= self.common.general.window
    }

    /// One sampling pass. When the source is disabled the pass is a no-op
    /// that keeps every handle. Otherwise each text input is parsed and its
    /// lookups recorded, a failed input affecting only its own step; then,
    /// if tables were read and a full window has passed since the last
    /// drain, the snapshot is folded in and the drain time reset. The result
    /// is the first step failure, after every step has run.
    pub fn sample(
        &mut self,
        registry: &mut Registry,
        now: u64,
        snmp: &InputRead,
        netstat: &InputRead,
        probe: &ProbeRead,
    ) -> (r: Result<(), AgentError>)
        requires
            old(registry)@.wf(),
        ensures
            final(registry)@.wf(),
            !old(self).spec_common().tcp.spec_enabled() ==> {
                &&& *final(self) == *old(self)
                &&& final(registry)@ == old(registry)@
                &&& r matches Ok(())
            },
            old(self).spec_common().tcp.spec_enabled() ==> {
                let stats = old(self).spec_stats();
                let m1 = text_step(old(registry)@, stats, *snmp, now);
                let m2 = text_step(m1, stats, *netstat, now);
                &&& final(registry)@ == spec_drain_step(*old(self), m2, *probe, now)
                &&& final(self).spec_bpf_last() == spec_drained_at(*old(self), *probe, now)
                &&& final(self).spec_common() == old(self).spec_common()
                &&& final(self).spec_stats() == old(self).spec_stats()
                &&& final(self).spec_bpf() == old(self).spec_bpf()
                &&& final(self).spec_snmp_handle() == old(self).spec_snmp_handle()
                &&& final(self).spec_netstat_handle() == old(self).spec_netstat_handle()
                &&& (match spec_pass_error(*snmp, *netstat) {
                    Some(e) => r == Err::<(), AgentError>(e),
                    None => r == Ok::<(), AgentError>(()),
                })
            },
    {
        if !self.common.tcp.enabled() {
            return Ok(());
        }
        let ghost m0 = registry@;
        let mut first_err: Option<AgentError> = None;
        match snmp {
            InputRead::Unavailable => {
                first_err = Some(AgentError::InputUnavailable);
            },
            InputRead::Content(c) => {
                match parse(c.as_slice()) {
                    Ok(secs) => {
                        record_lookup_statistics(registry, &self.statistics, &secs, now);
                    },
                    Err(e) => {
                        first_err = Some(e);
                    },
                }
            },
        }
        let ghost m1 = registry@;
        match netstat {
            InputRead::Unavailable => {
                if first_err.is_none() {
                    first_err = Some(AgentError::InputUnavailable);
                }
            },
            InputRead::Content(c) => {
                match parse(c.as_slice()) {
                    Ok(secs) => {
                        record_lookup_statistics(registry, &self.statistics, &secs, now);
                    },
                    Err(e) => {
                        if first_err.is_none() {
                            first_err = Some(e);
                        }
                    },
                }
            },
        }
        match probe {
            ProbeRead::NotRead => {},
            ProbeRead::Tables(ts) => {
                if now >= self.bpf_last && now - self.bpf_last >= self.common.general.window {
                    if self.bpf.is_some() {
                        drain_into(registry, &self.statistics, ts, now);
                    }
                    self.bpf_last = now;
                }
            },
        }
        match first_err {
            None => Ok(()),
            Some(e) => Err(e),
        }
    }
}

/// What the drain step leaves in the registry: nothing changes unless
/// tables were read and the drain was due; the snapshot contributes only
/// when a probe handle is held.
pub open spec fn spec_drain_step(t: Tcp, m: RegistryModel, probe: ProbeRead, now: u64) -> RegistryModel {
    match probe {
        ProbeRead::NotRead => m,
        ProbeRead::Tables(ts) => if t.spec_drain_due(now) {
            if t.spec_bpf() is Some {
                drain_pass(m, t.spec_stats(), tables_model(ts@), now)
            } else {
                m
            }
        } else {
            m
        },
    }
}

/// The drain time after a pass: reset exactly when tables were read and the
/// drain was due.
pub open spec fn spec_drained_at(t: Tcp, probe: ProbeRead, now: u64) -> u64 {
    match probe {
        ProbeRead::NotRead => t.spec_bpf_last(),
        ProbeRead::Tables(ts) => if t.spec_drain_due(now) {
            now
        } else {
            t.spec_bpf_last()
        },
    }
}

/// Drain rate limiting: after a drain at `now1`, a second drain request
/// within the same window is a no-op: the registry and the drain time are
/// both left unchanged, whatever the second snapshot holds.
pub proof fn lemma_drain_rate_limited(
    t1: Tcp,
    t2: Tcp,
    m: RegistryModel,
    now1: u64,
    now2: u64,
    ts1: Vec<ProbeTable>,
    ts2: Vec<ProbeTable>,
)
    requires
        t2.spec_bpf_last() == spec_drained_at(t1, ProbeRead::Tables(ts1), now1),
        t1.spec_drain_due(now1),
        t2.spec_common().general.window == t1.spec_common().general.window,
        (now2 as int) < now1 + t1.spec_common().general.window,
    ensures
        !t2.spec_drain_due(now2),
        spec_drain_step(t2, m, ProbeRead::Tables(ts2), now2) == m,
        spec_drained_at(t2, ProbeRead::Tables(ts2), now2) == now1,
{
}

/// A statistic whose lookup key is absent from the parsed input is silently
/// skipped by the whole pass: its counter and gauge entries keep whatever a
/// previous pass recorded, whichever other statistics the pass records.
pub proof fn lemma_absent_key_retains_entry(
    m: RegistryModel,
    stats: Seq<TcpStatistic>,
    secs: Seq<(Seq<u8>, Seq<(Seq<u8>, u64)>)>,
    now: u64,
    s: TcpStatistic,
)
    requires
        m.wf(),
        match s.spec_keys() {
            Some(k) => spec_lookup(secs, k.0, k.1) is None,
            None => true,
        },
    ensures
        lookup_record_pass(m, stats, secs, now).wf(),
        lookup_record_pass(m, stats, secs, now).counters[s.spec_index()] == m.counters[s.spec_index()],
        lookup_record_pass(m, stats, secs, now).gauges[s.spec_index()] == m.gauges[s.spec_index()],
    decreases stats.len(),
{
    if stats.len() > 0 {
        lemma_absent_key_retains_entry(m, stats.drop_last(), secs, now, s);
        let m1 = lookup_record_pass(m, stats.drop_last(), secs, now);
        let t = stats.last();
        assert(t.spec_index() == s.spec_index() ==> t == s);
    }
}

/// Records every active statistic whose lookup key is present in the parsed
/// sections, following `lookup_record_pass`.
fn record_lookup_statistics(
    registry: &mut Registry,
    stats: &Vec<TcpStatistic>,
    secs: &Vec<Section>,
    now: u64,
)
    requires
        old(registry)@.wf(),
    ensures
        final(registry)@.wf(),
        final(registry)@ == lookup_record_pass(old(registry)@, stats@, sections_model(secs@), now),
{
    let ghost m0 = registry@;
    let ghost sm = sections_model(secs@);
    let mut i: usize = 0;
    while i < stats.len()
        invariant
            i <= stats@.len(),
            sm == sections_model(secs@),
            registry@.wf(),
            registry@ == lookup_record_pass(m0, stats@.take(i as int), sm, now),
        decreases stats@.len() - i,
    {
        proof {
            assert(stats@.take(i + 1int).drop_last() =~= stats@.take(i as int));
            assert(stats@.take(i + 1int).last() == stats@[i as int]);
        }
        let s = stats[i];
        match s.keys() {
            None => {},
            Some((outer, inner)) => {
                match lookup(secs, outer.as_bytes(), inner.as_bytes()) {
                    None => {},
                    Some(v) => {
                        match s.kind() {
                            MetricKind::Counter => {
                                let _ = registry.record_counter(s, now, v);
                            },
                            MetricKind::Gauge => {
                                let _ = registry.record_gauge(s, now, v);
                            },
                            MetricKind::Distribution => {},
                        }
                    },
                }
            },
        }
        i += 1;
    }
    proof {
        assert(stats@.take(stats@.len() as int) =~= stats@);
    }
}

/// The first table with the given name, as an index into the snapshot.
fn find_table_index(tables: &Vec<ProbeTable>, name: &[u8]) -> (r: Option<usize>)
    ensures
        match r {
            Some(k) => k < tables@.len() && find_table(tables_model(tables@), name@) == Some(
                tables@[k as int].buckets@,
            ),
            None => find_table(tables_model(tables@), name@) is None,
        },
{
    let ghost tf = |t: ProbeTable| probe_table_model(t);
    let ghost tm = tables_model(tables@);
    let mut i: usize = 0;
    proof {
        assert(tm.skip(0int) =~= tm);
    }
    while i < tables.len()
        invariant
            tf == (|t: ProbeTable| probe_table_model(t)),
            i <= tables@.len(),
            tm == tables_model(tables@),
            tables@.len() == tm.len(),
            find_table(tm, name@) == find_table(tm.skip(i as int), name@),
        decreases tables@.len() - i,
    {
        proof {
            assert(tm.skip(i as int)[0] == tm[i as int]);
            assert(tm.skip(i as int).skip(1) =~= tm.skip(i + 1int));
            assert(tm[i as int] == tf(tables@[i as int]));
            assert(tf(tables@[i as int]) == probe_table_model(tables@[i as int]));
        }
        if crate::parse::bytes_eq(tables[i].name.as_slice(), name) {
            return Some(i);
        }
        i += 1;
    }
    proof {
        assert(tm.skip(tm.len() as int).len() == 0);
    }
    None
}

/// Folds a probe-table snapshot into the registry, following `drain_pass`.
fn drain_into(registry: &mut Registry, stats: &Vec<TcpStatistic>, tables: &Vec<ProbeTable>, now: u64)
    requires
        old(registry)@.wf(),
    ensures
        final(registry)@.wf(),
        final(registry)@ == drain_pass(old(registry)@, stats@, tables_model(tables@), now),
{
    let ghost m0 = registry@;
    let ghost tm = tables_model(tables@);
    let mut i: usize = 0;
    while i < stats.len()
        invariant
            i <= stats@.len(),
            tm == tables_model(tables@),
            registry@.wf(),
            registry@ == drain_pass(m0, stats@.take(i as int), tm, now),
        decreases stats@.len() - i,
    {
        proof {
            assert(stats@.take(i + 1int).drop_last() =~= stats@.take(i as int));
            assert(stats@.take(i + 1int).last() == stats@[i as int]);
        }
        let s = stats[i];
        let is_dist = matches!(s.kind(), MetricKind::Distribution);
        match s.table() {
            None => {},
            Some(name) => {
                if is_dist {
                    match find_table_index(tables, name.as_bytes()) {
                        None => {},
                        Some(k) => {
                            let ghost ms = registry@;
                            let ghost buckets = tables@[k as int].buckets@;
                            let mut j: usize = 0;
                            while j < tables[k].buckets.len()
                                invariant
                                    k < tables@.len(),
                                    buckets == tables@[k as int].buckets@,
                                    j <= buckets.len(),
                                    registry@.wf(),
                                    registry@ == drain_buckets(ms, s, buckets.take(j as int), now),
                                decreases buckets.len() - j,
                            {
                                proof {
                                    assert(buckets.take(j + 1int).drop_last() =~= buckets.take(
                                        j as int,
                                    ));
                                    assert(buckets.take(j + 1int).last() == buckets[j as int]);
                                }
                                let b = tables[k].buckets[j];
                                if b.1 > 0 && b.0 <= u64::MAX / BUCKET_SCALE {
                                    let _ = registry.record_bucket(s, now, b.0 * BUCKET_SCALE, b.1);
                                }
                                j += 1;
                            }
                            proof {
                                assert(buckets.take(buckets.len() as int) =~= buckets);
                            }
                        },
                    }
                }
            },
        }
        i += 1;
    }
    proof {
        assert(stats@.take(stats@.len() as int) =~= stats@);
    }
}

} // verus!
