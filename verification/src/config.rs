//! Per-source sampler configuration: enabled flag, interval override,
//! percentile cut points, the probe-mode flag, and the selection of active
//! statistics.
//!
//! A configuration value is an immutable snapshot: a reload replaces the
//! whole value, so a reader never observes a half-updated mixture. Percentile
//! cut points are kept in hundredths of a percent (`5000` is the median), so
//! they stay exact integers.

use vstd::prelude::*;

use crate::error::AgentError;
use crate::stat::{CpuStatistic, TcpStatistic};

verus! {

/// Cut points must be strictly increasing and lie strictly between 0 and
/// 100 percent (exclusive), in hundredths of a percent.
pub open spec fn percentiles_valid(ps: Seq<u64>) -> bool {
    forall|i: int, j: int|
        0 <= i <= j < ps.len() ==> 0 < #[trigger] ps[i] <= #[trigger] ps[j] < 10000 && (i < j
            ==> ps[i] < ps[j])
}

pub open spec fn spec_default_percentiles() -> Seq<u64> {
    seq![100u64, 1000u64, 5000u64, 9000u64, 9900u64]
}

/// The process-wide default percentile cut points: p1, p10, p50, p90, p99.
pub fn default_percentiles() -> (r: Vec<u64>)
    ensures
        r@ == spec_default_percentiles(),
        percentiles_valid(r@),
{
    let r: Vec<u64> = vec![100, 1000, 5000, 9000, 9900];
    proof {
        assert(r@ =~= spec_default_percentiles());
    }
    r
}

/// Configuration of the TCP source.
#[derive(Debug)]
pub struct TcpConfig {
    enabled: bool,
    interval: Option<u64>,
    percentiles: Vec<u64>,
    bpf: bool,
    statistics: Vec<TcpStatistic>,
}

impl TcpConfig {
    pub closed spec fn spec_enabled(self) -> bool {
        self.enabled
    }

    pub closed spec fn spec_interval(self) -> Option<u64> {
        self.interval
    }

    pub closed spec fn spec_percentiles(self) -> Seq<u64> {
        self.percentiles@
    }

    pub closed spec fn spec_bpf(self) -> bool {
        self.bpf
    }

    /// The configured selection, before the probe-mode policy is applied.
    pub closed spec fn spec_configured(self) -> Seq<TcpStatistic> {
        self.statistics@
    }

    /// The active statistics: a statistic reachable only through a probe
    /// table is kept only when probe mode is on; every other configured
    /// statistic is kept, one with both locators through its lookup path.
    pub open spec fn spec_statistics(self) -> Seq<TcpStatistic> {
        self.spec_configured().filter(
            |s: TcpStatistic| s.spec_table() is None || self.spec_bpf() || s.spec_keys() is Some,
        )
    }

    pub open spec fn wf(self) -> bool {
        percentiles_valid(self.spec_percentiles())
    }

    /// Builds a configuration, rejecting out-of-range or unordered
    /// percentile cut points.
    pub fn new(
        enabled: bool,
        interval: Option<u64>,
        percentiles: Vec<u64>,
        bpf: bool,
        statistics: Vec<TcpStatistic>,
    ) -> (r: Result<TcpConfig, AgentError>)
        ensures
            percentiles_valid(percentiles@) ==> (r matches Ok(c) && c.spec_enabled() == enabled
                && c.spec_interval() == interval && c.spec_percentiles() == percentiles@
                && c.spec_bpf() == bpf && c.spec_configured() == statistics@ && c.wf()),
            !percentiles_valid(percentiles@) ==> (r matches Err(e) && e == AgentError::ConfigInvalid),
    {
        if !check_percentiles(&percentiles) {
            Err(AgentError::ConfigInvalid)
        } else {
            Ok(TcpConfig { enabled, interval, percentiles, bpf, statistics })
        }
    }

    pub fn enabled(&self) -> (r: bool)
        ensures
            r == self.spec_enabled(),
    {
        self.enabled
    }

    pub fn interval(&self) -> (r: Option<u64>)
        ensures
            r == self.spec_interval(),
    {
        self.interval
    }

    pub fn percentiles(&self) -> (r: &Vec<u64>)
        ensures
            r@ == self.spec_percentiles(),
    {
        &self.percentiles
    }

    pub fn bpf(&self) -> (r: bool)
        ensures
            r == self.spec_bpf(),
    {
        self.bpf
    }

    /// The two-tier filter over the configured selection: a statistic whose
    /// only locator is a kernel-probe table is included only when probe mode
    /// is on, every other statistic always.
    pub fn statistics(&self) -> (r: Vec<TcpStatistic>)
        ensures
            r@ == self.spec_statistics(),
    {
        let ghost pred = |s: TcpStatistic| s.spec_table() is None || self.spec_bpf()
            || s.spec_keys() is Some;
        let mut r: Vec<TcpStatistic> = Vec::new();
        let mut i: usize = 0;
        proof {
            assert(self.statistics@.take(0int).filter(pred) =~= Seq::<TcpStatistic>::empty())
                by {
                reveal(Seq::filter);
            }
        }
        while i < self.statistics.len()
            invariant
                i <= self.statistics.len(),
                r@ == self.statistics@.take(i as int).filter(pred),
                pred == (|s: TcpStatistic| s.spec_table() is None || self.spec_bpf()
                    || s.spec_keys() is Some),
            decreases self.statistics.len() - i,
        {
            let s = self.statistics[i];
            let keep = match s.table() {
                Some(_) => self.bpf || s.keys().is_some(),
                None => true,
            };
            proof {
                assert(self.statistics@.take(i + 1int).drop_last() =~= self.statistics@.take(
                    i as int,
                ));
                assert(self.statistics@.take(i + 1int).last() == self.statistics@[i as int]);
                reveal(Seq::filter);
            }
            if keep {
                r.push(s);
            }
            i += 1;
        }
        proof {
            assert(self.statistics@.take(self.statistics@.len() as int) =~= self.statistics@);
        }
        r
    }

    /// When probe mode is off, the active statistics exclude every statistic
    /// whose only locator is a probe table, and keep every statistic that has
    /// a lookup key; when it is on, every configured statistic is active; the
    /// configured order is preserved.
    pub proof fn lemma_statistics_policy(self)
        ensures
            forall|i: int|
                0 <= i < self.spec_statistics().len() ==> {
                    let s = #[trigger] self.spec_statistics()[i];
                    self.spec_configured().contains(s) && (s.spec_table() is Some
                        && s.spec_keys() is None ==> self.spec_bpf())
                },
            forall|i: int|
                0 <= i < self.spec_configured().len() && ((#[trigger] self.spec_configured()[
                    i
                ]).spec_table() is None || self.spec_bpf() || self.spec_configured()[
                    i
                ].spec_keys() is Some) ==> self.spec_statistics().contains(
                    self.spec_configured()[i],
                ),
    {
        let pred = |s: TcpStatistic| s.spec_table() is None || self.spec_bpf()
            || s.spec_keys() is Some;
        let conf = self.spec_configured();
        assert forall|i: int| 0 <= i < self.spec_statistics().len() implies {
            let s = #[trigger] self.spec_statistics()[i];
            conf.contains(s) && (s.spec_table() is Some && s.spec_keys() is None
                ==> self.spec_bpf())
        } by {
            conf.lemma_filter_pred(pred, i);
            Self::lemma_filter_subset(conf, pred, i);
        }
        assert forall|i: int|
            0 <= i < conf.len() && ((#[trigger] conf[i]).spec_table() is None || self.spec_bpf()
                || conf[i].spec_keys() is Some) implies self.spec_statistics().contains(
            conf[i],
        ) by {
            conf.lemma_filter_contains(pred, i);
        }
    }

    proof fn lemma_filter_subset(s: Seq<TcpStatistic>, pred: spec_fn(TcpStatistic) -> bool, i: int)
        requires
            0 <= i < s.filter(pred).len(),
        ensures
            s.contains(s.filter(pred)[i]),
        decreases s.len(),
    {
        reveal(Seq::filter);
        s.lemma_filter_len(pred);
        if s.len() > 0 {
            let rest = s.drop_last();
            if pred(s.last()) && i == s.filter(pred).len() - 1 {
                assert(s.filter(pred)[i] == s.last());
                assert(s[s.len() - 1] == s.last());
            } else {
                Self::lemma_filter_subset(rest, pred, i);
                let j = choose|j: int| 0 <= j < rest.len() && rest[j] == rest.filter(pred)[i];
                assert(s[j] == rest.filter(pred)[i]);
            }
        }
    }
}

impl Default for TcpConfig {
    /// Defaults: disabled, no interval override, the process-wide default
    /// percentiles, probe mode off, the full catalog selected.
    fn default() -> (r: Self)
        ensures
            !r.spec_enabled(),
            r.spec_interval() is None,
            r.spec_percentiles() == spec_default_percentiles(),
            !r.spec_bpf(),
            r.spec_configured() == TcpStatistic::spec_all(),
            r.wf(),
    {
        TcpConfig {
            enabled: false,
            interval: None,
            percentiles: default_percentiles(),
            bpf: false,
            statistics: TcpStatistic::all(),
        }
    }
}

/// Checks that cut points are strictly increasing and in range.
fn check_percentiles(ps: &Vec<u64>) -> (r: bool)
    ensures
        r == percentiles_valid(ps@),
{
    let mut i: usize = 0;
    let mut ok = true;
    while i < ps.len()
        invariant
            i <= ps.len(),
            ok == percentiles_valid(ps@.take(i as int)),
        decreases ps.len() - i,
    {
        let p = ps[i];
        let above = if i == 0 {
            true
        } else {
            ps[i - 1] < p
        };
        let good = ok && above && 0 < p && p < 10000;
        proof {
            if good {
                assert forall|a: int, b: int| 0 <= a <= b < ps@.take(i + 1int).len() implies 0
                    < #[trigger] ps@.take(i + 1int)[a] <= #[trigger] ps@.take(i + 1int)[b] < 10000
                    && (a < b ==> ps@.take(i + 1int)[a] < ps@.take(i + 1int)[b]) by {
                    if b < i {
                        assert(ps@.take(i as int)[a] == ps@.take(i + 1int)[a]);
                        assert(ps@.take(i as int)[b] == ps@.take(i + 1int)[b]);
                    } else {
                        if a < i {
                            assert(0 < ps@.take(i as int)[a]);
                            if a < i - 1 {
                                assert(ps@.take(i as int)[a] < ps@.take(i as int)[i - 1]);
                            }
                        }
                    }
                }
            } else {
                if ok && !(above && 0 < p && p < 10000) {
                    assert(!percentiles_valid(ps@.take(i + 1int))) by {
                        if !above && i > 0 {
                            assert(ps@.take(i + 1int)[i - 1] == ps@[i - 1]);
                            assert(ps@.take(i + 1int)[i as int] == ps@[i as int]);
                        } else {
                            assert(ps@.take(i + 1int)[i as int] == ps@[i as int]);
                        }
                    }
                }
                if !ok {
                    let (a, b) = choose|a: int, b: int|
                        0 <= a <= b < ps@.take(i as int).len() && !(0 < ps@.take(i as int)[a]
                            <= ps@.take(i as int)[b] < 10000 && (a < b ==> ps@.take(i as int)[a]
                            < ps@.take(i as int)[b]));
                    assert(ps@.take(i + 1int)[a] == ps@.take(i as int)[a]);
                    assert(ps@.take(i + 1int)[b] == ps@.take(i as int)[b]);
                    assert(!percentiles_valid(ps@.take(i + 1int)));
                }
            }
        }
        ok = good;
        i += 1;
    }
    proof {
        assert(ps@.take(ps@.len() as int) =~= ps@);
    }
    ok
}

/// Configuration of the CPU source. `perf_events` plays the probe-mode role:
/// it gates the statistics backed by hardware event tables.
#[derive(Debug)]
pub struct CpuConfig {
    enabled: bool,
    interval: Option<u64>,
    percentiles: Vec<u64>,
    perf_events: bool,
    statistics: Vec<CpuStatistic>,
}

impl CpuConfig {
    pub closed spec fn spec_enabled(self) -> bool {
        self.enabled
    }

    pub closed spec fn spec_interval(self) -> Option<u64> {
        self.interval
    }

    pub closed spec fn spec_percentiles(self) -> Seq<u64> {
        self.percentiles@
    }

    pub closed spec fn spec_perf_events(self) -> bool {
        self.perf_events
    }

    pub closed spec fn spec_configured(self) -> Seq<CpuStatistic> {
        self.statistics@
    }

    pub open spec fn spec_statistics(self) -> Seq<CpuStatistic> {
        self.spec_configured().filter(
            |s: CpuStatistic| s.spec_table() is None || self.spec_perf_events()
                || s.spec_keys() is Some,
        )
    }

    pub open spec fn wf(self) -> bool {
        percentiles_valid(self.spec_percentiles())
    }

    pub fn new(
        enabled: bool,
        interval: Option<u64>,
        percentiles: Vec<u64>,
        perf_events: bool,
        statistics: Vec<CpuStatistic>,
    ) -> (r: Result<CpuConfig, AgentError>)
        ensures
            percentiles_valid(percentiles@) ==> (r matches Ok(c) && c.spec_enabled() == enabled
                && c.spec_interval() == interval && c.spec_percentiles() == percentiles@
                && c.spec_perf_events() == perf_events && c.spec_configured() == statistics@
                && c.wf()),
            !percentiles_valid(percentiles@) ==> (r matches Err(e) && e == AgentError::ConfigInvalid),
    {
        if !check_percentiles(&percentiles) {
            Err(AgentError::ConfigInvalid)
        } else {
            Ok(CpuConfig { enabled, interval, percentiles, perf_events, statistics })
        }
    }

    pub fn enabled(&self) -> (r: bool)
        ensures
            r == self.spec_enabled(),
    {
        self.enabled
    }

    pub fn interval(&self) -> (r: Option<u64>)
        ensures
            r == self.spec_interval(),
    {
        self.interval
    }

    pub fn percentiles(&self) -> (r: &Vec<u64>)
        ensures
            r@ == self.spec_percentiles(),
    {
        &self.percentiles
    }

    pub fn perf_events(&self) -> (r: bool)
        ensures
            r == self.spec_perf_events(),
    {
        self.perf_events
    }

    /// The two-tier filter over the configured selection: a statistic whose
    /// only locator is a hardware event table is included only when
    /// `perf_events` is on, every other statistic always.
    pub fn statistics(&self) -> (r: Vec<CpuStatistic>)
        ensures
            r@ == self.spec_statistics(),
    {
        let ghost pred = |s: CpuStatistic| s.spec_table() is None || self.spec_perf_events()
            || s.spec_keys() is Some;
        let mut r: Vec<CpuStatistic> = Vec::new();
        let mut i: usize = 0;
        proof {
            assert(self.statistics@.take(0int).filter(pred) =~= Seq::<CpuStatistic>::empty())
                by {
                reveal(Seq::filter);
            }
        }
        while i < self.statistics.len()
            invariant
                i <= self.statistics.len(),
                r@ == self.statistics@.take(i as int).filter(pred),
                pred == (|s: CpuStatistic| s.spec_table() is None || self.spec_perf_events()
                    || s.spec_keys() is Some),
            decreases self.statistics.len() - i,
        {
            let s = self.statistics[i];
            let keep = match s.table() {
                Some(_) => self.perf_events || s.keys().is_some(),
                None => true,
            };
            proof {
                assert(self.statistics@.take(i + 1int).drop_last() =~= self.statistics@.take(
                    i as int,
                ));
                assert(self.statistics@.take(i + 1int).last() == self.statistics@[i as int]);
                reveal(Seq::filter);
            }
            if keep {
                r.push(s);
            }
            i += 1;
        }
        proof {
            assert(self.statistics@.take(self.statistics@.len() as int) =~= self.statistics@);
        }
        r
    }
}

impl Default for CpuConfig {
    /// Defaults: disabled, no interval override, the process-wide default
    /// percentiles, hardware event tables off, the full catalog selected.
    fn default() -> (r: Self)
        ensures
            !r.spec_enabled(),
            r.spec_interval() is None,
            r.spec_percentiles() == spec_default_percentiles(),
            !r.spec_perf_events(),
            r.spec_configured() == CpuStatistic::spec_all(),
            r.wf(),
    {
        CpuConfig {
            enabled: false,
            interval: None,
            percentiles: default_percentiles(),
            perf_events: false,
            statistics: CpuStatistic::all(),
        }
    }
}

} // verus!
