//! The metrics registry: one entry per catalog statistic, holding a
//! monotonic counter with its last-write timestamp, an instantaneous gauge,
//! or the bucketed observations of a distribution, kept with enough state
//! for a consumer to answer percentile queries later.
//!
//! The registry is plain sequential state; the surrounding process wraps it
//! in its own mutual exclusion when several sampler tasks share it. A write
//! of the wrong kind for a statistic is rejected with `TypeMismatch`, never
//! coerced.

use vstd::prelude::*;

use crate::error::AgentError;
use crate::stat::{MetricKind, TcpStatistic, TCP_CATALOG_LEN};

verus! {

/// Mathematical model of the registry: per catalog index, the counter state
/// `(cumulative value, timestamp)`, the gauge state `(value, timestamp)`, and
/// the distribution observations `(timestamp, bucket value, occurrence
/// count)` in arrival order.
pub ghost struct RegistryModel {
    pub counters: Seq<Option<(u64, u64)>>,
    pub gauges: Seq<Option<(u64, u64)>>,
    pub distributions: Seq<Seq<(u64, u64, u64)>>,
}

/// What a counter entry becomes when `(value, time)` is recorded over `prev`:
/// the first write is stored; a later-timestamped write replaces the entry;
/// a duplicate or out-of-order write (timestamp not newer) is a no-op.
pub open spec fn counter_after(prev: Option<(u64, u64)>, time: u64, value: u64) -> Option<
    (u64, u64),
> {
    match prev {
        None => Some((value, time)),
        Some((v0, t0)) => if time > t0 {
            Some((value, time))
        } else {
            Some((v0, t0))
        },
    }
}

impl RegistryModel {
    pub open spec fn wf(self) -> bool {
        &&& self.counters.len() == TCP_CATALOG_LEN
        &&& self.gauges.len() == TCP_CATALOG_LEN
        &&& self.distributions.len() == TCP_CATALOG_LEN
    }

    pub open spec fn spec_record_counter(self, s: TcpStatistic, time: u64, value: u64) -> Self {
        if s.spec_kind() == MetricKind::Counter {
            RegistryModel {
                counters: self.counters.update(
                    s.spec_index(),
                    counter_after(self.counters[s.spec_index()], time, value),
                ),
                gauges: self.gauges,
                distributions: self.distributions,
            }
        } else {
            self
        }
    }

    pub open spec fn spec_record_gauge(self, s: TcpStatistic, time: u64, value: u64) -> Self {
        if s.spec_kind() == MetricKind::Gauge {
            RegistryModel {
                counters: self.counters,
                gauges: self.gauges.update(s.spec_index(), Some((value, time))),
                distributions: self.distributions,
            }
        } else {
            self
        }
    }

    pub open spec fn spec_record_bucket(self, s: TcpStatistic, time: u64, value: u64, count: u64) -> Self {
        if s.spec_kind() == MetricKind::Distribution {
            RegistryModel {
                counters: self.counters,
                gauges: self.gauges,
                distributions: self.distributions.update(
                    s.spec_index(),
                    self.distributions[s.spec_index()].push((time, value, count)),
                ),
            }
        } else {
            self
        }
    }
}

/// Recording a counter is idempotent: recording the same
/// `(statistic, timestamp, value)` triple twice leaves the same entry as
/// recording it once.
pub proof fn lemma_counter_record_idempotent(
    m: RegistryModel,
    s: TcpStatistic,
    time: u64,
    value: u64,
)
    requires
        m.wf(),
    ensures
        m.spec_record_counter(s, time, value).spec_record_counter(s, time, value)
            == m.spec_record_counter(s, time, value),
{
    let once = m.spec_record_counter(s, time, value);
    let twice = once.spec_record_counter(s, time, value);
    if s.spec_kind() == MetricKind::Counter {
        assert(twice.counters =~= once.counters);
        assert(twice.gauges =~= once.gauges);
        assert(twice.distributions =~= once.distributions);
    }
}

/// The shared metrics store, keyed by a statistic's catalog index.
pub struct Registry {
    counters: Vec<Option<(u64, u64)>>,
    gauges: Vec<Option<(u64, u64)>>,
    distributions: Vec<Vec<(u64, u64, u64)>>,
}

impl View for Registry {
    type V = RegistryModel;

    closed spec fn view(&self) -> RegistryModel {
        RegistryModel {
            counters: self.counters@,
            gauges: self.gauges@,
            distributions: self.distributions@.map_values(|v: Vec<(u64, u64, u64)>| v@),
        }
    }
}

impl Registry {
    /// An empty registry: no counter or gauge has been written and every
    /// distribution has no observations.
    pub fn new() -> (r: Registry)
        ensures
            r@.wf(),
            forall|i: int| 0 <= i < TCP_CATALOG_LEN ==> r@.counters[i] is None,
            forall|i: int| 0 <= i < TCP_CATALOG_LEN ==> r@.gauges[i] is None,
            forall|i: int| 0 <= i < TCP_CATALOG_LEN ==> (#[trigger] r@.distributions[i]).len() == 0,
    {
        let counters: Vec<Option<(u64, u64)>> = vec![None; TCP_CATALOG_LEN];
        let gauges: Vec<Option<(u64, u64)>> = vec![None; TCP_CATALOG_LEN];
        let mut distributions: Vec<Vec<(u64, u64, u64)>> = Vec::new();
        let mut i: usize = 0;
        while i < TCP_CATALOG_LEN
            invariant
                i <= TCP_CATALOG_LEN,
                distributions@.len() == i,
                forall|j: int| 0 <= j < i ==> (#[trigger] distributions@[j])@.len() == 0,
            decreases TCP_CATALOG_LEN - i,
        {
            distributions.push(Vec::new());
            i += 1;
        }
        let r = Registry { counters, gauges, distributions };
        proof {
            assert forall|j: int| 0 <= j < TCP_CATALOG_LEN implies (
            #[trigger] r@.distributions[j]).len() == 0 by {
                assert(r@.distributions[j] == r.distributions@[j]@);
            }
        }
        r
    }

    /// Stores the OS-reported cumulative value for a counter statistic at
    /// `time`; duplicate or out-of-order writes for the same entry are no-ops.
    /// A write against a non-counter statistic is rejected with
    /// `TypeMismatch` and changes nothing.
    pub fn record_counter(&mut self, s: TcpStatistic, time: u64, value: u64) -> (r: Result<
        (),
        AgentError,
    >)
        requires
            old(self)@.wf(),
        ensures
            final(self)@.wf(),
            final(self)@ == old(self)@.spec_record_counter(s, time, value),
            r matches Ok(()) <==> s.spec_kind() == MetricKind::Counter,
            (r matches Err(e) ==> e == AgentError::TypeMismatch),
    {
        if !matches!(s.kind(), MetricKind::Counter) {
            return Err(AgentError::TypeMismatch);
        }
        let idx = s.index();
        let next = match self.counters[idx] {
            None => Some((value, time)),
            Some((v0, t0)) => if time > t0 {
                Some((value, time))
            } else {
                Some((v0, t0))
            },
        };
        self.counters.set(idx, next);
        proof {
            let target = old(self)@.spec_record_counter(s, time, value);
            assert(self@.counters =~= target.counters);
            assert(self@.gauges =~= target.gauges);
            assert(self@.distributions =~= target.distributions);
        }
        Ok(())
    }

    /// Stores the instantaneous value for a gauge statistic at `time`; the
    /// last write wins. A write against a non-gauge statistic is rejected
    /// with `TypeMismatch` and changes nothing.
    pub fn record_gauge(&mut self, s: TcpStatistic, time: u64, value: u64) -> (r: Result<
        (),
        AgentError,
    >)
        requires
            old(self)@.wf(),
        ensures
            final(self)@.wf(),
            final(self)@ == old(self)@.spec_record_gauge(s, time, value),
            r matches Ok(()) <==> s.spec_kind() == MetricKind::Gauge,
            (r matches Err(e) ==> e == AgentError::TypeMismatch),
    {
        if !matches!(s.kind(), MetricKind::Gauge) {
            return Err(AgentError::TypeMismatch);
        }
        let idx = s.index();
        self.gauges.set(idx, Some((value, time)));
        proof {
            let target = old(self)@.spec_record_gauge(s, time, value);
            assert(self@.counters =~= target.counters);
            assert(self@.gauges =~= target.gauges);
            assert(self@.distributions =~= target.distributions);
        }
        Ok(())
    }

    /// Folds `count` observations of `value` into a distribution statistic's
    /// running summary. A write against a non-distribution statistic is
    /// rejected with `TypeMismatch` and changes nothing.
    pub fn record_bucket(&mut self, s: TcpStatistic, time: u64, value: u64, count: u64) -> (r:
        Result<(), AgentError>)
        requires
            old(self)@.wf(),
        ensures
            final(self)@.wf(),
            final(self)@ == old(self)@.spec_record_bucket(s, time, value, count),
            r matches Ok(()) <==> s.spec_kind() == MetricKind::Distribution,
            (r matches Err(e) ==> e == AgentError::TypeMismatch),
    {
        if !matches!(s.kind(), MetricKind::Distribution) {
            return Err(AgentError::TypeMismatch);
        }
        let idx = s.index();
        self.distributions[idx].push((time, value, count));
        proof {
            let target = old(self)@.spec_record_bucket(s, time, value, count);
            assert(self@.counters =~= target.counters);
            assert(self@.gauges =~= target.gauges);
            assert forall|j: int| 0 <= j < TCP_CATALOG_LEN implies self@.distributions[j]
                == target.distributions[j] by {
                assert(self@.distributions[j] == self.distributions@[j]@);
            }
            assert(self@.distributions =~= target.distributions);
        }
        Ok(())
    }

    /// The stored cumulative value and timestamp of a counter statistic, or
    /// `None` if nothing has been recorded.
    pub fn counter(&self, s: TcpStatistic) -> (r: Option<(u64, u64)>)
        requires
            self@.wf(),
        ensures
            r == self@.counters[s.spec_index()],
    {
        self.counters[s.index()]
    }

    /// The stored value and timestamp of a gauge statistic, or `None`.
    pub fn gauge(&self, s: TcpStatistic) -> (r: Option<(u64, u64)>)
        requires
            self@.wf(),
        ensures
            r == self@.gauges[s.spec_index()],
    {
        self.gauges[s.index()]
    }

    /// The accumulated `(timestamp, bucket value, occurrence count)`
    /// observations of a distribution statistic, in arrival order.
    pub fn distribution(&self, s: TcpStatistic) -> (r: &Vec<(u64, u64, u64)>)
        requires
            self@.wf(),
        ensures
            r@ == self@.distributions[s.spec_index()],
    {
        &self.distributions[s.index()]
    }
}

} // verus!
