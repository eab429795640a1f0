//! The statistic catalog: the static set of measurable quantities per data
//! source, each with a metric kind and a locator (a two-level lookup key into
//! a parsed text table, a kernel-probe table name, or both).

use vstd::prelude::*;
use vstd::string::StringSliceAdditionalSpecFns;

verus! {

/// What a statistic produces in the metrics registry.
#[derive(Clone, Copy, Debug, PartialEq, Eq, Structural)]
pub enum MetricKind {
    Counter,
    Gauge,
    Distribution,
}

/// Number of entries in the TCP catalog.
pub const TCP_CATALOG_LEN: usize = 7;

/// Number of entries in the CPU catalog.
pub const CPU_CATALOG_LEN: usize = 5;

/// The TCP source's statistics. Immutable, defined at build time; a statistic
/// is located either by a (heading, column) pair into a parsed `/proc`-style
/// table, by a kernel-probe table name, or by both.
#[derive(Clone, Copy, Debug, PartialEq, Eq, Hash, Structural)]
pub enum TcpStatistic {
    ConnectionInitiated,
    ConnectionAccepted,
    SegmentsRetransmitted,
    ListenDrops,
    SegmentsReceived,
    CurrentEstablished,
    ConnectLatency,
}

impl TcpStatistic {
    /// Position of this statistic in the catalog's deterministic order.
    pub open spec fn spec_index(self) -> int {
        match self {
            TcpStatistic::ConnectionInitiated => 0,
            TcpStatistic::ConnectionAccepted => 1,
            TcpStatistic::SegmentsRetransmitted => 2,
            TcpStatistic::ListenDrops => 3,
            TcpStatistic::SegmentsReceived => 4,
            TcpStatistic::CurrentEstablished => 5,
            TcpStatistic::ConnectLatency => 6,
        }
    }

    pub open spec fn spec_kind(self) -> MetricKind {
        match self {
            TcpStatistic::ConnectionInitiated => MetricKind::Counter,
            TcpStatistic::ConnectionAccepted => MetricKind::Counter,
            TcpStatistic::SegmentsRetransmitted => MetricKind::Counter,
            TcpStatistic::ListenDrops => MetricKind::Counter,
            TcpStatistic::SegmentsReceived => MetricKind::Counter,
            TcpStatistic::CurrentEstablished => MetricKind::Gauge,
            TcpStatistic::ConnectLatency => MetricKind::Distribution,
        }
    }

    /// The (heading, column) lookup key into a parsed nested text table, as
    /// byte strings, for statistics read from `/proc`-style files.
    pub open spec fn spec_keys(self) -> Option<(Seq<u8>, Seq<u8>)> {
        match self {
            TcpStatistic::ConnectionInitiated => Some(
                ("Tcp".spec_bytes(), "ActiveOpens".spec_bytes()),
            ),
            TcpStatistic::ConnectionAccepted => Some(
                ("Tcp".spec_bytes(), "PassiveOpens".spec_bytes()),
            ),
            TcpStatistic::SegmentsRetransmitted => Some(
                ("Tcp".spec_bytes(), "RetransSegs".spec_bytes()),
            ),
            TcpStatistic::ListenDrops => Some(
                ("TcpExt".spec_bytes(), "ListenDrops".spec_bytes()),
            ),
            TcpStatistic::SegmentsReceived => Some(
                ("Tcp".spec_bytes(), "InSegs".spec_bytes()),
            ),
            TcpStatistic::CurrentEstablished => Some(
                ("Tcp".spec_bytes(), "CurrEstab".spec_bytes()),
            ),
            TcpStatistic::ConnectLatency => None,
        }
    }

    /// The kernel-probe table a statistic is drained from, if any.
    pub open spec fn spec_table(self) -> Option<Seq<u8>> {
        match self {
            TcpStatistic::SegmentsReceived => Some("rx_segs".spec_bytes()),
            TcpStatistic::ConnectLatency => Some("connlat".spec_bytes()),
            _ => None,
        }
    }

    pub fn index(&self) -> (i: usize)
        ensures
            i as int == self.spec_index(),
            i < TCP_CATALOG_LEN,
    {
        match self {
            TcpStatistic::ConnectionInitiated => 0,
            TcpStatistic::ConnectionAccepted => 1,
            TcpStatistic::SegmentsRetransmitted => 2,
            TcpStatistic::ListenDrops => 3,
            TcpStatistic::SegmentsReceived => 4,
            TcpStatistic::CurrentEstablished => 5,
            TcpStatistic::ConnectLatency => 6,
        }
    }

    pub fn kind(&self) -> (k: MetricKind)
        ensures
            k == self.spec_kind(),
    {
        match self {
            TcpStatistic::ConnectionInitiated => MetricKind::Counter,
            TcpStatistic::ConnectionAccepted => MetricKind::Counter,
            TcpStatistic::SegmentsRetransmitted => MetricKind::Counter,
            TcpStatistic::ListenDrops => MetricKind::Counter,
            TcpStatistic::SegmentsReceived => MetricKind::Counter,
            TcpStatistic::CurrentEstablished => MetricKind::Gauge,
            TcpStatistic::ConnectLatency => MetricKind::Distribution,
        }
    }

    pub fn keys(&self) -> (r: Option<(&'static str, &'static str)>)
        ensures
            match r {
                Some(p) => self.spec_keys() == Some((p.0.spec_bytes(), p.1.spec_bytes())),
                None => self.spec_keys() is None,
            },
    {
        match self {
            TcpStatistic::ConnectionInitiated => Some(("Tcp", "ActiveOpens")),
            TcpStatistic::ConnectionAccepted => Some(("Tcp", "PassiveOpens")),
            TcpStatistic::SegmentsRetransmitted => Some(("Tcp", "RetransSegs")),
            TcpStatistic::ListenDrops => Some(("TcpExt", "ListenDrops")),
            TcpStatistic::SegmentsReceived => Some(("Tcp", "InSegs")),
            TcpStatistic::CurrentEstablished => Some(("Tcp", "CurrEstab")),
            TcpStatistic::ConnectLatency => None,
        }
    }

    pub fn table(&self) -> (r: Option<&'static str>)
        ensures
            match r {
                Some(t) => self.spec_table() == Some(t.spec_bytes()),
                None => self.spec_table() is None,
            },
    {
        match self {
            TcpStatistic::SegmentsReceived => Some("rx_segs"),
            TcpStatistic::ConnectLatency => Some("connlat"),
            _ => None,
        }
    }

    /// The full catalog in its deterministic iteration order.
    pub open spec fn spec_all() -> Seq<TcpStatistic> {
        seq![
            TcpStatistic::ConnectionInitiated,
            TcpStatistic::ConnectionAccepted,
            TcpStatistic::SegmentsRetransmitted,
            TcpStatistic::ListenDrops,
            TcpStatistic::SegmentsReceived,
            TcpStatistic::CurrentEstablished,
            TcpStatistic::ConnectLatency,
        ]
    }

    pub fn all() -> (r: Vec<TcpStatistic>)
        ensures
            r@ == Self::spec_all(),
    {
        let r: Vec<TcpStatistic> = vec![
            TcpStatistic::ConnectionInitiated,
            TcpStatistic::ConnectionAccepted,
            TcpStatistic::SegmentsRetransmitted,
            TcpStatistic::ListenDrops,
            TcpStatistic::SegmentsReceived,
            TcpStatistic::CurrentEstablished,
            TcpStatistic::ConnectLatency,
        ];
        proof {
            assert(r@ =~= Self::spec_all());
        }
        r
    }

    /// Every statistic in the catalog is reachable: it carries a lookup key,
    /// a probe-table name, or both.
    pub proof fn lemma_catalog_locators()
        ensures
            forall|s: TcpStatistic| s.spec_keys() is Some || s.spec_table() is Some,
    {
        assert forall|s: TcpStatistic| s.spec_keys() is Some || s.spec_table() is Some by {
            match s {
                TcpStatistic::ConnectLatency => {
                    assert(s.spec_table() is Some);
                },
                _ => {
                    assert(s.spec_keys() is Some);
                },
            }
        }
    }

    /// Each statistic sits at its own index of the catalog.
    pub proof fn lemma_catalog_indexes()
        ensures
            Self::spec_all().len() == TCP_CATALOG_LEN,
            forall|i: int|
                0 <= i < TCP_CATALOG_LEN ==> (#[trigger] Self::spec_all()[i]).spec_index() == i,
    {
    }
}

/// The CPU source's statistics: processor-time counters read from a text
/// table, and cache activity counters read from hardware event tables.
#[derive(Clone, Copy, Debug, PartialEq, Eq, Hash, Structural)]
pub enum CpuStatistic {
    UsageUser,
    UsageSystem,
    UsageIdle,
    CacheMisses,
    CacheReferences,
}

impl CpuStatistic {
    pub open spec fn spec_kind(self) -> MetricKind {
        MetricKind::Counter
    }

    pub open spec fn spec_keys(self) -> Option<(Seq<u8>, Seq<u8>)> {
        match self {
            CpuStatistic::UsageUser => Some(("cpu".spec_bytes(), "user".spec_bytes())),
            CpuStatistic::UsageSystem => Some(("cpu".spec_bytes(), "system".spec_bytes())),
            CpuStatistic::UsageIdle => Some(("cpu".spec_bytes(), "idle".spec_bytes())),
            CpuStatistic::CacheMisses => None,
            CpuStatistic::CacheReferences => None,
        }
    }

    /// The hardware event table a statistic is read from, if any.
    pub open spec fn spec_table(self) -> Option<Seq<u8>> {
        match self {
            CpuStatistic::CacheMisses => Some("cache_miss".spec_bytes()),
            CpuStatistic::CacheReferences => Some("cache_access".spec_bytes()),
            _ => None,
        }
    }

    pub fn kind(&self) -> (k: MetricKind)
        ensures
            k == self.spec_kind(),
    {
        MetricKind::Counter
    }

    pub fn keys(&self) -> (r: Option<(&'static str, &'static str)>)
        ensures
            match r {
                Some(p) => self.spec_keys() == Some((p.0.spec_bytes(), p.1.spec_bytes())),
                None => self.spec_keys() is None,
            },
    {
        match self {
            CpuStatistic::UsageUser => Some(("cpu", "user")),
            CpuStatistic::UsageSystem => Some(("cpu", "system")),
            CpuStatistic::UsageIdle => Some(("cpu", "idle")),
            CpuStatistic::CacheMisses => None,
            CpuStatistic::CacheReferences => None,
        }
    }

    pub fn table(&self) -> (r: Option<&'static str>)
        ensures
            match r {
                Some(t) => self.spec_table() == Some(t.spec_bytes()),
                None => self.spec_table() is None,
            },
    {
        match self {
            CpuStatistic::CacheMisses => Some("cache_miss"),
            CpuStatistic::CacheReferences => Some("cache_access"),
            _ => None,
        }
    }

    /// The full catalog in its deterministic iteration order.
    pub open spec fn spec_all() -> Seq<CpuStatistic> {
        seq![
            CpuStatistic::UsageUser,
            CpuStatistic::UsageSystem,
            CpuStatistic::UsageIdle,
            CpuStatistic::CacheMisses,
            CpuStatistic::CacheReferences,
        ]
    }

    pub fn all() -> (r: Vec<CpuStatistic>)
        ensures
            r@ == Self::spec_all(),
    {
        let r: Vec<CpuStatistic> = vec![
            CpuStatistic::UsageUser,
            CpuStatistic::UsageSystem,
            CpuStatistic::UsageIdle,
            CpuStatistic::CacheMisses,
            CpuStatistic::CacheReferences,
        ];
        proof {
            assert(r@ =~= Self::spec_all());
        }
        r
    }
}

} // verus!
