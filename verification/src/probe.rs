//! The kernel-probe manager's decision logic: the fixed attach plan and an
//! all-or-nothing attach session.
//!
//! The surrounding process owns the actual kernel instrumentation; it walks
//! the plan in order, performs each attachment, and reports each outcome
//! here. On the first failure the session orders every probe attached so far
//! detached, so no partial attachment ever survives.

use vstd::prelude::*;

verus! {

/// A handle token for a loaded-and-attached probe program, minted by the
/// surrounding process.
#[derive(Clone, Copy, Debug, PartialEq, Eq, Structural)]
pub struct ProbeHandle {
    pub id: u64,
}

/// One attachment point: the probe program's handler routine and the kernel
/// symbol it instruments.
pub struct AttachPoint {
    pub handler: &'static str,
    pub function: &'static str,
}

/// The attach plan's model: (handler, kernel symbol) name pairs.
pub open spec fn attach_point_model(p: AttachPoint) -> (Seq<char>, Seq<char>) {
    (p.handler@, p.function@)
}

/// The TCP source's fixed attach plan, in its deterministic order.
pub open spec fn spec_attach_plan() -> Seq<(Seq<char>, Seq<char>)> {
    seq![
        ("trace_connect"@, "tcp_v4_connect"@),
        ("trace_connect"@, "tcp_v6_connect"@),
        ("trace_tcp_rcv_state_process"@, "tcp_rcv_state_process"@),
    ]
}

/// The attach points of the TCP source's probe program: connect entry points
/// for both address families, then the state-processing routine. The order
/// is fixed so a failure is reproducible.
pub fn attach_plan() -> (r: Vec<AttachPoint>)
    ensures
        r@.map_values(|p: AttachPoint| attach_point_model(p)) == spec_attach_plan(),
{
    let r: Vec<AttachPoint> = vec![
        AttachPoint { handler: "trace_connect", function: "tcp_v4_connect" },
        AttachPoint { handler: "trace_connect", function: "tcp_v6_connect" },
        AttachPoint {
            handler: "trace_tcp_rcv_state_process",
            function: "tcp_rcv_state_process",
        },
    ];
    proof {
        assert(r@.map_values(|p: AttachPoint| attach_point_model(p)) =~= spec_attach_plan());
    }
    r
}

/// How probe initialization ended, as reported to a sampler's constructor.
#[derive(Clone, Copy, Debug, PartialEq, Eq, Structural)]
pub enum ProbeInitOutcome {
    /// No probe-backed statistic was active, so nothing was attempted.
    NotNeeded,
    /// Every attach point succeeded.
    Attached(ProbeHandle),
    /// Compilation or some attachment failed; nothing is left attached.
    Failed,
}

/// An in-progress all-or-nothing attach over a plan of `total` points.
pub struct AttachSession {
    total: usize,
    attached: usize,
    failed: bool,
}

impl AttachSession {
    pub closed spec fn spec_total(self) -> usize {
        self.total
    }

    /// How many probes are attached right now.
    pub closed spec fn spec_attached(self) -> usize {
        self.attached
    }

    pub closed spec fn spec_failed(self) -> bool {
        self.failed
    }

    pub open spec fn wf(self) -> bool {
        self.spec_attached() <= self.spec_total() && (self.spec_failed()
            ==> self.spec_attached() == 0)
    }

    pub open spec fn in_progress(self) -> bool {
        !self.spec_failed() && self.spec_attached() < self.spec_total()
    }

    pub open spec fn complete(self) -> bool {
        !self.spec_failed() && self.spec_attached() == self.spec_total()
    }

    /// Starts a session over a plan of `total` attach points.
    pub fn begin(total: usize) -> (r: AttachSession)
        ensures
            r.wf(),
            r.spec_total() == total,
            r.spec_attached() == 0,
            !r.spec_failed(),
    {
        AttachSession { total, attached: 0, failed: false }
    }

    /// The index of the next point to attach, in plan order; `None` once the
    /// session has failed or finished.
    pub fn next_index(&self) -> (r: Option<usize>)
        ensures
            self.in_progress() ==> r == Some(self.spec_attached()),
            !self.in_progress() ==> r is None,
    {
        if !self.failed && self.attached < self.total {
            Some(self.attached)
        } else {
            None
        }
    }

    /// Records that the next attachment succeeded.
    pub fn note_attached(&mut self)
        requires
            old(self).wf(),
            old(self).in_progress(),
        ensures
            final(self).wf(),
            final(self).spec_total() == old(self).spec_total(),
            final(self).spec_attached() == old(self).spec_attached() + 1,
            !final(self).spec_failed(),
    {
        self.attached = self.attached + 1;
    }

    /// Records that an attachment failed. The whole attach is abandoned:
    /// the returned count is how many already-attached probes the caller
    /// must detach, and afterwards the session holds none attached.
    pub fn note_failed(&mut self) -> (to_detach: usize)
        requires
            old(self).wf(),
            !old(self).spec_failed(),
        ensures
            final(self).wf(),
            final(self).spec_total() == old(self).spec_total(),
            final(self).spec_failed(),
            final(self).spec_attached() == 0,
            to_detach == old(self).spec_attached(),
    {
        let n = self.attached;
        self.attached = 0;
        self.failed = true;
        n
    }

    /// The constructor-facing outcome once the caller stops driving the
    /// session: a handle only when every point attached.
    pub fn outcome(&self, handle: ProbeHandle) -> (r: ProbeInitOutcome)
        requires
            self.wf(),
        ensures
            self.complete() ==> r == ProbeInitOutcome::Attached(handle),
            self.spec_failed() ==> r == ProbeInitOutcome::Failed,
            !self.complete() && !self.spec_failed() ==> r == ProbeInitOutcome::Failed,
    {
        if !self.failed && self.attached == self.total {
            ProbeInitOutcome::Attached(handle)
        } else {
            ProbeInitOutcome::Failed
        }
    }
}

} // verus!
