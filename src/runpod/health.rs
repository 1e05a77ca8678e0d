//! Outcomes of health probes.

use vstd::prelude::*;

verus! {

/// Health of one pod.
#[derive(Debug, Clone)]
pub struct HealthStatus {
    /// Provider identifier of the pod.
    pub pod_id: String,
    /// Name of the pod.
    pub pod_name: String,
    /// Whether the pod counts as healthy.
    pub healthy: bool,
    /// One probe per endpoint.
    pub checks: Vec<EndpointCheck>,
    /// Error, if the probe could not run.
    pub error: Option<String>,
}

/// Outcome of probing one endpoint.
#[derive(Debug, Clone)]
pub struct EndpointCheck {
    /// Port probed.
    pub port: u16,
    /// URL probed.
    pub url: String,
    /// Whether the endpoint answered as expected.
    pub healthy: bool,
    /// HTTP status, if one came back.
    pub status_code: Option<u16>,
    /// Response time in milliseconds, if measured.
    pub response_time_ms: Option<u64>,
    /// Error, if any.
    pub error: Option<String>,
}

/// Number of healthy probes.
pub open spec fn healthy_count(checks: Seq<EndpointCheck>) -> nat
    decreases checks.len(),
{
    if checks.len() == 0 {
        0
    } else {
        healthy_count(checks.drop_last()) + if checks.last().healthy { 1nat } else { 0nat }
    }
}

/// Number of probes with a measured response time.
pub open spec fn timed_count(checks: Seq<EndpointCheck>) -> nat
    decreases checks.len(),
{
    if checks.len() == 0 {
        0
    } else {
        timed_count(checks.drop_last()) + if checks.last().response_time_ms is Some { 1nat } else { 0nat }
    }
}

/// Sum of the measured response times.
pub open spec fn timed_sum(checks: Seq<EndpointCheck>) -> nat
    decreases checks.len(),
{
    if checks.len() == 0 {
        0
    } else {
        timed_sum(checks.drop_last()) + match checks.last().response_time_ms {
            Some(t) => t as nat,
            None => 0nat,
        }
    }
}

proof fn lemma_healthy_count_bound(checks: Seq<EndpointCheck>)
    ensures
        healthy_count(checks) <= checks.len(),
    decreases checks.len(),
{
    if checks.len() > 0 {
        lemma_healthy_count_bound(checks.drop_last());
    }
}

proof fn lemma_timed_count_bound(checks: Seq<EndpointCheck>)
    ensures
        timed_count(checks) <= checks.len(),
    decreases checks.len(),
{
    if checks.len() > 0 {
        lemma_timed_count_bound(checks.drop_last());
    }
}

impl HealthStatus {
    /// Whether every probe was healthy.
    pub fn all_endpoints_healthy(&self) -> (r: bool)
        ensures
            r == forall|i: int| 0 <= i < self.checks@.len() ==> #[trigger] self.checks@[i].healthy,
    {
        let mut i: usize = 0;
        while i < self.checks.len()
            invariant
                i <= self.checks@.len(),
                forall|j: int| 0 <= j < i ==> #[trigger] self.checks@[j].healthy,
            decreases self.checks@.len() - i,
        {
            if !self.checks[i].healthy {
                return false;
            }
            i = i + 1;
        }
        true
    }

    /// Number of healthy probes.
    pub fn healthy_endpoint_count(&self) -> (r: usize)
        ensures
            r == healthy_count(self.checks@),
    {
        let mut n: usize = 0;
        let mut i: usize = 0;
        while i < self.checks.len()
            invariant
                i <= self.checks@.len(),
                n == healthy_count(self.checks@.take(i as int)),
            decreases self.checks@.len() - i,
        {
            proof {
                assert(self.checks@.take(i as int + 1).drop_last() =~= self.checks@.take(i as int));
                lemma_healthy_count_bound(self.checks@.take(i as int));
            }
            if self.checks[i].healthy {
                n = n + 1;
            }
            i = i + 1;
        }
        assert(self.checks@.take(i as int) =~= self.checks@);
        n
    }

    /// Mean of the measured response times, rounded down; `None` when none
    /// was measured or their sum does not fit in a `u64`.
    pub fn average_response_time_ms(&self) -> (r: Option<u64>)
        ensures
            timed_count(self.checks@) == 0 ==> r is None,
            timed_count(self.checks@) > 0 && timed_sum(self.checks@) <= u64::MAX ==> r == Some(
                (timed_sum(self.checks@) / timed_count(self.checks@)) as u64,
            ),
            timed_sum(self.checks@) > u64::MAX ==> r is None,
    {
        let mut n: usize = 0;
        let mut sum: u64 = 0;
        let mut overflow = false;
        let mut i: usize = 0;
        while i < self.checks.len()
            invariant
                i <= self.checks@.len(),
                n == timed_count(self.checks@.take(i as int)),
                !overflow ==> sum == timed_sum(self.checks@.take(i as int)),
                overflow ==> timed_sum(self.checks@.take(i as int)) > u64::MAX,
            decreases self.checks@.len() - i,
        {
            proof {
                assert(self.checks@.take(i as int + 1).drop_last() =~= self.checks@.take(i as int));
                lemma_timed_count_bound(self.checks@.take(i as int));
            }
            match self.checks[i].response_time_ms {
                Some(t) => {
                    n = n + 1;
                    if !overflow {
                        match sum.checked_add(t) {
                            Some(s) => sum = s,
                            None => overflow = true,
                        }
                    }
                },
                None => {},
            }
            i = i + 1;
        }
        assert(self.checks@.take(i as int) =~= self.checks@);
        if n == 0 || overflow {
            None
        } else {
            Some(sum / (n as u64))
        }
    }
}

} // verus!
