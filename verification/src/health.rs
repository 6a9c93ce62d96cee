//! Health reporting: per-component probes and their aggregation into one
//! service status. Only an entirely failing set of components makes the
//! service unhealthy; a mixed set only degrades it.

use vstd::prelude::*;
use vstd::string::StringExecFns;

verus! {

/// One component's health probe result.
#[derive(Debug)]
pub struct ComponentHealth {
    /// Which component was probed.
    pub name: String,
    /// Whether the component answered healthy.
    pub healthy: bool,
    /// An optional detail message.
    pub message: Option<String>,
}

impl ComponentHealth {
    /// A healthy probe result for the named component.
    pub fn healthy(name: &str) -> (r: Self)
        ensures
            r.name@ == name@,
            r.healthy == true,
            r.message is None,
    {
        ComponentHealth { name: String::from_str(name), healthy: true, message: None }
    }

    /// An unhealthy probe result for the named component.
    pub fn unhealthy(name: &str, message: &str) -> (r: Self)
        ensures
            r.name@ == name@,
            r.healthy == false,
            r.message matches Some(m) && m@ == message@,
    {
        ComponentHealth {
            name: String::from_str(name),
            healthy: false,
            message: Some(String::from_str(message)),
        }
    }
}

/// The service's aggregated condition.
#[derive(Clone, Copy, Debug, PartialEq, Eq, Structural)]
pub enum HealthState {
    /// Every component is healthy.
    Healthy,
    /// Some components fail but some still answer.
    Degraded,
    /// Every component fails.
    Unhealthy,
}

/// True when every listed component is healthy.
pub open spec fn all_healthy(checks: Seq<ComponentHealth>) -> bool {
    forall|i: int| 0 <= i < checks.len() ==> (#[trigger] checks[i]).healthy
}

/// True when no listed component is healthy.
pub open spec fn none_healthy(checks: Seq<ComponentHealth>) -> bool {
    forall|i: int| 0 <= i < checks.len() ==> !(#[trigger] checks[i]).healthy
}

/// The aggregation rule: all healthy (or nothing to check) is healthy, a
/// mix is degraded, all failing is unhealthy.
pub open spec fn spec_aggregate(checks: Seq<ComponentHealth>) -> HealthState {
    if all_healthy(checks) {
        HealthState::Healthy
    } else if none_healthy(checks) {
        HealthState::Unhealthy
    } else {
        HealthState::Degraded
    }
}

/// The service's aggregated health report.
#[derive(Debug)]
pub struct HealthStatus {
    /// The aggregated condition.
    pub status: HealthState,
    /// Seconds the process has been up.
    pub uptime_secs: u64,
    /// The component probes the condition was aggregated from.
    pub checks: Vec<ComponentHealth>,
}

impl HealthStatus {
    /// Aggregates component probes and the process uptime into one
    /// report.
    pub fn from_checks(checks: Vec<ComponentHealth>, uptime_secs: u64) -> (r: Self)
        ensures
            r.status == spec_aggregate(checks@),
            r.uptime_secs == uptime_secs,
            r.checks@ == checks@,
    {
        let mut any_healthy = false;
        let mut any_failing = false;
        let mut i: usize = 0;
        while i < checks.len()
            invariant
                i <= checks@.len(),
                any_healthy == exists|j: int| 0 <= j < i && (#[trigger] checks@[j]).healthy,
                any_failing == exists|j: int| 0 <= j < i && !(#[trigger] checks@[j]).healthy,
            decreases checks@.len() - i,
        {
            if checks[i].healthy {
                any_healthy = true;
                proof {
                    assert(0 <= i < i + 1 && checks@[i as int].healthy);
                }
            } else {
                any_failing = true;
                proof {
                    assert(0 <= i < i + 1 && !checks@[i as int].healthy);
                }
            }
            proof {
                if any_healthy && !exists|j: int| 0 <= j < i + 1 && (#[trigger] checks@[j]).healthy
                    {
                    assert(false);
                }
                if any_failing && !exists|j: int|
                    0 <= j < i + 1 && !(#[trigger] checks@[j]).healthy {
                    assert(false);
                }
            }
            i = i + 1;
        }
        let status = if !any_failing {
            proof {
                assert forall|j: int| 0 <= j < checks@.len() implies (
                #[trigger] checks@[j]).healthy by {
                    if !checks@[j].healthy {
                        assert(exists|k: int| 0 <= k < checks@.len() && !(
                        #[trigger] checks@[k]).healthy);
                    }
                }
            }
            HealthState::Healthy
        } else if !any_healthy {
            proof {
                assert forall|j: int| 0 <= j < checks@.len() implies !(
                #[trigger] checks@[j]).healthy by {
                    if checks@[j].healthy {
                        assert(exists|k: int| 0 <= k < checks@.len() && (
                        #[trigger] checks@[k]).healthy);
                    }
                }
                let w = choose|j: int| 0 <= j < checks@.len() && !(#[trigger] checks@[j]).healthy;
                assert(!checks@[w].healthy);
            }
            HealthState::Unhealthy
        } else {
            proof {
                let w = choose|j: int| 0 <= j < checks@.len() && (#[trigger] checks@[j]).healthy;
                assert(checks@[w].healthy);
                let v = choose|j: int| 0 <= j < checks@.len() && !(#[trigger] checks@[j]).healthy;
                assert(!checks@[v].healthy);
            }
            HealthState::Degraded
        };
        HealthStatus { status, uptime_secs, checks }
    }
}

} // verus!
