//! The state that agents are told, the events that wake them, and the circuit breaker.
use vstd::prelude::*;
use crate::json::JsonObject;

verus! {

/// What monitors and the cluster say of a resource.
pub struct StateSnapshot {
    pub resource: ResourceInfo,
    pub monitors: JsonObject,
    pub k8s: K8sState,
    pub trigger: TriggerInfo,
}

/// What a resource asks for.
pub struct ResourceInfo {
    pub name: String,
    pub namespace: String,
    pub skill: String,
    pub goal: String,
    pub image: String,
}

/// What the cluster runs for a resource.
pub struct K8sState {
    pub pods: Vec<PodInfo>,
    pub statefulsets: Vec<StatefulSetInfo>,
}

/// A pod.
pub struct PodInfo {
    pub name: String,
    pub phase: String,
    pub ready: bool,
    pub restarts: u32,
}

/// A stateful set.
pub struct StatefulSetInfo {
    pub name: String,
    pub replicas: u32,
    pub ready_replicas: u32,
    pub memory_limit: Option<String>,
    pub cpu_limit: Option<String>,
}

/// Why an agent is woken.
pub struct TriggerInfo {
    pub source: String,
    pub reason: String,
    pub timestamp: String,
}

/// What drifted from the desired state.
pub struct DriftInfo {
    pub missing_resources: Vec<String>,
}

/// An event of a resource.
pub enum ResourceEvent {
    Bootstrap(StateSnapshot),
    MonitorTrigger(StateSnapshot),
    SpecChange(StateSnapshot),
    DriftDetected(StateSnapshot, DriftInfo),
    Shutdown,
}

/// The state of a circuit breaker.
#[derive(Debug, Clone, Copy, PartialEq, Eq, Structural)]
pub enum CircuitState {
    Closed,
    Open,
    HalfOpen,
}

/// Counts the failures of an instance and stops it after too many of them in a row.
#[derive(Debug, Clone, Copy)]
pub struct CircuitBreaker {
    pub consecutive_failures: u32,
    pub consecutive_successes: u32,
    pub max_failures: u32,
    pub required_successes: u32,
    pub state: CircuitState,
}

/// The breaker after a success.
pub open spec fn after_success(b: CircuitBreaker) -> CircuitBreaker {
    let successes = (b.consecutive_successes + 1) as u32;
    CircuitBreaker {
        consecutive_failures: 0,
        consecutive_successes: successes,
        state: if b.state == CircuitState::HalfOpen && successes >= b.required_successes {
            CircuitState::Closed
        } else {
            b.state
        },
        ..b
    }
}

/// The breaker after a failure.
pub open spec fn after_failure(b: CircuitBreaker) -> CircuitBreaker {
    let failures = (b.consecutive_failures + 1) as u32;
    CircuitBreaker {
        consecutive_successes: 0,
        consecutive_failures: failures,
        state: if failures >= b.max_failures {
            CircuitState::Open
        } else {
            b.state
        },
        ..b
    }
}

/// The breaker after a reset by hand.
pub open spec fn after_reset(b: CircuitBreaker) -> CircuitBreaker {
    CircuitBreaker {
        state: CircuitState::HalfOpen,
        consecutive_failures: 0,
        consecutive_successes: 0,
        ..b
    }
}

/// The breaker after `n` failures in a row.
pub open spec fn after_failures(b: CircuitBreaker, n: nat) -> CircuitBreaker
    decreases n,
{
    if n == 0 {
        b
    } else {
        after_failure(after_failures(b, (n - 1) as nat))
    }
}

/// The breaker after `n` successes in a row.
pub open spec fn after_successes(b: CircuitBreaker, n: nat) -> CircuitBreaker
    decreases n,
{
    if n == 0 {
        b
    } else {
        after_success(after_successes(b, (n - 1) as nat))
    }
}

impl CircuitBreaker {
    /// A closed breaker.
    pub fn new(max_failures: u32, required_successes: u32) -> (r: CircuitBreaker)
        ensures
            r == (CircuitBreaker {
                consecutive_failures: 0,
                consecutive_successes: 0,
                max_failures,
                required_successes,
                state: CircuitState::Closed,
            }),
    {
        CircuitBreaker {
            consecutive_failures: 0,
            consecutive_successes: 0,
            max_failures,
            required_successes,
            state: CircuitState::Closed,
        }
    }

    /// Counts a success; enough of them close a breaker that is half open.
    pub fn record_success(&mut self)
        requires
            old(self).consecutive_successes < u32::MAX,
        ensures
            *final(self) == after_success(*old(self)),
    {
        self.consecutive_failures = 0;
        self.consecutive_successes = self.consecutive_successes + 1;
        if self.state == CircuitState::HalfOpen && self.consecutive_successes
            >= self.required_successes {
            self.state = CircuitState::Closed;
        }
    }

    /// Counts a failure; enough of them in a row open the breaker.
    pub fn record_failure(&mut self)
        requires
            old(self).consecutive_failures < u32::MAX,
        ensures
            *final(self) == after_failure(*old(self)),
    {
        self.consecutive_successes = 0;
        self.consecutive_failures = self.consecutive_failures + 1;
        if self.consecutive_failures >= self.max_failures {
            self.state = CircuitState::Open;
        }
    }

    /// Tells whether the breaker is open.
    pub fn is_open(&self) -> (r: bool)
        ensures
            r == (self.state == CircuitState::Open),
    {
        self.state == CircuitState::Open
    }

    /// Lets the instance try again.
    pub fn manual_reset(&mut self)
        ensures
            *final(self) == after_reset(*old(self)),
    {
        self.state = CircuitState::HalfOpen;
        self.consecutive_failures = 0;
        self.consecutive_successes = 0;
    }
}

/// Failures in a row open a closed breaker exactly when they reach the maximum.
pub proof fn lemma_failures_open(b: CircuitBreaker, n: nat)
    requires
        n > 0,
        b.state == CircuitState::Closed,
        b.consecutive_failures + n <= u32::MAX,
        b.consecutive_failures < b.max_failures,
    ensures
        (after_failures(b, n).state == CircuitState::Open) == (b.consecutive_failures + n
            >= b.max_failures),
        after_failures(b, n).consecutive_failures == b.consecutive_failures + n,
        after_failures(b, n).max_failures == b.max_failures,
        after_failures(b, n).state != CircuitState::HalfOpen,
    decreases n,
{
    reveal_with_fuel(after_failures, 2);
    if n > 1 {
        lemma_failures_open(b, (n - 1) as nat);
    }
}

/// A success starts the count of failures anew, and does not open the breaker.
pub proof fn lemma_success_resets_failures(b: CircuitBreaker)
    ensures
        after_success(b).consecutive_failures == 0,
        b.state != CircuitState::Open ==> after_success(b).state != CircuitState::Open,
{
}

/// An open breaker stays open through successes and failures; only a reset by hand lets it go.
pub proof fn lemma_open_until_reset(b: CircuitBreaker)
    requires
        b.state == CircuitState::Open,
    ensures
        after_success(b).state == CircuitState::Open,
        after_failure(b).state == CircuitState::Open,
        after_reset(b).state == CircuitState::HalfOpen,
{
}

/// After a reset the breaker closes exactly when the successes in a row reach the required number.
pub proof fn lemma_reset_then_successes_close(b: CircuitBreaker, n: nat)
    requires
        0 < n <= u32::MAX,
        b.required_successes > 0,
    ensures
        (after_successes(after_reset(b), n).state == CircuitState::Closed) == (n
            >= b.required_successes),
        after_successes(after_reset(b), n).consecutive_successes == n,
        after_successes(after_reset(b), n).required_successes == b.required_successes,
        after_successes(after_reset(b), n).state != CircuitState::Open,
    decreases n,
{
    reveal_with_fuel(after_successes, 2);
    if n > 1 {
        lemma_reset_then_successes_close(b, (n - 1) as nat);
    }
}

/// A failure breaks a row of successes and a success a row of failures, each counts one, and
/// neither changes the limits; a breaker that is half open is not closed by a failure.
pub proof fn lemma_outcomes_are_counted(b: CircuitBreaker)
    requires
        b.consecutive_failures < u32::MAX,
        b.consecutive_successes < u32::MAX,
    ensures
        after_failure(b).consecutive_failures == b.consecutive_failures + 1,
        after_failure(b).consecutive_successes == 0,
        after_success(b).consecutive_successes == b.consecutive_successes + 1,
        after_success(b).consecutive_failures == 0,
        after_failure(b).state == CircuitState::Open || after_failure(b).state == b.state,
        b.consecutive_failures + 1 >= b.max_failures ==> after_failure(b).state
            == CircuitState::Open,
        b.state == CircuitState::Closed ==> after_success(b).state == CircuitState::Closed,
        after_reset(b).consecutive_failures == 0 && after_reset(b).consecutive_successes == 0,
        forall|c: CircuitBreaker|
            c == after_failure(b) || c == after_success(b) || c == after_reset(b)
                ==> #[trigger] c.max_failures == b.max_failures && c.required_successes
                == b.required_successes,
{
}

} // verus!
