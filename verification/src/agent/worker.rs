//! The worker of a resource: which events it acts on, at which risk, and what it learns from them.
use vstd::prelude::*;
use crate::crd::ResourcePhase;
use crate::pipeline::PipelineResult;
use crate::skill::types::{ActionDef, RiskLevel};
use crate::skill::types;
use crate::text;
use crate::types::{
    CircuitBreaker, CircuitState, ResourceEvent, StateSnapshot,
};

verus! {

/// The failures in a row that stop a worker.
pub const MAX_FAILURES: u32 = 3;

/// The successes in a row that trust a worker again.
pub const REQUIRED_SUCCESSES: u32 = 2;

/// The worker of a resource.
pub struct AgentInstance {
    pub resource_name: String,
    pub resource_namespace: String,
    pub circuit_breaker: CircuitBreaker,
}

/// The highest risk of the first `n` actions.
pub open spec fn highest_risk(actions: Seq<ActionDef>, n: int) -> Option<RiskLevel>
    decreases n,
{
    if n <= 0 {
        None
    } else {
        match highest_risk(actions, n - 1) {
            Some(r) => if types::risk_rank(actions[n - 1].risk) > types::risk_rank(r) {
                Some(actions[n - 1].risk)
            } else {
                Some(r)
            },
            None => Some(actions[n - 1].risk),
        }
    }
}

/// The risk of an event: a new resource is of high risk and a changed one of medium risk; what
/// drifted is only applied again; a monitor may need any action of the skill.
pub open spec fn event_risk(event: ResourceEvent, actions: Seq<ActionDef>) -> RiskLevel {
    match event {
        ResourceEvent::Bootstrap(_) => RiskLevel::High,
        ResourceEvent::SpecChange(_) => RiskLevel::Medium,
        ResourceEvent::DriftDetected(_, _) => RiskLevel::Low,
        ResourceEvent::MonitorTrigger(snapshot) => if text::has(
            snapshot.trigger.source@,
            "bootstrap"@,
        ) {
            RiskLevel::High
        } else {
            match highest_risk(actions, actions.len() as int) {
                Some(r) => r,
                None => RiskLevel::Medium,
            }
        },
        ResourceEvent::Shutdown => RiskLevel::Low,
    }
}

/// Determines the risk of an event.
pub fn determine_risk(event: &ResourceEvent, actions: &Vec<ActionDef>) -> (r: RiskLevel)
    ensures
        r == event_risk(*event, actions@),
{
    match event {
        ResourceEvent::Bootstrap(_) => RiskLevel::High,
        ResourceEvent::SpecChange(_) => RiskLevel::Medium,
        ResourceEvent::DriftDetected(_, _) => RiskLevel::Low,
        ResourceEvent::MonitorTrigger(snapshot) => {
            if text::contains(snapshot.trigger.source.as_str(), "bootstrap") {
                return RiskLevel::High;
            }
            let mut best: Option<RiskLevel> = None;
            let mut i: usize = 0;
            while i < actions.len()
                invariant
                    i <= actions@.len(),
                    best == highest_risk(actions@, i as int),
                decreases actions@.len() - i,
            {
                let risk = actions[i].risk;
                best = match best {
                    Some(r) => if risk.rank() > r.rank() {
                        Some(risk)
                    } else {
                        Some(r)
                    },
                    None => Some(risk),
                };
                i = i + 1;
            }
            match best {
                Some(r) => r,
                None => RiskLevel::Medium,
            }
        },
        ResourceEvent::Shutdown => RiskLevel::Low,
    }
}

/// No action of the skill is of higher risk than a monitor's event.
pub proof fn lemma_monitor_risk_covers_actions(
    snapshot: StateSnapshot,
    actions: Seq<ActionDef>,
    i: int,
)
    requires
        0 <= i < actions.len(),
    ensures
        types::risk_rank(actions[i].risk) <= types::risk_rank(
            event_risk(ResourceEvent::MonitorTrigger(snapshot), actions),
        ),
{
    lemma_highest_covers(actions, actions.len() as int, i);
}

proof fn lemma_highest_covers(actions: Seq<ActionDef>, n: int, i: int)
    requires
        0 <= i < n <= actions.len(),
    ensures
        highest_risk(actions, n) is Some,
        types::risk_rank(actions[i].risk) <= types::risk_rank(highest_risk(actions, n)->0),
    decreases n,
{
    if i < n - 1 {
        lemma_highest_covers(actions, n - 1, i);
    }
}

/// Whether a breaker lets work of some risk through: an open one lets none, one that is half open
/// only work of low risk.
pub open spec fn admits(b: CircuitBreaker, risk: RiskLevel) -> bool {
    b.state != CircuitState::Open && (b.state == CircuitState::HalfOpen ==> risk == RiskLevel::Low)
}

/// Why the agent is woken by drift.
pub open spec fn drift_reason(missing: Seq<Seq<char>>) -> Seq<char> {
    "Child resources missing: "@ + text::joined(missing, ", "@)
        + ". Re-apply from desired state."@
}

/// The snapshot that the agent is told for an event: the event's own, with what is missing as its
/// reason where something drifted.
pub open spec fn told(event: ResourceEvent, snapshot: StateSnapshot) -> bool {
    match event {
        ResourceEvent::Bootstrap(s) => snapshot == s,
        ResourceEvent::MonitorTrigger(s) => snapshot == s,
        ResourceEvent::SpecChange(s) => snapshot == s,
        ResourceEvent::DriftDetected(s, drift) => {
            &&& snapshot.resource == s.resource
            &&& snapshot.monitors == s.monitors
            &&& snapshot.k8s == s.k8s
            &&& snapshot.trigger.source == s.trigger.source
            &&& snapshot.trigger.timestamp == s.trigger.timestamp
            &&& snapshot.trigger.reason@ == drift_reason(text::views(drift.missing_resources@))
        },
        ResourceEvent::Shutdown => false,
    }
}

/// What a worker does with an event.
pub enum EventDecision {
    /// The worker shuts down.
    Stop,
    /// The breaker does not let it through.
    Skip,
    /// The pipeline runs.
    Run { snapshot: StateSnapshot, risk: RiskLevel },
}

/// How a pipeline ended, as far as the breaker cares.
#[derive(Debug, Clone, Copy, PartialEq, Eq, Structural)]
pub enum PipelineOutcome {
    Success,
    /// The plan was rejected before anything ran.
    Rejected,
    Timeout,
    Failed,
    Error,
}

/// What the breaker learns from a pipeline; one that could not be run to its end is an error.
pub open spec fn outcome_of(result: Result<PipelineResult, String>) -> PipelineOutcome {
    match result {
        Ok(PipelineResult::Success { actions_taken }) => PipelineOutcome::Success,
        Ok(PipelineResult::SimulatorRejected { reason }) => PipelineOutcome::Rejected,
        Ok(PipelineResult::Timeout) => PipelineOutcome::Timeout,
        Ok(PipelineResult::Failed { reason, partial_actions }) => PipelineOutcome::Failed,
        Err(_) => PipelineOutcome::Error,
    }
}

/// Says what the breaker learns from a pipeline.
pub fn judge_result(result: &Result<PipelineResult, String>) -> (r: PipelineOutcome)
    ensures
        r == outcome_of(*result),
{
    match result {
        Ok(PipelineResult::Success { .. }) => PipelineOutcome::Success,
        Ok(PipelineResult::SimulatorRejected { .. }) => PipelineOutcome::Rejected,
        Ok(PipelineResult::Timeout) => PipelineOutcome::Timeout,
        Ok(PipelineResult::Failed { .. }) => PipelineOutcome::Failed,
        Err(_) => PipelineOutcome::Error,
    }
}

/// The breaker after a pipeline. A rejected plan does not count.
pub open spec fn after_outcome(b: CircuitBreaker, outcome: PipelineOutcome) -> CircuitBreaker {
    match outcome {
        PipelineOutcome::Success => crate::types::after_success(b),
        PipelineOutcome::Rejected => b,
        _ => crate::types::after_failure(b),
    }
}

/// The phase that a resource enters with its breaker: it has failed where the breaker is open.
pub open spec fn phase_with(b: CircuitBreaker) -> Option<ResourcePhase> {
    if b.state == CircuitState::Open {
        Some(ResourcePhase::Failed)
    } else {
        None
    }
}

impl AgentInstance {
    /// A worker that trusts its agent.
    pub fn new(resource_name: String, resource_namespace: String) -> (r: AgentInstance)
        ensures
            r.resource_name == resource_name,
            r.resource_namespace == resource_namespace,
            r.circuit_breaker == (CircuitBreaker {
                consecutive_failures: 0,
                consecutive_successes: 0,
                max_failures: MAX_FAILURES,
                required_successes: REQUIRED_SUCCESSES,
                state: CircuitState::Closed,
            }),
    {
        AgentInstance {
            resource_name,
            resource_namespace,
            circuit_breaker: CircuitBreaker::new(MAX_FAILURES, REQUIRED_SUCCESSES),
        }
    }

    /// Decides what to do with an event.
    pub fn decide(&self, event: ResourceEvent, actions: &Vec<ActionDef>) -> (r: EventDecision)
        ensures
            match r {
                EventDecision::Stop => event is Shutdown,
                EventDecision::Skip => !(event is Shutdown) && !admits(
                    self.circuit_breaker,
                    event_risk(event, actions@),
                ),
                EventDecision::Run { snapshot, risk } => {
                    &&& !(event is Shutdown)
                    &&& risk == event_risk(event, actions@)
                    &&& admits(self.circuit_breaker, risk)
                    &&& told(event, snapshot)
                },
            },
    {
        let risk = determine_risk(&event, actions);
        let open = self.circuit_breaker.is_open();
        let half_open = self.circuit_breaker.state == CircuitState::HalfOpen;
        let snapshot = match event {
            ResourceEvent::Bootstrap(s) => s,
            ResourceEvent::MonitorTrigger(s) => s,
            ResourceEvent::SpecChange(s) => s,
            ResourceEvent::DriftDetected(s, drift) => {
                let mut reason = "Child resources missing: ".to_string();
                reason.append(text::join(&drift.missing_resources, ", ").as_str());
                reason.append(". Re-apply from desired state.");
                let mut enriched = s;
                enriched.trigger.reason = reason;
                enriched
            },
            ResourceEvent::Shutdown => {
                return EventDecision::Stop;
            },
        };
        if open || (half_open && risk != RiskLevel::Low) {
            EventDecision::Skip
        } else {
            EventDecision::Run { snapshot, risk }
        }
    }

    /// Takes the outcome of a pipeline.
    pub fn record_outcome(&mut self, outcome: PipelineOutcome)
        requires
            old(self).circuit_breaker.consecutive_successes < u32::MAX,
            old(self).circuit_breaker.consecutive_failures < u32::MAX,
        ensures
            final(self).circuit_breaker == after_outcome(old(self).circuit_breaker, outcome),
            final(self).resource_name == old(self).resource_name,
            final(self).resource_namespace == old(self).resource_namespace,
    {
        match outcome {
            PipelineOutcome::Success => self.circuit_breaker.record_success(),
            PipelineOutcome::Rejected => {},
            _ => self.circuit_breaker.record_failure(),
        }
    }

    /// The phase that the resource enters; `None` where it stays in its own.
    pub fn phase(&self) -> (r: Option<ResourcePhase>)
        ensures
            r == phase_with(self.circuit_breaker),
    {
        if self.circuit_breaker.is_open() {
            Some(ResourcePhase::Failed)
        } else {
            None
        }
    }
}

/// After three failed pipelines in a row a worker runs nothing, whatever the risk, and its resource
/// has failed.
pub proof fn lemma_three_failures_stop_worker(
    b: CircuitBreaker,
    first: PipelineOutcome,
    second: PipelineOutcome,
    third: PipelineOutcome,
    risk: RiskLevel,
)
    requires
        b.max_failures == MAX_FAILURES,
        b.consecutive_failures < MAX_FAILURES,
        first != PipelineOutcome::Success && first != PipelineOutcome::Rejected,
        second != PipelineOutcome::Success && second != PipelineOutcome::Rejected,
        third != PipelineOutcome::Success && third != PipelineOutcome::Rejected,
    ensures
        !admits(after_outcome(after_outcome(after_outcome(b, first), second), third), risk),
        phase_with(after_outcome(after_outcome(after_outcome(b, first), second), third)) == Some(
            ResourcePhase::Failed,
        ),
{
}

/// A worker that was reset by hand acts on events of low risk only, until enough pipelines have
/// succeeded.
pub proof fn lemma_reset_worker_takes_low_risk(b: CircuitBreaker, risk: RiskLevel)
    requires
        b.required_successes == REQUIRED_SUCCESSES,
    ensures
        admits(crate::types::after_reset(b), risk) == (risk == RiskLevel::Low),
        admits(
            after_outcome(crate::types::after_reset(b), PipelineOutcome::Success),
            risk,
        ) == (risk == RiskLevel::Low),
        admits(
            after_outcome(
                after_outcome(crate::types::after_reset(b), PipelineOutcome::Success),
                PipelineOutcome::Success,
            ),
            risk,
        ),
{
}

/// The risk of an event goes by its kind: setting up is of high risk, a change of medium, drift of
/// low; a monitor's event that is about setting up is of high risk too, and where the skill has no
/// actions it is of medium risk.
pub proof fn lemma_risk_goes_by_event(
    snapshot: StateSnapshot,
    drift: crate::types::DriftInfo,
    actions: Seq<ActionDef>,
    before: Seq<char>,
    after: Seq<char>,
)
    ensures
        event_risk(ResourceEvent::Bootstrap(snapshot), actions) == RiskLevel::High,
        event_risk(ResourceEvent::SpecChange(snapshot), actions) == RiskLevel::Medium,
        event_risk(ResourceEvent::DriftDetected(snapshot, drift), actions) == RiskLevel::Low,
        snapshot.trigger.source@ == before + "bootstrap"@ + after ==> event_risk(
            ResourceEvent::MonitorTrigger(snapshot),
            actions,
        ) == RiskLevel::High,
        !text::has(snapshot.trigger.source@, "bootstrap"@) && actions.len() == 0 ==> event_risk(
            ResourceEvent::MonitorTrigger(snapshot),
            actions,
        ) == RiskLevel::Medium,
{
    let pat = "bootstrap"@;
    let s = before + pat + after;
    text::lemma_found_from(s, pat, 0);
    assert(s.subrange(before.len() as int, (before.len() + pat.len()) as int) =~= pat);
    assert(text::occurs_at(s, pat, before.len() as int));
}

/// A monitor's event that is not about setting up has the risk of one of the skill's actions.
pub proof fn lemma_monitor_risk_is_of_an_action(
    snapshot: StateSnapshot,
    actions: Seq<ActionDef>,
) -> (i: int)
    requires
        actions.len() > 0,
        !text::has(snapshot.trigger.source@, "bootstrap"@),
    ensures
        0 <= i < actions.len(),
        event_risk(ResourceEvent::MonitorTrigger(snapshot), actions) == actions[i].risk,
{
    lemma_highest_is_of_an_action(actions, actions.len() as int)
}

proof fn lemma_highest_is_of_an_action(actions: Seq<ActionDef>, n: int) -> (i: int)
    requires
        0 < n <= actions.len(),
    ensures
        0 <= i < n,
        highest_risk(actions, n) == Some(actions[i].risk),
    decreases n,
{
    if n == 1 {
        assert(highest_risk(actions, 0) is None);
        0
    } else {
        let i = lemma_highest_is_of_an_action(actions, n - 1);
        if types::risk_rank(actions[n - 1].risk) > types::risk_rank(actions[i].risk) {
            n - 1
        } else {
            i
        }
    }
}

/// A closed breaker lets everything through, an open one nothing, and one that is half open only
/// work of low risk.
pub proof fn lemma_breaker_lets_through(b: CircuitBreaker, risk: RiskLevel)
    ensures
        b.state == CircuitState::Closed ==> admits(b, risk),
        b.state == CircuitState::Open ==> !admits(b, risk),
        b.state == CircuitState::HalfOpen ==> admits(b, risk) == (risk == RiskLevel::Low),
        phase_with(b) == Some(ResourcePhase::Failed) <==> b.state == CircuitState::Open,
        phase_with(b) is None <==> b.state != CircuitState::Open,
{
}

/// The agent is told the snapshot of the event; where something drifted, its reason names every
/// child that is missing.
pub proof fn lemma_agent_is_told_the_event(
    snapshot: StateSnapshot,
    drift: crate::types::DriftInfo,
    out: StateSnapshot,
    i: int,
) -> (r: (Seq<char>, Seq<char>))
    requires
        0 <= i < drift.missing_resources@.len(),
    ensures
        told(ResourceEvent::Bootstrap(snapshot), out) ==> out == snapshot,
        told(ResourceEvent::MonitorTrigger(snapshot), out) ==> out == snapshot,
        told(ResourceEvent::SpecChange(snapshot), out) ==> out == snapshot,
        told(ResourceEvent::DriftDetected(snapshot, drift), out) ==> {
            &&& out.resource == snapshot.resource
            &&& out.monitors == snapshot.monitors
            &&& out.k8s == snapshot.k8s
            &&& out.trigger.source == snapshot.trigger.source
            &&& out.trigger.timestamp == snapshot.trigger.timestamp
            &&& out.trigger.reason@ == r.0 + drift.missing_resources@[i]@ + r.1
        },
{
    let names = text::views(drift.missing_resources@);
    let r = text::lemma_joined_holds_every_part(names, ", "@, i);
    let a = "Child resources missing: "@ + r.0;
    let b = r.1 + ". Re-apply from desired state."@;
    assert(drift_reason(names) =~= a + names[i] + b);
    (a, b)
}

/// What the breaker learns is how the pipeline ended: a success starts the count of failures anew,
/// a rejected plan leaves the breaker as it is, and anything else is one more failure.
pub proof fn lemma_outcomes_are_told_to_the_breaker(
    b: CircuitBreaker,
    result: Result<PipelineResult, String>,
)
    requires
        b.consecutive_failures < u32::MAX,
        b.consecutive_successes < u32::MAX,
    ensures
        ({
            let c = after_outcome(b, outcome_of(result));
            match result {
                Ok(PipelineResult::Success { actions_taken }) => {
                    &&& c.consecutive_failures == 0
                    &&& c.consecutive_successes == b.consecutive_successes + 1
                },
                Ok(PipelineResult::SimulatorRejected { reason }) => c == b,
                Ok(PipelineResult::Timeout)
                | Ok(PipelineResult::Failed { .. })
                | Err(_) => {
                    &&& c.consecutive_failures == b.consecutive_failures + 1
                    &&& c.consecutive_successes == 0
                },
            }
        }),
        outcome_of(Ok(PipelineResult::Timeout)) == PipelineOutcome::Timeout,
        result is Err ==> outcome_of(result) == PipelineOutcome::Error,
{
}

/// A worker starts with a breaker that opens at the third failure in a row and is trusted again
/// after two successes.
pub proof fn lemma_limits_of_workers()
    ensures
        MAX_FAILURES == 3,
        REQUIRED_SUCCESSES == 2,
{
}

} // verus!
