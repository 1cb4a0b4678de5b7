//! The pipeline of agents: plan, simulate, execute, verify.
//!
//! How much of it runs depends on the risk. Work of low risk is executed straight away, work of
//! medium risk is planned first, and work of high risk goes through the whole pipeline: the
//! simulator must approve the plan, and the verifier checks the result.
use vstd::prelude::*;
use crate::pipeline::planner::ActionPlan;
use crate::pipeline::simulator::SimulatorResult;
use crate::skill::types::RiskLevel;
use crate::text;

pub mod executor;
pub mod planner;
pub mod simulator;
pub mod verification;

verus! {

/// The limits of a pipeline.
pub struct PipelineConfig {
    pub pipeline_timeout_secs: u64,
    pub agent_timeout_secs: u64,
    pub llm_call_timeout_secs: u64,
    pub max_iterations: u32,
    pub model: String,
}

impl PipelineConfig {
    /// The limits that hold where nothing else is said, for a model.
    pub fn with_model(model: &str) -> (r: PipelineConfig)
        ensures
            r.pipeline_timeout_secs == 600,
            r.agent_timeout_secs == 300,
            r.llm_call_timeout_secs == 60,
            r.max_iterations == 50,
            r.model@ == model@,
    {
        PipelineConfig {
            pipeline_timeout_secs: 600,
            agent_timeout_secs: 300,
            llm_call_timeout_secs: 60,
            max_iterations: 50,
            model: model.to_string(),
        }
    }
}

/// How a pipeline ended.
pub enum PipelineResult {
    Success { actions_taken: Vec<String> },
    Failed { reason: String, partial_actions: Vec<String> },
    SimulatorRejected { reason: String },
    Timeout,
}

/// A rejected plan is made anew at most this often.
pub const MAX_REPLANS: u32 = 2;

/// Where a pipeline stands.
#[derive(Debug, Clone, Copy, PartialEq, Eq, Structural)]
pub enum Stage {
    /// The planner works.
    Planning,
    /// The simulator checks the plan.
    Simulating,
    /// The executor works: by the plan where there is one.
    Executing,
    /// The verifier checks the result.
    Verifying,
    /// The work is done: it was executed and, where it was of high risk, verified.
    Succeeded,
    /// The last plan was rejected.
    Rejected,
}

/// A pipeline.
pub struct Pipeline {
    pub risk: RiskLevel,
    pub stage: Stage,
    /// Plans that were rejected.
    pub attempt: u32,
    /// Why the last plan was rejected.
    pub feedback: String,
    pub plan: Option<ActionPlan>,
    /// Whether the simulator approved the plan.
    pub approved: bool,
    pub actions: Vec<String>,
}

/// The view of a [`Pipeline`].
#[verifier::ext_equal]
pub struct PipelineView {
    pub risk: RiskLevel,
    pub stage: Stage,
    pub attempt: int,
    pub feedback: Seq<char>,
    pub plan: Option<ActionPlan>,
    pub approved: bool,
    pub actions: Seq<Seq<char>>,
}

impl View for Pipeline {
    type V = PipelineView;

    open spec fn view(&self) -> PipelineView {
        PipelineView {
            risk: self.risk,
            stage: self.stage,
            attempt: self.attempt as int,
            feedback: self.feedback@,
            plan: self.plan,
            approved: self.approved,
            actions: text::views(self.actions@),
        }
    }
}

/// What a stage came to.
pub enum StageEvent {
    Planned(ActionPlan),
    Simulated(SimulatorResult),
    Executed { actions_taken: Vec<String> },
    Verified,
}

/// A pipeline at its start.
pub open spec fn begun(risk: RiskLevel) -> PipelineView {
    PipelineView {
        risk,
        stage: if risk == RiskLevel::Low {
            Stage::Executing
        } else {
            Stage::Planning
        },
        attempt: 0,
        feedback: seq![],
        plan: None,
        approved: false,
        actions: seq![],
    }
}

/// Whether an event is what the stage waits for.
pub open spec fn fits(v: PipelineView, event: StageEvent) -> bool {
    match event {
        StageEvent::Planned(_) => v.stage == Stage::Planning,
        StageEvent::Simulated(_) => v.stage == Stage::Simulating,
        StageEvent::Executed { actions_taken } => v.stage == Stage::Executing,
        StageEvent::Verified => v.stage == Stage::Verifying,
    }
}

/// A pipeline after an event.
pub open spec fn after(v: PipelineView, event: StageEvent) -> PipelineView {
    match event {
        StageEvent::Planned(plan) => PipelineView {
            plan: Some(plan),
            approved: false,
            stage: if v.risk == RiskLevel::High {
                Stage::Simulating
            } else {
                Stage::Executing
            },
            ..v
        },
        StageEvent::Simulated(result) => if result.approved {
            PipelineView { approved: true, stage: Stage::Executing, ..v }
        } else if v.attempt < MAX_REPLANS {
            PipelineView {
                feedback: result.reason@,
                attempt: v.attempt + 1,
                stage: Stage::Planning,
                ..v
            }
        } else {
            PipelineView { feedback: result.reason@, stage: Stage::Rejected, ..v }
        },
        StageEvent::Executed { actions_taken } => PipelineView {
            actions: text::views(actions_taken@),
            stage: if v.risk == RiskLevel::High {
                Stage::Verifying
            } else {
                Stage::Succeeded
            },
            ..v
        },
        StageEvent::Verified => PipelineView { stage: Stage::Succeeded, ..v },
    }
}

/// A pipeline after the first `n` events.
pub open spec fn after_all(risk: RiskLevel, events: Seq<StageEvent>, n: int) -> PipelineView
    decreases n,
{
    if n <= 0 {
        begun(risk)
    } else {
        after(after_all(risk, events, n - 1), events[n - 1])
    }
}

/// Whether each event of a sequence is what its stage waits for.
pub open spec fn run_fits(risk: RiskLevel, events: Seq<StageEvent>) -> bool {
    forall|i: int|
        0 <= i < events.len() ==> #[trigger] fits(after_all(risk, events, i), events[i])
}

/// What every stage of a pipeline keeps.
pub open spec fn sound(v: PipelineView) -> bool {
    &&& 0 <= v.attempt <= MAX_REPLANS
    &&& (v.stage == Stage::Simulating ==> v.risk == RiskLevel::High && v.plan is Some)
    &&& (v.stage == Stage::Planning ==> v.risk != RiskLevel::Low)
    &&& (v.stage == Stage::Executing || v.stage == Stage::Verifying || v.stage == Stage::Succeeded
        ==> (v.risk == RiskLevel::High ==> v.approved))
    &&& (v.stage == Stage::Verifying ==> v.risk == RiskLevel::High)
    &&& (v.stage == Stage::Executing ==> (v.risk == RiskLevel::Low <==> v.plan is None))
    &&& (v.stage == Stage::Rejected ==> v.risk == RiskLevel::High && !v.approved && v.attempt
        == MAX_REPLANS)
    &&& (v.risk == RiskLevel::Low ==> v.plan is None)
    &&& (v.stage == Stage::Simulating || v.stage == Stage::Planning ==> !v.approved)
}

proof fn lemma_sound(risk: RiskLevel, events: Seq<StageEvent>, n: int)
    requires
        run_fits(risk, events),
        0 <= n <= events.len(),
    ensures
        sound(after_all(risk, events, n)),
        after_all(risk, events, n).risk == risk,
    decreases n,
{
    if n > 0 {
        lemma_sound(risk, events, n - 1);
        assert(fits(after_all(risk, events, n - 1), events[n - 1]));
    }
}

/// Work of high risk is executed, verified and reported as done only by a plan that the simulator
/// approved.
pub proof fn lemma_high_risk_needs_approval(risk: RiskLevel, events: Seq<StageEvent>, n: int)
    requires
        run_fits(risk, events),
        0 <= n <= events.len(),
        risk == RiskLevel::High,
        after_all(risk, events, n).stage == Stage::Executing || after_all(risk, events, n).stage
            == Stage::Verifying || after_all(risk, events, n).stage == Stage::Succeeded,
    ensures
        after_all(risk, events, n).approved,
{
    lemma_sound(risk, events, n);
}

/// Work of medium or high risk is executed by a plan, and work of low risk without one.
pub proof fn lemma_plan_when_risky(risk: RiskLevel, events: Seq<StageEvent>, n: int)
    requires
        run_fits(risk, events),
        0 <= n <= events.len(),
        after_all(risk, events, n).stage == Stage::Executing,
    ensures
        after_all(risk, events, n).plan is Some <==> risk != RiskLevel::Low,
{
    lemma_sound(risk, events, n);
}

/// Work of high risk succeeds only after the verifier: the last event was its, the one before was
/// the executor's, and the actions are those that the executor reported.
pub proof fn lemma_success_is_verified(risk: RiskLevel, events: Seq<StageEvent>, n: int)
    requires
        run_fits(risk, events),
        0 <= n <= events.len(),
        risk == RiskLevel::High,
        after_all(risk, events, n).stage == Stage::Succeeded,
    ensures
        n >= 2,
        events[n - 1] is Verified,
        events[n - 2] is Executed,
        after_all(risk, events, n).actions == text::views(events[n - 2]->actions_taken@),
{
    lemma_sound(risk, events, n - 1);
    assert(fits(after_all(risk, events, n - 1), events[n - 1]));
    assert(after_all(risk, events, n - 1).stage == Stage::Verifying);
    lemma_sound(risk, events, n - 2);
    assert(fits(after_all(risk, events, n - 2), events[n - 2]));
}

/// Work of low or medium risk succeeds as soon as it was executed, with the actions that the
/// executor reported; no verifier runs.
pub proof fn lemma_success_is_executed(risk: RiskLevel, events: Seq<StageEvent>, n: int)
    requires
        run_fits(risk, events),
        0 < n <= events.len(),
        risk != RiskLevel::High,
    ensures
        !(events[n - 1] is Verified),
        after_all(risk, events, n).stage == Stage::Succeeded <==> events[n - 1] is Executed,
        events[n - 1] is Executed ==> after_all(risk, events, n).actions == text::views(
            events[n - 1]->actions_taken@,
        ),
{
    lemma_sound(risk, events, n - 1);
    lemma_sound(risk, events, n);
    assert(fits(after_all(risk, events, n - 1), events[n - 1]));
}

/// Without a rejection each risk runs its own stages, in this order: low risk the executor; medium
/// risk the planner and the executor; high risk the planner, the simulator, the executor and the
/// verifier.
pub proof fn lemma_stages_by_risk(risk: RiskLevel, events: Seq<StageEvent>)
    requires
        run_fits(risk, events),
        after_all(risk, events, events.len() as int).stage == Stage::Succeeded,
        after_all(risk, events, events.len() as int).attempt == 0,
    ensures
        match risk {
            RiskLevel::Low => events.len() == 1 && events[0] is Executed,
            RiskLevel::Medium => events.len() == 2 && events[0] is Planned && events[1] is Executed,
            RiskLevel::High => events.len() == 4 && events[0] is Planned && events[1] is Simulated
                && events[2] is Executed && events[3] is Verified,
        },
{
    let n = events.len() as int;
    assert(after_all(risk, events, 0) == begun(risk));
    lemma_first_try(risk, events, 0);
    if risk != RiskLevel::Low {
        lemma_first_try(risk, events, 1);
    }
    if risk == RiskLevel::High {
        lemma_first_try(risk, events, 2);
        lemma_first_try(risk, events, 3);
    }
    let last: int = match risk {
        RiskLevel::Low => 1,
        RiskLevel::Medium => 2,
        RiskLevel::High => 4,
    };
    assert(after_all(risk, events, last).stage == Stage::Succeeded);
    if n > last {
        assert(fits(after_all(risk, events, last), events[last]));
    }
}

/// One step of a pipeline that has not succeeded yet and has no rejection before its end.
proof fn lemma_first_try(risk: RiskLevel, events: Seq<StageEvent>, i: int)
    requires
        run_fits(risk, events),
        0 <= i <= events.len(),
        after_all(risk, events, events.len() as int).stage == Stage::Succeeded,
        after_all(risk, events, events.len() as int).attempt == 0,
        after_all(risk, events, i).stage != Stage::Succeeded,
    ensures
        i < events.len(),
        match after_all(risk, events, i).stage {
            Stage::Planning => events[i] is Planned && after_all(risk, events, i + 1).stage == (
            if risk == RiskLevel::High {
                Stage::Simulating
            } else {
                Stage::Executing
            }),
            Stage::Simulating => events[i] is Simulated && after_all(risk, events, i + 1).stage
                == Stage::Executing,
            Stage::Executing => events[i] is Executed && after_all(risk, events, i + 1).stage == (
            if risk == RiskLevel::High {
                Stage::Verifying
            } else {
                Stage::Succeeded
            }),
            Stage::Verifying => events[i] is Verified && after_all(risk, events, i + 1).stage
                == Stage::Succeeded,
            _ => false,
        },
{
    lemma_sound(risk, events, i);
    assert(fits(after_all(risk, events, i), events[i]));
    lemma_sound(risk, events, i + 1);
    lemma_attempts_grow(risk, events, i + 1, events.len() as int);
    if i + 1 < events.len() {
        assert(fits(after_all(risk, events, i + 1), events[i + 1]));
    }
}

proof fn lemma_attempts_grow(risk: RiskLevel, events: Seq<StageEvent>, i: int, n: int)
    requires
        run_fits(risk, events),
        0 <= i <= n <= events.len(),
    ensures
        after_all(risk, events, i).attempt <= after_all(risk, events, n).attempt,
    decreases n - i,
{
    if i < n {
        lemma_attempts_grow(risk, events, i, n - 1);
    }
}

/// The simulator judges plans of high risk only.
pub proof fn lemma_simulator_is_for_high_risk(risk: RiskLevel, events: Seq<StageEvent>, n: int)
    requires
        run_fits(risk, events),
        0 <= n < events.len(),
        events[n] is Simulated,
    ensures
        risk == RiskLevel::High,
{
    lemma_sound(risk, events, n);
    assert(fits(after_all(risk, events, n), events[n]));
}

/// How many plans there are among the first `n` events.
pub open spec fn plans_to(events: Seq<StageEvent>, n: int) -> int
    decreases n,
{
    if n <= 0 {
        0
    } else if events[n - 1] is Planned {
        plans_to(events, n - 1) + 1
    } else {
        plans_to(events, n - 1)
    }
}

proof fn lemma_plans_are_counted(risk: RiskLevel, events: Seq<StageEvent>, n: int)
    requires
        run_fits(risk, events),
        0 <= n <= events.len(),
    ensures
        ({
            let v = after_all(risk, events, n);
            plans_to(events, n) <= v.attempt + (if v.stage == Stage::Planning {
                0int
            } else {
                1
            })
        }),
    decreases n,
{
    lemma_sound(risk, events, n);
    if n > 0 {
        lemma_plans_are_counted(risk, events, n - 1);
        lemma_sound(risk, events, n - 1);
        assert(fits(after_all(risk, events, n - 1), events[n - 1]));
    }
}

/// There are at most three plans: the first and one for each of two rejections.
pub proof fn lemma_plans_are_bounded(risk: RiskLevel, events: Seq<StageEvent>)
    requires
        run_fits(risk, events),
    ensures
        plans_to(events, events.len() as int) <= MAX_REPLANS + 1,
{
    lemma_plans_are_counted(risk, events, events.len() as int);
    lemma_sound(risk, events, events.len() as int);
}

/// A plan that follows a rejection is asked for with the simulator's reason.
pub proof fn lemma_rejection_is_fed_back(risk: RiskLevel, events: Seq<StageEvent>, n: int)
    requires
        run_fits(risk, events),
        0 < n <= events.len(),
        after_all(risk, events, n).stage == Stage::Planning,
    ensures
        events[n - 1] is Simulated,
        !events[n - 1]->Simulated_0.approved,
        after_all(risk, events, n).attempt > 0,
        after_all(risk, events, n).feedback == events[n - 1]->Simulated_0.reason@,
{
    lemma_sound(risk, events, n - 1);
    assert(fits(after_all(risk, events, n - 1), events[n - 1]));
}

spec fn work_left(v: PipelineView) -> int {
    let rounds = 2 * (MAX_REPLANS - v.attempt);
    match v.stage {
        Stage::Planning => rounds + 4,
        Stage::Simulating => rounds + 3,
        Stage::Executing => 2,
        Stage::Verifying => 1,
        _ => 0,
    }
}

proof fn lemma_work_shrinks(risk: RiskLevel, events: Seq<StageEvent>, n: int)
    requires
        run_fits(risk, events),
        0 <= n <= events.len(),
    ensures
        work_left(after_all(risk, events, n)) >= 0,
        n + work_left(after_all(risk, events, n)) <= 2 * MAX_REPLANS + 4,
    decreases n,
{
    lemma_sound(risk, events, n);
    if n > 0 {
        lemma_work_shrinks(risk, events, n - 1);
        lemma_sound(risk, events, n - 1);
        assert(fits(after_all(risk, events, n - 1), events[n - 1]));
    }
}

/// Every pipeline ends: it takes at most eight stages.
pub proof fn lemma_pipeline_ends(risk: RiskLevel, events: Seq<StageEvent>)
    requires
        run_fits(risk, events),
    ensures
        events.len() <= 2 * MAX_REPLANS + 4,
{
    lemma_work_shrinks(risk, events, events.len() as int);
}

impl Pipeline {
    /// A pipeline for work of some risk.
    pub fn new(risk: RiskLevel) -> (r: Pipeline)
        ensures
            r@ == begun(risk),
    {
        let r = Pipeline {
            risk,
            stage: if risk == RiskLevel::Low {
                Stage::Executing
            } else {
                Stage::Planning
            },
            attempt: 0,
            feedback: String::new(),
            plan: None,
            approved: false,
            actions: Vec::new(),
        };
        assert(r@ =~= begun(risk));
        r
    }

    /// Takes what a stage came to.
    pub fn advance(&mut self, event: StageEvent)
        requires
            fits(old(self)@, event),
        ensures
            final(self)@ == after(old(self)@, event),
    {
        match event {
            StageEvent::Planned(plan) => {
                self.plan = Some(plan);
                self.approved = false;
                self.stage = if self.risk == RiskLevel::High {
                    Stage::Simulating
                } else {
                    Stage::Executing
                };
            },
            StageEvent::Simulated(result) => {
                if result.approved {
                    self.approved = true;
                    self.stage = Stage::Executing;
                } else {
                    self.feedback = result.reason;
                    if self.attempt < MAX_REPLANS {
                        self.attempt = self.attempt + 1;
                        self.stage = Stage::Planning;
                    } else {
                        self.stage = Stage::Rejected;
                    }
                }
            },
            StageEvent::Executed { actions_taken } => {
                self.actions = actions_taken;
                self.stage = if self.risk == RiskLevel::High {
                    Stage::Verifying
                } else {
                    Stage::Succeeded
                };
            },
            StageEvent::Verified => {
                self.stage = Stage::Succeeded;
            },
        }
    }

    /// What the planner is told of the last rejection, where there was one.
    pub fn replan_feedback(&self) -> (r: Option<String>)
        ensures
            text::opt(r) == (if self@.attempt > 0 {
                Some(self@.feedback)
            } else {
                None
            }),
    {
        if self.attempt > 0 {
            Some(self.feedback.clone())
        } else {
            None
        }
    }

    /// How the pipeline ended; `None` while it runs.
    pub fn outcome(&self) -> (r: Option<PipelineResult>)
        ensures
            match r {
                None => self@.stage != Stage::Succeeded && self@.stage != Stage::Rejected,
                Some(PipelineResult::Success { actions_taken }) => self@.stage == Stage::Succeeded
                    && text::views(actions_taken@) == self@.actions,
                Some(PipelineResult::SimulatorRejected { reason }) => self@.stage == Stage::Rejected
                    && reason@ == self@.feedback,
                Some(_) => false,
            },
    {
        match self.stage {
            Stage::Succeeded => Some(
                PipelineResult::Success { actions_taken: text::copy_all(&self.actions) },
            ),
            Stage::Rejected => Some(
                PipelineResult::SimulatorRejected { reason: self.feedback.clone() },
            ),
            _ => None,
        }
    }
}

/// Each stage takes what it is told: the plan is the planner's, the approval the simulator's, the
/// actions the executor's; nothing else changes with it. A rejection says why, and the third one
/// ends the pipeline.
pub proof fn lemma_stages_take_what_they_are_told(v: PipelineView, plan: ActionPlan, verdict: SimulatorResult, done: Vec<String>)
    ensures
        after(v, StageEvent::Planned(plan)).plan == Some(plan),
        after(v, StageEvent::Planned(plan)).attempt == v.attempt,
        after(v, StageEvent::Planned(plan)).feedback == v.feedback,
        after(v, StageEvent::Planned(plan)).stage == (if v.risk == RiskLevel::High {
            Stage::Simulating
        } else {
            Stage::Executing
        }),
        after(v, StageEvent::Simulated(verdict)).plan == v.plan,
        verdict.approved ==> after(v, StageEvent::Simulated(verdict)).approved && after(
            v,
            StageEvent::Simulated(verdict),
        ).stage == Stage::Executing,
        !verdict.approved ==> after(v, StageEvent::Simulated(verdict)).feedback == verdict.reason@,
        !verdict.approved && v.attempt < 2 ==> after(v, StageEvent::Simulated(verdict)).stage
            == Stage::Planning && after(v, StageEvent::Simulated(verdict)).attempt == v.attempt + 1,
        !verdict.approved && v.attempt >= 2 ==> after(v, StageEvent::Simulated(verdict)).stage
            == Stage::Rejected,
        after(v, StageEvent::Executed { actions_taken: done }).plan == v.plan,
        after(v, StageEvent::Executed { actions_taken: done }).approved == v.approved,
        after(v, StageEvent::Executed { actions_taken: done }).actions == text::views(done@),
        after(v, StageEvent::Executed { actions_taken: done }).stage == (if v.risk
            == RiskLevel::High {
            Stage::Verifying
        } else {
            Stage::Succeeded
        }),
        after(v, StageEvent::Verified).stage == Stage::Succeeded,
        after(v, StageEvent::Verified).actions == v.actions,
        after(v, StageEvent::Verified).plan == v.plan,
        begun(RiskLevel::Low).stage == Stage::Executing,
        begun(RiskLevel::Medium).stage == Stage::Planning,
        begun(RiskLevel::High).stage == Stage::Planning,
{
}

/// A pipeline begins with nothing: no plan, no approval, no rejection and no actions.
pub proof fn lemma_pipelines_begin_with_nothing(risk: RiskLevel)
    ensures
        begun(risk).risk == risk,
        begun(risk).attempt == 0,
        begun(risk).feedback.len() == 0,
        begun(risk).plan is None,
        !begun(risk).approved,
        begun(risk).actions.len() == 0,
{
}

/// The view of a pipeline leaves nothing out.
pub proof fn lemma_pipeline_view_holds_the_fields(p: Pipeline, i: int)
    ensures
        p@.risk == p.risk,
        p@.stage == p.stage,
        p@.attempt == p.attempt,
        p@.feedback == p.feedback@,
        p@.plan == p.plan,
        p@.approved == p.approved,
        p@.actions.len() == p.actions@.len(),
        0 <= i < p.actions@.len() ==> p@.actions[i] == p.actions@[i]@,
        MAX_REPLANS == 2,
{
}

} // verus!
