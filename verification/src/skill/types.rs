//! Skills: what a skill file declares.
use vstd::prelude::*;
use crate::table::Table;

verus! {

/// What the front matter of a skill file declares.
pub struct SkillConfig {
    pub name: String,
    pub description: Option<String>,
    pub allowed_tools: Option<String>,
    pub monitors: Vec<MonitorDef>,
    pub actions: Vec<ActionDef>,
    pub agents: Table<AgentDef>,
}

/// A monitor: a script that runs again and again, and when its output wakes the agent.
#[derive(Debug)]
pub struct MonitorDef {
    pub name: String,
    pub interval: String,
    pub script: String,
    pub parse: String,
    pub trigger_when: String,
}

impl Clone for MonitorDef {
    fn clone(&self) -> (r: Self)
        ensures
            r == *self,
    {
        MonitorDef {
            name: self.name.clone(),
            interval: self.interval.clone(),
            script: self.script.clone(),
            parse: self.parse.clone(),
            trigger_when: self.trigger_when.clone(),
        }
    }
}

/// How much an action can break.
#[derive(Debug, Clone, Copy, PartialEq, Eq, Structural)]
pub enum RiskLevel {
    Low,
    Medium,
    High,
}

/// The risk as a number.
pub open spec fn risk_rank(r: RiskLevel) -> int {
    match r {
        RiskLevel::Low => 0,
        RiskLevel::Medium => 1,
        RiskLevel::High => 2,
    }
}

impl RiskLevel {
    /// The risk as a number.
    pub fn rank(&self) -> (r: u8)
        ensures
            r == risk_rank(*self),
    {
        match self {
            RiskLevel::Low => 0,
            RiskLevel::Medium => 1,
            RiskLevel::High => 2,
        }
    }

    /// The risk as a skill file writes it.
    pub fn as_str(&self) -> (r: &'static str)
        ensures
            r@ == (match self {
                RiskLevel::Low => "low"@,
                RiskLevel::Medium => "medium"@,
                RiskLevel::High => "high"@,
            }),
    {
        match self {
            RiskLevel::Low => "low",
            RiskLevel::Medium => "medium",
            RiskLevel::High => "high",
        }
    }
}

/// An action: a script that the agent may run.
#[derive(Debug)]
pub struct ActionDef {
    pub name: String,
    pub risk: RiskLevel,
    pub description: Option<String>,
    pub script: String,
    pub params: Vec<String>,
}

/// An agent and the file of its prompt.
#[derive(Debug)]
pub struct AgentDef {
    pub system_prompt_file: String,
}

/// A skill with its prompts.
pub struct LoadedSkill {
    pub config: SkillConfig,
    pub body: String,
    pub skill_dir: String,
    pub agent_prompts: Table<String>,
}

/// The way a monitor's output is read where its declaration does not say.
pub fn default_parse() -> (r: String)
    ensures
        r@ == "exit-code"@,
{
    "exit-code".to_string()
}

/// The risks are in ascending order: low, medium, high.
pub proof fn lemma_risks_ascend()
    ensures
        risk_rank(RiskLevel::Low) < risk_rank(RiskLevel::Medium) < risk_rank(RiskLevel::High),
{
}

} // verus!
