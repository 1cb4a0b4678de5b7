//! What every tool says of itself.
use vstd::prelude::*;
use crate::agent::types::ToolSpec;
use crate::json::{Json, JsonView};

verus! {

/// How a tool is guarded.
#[derive(Debug, Clone, Copy, PartialEq, Eq, Structural)]
pub enum ToolSafety {
    /// It changes nothing.
    ReadOnly,
    /// It changes something, and checks its arguments first.
    Validated,
}

impl ToolSafety {
    /// Tells whether the arguments are to be checked.
    pub fn requires_validation(&self) -> (r: bool)
        ensures
            r == (*self == ToolSafety::Validated),
    {
        matches!(self, ToolSafety::Validated)
    }
}

/// What the model is told of a tool with this name, description and schema.
pub fn describe(name: &str, description: &str, parameters: Json) -> (r: ToolSpec)
    ensures
        r.name@ == name@,
        r.description@ == description@,
        r.parameters@ == parameters@,
{
    ToolSpec { name: name.to_string(), description: description.to_string(), parameters }
}

/// A tool that the model can call.
pub trait Tool {
    /// The name.
    spec fn tool_name(&self) -> Seq<char>;

    /// The description.
    spec fn tool_description(&self) -> Seq<char>;

    /// The JSON schema of the arguments.
    spec fn tool_schema(&self) -> JsonView;

    /// How the tool is guarded.
    spec fn tool_safety(&self) -> ToolSafety;

    /// The name of the tool.
    fn name(&self) -> (r: &str)
        ensures
            r@ == self.tool_name(),
    ;

    /// What the model is told of the tool.
    fn description(&self) -> (r: &str)
        ensures
            r@ == self.tool_description(),
    ;

    /// The JSON schema of the arguments.
    fn parameters_schema(&self) -> (r: Json)
        ensures
            r@ == self.tool_schema(),
    ;

    /// How the tool is guarded.
    fn safety(&self) -> (r: ToolSafety)
        ensures
            r == self.tool_safety(),
    ;

    /// The tool as the model is told of it.
    fn spec(&self) -> (r: ToolSpec)
        ensures
            r.name@ == self.tool_name(),
            r.description@ == self.tool_description(),
            r.parameters@ == self.tool_schema(),
    {
        describe(self.name(), self.description(), self.parameters_schema())
    }
}

} // verus!
