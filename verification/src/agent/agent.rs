//! The agent loop: what is asked of the model, which tools run, and when the run ends.
//!
//! A run alternates between this module and the world. [`AutonomousAgent::start`] opens it. Then,
//! until it is over, [`AutonomousAgent::next_step`] says what to do: compact the history, ask the
//! model, or stop. The answers come back through [`AutonomousAgent::record_summary`],
//! [`AutonomousAgent::record_reply`] and [`AutonomousAgent::record_results`].
use vstd::prelude::*;
use crate::agent::types::{
    AgentConfig, CallView, ChatMessage, ChatResponse, ContentPart, ContentView, MessageContent,
    MessageView, PartView, ToolCall, ToolSpec,
};
use crate::agent::types;
use crate::json::{Json, JsonObject, JsonView};
use crate::json;
use crate::text;

verus! {

// ---------------------------------------------------------------------------
// Compaction of the history
// ---------------------------------------------------------------------------
/// Compaction starts above this many messages.
pub const COMPACTION_MAX_MESSAGES: usize = 40;

/// This many of the latest messages stay as they are.
pub const COMPACTION_KEEP_RECENT: usize = 16;

/// The longest transcript that the summarizer is given, in characters.
pub const COMPACTION_MAX_SOURCE_CHARS: usize = 12_000;

/// The longest summary that is kept, in characters.
pub const COMPACTION_MAX_SUMMARY_CHARS: usize = 2_000;

/// The longest tool result that a transcript quotes whole, in bytes.
pub const TRANSCRIPT_RESULT_BYTES: usize = 500;

/// A text of at most `max` characters: the text, or its start and three dots.
pub open spec fn clipped(s: Seq<char>, max: int) -> Seq<char> {
    if s.len() <= max {
        s
    } else if max < 3 {
        "..."@
    } else {
        s.take(max - 3) + "..."@
    }
}

/// Truncates a text to `max_chars` characters, the last three of them dots where it was longer.
pub fn truncate_str(s: &str, max_chars: usize) -> (r: String)
    ensures
        r@ == clipped(s@, max_chars as int),
{
    if text::char_count(s) <= max_chars {
        s.to_string()
    } else {
        let keep: usize = if max_chars < 3 {
            0
        } else {
            max_chars - 3
        };
        let mut out = text::take_chars(s, keep);
        out.append("...");
        assert(max_chars < 3 ==> out@ =~= "..."@);
        out
    }
}

/// A part as a transcript shows it.
pub open spec fn part_line(p: PartView) -> Seq<char> {
    match p {
        PartView::Text { text } => text,
        PartView::ToolUse { id, name, input } => "[Tool call: "@ + name + "("@
            + json::json_written(input) + ")]"@,
        PartView::ToolResult { tool_use_id, content } => if text::byte_len(content)
            > TRANSCRIPT_RESULT_BYTES {
            "[Tool result: "@ + text::byte_prefix(content, TRANSCRIPT_RESULT_BYTES as nat)
                + "...]"@
        } else {
            "[Tool result: "@ + content + "]"@
        },
    }
}

/// Whether the part can be shown: a long tool result has a character that ends at the cut.
pub open spec fn part_showable(p: PartView) -> bool {
    p matches PartView::ToolResult { tool_use_id, content } ==> (text::byte_len(content)
        > TRANSCRIPT_RESULT_BYTES ==> text::ends_char(content, TRANSCRIPT_RESULT_BYTES as nat))
}

/// The content of a message as a transcript shows it.
pub open spec fn content_text(c: ContentView) -> Seq<char> {
    match c {
        ContentView::Text(t) => t,
        ContentView::Parts(parts) => text::joined(
            parts.map_values(|p: PartView| part_line(p)),
            "\n"@,
        ),
    }
}

/// Whether every part can be shown.
pub open spec fn parts_showable(parts: Seq<PartView>) -> bool {
    forall|i: int| 0 <= i < parts.len() ==> part_showable(#[trigger] parts[i])
}

/// Whether the content can be shown.
pub open spec fn content_showable(c: ContentView) -> bool {
    match c {
        ContentView::Text(_) => true,
        ContentView::Parts(parts) => parts_showable(parts),
    }
}

/// Whether every message can be shown in a transcript.
pub open spec fn showable(messages: Seq<MessageView>) -> bool {
    forall|i: int| 0 <= i < messages.len() ==> content_showable((#[trigger] messages[i]).content)
}

/// The transcript of the first `n` messages: a line each, with the role in capitals.
pub open spec fn transcript_to(messages: Seq<MessageView>, n: int) -> Seq<char>
    decreases n,
{
    if n <= 0 {
        seq![]
    } else {
        transcript_to(messages, n - 1) + (text::uppercased(messages[n - 1].role) + ": "@
            + content_text(messages[n - 1].content) + "\n"@)
    }
}

/// The transcript that a summarizer is given.
pub open spec fn compaction_transcript(messages: Seq<MessageView>) -> Seq<char> {
    clipped(transcript_to(messages, messages.len() as int), COMPACTION_MAX_SOURCE_CHARS as int)
}

fn show_part(p: &ContentPart) -> (r: String)
    requires
        part_showable(p@),
    ensures
        r@ == part_line(p@),
{
    match p {
        ContentPart::Text { text } => text.clone(),
        ContentPart::ToolUse { id, name, input } => {
            let mut out = "[Tool call: ".to_string();
            out.append(name.as_str());
            out.append("(");
            out.append(input.to_text().as_str());
            out.append(")]");
            out
        },
        ContentPart::ToolResult { tool_use_id, content } => {
            let mut out = "[Tool result: ".to_string();
            if text::longer_than_bytes(content.as_str(), TRANSCRIPT_RESULT_BYTES) {
                match text::take_bytes(content.as_str(), TRANSCRIPT_RESULT_BYTES) {
                    Some(start) => {
                        out.append(start.as_str());
                    },
                    None => {
                        assert(false);
                    },
                }
                out.append("...]");
            } else {
                out.append(content.as_str());
                out.append("]");
            }
            out
        },
    }
}

fn show_content(content: &MessageContent) -> (r: String)
    requires
        content_showable(content@),
    ensures
        r@ == content_text(content@),
{
    match content {
        MessageContent::Text(t) => t.clone(),
        MessageContent::Parts(parts) => {
            let mut lines: Vec<String> = Vec::new();
            let ghost want = types::parts_view(parts@).map_values(|p: PartView| part_line(p));
            let mut i: usize = 0;
            while i < parts.len()
                invariant
                    i <= parts@.len(),
                    parts_showable(types::parts_view(parts@)),
                    want == types::parts_view(parts@).map_values(|p: PartView| part_line(p)),
                    text::views(lines@) =~= want.take(i as int),
                decreases parts@.len() - i,
            {
                assert(types::parts_view(parts@)[i as int] == parts@[i as int]@);
                let ghost before = lines@;
                lines.push(show_part(&parts[i]));
                assert(text::views(lines@) =~= text::views(before).push(want[i as int]));
                i = i + 1;
            }
            assert(text::views(lines@) =~= want);
            text::join(&lines, "\n")
        },
    }
}

/// Builds the transcript of messages for the summarizer.
pub fn build_compaction_transcript(messages: &[ChatMessage]) -> (r: String)
    requires
        showable(types::messages_view(messages@)),
    ensures
        r@ == compaction_transcript(types::messages_view(messages@)),
{
    let ghost views = types::messages_view(messages@);
    let mut transcript = String::new();
    let mut i: usize = 0;
    while i < messages.len()
        invariant
            i <= messages@.len(),
            views == types::messages_view(messages@),
            showable(views),
            transcript@ == transcript_to(views, i as int),
        decreases messages@.len() - i,
    {
        let message = &messages[i];
        assert(views[i as int] == message@);
        let mut line = text::to_uppercase(message.role.as_str());
        line.append(": ");
        line.append(show_content(&message.content).as_str());
        line.append("\n");
        transcript.append(line.as_str());
        i = i + 1;
    }
    truncate_str(transcript.as_str(), COMPACTION_MAX_SOURCE_CHARS)
}

/// Tells whether messages can be shown in a transcript.
pub fn is_showable(messages: &[ChatMessage]) -> (r: bool)
    ensures
        r == showable(types::messages_view(messages@)),
{
    let ghost views = types::messages_view(messages@);
    let mut i: usize = 0;
    while i < messages.len()
        invariant
            i <= messages@.len(),
            views == types::messages_view(messages@),
            forall|k: int| 0 <= k < i ==> content_showable((#[trigger] views[k]).content),
        decreases messages@.len() - i,
    {
        assert(views[i as int] == messages@[i as int]@);
        if !is_content_showable(&messages[i].content) {
            return false;
        }
        i = i + 1;
    }
    true
}

fn is_content_showable(content: &MessageContent) -> (r: bool)
    ensures
        r == content_showable(content@),
{
    match content {
        MessageContent::Text(_) => true,
        MessageContent::Parts(parts) => {
            let ghost views = types::parts_view(parts@);
            let mut i: usize = 0;
            while i < parts.len()
                invariant
                    i <= parts@.len(),
                    content@ == ContentView::Parts(views),
                    views == types::parts_view(parts@),
                    forall|k: int| 0 <= k < i ==> part_showable(#[trigger] views[k]),
                decreases parts@.len() - i,
            {
                assert(views[i as int] == parts@[i as int]@);
                if let ContentPart::ToolResult { tool_use_id, content: output } = &parts[i] {
                    if text::longer_than_bytes(output.as_str(), TRANSCRIPT_RESULT_BYTES)
                        && text::take_bytes(output.as_str(), TRANSCRIPT_RESULT_BYTES).is_none() {
                        assert(!part_showable(views[i as int]));
                        return false;
                    }
                }
                assert(part_showable(views[i as int]));
                i = i + 1;
            }
            true
        },
    }
}

/// The last index at or below `end` that holds a message of the user, or one that is too low to
/// compact anything.
pub open spec fn user_turn_at(history: Seq<MessageView>, end: int) -> int
    decreases end,
{
    if end <= 1 || history[end].role == "user"@ {
        end
    } else {
        user_turn_at(history, end - 1)
    }
}

/// Where compaction would end: the messages from index one up to there are summarized. `None`
/// where there are too few of them.
pub open spec fn compaction_end(history: Seq<MessageView>) -> Option<int> {
    if history.len() <= COMPACTION_KEEP_RECENT + 1 {
        None
    } else {
        let end = user_turn_at(history, history.len() - COMPACTION_KEEP_RECENT);
        if end <= 1 {
            None
        } else {
            Some(end)
        }
    }
}

/// Finds where compaction would end.
pub fn plan_compaction(history: &Vec<ChatMessage>) -> (r: Option<usize>)
    ensures
        match r {
            Some(end) => compaction_end(types::messages_view(history@)) == Some(end as int) && 1
                < end < history@.len(),
            None => compaction_end(types::messages_view(history@)) is None,
        },
{
    let ghost views = types::messages_view(history@);
    let total: usize = history.len();
    if total <= COMPACTION_KEEP_RECENT + 1 {
        return None;
    }
    let mut end: usize = total - COMPACTION_KEEP_RECENT;
    while end > 1 && !text::same(history[end].role.as_str(), "user")
        invariant
            views == types::messages_view(history@),
            total == history@.len(),
            1 <= end < total,
            user_turn_at(views, total - COMPACTION_KEEP_RECENT) == user_turn_at(views, end as int),
        decreases end,
    {
        assert(views[end as int].role == history@[end as int].role@);
        end = end - 1;
    }
    assert(views[end as int].role == history@[end as int].role@);
    if end <= 1 {
        None
    } else {
        Some(end)
    }
}

/// The instruction of the summarizer.
pub open spec fn summarizer_prompt_text() -> Seq<char> {
    "You are a conversation compaction engine for a Kubernetes operator agent. Summarize the older conversation history into concise context. Preserve: decisions made, actions taken (tool calls and results), errors encountered, current cluster state, passwords/secrets discovered. Omit: verbose tool output logs, repeated status checks, redundant information. Output plain text bullet points only. Be concise but preserve all critical operational context."@
}

/// The instruction of the summarizer.
pub fn summarizer_prompt() -> (r: String)
    ensures
        r@ == summarizer_prompt_text(),
{
    "You are a conversation compaction engine for a Kubernetes operator agent. Summarize the older conversation history into concise context. Preserve: decisions made, actions taken (tool calls and results), errors encountered, current cluster state, passwords/secrets discovered. Omit: verbose tool output logs, repeated status checks, redundant information. Output plain text bullet points only. Be concise but preserve all critical operational context.".to_string()
}

/// The message that the summarizer is sent.
pub open spec fn summarizer_message_text(transcript: Seq<char>) -> Seq<char> {
    "Summarize this agent conversation history (max 15 bullet points):\n\n"@ + transcript
}

/// The message that the summarizer is sent.
pub fn summarizer_message(transcript: &str) -> (r: ChatMessage)
    ensures
        r@ == (MessageView {
            role: "user"@,
            content: ContentView::Text(summarizer_message_text(transcript@)),
        }),
{
    let mut out =
        "Summarize this agent conversation history (max 15 bullet points):\n\n".to_string();
    out.append(transcript);
    ChatMessage::user_text(out)
}

/// The message that stands for `count` compacted messages.
pub open spec fn summary_message(count: nat, summary: Seq<char>) -> MessageView {
    MessageView {
        role: "user"@,
        content: ContentView::Text(
            "[Compaction summary of previous "@ + text::decimal(count) + " messages]\n"@
                + text::trimmed(clipped(summary, COMPACTION_MAX_SUMMARY_CHARS as int)),
        ),
    }
}

/// The history after its messages from index one to `end` were summarized.
pub open spec fn compacted(history: Seq<MessageView>, end: int, summary: Seq<char>) -> Seq<
    MessageView,
> {
    seq![history[0], summary_message((end - 1) as nat, summary)] + history.skip(end)
}

/// Exchanges the messages from index one to `end` for a summary of them.
pub fn compact(history: &mut Vec<ChatMessage>, end: usize, summary: &str)
    requires
        1 < end < old(history)@.len(),
    ensures
        types::messages_view(final(history)@) == compacted(
            types::messages_view(old(history)@),
            end as int,
            summary@,
        ),
{
    let ghost all = history@;
    let clip = truncate_str(summary, COMPACTION_MAX_SUMMARY_CHARS);
    let mut note = "[Compaction summary of previous ".to_string();
    note.append(text::decimal_of((end - 1) as u128).as_str());
    note.append(" messages]\n");
    note.append(text::trim(clip.as_str()).as_str());
    let mut dropped: usize = 0;
    while dropped < end - 1
        invariant
            dropped <= end - 1,
            1 < end < all.len(),
            history@ == seq![all[0]] + all.skip(1 + dropped),
        decreases end - dropped,
    {
        history.remove(1);
        dropped = dropped + 1;
        assert(history@ =~= seq![all[0]] + all.skip(1 + dropped));
    }
    history.insert(1, ChatMessage::user_text(note));
    proof {
        assert(history@ =~= seq![all[0], history@[1]] + all.skip(end as int));
        assert(types::messages_view(history@) =~= compacted(
            types::messages_view(all),
            end as int,
            summary@,
        ));
    }
}

/// Compaction keeps the first message and every message from its end on, starts the kept ones
/// with a message of the user, keeps at least the latest [`COMPACTION_KEEP_RECENT`] messages, and
/// never makes the history longer.
pub proof fn lemma_compaction_keeps_goal_and_recent(history: Seq<MessageView>, summary: Seq<char>)
    requires
        compaction_end(history) is Some,
    ensures
        ({
            let end = compaction_end(history)->0;
            let after = compacted(history, end, summary);
            &&& 1 < end <= history.len() - COMPACTION_KEEP_RECENT
            &&& history[end].role == "user"@
            &&& after[0] == history[0]
            &&& after.skip(2) == history.skip(end)
            &&& after.len() <= history.len()
            &&& after.skip(after.len() - COMPACTION_KEEP_RECENT) == history.skip(
                history.len() - COMPACTION_KEEP_RECENT,
            )
        }),
{
    let top = history.len() - COMPACTION_KEEP_RECENT;
    lemma_user_turn(history, top);
    let end = compaction_end(history)->0;
    let after = compacted(history, end, summary);
    assert(after.skip(2) =~= history.skip(end));
    assert(after.skip(after.len() - COMPACTION_KEEP_RECENT) =~= history.skip(top));
}

proof fn lemma_user_turn(history: Seq<MessageView>, top: int)
    requires
        1 <= top,
    ensures
        1 <= user_turn_at(history, top) <= top,
        user_turn_at(history, top) > 1 ==> history[user_turn_at(history, top)].role == "user"@,
    decreases top,
{
    if !(top <= 1 || history[top].role == "user"@) {
        lemma_user_turn(history, top - 1);
    }
}

// ---------------------------------------------------------------------------
// One turn of tool calls
// ---------------------------------------------------------------------------
/// The arguments of a call; text that is no JSON counts as an empty object.
pub open spec fn call_input(arguments: Seq<char>) -> JsonView {
    match json::json_read(arguments) {
        Ok(j) => j,
        Err(_) => JsonView::Object(Map::empty()),
    }
}

/// The arguments that a read gave; none count as an empty object.
pub fn input_or_empty(read: Result<Json, String>) -> (r: Json)
    ensures
        r@ == (match read {
            Ok(j) => j@,
            Err(_) => JsonView::Object(Map::empty()),
        }),
{
    match read {
        Ok(j) => j,
        Err(_) => Json::object(JsonObject::new()),
    }
}

/// Reads the arguments of a call.
pub fn parse_arguments(arguments: &str) -> (r: Json)
    ensures
        r@ == call_input(arguments@),
{
    input_or_empty(Json::parse(arguments))
}

/// What becomes of one call of a turn.
pub enum CallAction {
    /// An earlier call of the turn has the same tool and the same arguments: it is not run.
    Duplicate,
    /// No tool has that name.
    NotFound,
    /// The tool runs with these arguments.
    Execute(Json),
}

/// The view of a [`CallAction`].
pub enum ActionView {
    Duplicate,
    NotFound,
    Execute(JsonView),
}

impl View for CallAction {
    type V = ActionView;

    open spec fn view(&self) -> ActionView {
        match self {
            CallAction::Duplicate => ActionView::Duplicate,
            CallAction::NotFound => ActionView::NotFound,
            CallAction::Execute(input) => ActionView::Execute(input@),
        }
    }
}

/// The views of a sequence of actions.
pub open spec fn actions_view(actions: Seq<CallAction>) -> Seq<ActionView> {
    actions.map_values(|a: CallAction| a@)
}

/// Whether two calls have the same tool and the same arguments.
pub open spec fn same_call(a: CallView, b: CallView) -> bool {
    a.name == b.name && a.arguments == b.arguments
}

/// Whether a call before index `i` is the same as the one at `i`.
pub open spec fn repeated(calls: Seq<CallView>, i: int) -> bool {
    exists|j: int| 0 <= j < i && same_call(#[trigger] calls[j], calls[i])
}

/// What becomes of the call at index `i`.
pub open spec fn planned(calls: Seq<CallView>, tools: Seq<Seq<char>>, i: int) -> ActionView {
    if repeated(calls, i) {
        ActionView::Duplicate
    } else if tools.contains(calls[i].name) {
        ActionView::Execute(call_input(calls[i].arguments))
    } else {
        ActionView::NotFound
    }
}

/// What becomes of each call of a turn.
pub open spec fn turn_plan(calls: Seq<CallView>, tools: Seq<Seq<char>>) -> Seq<ActionView> {
    Seq::new(calls.len(), |i: int| planned(calls, tools, i))
}

/// Decides what becomes of each call of a turn.
pub fn plan_turn(calls: &Vec<ToolCall>, tools: &Vec<ToolSpec>) -> (r: Vec<CallAction>)
    ensures
        actions_view(r@) == turn_plan(types::calls_view(calls@), types::tool_names(tools@)),
{
    let ghost views = types::calls_view(calls@);
    let ghost names = types::tool_names(tools@);
    let mut out: Vec<CallAction> = Vec::new();
    let mut i: usize = 0;
    while i < calls.len()
        invariant
            i <= calls@.len(),
            views == types::calls_view(calls@),
            names == types::tool_names(tools@),
            actions_view(out@) =~= turn_plan(views, names).take(i as int),
        decreases calls@.len() - i,
    {
        let action = if is_repeated(calls, i) {
            CallAction::Duplicate
        } else if has_tool(tools, calls[i].name.as_str()) {
            CallAction::Execute(parse_arguments(calls[i].arguments.as_str()))
        } else {
            CallAction::NotFound
        };
        assert(views[i as int] == calls@[i as int]@);
        assert(action@ == planned(views, names, i as int));
        let ghost before = out@;
        out.push(action);
        assert(actions_view(out@) =~= actions_view(before).push(action@));
        i = i + 1;
    }
    assert(actions_view(out@) =~= turn_plan(views, names));
    out
}

fn is_repeated(calls: &Vec<ToolCall>, i: usize) -> (r: bool)
    requires
        i < calls@.len(),
    ensures
        r == repeated(types::calls_view(calls@), i as int),
{
    let ghost views = types::calls_view(calls@);
    assert(views[i as int] == calls@[i as int]@);
    let mut j: usize = 0;
    while j < i
        invariant
            j <= i < calls@.len(),
            views == types::calls_view(calls@),
            views[i as int] == calls@[i as int]@,
            forall|k: int| 0 <= k < j ==> !same_call(#[trigger] views[k], views[i as int]),
        decreases i - j,
    {
        assert(views[j as int] == calls@[j as int]@);
        if text::same(calls[j].name.as_str(), calls[i].name.as_str()) && text::same(
            calls[j].arguments.as_str(),
            calls[i].arguments.as_str(),
        ) {
            assert(same_call(views[j as int], views[i as int]));
            return true;
        }
        j = j + 1;
    }
    false
}

/// Tells whether a tool has the given name.
pub fn has_tool(tools: &Vec<ToolSpec>, name: &str) -> (r: bool)
    ensures
        r == types::tool_names(tools@).contains(name@),
{
    let ghost names = types::tool_names(tools@);
    let mut i: usize = 0;
    while i < tools.len()
        invariant
            i <= tools@.len(),
            names == types::tool_names(tools@),
            forall|k: int| 0 <= k < i ==> names[k] != name@,
        decreases tools@.len() - i,
    {
        if text::same(tools[i].name.as_str(), name) {
            assert(names[i as int] == name@);
            return true;
        }
        i = i + 1;
    }
    false
}

/// In one turn no two calls with the same tool and the same arguments both run, and the first of
/// them runs where the tool exists.
pub proof fn lemma_identical_calls_run_once(
    calls: Seq<CallView>,
    tools: Seq<Seq<char>>,
    i: int,
    j: int,
)
    requires
        0 <= i < j < calls.len(),
        same_call(calls[i], calls[j]),
    ensures
        turn_plan(calls, tools)[j] is Duplicate,
        !repeated(calls, i) && tools.contains(calls[i].name) ==> turn_plan(calls, tools)[i] is Execute,
{
    assert(repeated(calls, j));
}

/// The result of a call that was skipped.
pub open spec fn duplicate_text(name: Seq<char>) -> Seq<char> {
    "Skipped: duplicate call to '"@ + name
        + "' with identical arguments. Try a different approach."@
}

/// The result of a call of an unknown tool.
pub open spec fn not_found_text(name: Seq<char>, tools: Seq<Seq<char>>) -> Seq<char> {
    "Tool '"@ + name + "' not found. Available tools: "@ + text::joined(tools, ", "@)
}

/// A call as the list of actions shows it.
pub open spec fn call_text(call: CallView) -> Seq<char> {
    call.name + "("@ + call.arguments + ")"@
}

/// Whether there is an output for exactly the calls that run.
pub open spec fn outputs_fit(
    calls: Seq<CallView>,
    tools: Seq<Seq<char>>,
    outputs: Seq<Option<Seq<char>>>,
) -> bool {
    &&& outputs.len() == calls.len()
    &&& forall|i: int|
        0 <= i < calls.len() ==> ((#[trigger] outputs[i]) is Some <==> planned(
            calls,
            tools,
            i,
        ) is Execute)
}

/// What the model is told of the call at index `i`.
pub open spec fn turn_part(
    calls: Seq<CallView>,
    tools: Seq<Seq<char>>,
    outputs: Seq<Option<Seq<char>>>,
    i: int,
) -> PartView {
    PartView::ToolResult {
        tool_use_id: calls[i].id,
        content: match planned(calls, tools, i) {
            ActionView::Duplicate => duplicate_text(calls[i].name),
            ActionView::NotFound => not_found_text(calls[i].name, tools),
            ActionView::Execute(_) => outputs[i]->0,
        },
    }
}

/// What the model is told of a turn.
pub open spec fn turn_parts(
    calls: Seq<CallView>,
    tools: Seq<Seq<char>>,
    outputs: Seq<Option<Seq<char>>>,
) -> Seq<PartView> {
    Seq::new(calls.len(), |i: int| turn_part(calls, tools, outputs, i))
}

/// What the first `n` calls of a turn add to the list of actions.
pub open spec fn taken_to(calls: Seq<CallView>, tools: Seq<Seq<char>>, n: int) -> Seq<Seq<char>>
    decreases n,
{
    if n <= 0 {
        seq![]
    } else {
        match planned(calls, tools, n - 1) {
            ActionView::Duplicate => taken_to(calls, tools, n - 1),
            ActionView::NotFound => taken_to(calls, tools, n - 1).push(
                call_text(calls[n - 1]) + " [tool not found]"@,
            ),
            ActionView::Execute(_) => taken_to(calls, tools, n - 1).push(call_text(calls[n - 1])),
        }
    }
}

/// The outputs of the tools that ran among the first `n` calls, one after the other.
pub open spec fn output_to(
    calls: Seq<CallView>,
    tools: Seq<Seq<char>>,
    outputs: Seq<Option<Seq<char>>>,
    n: int,
) -> Seq<char>
    decreases n,
{
    if n <= 0 {
        seq![]
    } else {
        match planned(calls, tools, n - 1) {
            ActionView::Execute(_) => output_to(calls, tools, outputs, n - 1) + outputs[n - 1]->0,
            _ => output_to(calls, tools, outputs, n - 1),
        }
    }
}

/// The model is told of every call of a turn, once, in order, under the id of the call.
pub proof fn lemma_every_call_is_answered(
    calls: Seq<CallView>,
    tools: Seq<Seq<char>>,
    outputs: Seq<Option<Seq<char>>>,
)
    ensures
        turn_parts(calls, tools, outputs).len() == calls.len(),
        forall|i: int|
            0 <= i < calls.len() ==> (#[trigger] turn_parts(calls, tools, outputs)[i]) is ToolResult
                && turn_parts(calls, tools, outputs)[i]->tool_use_id == calls[i].id,
{
}

// ---------------------------------------------------------------------------
// Detection of a loop
// ---------------------------------------------------------------------------
/// A run is given up when the same output has come this often after its first time.
pub const MAX_REPEATS: u32 = 3;

/// The final text of a run that was given up.
pub open spec fn stuck_text() -> Seq<char> {
    "Agent detected it was stuck in a loop producing identical results. Aborting to prevent wasted resources."@
}

/// The number of repetitions after a turn with the combined output `combined`. A turn without
/// output does not count.
pub open spec fn repeats_after(
    repeats: int,
    last: Option<Seq<char>>,
    combined: Seq<char>,
) -> int {
    if combined.len() == 0 {
        repeats
    } else if last == Some(combined) {
        repeats + 1
    } else {
        0
    }
}

/// The output that later turns are held against.
pub open spec fn last_after(last: Option<Seq<char>>, combined: Seq<char>) -> Option<Seq<char>> {
    if combined.len() == 0 {
        last
    } else {
        Some(combined)
    }
}

/// Whether the run is given up after a turn.
pub open spec fn stuck_after(repeats: int, last: Option<Seq<char>>, combined: Seq<char>) -> bool {
    combined.len() > 0 && repeats_after(repeats, last, combined) >= MAX_REPEATS
}

/// Four turns in a row with the same output, which is not empty, end the run, whatever came
/// before; two in a row do not, where the output is new.
pub proof fn lemma_fourth_identical_output_ends_run(
    repeats: int,
    last: Option<Seq<char>>,
    combined: Seq<char>,
)
    requires
        combined.len() > 0,
        0 <= repeats < MAX_REPEATS,
    ensures
        ({
            let r1 = repeats_after(repeats, last, combined);
            let l1 = last_after(last, combined);
            let r2 = repeats_after(r1, l1, combined);
            let r3 = repeats_after(r2, l1, combined);
            &&& stuck_after(r3, l1, combined)
            &&& last != Some(combined) ==> !stuck_after(repeats, last, combined) && !stuck_after(
                r1,
                l1,
                combined,
            ) && !stuck_after(r2, l1, combined)
        }),
{
}

// ---------------------------------------------------------------------------
// The run
// ---------------------------------------------------------------------------
/// What a run came to.
pub struct AgentRunResult {
    pub text: Option<String>,
    pub actions_taken: Vec<String>,
    pub total_input_tokens: u32,
    pub total_output_tokens: u32,
}

/// An agent and the state of its run.
pub struct AutonomousAgent {
    pub tools: Vec<ToolSpec>,
    pub config: AgentConfig,
    pub history: Vec<ChatMessage>,
    /// Turns that are over.
    pub iteration: u32,
    /// Whether this turn's compaction has been made.
    pub compaction_done: bool,
    /// The calls of this turn that have no result yet.
    pub calls: Vec<ToolCall>,
    pub finished: bool,
    pub result: AgentRunResult,
    pub repeats: u32,
    pub last_output: Option<String>,
}

/// The view of an [`AutonomousAgent`].
#[verifier::ext_equal]
pub struct AgentView {
    pub tools: Seq<Seq<char>>,
    pub max_iterations: u32,
    pub history: Seq<MessageView>,
    pub iteration: int,
    pub compaction_done: bool,
    pub calls: Seq<CallView>,
    pub finished: bool,
    pub text: Option<Seq<char>>,
    pub actions_taken: Seq<Seq<char>>,
    pub input_tokens: int,
    pub output_tokens: int,
    pub repeats: int,
    pub last_output: Option<Seq<char>>,
}

impl View for AutonomousAgent {
    type V = AgentView;

    open spec fn view(&self) -> AgentView {
        AgentView {
            tools: types::tool_names(self.tools@),
            max_iterations: self.config.max_iterations,
            history: types::messages_view(self.history@),
            iteration: self.iteration as int,
            compaction_done: self.compaction_done,
            calls: types::calls_view(self.calls@),
            finished: self.finished,
            text: text::opt(self.result.text),
            actions_taken: text::views(self.result.actions_taken@),
            input_tokens: self.result.total_input_tokens as int,
            output_tokens: self.result.total_output_tokens as int,
            repeats: self.repeats as int,
            last_output: text::opt(self.last_output),
        }
    }
}

/// What a run does next.
pub enum AgentStep {
    /// Nothing: the run is over.
    Finish,
    /// Summarize the messages from index one up to `end`.
    Compact { end: usize },
    /// Send the history to the model.
    Chat,
}

/// A run at its start.
pub open spec fn started(v: AgentView, user_message: Seq<char>) -> AgentView {
    AgentView {
        history: seq![
            MessageView { role: "user"@, content: ContentView::Text(user_message) },
        ],
        iteration: 0,
        compaction_done: false,
        calls: seq![],
        finished: false,
        text: None,
        actions_taken: seq![],
        input_tokens: 0,
        output_tokens: 0,
        repeats: 0,
        last_output: None,
        ..v
    }
}

/// Whether the run is over.
pub open spec fn is_over(v: AgentView) -> bool {
    v.finished || v.iteration >= v.max_iterations
}

/// Where the history is to be compacted before the model is asked.
pub open spec fn compaction_due(v: AgentView) -> Option<int> {
    if !v.compaction_done && v.history.len() > COMPACTION_MAX_MESSAGES {
        compaction_end(v.history)
    } else {
        None
    }
}

/// A run after its history was compacted.
pub open spec fn after_summary(v: AgentView, end: int, summary: Seq<char>) -> AgentView {
    AgentView { history: compacted(v.history, end, summary), compaction_done: true, ..v }
}

/// The model's answer as a message of the history.
pub open spec fn assistant_message(answer: Option<Seq<char>>, calls: Seq<CallView>) -> MessageView {
    let said: Seq<PartView> = match answer {
        Some(t) => seq![PartView::Text { text: t }],
        None => seq![],
    };
    MessageView {
        role: "assistant"@,
        content: ContentView::Parts(
            said + calls.map_values(
                |c: CallView|
                    PartView::ToolUse { id: c.id, name: c.name, input: call_input(c.arguments) },
            ),
        ),
    }
}

/// A run after the model's answer: an answer without calls ends it, and is its text; any other
/// joins the history.
pub open spec fn after_reply(
    v: AgentView,
    answer: Option<Seq<char>>,
    calls: Seq<CallView>,
    input_tokens: int,
    output_tokens: int,
) -> AgentView {
    let counted = AgentView {
        input_tokens: v.input_tokens + input_tokens,
        output_tokens: v.output_tokens + output_tokens,
        ..v
    };
    if calls.len() == 0 {
        AgentView { finished: true, text: answer, ..counted }
    } else {
        AgentView { history: v.history.push(assistant_message(answer, calls)), calls, ..counted }
    }
}

/// A run after the tools of a turn: their results join the history and the next turn comes,
/// unless the output has repeated itself too often.
pub open spec fn after_results(v: AgentView, outputs: Seq<Option<Seq<char>>>) -> AgentView {
    let n = v.calls.len() as int;
    let combined = output_to(v.calls, v.tools, outputs, n);
    let counted = AgentView {
        calls: seq![],
        actions_taken: v.actions_taken + taken_to(v.calls, v.tools, n),
        repeats: repeats_after(v.repeats, v.last_output, combined),
        last_output: last_after(v.last_output, combined),
        ..v
    };
    if stuck_after(v.repeats, v.last_output, combined) {
        AgentView { finished: true, text: Some(stuck_text()), ..counted }
    } else {
        AgentView {
            history: v.history.push(
                MessageView {
                    role: "user"@,
                    content: ContentView::Parts(turn_parts(v.calls, v.tools, outputs)),
                },
            ),
            iteration: v.iteration + 1,
            compaction_done: false,
            ..counted
        }
    }
}

/// What every step of a run keeps.
pub open spec fn run_invariant(v: AgentView, goal: MessageView) -> bool {
    &&& v.history.len() > 0
    &&& v.history[0] == goal
    &&& 0 <= v.iteration <= v.max_iterations
    &&& 0 <= v.repeats <= MAX_REPEATS
    &&& !v.finished ==> v.repeats < MAX_REPEATS
}

/// The goal stays the first message through every step of a run, there are never more turns than
/// the settings allow, and a turn either ends the run or counts as one.
pub proof fn lemma_run_keeps_goal_and_bound(
    v: AgentView,
    goal: MessageView,
    user_message: Seq<char>,
    summary: Seq<char>,
    answer: Option<Seq<char>>,
    calls: Seq<CallView>,
    input_tokens: int,
    output_tokens: int,
    outputs: Seq<Option<Seq<char>>>,
)
    ensures
        run_invariant(
            started(v, user_message),
            MessageView { role: "user"@, content: ContentView::Text(user_message) },
        ),
        run_invariant(v, goal) && compaction_due(v) is Some ==> run_invariant(
            after_summary(v, compaction_due(v)->0, summary),
            goal,
        ),
        run_invariant(v, goal) ==> run_invariant(
            after_reply(v, answer, calls, input_tokens, output_tokens),
            goal,
        ),
        run_invariant(v, goal) && !is_over(v) ==> run_invariant(after_results(v, outputs), goal)
            && (after_results(v, outputs).finished || after_results(v, outputs).iteration
            == v.iteration + 1),
{
    if run_invariant(v, goal) && compaction_due(v) is Some {
        lemma_compaction_keeps_goal_and_recent(v.history, summary);
    }
}

impl AutonomousAgent {
    /// An agent with nothing in its history.
    pub fn new(tools: Vec<ToolSpec>, config: AgentConfig) -> (r: AutonomousAgent)
        ensures
            r.tools == tools,
            r.config == config,
            r@.history == Seq::<MessageView>::empty(),
            r@.iteration == 0,
            !r@.finished,
            r@.calls == Seq::<CallView>::empty(),
            r@.actions_taken == Seq::<Seq<char>>::empty(),
            r@.text is None,
            r@.input_tokens == 0,
            r@.output_tokens == 0,
            r@.repeats == 0,
            r@.last_output is None,
            !r@.compaction_done,
    {
        let r = AutonomousAgent {
            tools,
            config,
            history: Vec::new(),
            iteration: 0,
            compaction_done: false,
            calls: Vec::new(),
            finished: false,
            result: AgentRunResult {
                text: None,
                actions_taken: Vec::new(),
                total_input_tokens: 0,
                total_output_tokens: 0,
            },
            repeats: 0,
            last_output: None,
        };
        assert(r@.history =~= Seq::<MessageView>::empty());
        assert(r@.calls =~= Seq::<CallView>::empty());
        assert(r@.actions_taken =~= Seq::<Seq<char>>::empty());
        r
    }

    /// Opens a run with the user's message; what an earlier run left is cleared.
    pub fn start(&mut self, user_message: &str)
        ensures
            final(self)@ == started(old(self)@, user_message@),
            final(self).tools == old(self).tools,
            final(self).config == old(self).config,
    {
        let ghost before = self@;
        self.history = Vec::new();
        self.history.push(ChatMessage::user_text(user_message.to_string()));
        self.iteration = 0;
        self.compaction_done = false;
        self.calls = Vec::new();
        self.finished = false;
        self.result = AgentRunResult {
            text: None,
            actions_taken: Vec::new(),
            total_input_tokens: 0,
            total_output_tokens: 0,
        };
        self.repeats = 0;
        self.last_output = None;
        assert(self@ =~= started(before, user_message@));
    }

    /// Says what the run does next.
    pub fn next_step(&self) -> (r: AgentStep)
        requires
            self@.calls.len() == 0,
        ensures
            match r {
                AgentStep::Finish => is_over(self@),
                AgentStep::Compact { end } => !is_over(self@) && compaction_due(self@) == Some(
                    end as int,
                ) && 1 < end < self@.history.len(),
                AgentStep::Chat => !is_over(self@) && compaction_due(self@) is None,
            },
    {
        if self.finished || self.iteration >= self.config.max_iterations {
            return AgentStep::Finish;
        }
        if !self.compaction_done && self.history.len() > COMPACTION_MAX_MESSAGES {
            if let Some(end) = plan_compaction(&self.history) {
                return AgentStep::Compact { end };
            }
        }
        AgentStep::Chat
    }

    /// The transcript of the messages from index one up to `end`, for the summarizer.
    pub fn transcript(&self, end: usize) -> (r: String)
        requires
            1 < end < self@.history.len(),
            showable(self@.history.subrange(1, end as int)),
        ensures
            r@ == compaction_transcript(self@.history.subrange(1, end as int)),
    {
        let part = vstd::slice::slice_subrange(self.history.as_slice(), 1, end);
        assert(types::messages_view(part@) =~= self@.history.subrange(1, end as int));
        build_compaction_transcript(part)
    }

    /// Tells whether the messages from index one up to `end` can be shown in a transcript.
    pub fn can_transcribe(&self, end: usize) -> (r: bool)
        requires
            1 < end < self@.history.len(),
        ensures
            r == showable(self@.history.subrange(1, end as int)),
    {
        let part = vstd::slice::slice_subrange(self.history.as_slice(), 1, end);
        assert(types::messages_view(part@) =~= self@.history.subrange(1, end as int));
        is_showable(part)
    }

    /// Compacts the history: `summary` is the summarizer's text, or the transcript itself where
    /// the summarizer failed.
    pub fn record_summary(&mut self, end: usize, summary: &str)
        requires
            1 < end < old(self)@.history.len(),
        ensures
            final(self)@ == after_summary(old(self)@, end as int, summary@),
            final(self).tools == old(self).tools,
            final(self).config == old(self).config,
    {
        compact(&mut self.history, end, summary);
        self.compaction_done = true;
    }

    /// Takes the model's answer.
    pub fn record_reply(&mut self, response: ChatResponse)
        requires
            !is_over(old(self)@),
            old(self)@.calls.len() == 0,
            old(self)@.input_tokens + response.input_tokens <= u32::MAX,
            old(self)@.output_tokens + response.output_tokens <= u32::MAX,
        ensures
            final(self)@ == after_reply(
                old(self)@,
                text::opt(response.text),
                types::calls_view(response.tool_calls@),
                response.input_tokens as int,
                response.output_tokens as int,
            ),
            final(self).tools == old(self).tools,
            final(self).config == old(self).config,
    {
        let ghost before = self@;
        let ghost calls = types::calls_view(response.tool_calls@);
        self.result.total_input_tokens = self.result.total_input_tokens + response.input_tokens;
        self.result.total_output_tokens = self.result.total_output_tokens + response.output_tokens;
        if response.tool_calls.len() == 0 {
            self.finished = true;
            self.result.text = response.text;
            assert(self@ =~= after_reply(
                before,
                text::opt(response.text),
                calls,
                response.input_tokens as int,
                response.output_tokens as int,
            ));
            return;
        }
        let message = reply_message(&response.text, &response.tool_calls);
        let ghost history = self.history@;
        self.history.push(message);
        self.calls = response.tool_calls;
        proof {
            assert(types::messages_view(self.history@) =~= types::messages_view(history).push(
                message@,
            ));
            assert(self@ =~= after_reply(
                before,
                text::opt(response.text),
                calls,
                response.input_tokens as int,
                response.output_tokens as int,
            ));
        }
    }

    /// Decides what becomes of the calls of this turn.
    pub fn plan(&self) -> (r: Vec<CallAction>)
        ensures
            actions_view(r@) == turn_plan(self@.calls, self@.tools),
    {
        plan_turn(&self.calls, &self.tools)
    }

    /// Takes the outputs of this turn's tools: one for each call that ran, `None` for the others.
    pub fn record_results(&mut self, outputs: Vec<Option<String>>)
        requires
            !is_over(old(self)@),
            old(self)@.calls.len() > 0,
            old(self)@.repeats < MAX_REPEATS,
            outputs_fit(old(self)@.calls, old(self)@.tools, text::opt_views(outputs@)),
        ensures
            final(self)@ == after_results(old(self)@, text::opt_views(outputs@)),
            final(self).tools == old(self).tools,
            final(self).config == old(self).config,
    {
        let ghost before = self@;
        let ghost given = text::opt_views(outputs@);
        let turn = report_turn(&self.calls, &self.tools, &outputs);
        let mut taken = turn.taken;
        let ghost taken_before = self.result.actions_taken@;
        let ghost taken_now = taken@;
        self.result.actions_taken.append(&mut taken);
        assert(text::views(self.result.actions_taken@) =~= text::views(taken_before) + text::views(
            taken_now,
        ));
        self.calls = Vec::new();
        let combined = turn.combined;
        let quiet = text::char_count(combined.as_str()) == 0;
        if !quiet {
            let again = match &self.last_output {
                Some(last) => text::same(last.as_str(), combined.as_str()),
                None => false,
            };
            if again {
                self.repeats = self.repeats + 1;
            } else {
                self.repeats = 0;
            }
            self.last_output = Some(combined);
            if self.repeats >= MAX_REPEATS {
                self.finished = true;
                self.result.text = Some(
                    "Agent detected it was stuck in a loop producing identical results. Aborting to prevent wasted resources.".to_string(),
                );
                assert(self@ =~= after_results(before, given));
                return;
            }
        }
        let ghost history = self.history@;
        let message = ChatMessage {
            role: "user".to_string(),
            content: MessageContent::Parts(turn.parts),
        };
        self.history.push(message);
        self.iteration = self.iteration + 1;
        self.compaction_done = false;
        proof {
            assert(types::messages_view(self.history@) =~= types::messages_view(history).push(
                message@,
            ));
            assert(self@ =~= after_results(before, given));
        }
    }

    /// What the run came to.
    pub fn outcome(&self) -> (r: AgentRunResult)
        ensures
            text::opt(r.text) == self@.text,
            text::views(r.actions_taken@) == self@.actions_taken,
            r.total_input_tokens == self@.input_tokens,
            r.total_output_tokens == self@.output_tokens,
    {
        AgentRunResult {
            text: text::copy_opt(&self.result.text),
            actions_taken: text::copy_all(&self.result.actions_taken),
            total_input_tokens: self.result.total_input_tokens,
            total_output_tokens: self.result.total_output_tokens,
        }
    }
}

fn reply_message(answer: &Option<String>, calls: &Vec<ToolCall>) -> (r: ChatMessage)
    ensures
        r@ == assistant_message(text::opt(*answer), types::calls_view(calls@)),
{
    let ghost views = types::calls_view(calls@);
    let mut parts: Vec<ContentPart> = Vec::new();
    if let Some(t) = answer {
        parts.push(ContentPart::Text { text: t.clone() });
    }
    let ghost said: Seq<PartView> = match text::opt(*answer) {
        Some(t) => seq![PartView::Text { text: t }],
        None => seq![],
    };
    let ghost uses = views.map_values(
        |c: CallView|
            PartView::ToolUse { id: c.id, name: c.name, input: call_input(c.arguments) },
    );
    assert(types::parts_view(parts@) =~= said + uses.take(0));
    let mut i: usize = 0;
    while i < calls.len()
        invariant
            i <= calls@.len(),
            views == types::calls_view(calls@),
            uses == views.map_values(
                |c: CallView|
                    PartView::ToolUse { id: c.id, name: c.name, input: call_input(c.arguments) },
            ),
            types::parts_view(parts@) =~= said + uses.take(i as int),
        decreases calls@.len() - i,
    {
        let call = &calls[i];
        assert(views[i as int] == call@);
        let ghost before = parts@;
        parts.push(
            ContentPart::ToolUse {
                id: call.id.clone(),
                name: call.name.clone(),
                input: parse_arguments(call.arguments.as_str()),
            },
        );
        assert(types::parts_view(parts@) =~= types::parts_view(before).push(uses[i as int]));
        i = i + 1;
    }
    assert(types::parts_view(parts@) =~= said + uses);
    ChatMessage { role: "assistant".to_string(), content: MessageContent::Parts(parts) }
}

struct TurnReport {
    parts: Vec<ContentPart>,
    taken: Vec<String>,
    combined: String,
}

fn names_of(tools: &Vec<ToolSpec>) -> (r: Vec<String>)
    ensures
        text::views(r@) == types::tool_names(tools@),
{
    let mut out: Vec<String> = Vec::new();
    let mut i: usize = 0;
    while i < tools.len()
        invariant
            i <= tools@.len(),
            text::views(out@) =~= types::tool_names(tools@).take(i as int),
        decreases tools@.len() - i,
    {
        let ghost before = out@;
        out.push(tools[i].name.clone());
        assert(text::views(out@) =~= text::views(before).push(
            types::tool_names(tools@)[i as int],
        ));
        i = i + 1;
    }
    assert(text::views(out@) =~= types::tool_names(tools@));
    out
}

fn report_turn(calls: &Vec<ToolCall>, tools: &Vec<ToolSpec>, outputs: &Vec<Option<String>>) -> (r:
    TurnReport)
    requires
        outputs_fit(
            types::calls_view(calls@),
            types::tool_names(tools@),
            text::opt_views(outputs@),
        ),
    ensures
        ({
            let views = types::calls_view(calls@);
            let names = types::tool_names(tools@);
            let given = text::opt_views(outputs@);
            &&& types::parts_view(r.parts@) == turn_parts(views, names, given)
            &&& text::views(r.taken@) == taken_to(views, names, views.len() as int)
            &&& r.combined@ == output_to(views, names, given, views.len() as int)
        }),
{
    let ghost views = types::calls_view(calls@);
    let ghost names = types::tool_names(tools@);
    let ghost given = text::opt_views(outputs@);
    let plan = plan_turn(calls, tools);
    assert(actions_view(plan@).len() == plan@.len());
    let available = text::join(&names_of(tools), ", ");
    let mut parts: Vec<ContentPart> = Vec::new();
    let mut taken: Vec<String> = Vec::new();
    let mut combined = String::new();
    let mut i: usize = 0;
    while i < calls.len()
        invariant
            i <= calls@.len(),
            views == types::calls_view(calls@),
            names == types::tool_names(tools@),
            given == text::opt_views(outputs@),
            outputs_fit(views, names, given),
            actions_view(plan@) == turn_plan(views, names),
            plan@.len() == calls@.len(),
            available@ == text::joined(names, ", "@),
            types::parts_view(parts@) =~= turn_parts(views, names, given).take(i as int),
            text::views(taken@) == taken_to(views, names, i as int),
            combined@ == output_to(views, names, given, i as int),
        decreases calls@.len() - i,
    {
        let call = &calls[i];
        proof {
            assert(views[i as int] == call@);
            assert(actions_view(plan@)[i as int] == plan@[i as int]@);
            assert(plan@[i as int]@ == planned(views, names, i as int));
            assert(given[i as int] == text::opt(outputs@[i as int]));
        }
        let ghost taken_before = taken@;
        let ghost parts_before = parts@;
        let mut shown = call.name.clone();
        shown.append("(");
        shown.append(call.arguments.as_str());
        shown.append(")");
        let content = match &plan[i] {
            CallAction::Duplicate => {
                let mut t = "Skipped: duplicate call to '".to_string();
                t.append(call.name.as_str());
                t.append("' with identical arguments. Try a different approach.");
                t
            },
            CallAction::NotFound => {
                shown.append(" [tool not found]");
                taken.push(shown);
                let mut t = "Tool '".to_string();
                t.append(call.name.as_str());
                t.append("' not found. Available tools: ");
                t.append(available.as_str());
                t
            },
            CallAction::Execute(_) => {
                taken.push(shown);
                match &outputs[i] {
                    Some(output) => {
                        combined.append(output.as_str());
                        output.clone()
                    },
                    None => {
                        assert(false);
                        String::new()
                    },
                }
            },
        };
        parts.push(ContentPart::ToolResult { tool_use_id: call.id.clone(), content });
        proof {
            if planned(views, names, i as int) is Duplicate {
            } else {
                assert(text::views(taken@) =~= text::views(taken_before).push(taken@.last()@));
            }
            assert(types::parts_view(parts@) =~= types::parts_view(parts_before).push(
                turn_part(views, names, given, i as int),
            ));
        }
        i = i + 1;
    }
    assert(types::parts_view(parts@) =~= turn_parts(views, names, given));
    TurnReport { parts, taken, combined }
}

// ---------------------------------------------------------------------------
// What a run does, step by step
// ---------------------------------------------------------------------------
/// A call runs exactly when its tool exists and no earlier call of the turn has the same name and
/// the same arguments. It runs with the document that its arguments are, or with an empty object.
pub proof fn lemma_new_calls_of_known_tools_run(
    calls: Seq<CallView>,
    tools: Seq<Seq<char>>,
    i: int,
)
    requires
        0 <= i < calls.len(),
    ensures
        turn_plan(calls, tools).len() == calls.len(),
        turn_plan(calls, tools)[i] is Duplicate <==> exists|j: int|
            0 <= j < i && #[trigger] calls[j].name == calls[i].name && calls[j].arguments
                == calls[i].arguments,
        turn_plan(calls, tools)[i] is Execute <==> tools.contains(calls[i].name) && !exists|j: int|
            0 <= j < i && #[trigger] calls[j].name == calls[i].name && calls[j].arguments
                == calls[i].arguments,
        turn_plan(calls, tools)[i] matches ActionView::Execute(input) ==> match json::json_read(
            calls[i].arguments,
        ) {
            Ok(document) => input == document,
            Err(_) => input matches JsonView::Object(members) && forall|k: Seq<char>|
                !(#[trigger] members.contains_key(k)),
        },
{
    if repeated(calls, i) {
        let j = choose|j: int| 0 <= j < i && same_call(#[trigger] calls[j], calls[i]);
        assert(calls[j].name == calls[i].name);
    }
    if exists|j: int|
        0 <= j < i && #[trigger] calls[j].name == calls[i].name && calls[j].arguments
            == calls[i].arguments {
        let j = choose|j: int|
            0 <= j < i && #[trigger] calls[j].name == calls[i].name && calls[j].arguments
                == calls[i].arguments;
        assert(same_call(calls[j], calls[i]));
    }
}

/// After a turn that does not end the run the model sees, in one message of the user and call by
/// call, what each tool printed; of a call that did not run it sees why.
pub proof fn lemma_outputs_reach_the_model(
    v: AgentView,
    outputs: Seq<Option<Seq<char>>>,
    i: int,
)
    requires
        outputs_fit(v.calls, v.tools, outputs),
        0 <= i < v.calls.len(),
        !v.finished,
        !after_results(v, outputs).finished,
    ensures
        ({
            let a = after_results(v, outputs);
            let m = a.history.last();
            &&& a.history == v.history.push(m)
            &&& m.role == "user"@
            &&& m.content is Parts
            &&& m.content->Parts_0.len() == v.calls.len()
            &&& m.content->Parts_0[i] matches PartView::ToolResult { tool_use_id, content }
            &&& tool_use_id == v.calls[i].id
            &&& outputs[i] is Some ==> content == outputs[i]->0
            &&& (exists|j: int|
                0 <= j < i && #[trigger] v.calls[j].name == v.calls[i].name && v.calls[j].arguments
                    == v.calls[i].arguments) ==> content == "Skipped: duplicate call to '"@
                + v.calls[i].name + "' with identical arguments. Try a different approach."@
            &&& !v.tools.contains(v.calls[i].name) && !(exists|j: int|
                0 <= j < i && #[trigger] v.calls[j].name == v.calls[i].name && v.calls[j].arguments
                    == v.calls[i].arguments) ==> content == "Tool '"@ + v.calls[i].name
                + "' not found. Available tools: "@ + text::joined(v.tools, ", "@)
        }),
{
    lemma_new_calls_of_known_tools_run(v.calls, v.tools, i);
    assert(turn_plan(v.calls, v.tools)[i] == planned(v.calls, v.tools, i));
}

/// An output is given for exactly the calls that run: those of known tools that are not the
/// same as an earlier one.
pub proof fn lemma_outputs_are_of_running_calls(
    calls: Seq<CallView>,
    tools: Seq<Seq<char>>,
    outputs: Seq<Option<Seq<char>>>,
    i: int,
)
    requires
        outputs_fit(calls, tools, outputs),
        0 <= i < calls.len(),
    ensures
        outputs.len() == calls.len(),
        outputs[i] is Some <==> turn_plan(calls, tools)[i] is Execute,
{
    assert(turn_plan(calls, tools)[i] == planned(calls, tools, i));
}

/// A turn ends with no call left to answer, keeps the tools, the settings and the tokens, and adds
/// to the actions without taking any away. It ends the run exactly when the output repeated
/// itself too often; otherwise one more turn is counted.
pub proof fn lemma_turn_goes_on(v: AgentView, outputs: Seq<Option<Seq<char>>>)
    requires
        !v.finished,
    ensures
        ({
            let a = after_results(v, outputs);
            &&& a.calls.len() == 0
            &&& a.tools == v.tools && a.max_iterations == v.max_iterations
            &&& a.input_tokens == v.input_tokens && a.output_tokens == v.output_tokens
            &&& v.actions_taken =~= a.actions_taken.take(v.actions_taken.len() as int)
            &&& a.actions_taken.len() <= v.actions_taken.len() + v.calls.len()
            &&& a.finished ==> a.text == Some(
                "Agent detected it was stuck in a loop producing identical results. Aborting to prevent wasted resources."@,
            ) && a.history == v.history && a.iteration == v.iteration
            &&& !a.finished ==> a.text == v.text && a.iteration == v.iteration + 1
                && !a.compaction_done
        }),
{
    lemma_taken_is_short(v.calls, v.tools, v.calls.len() as int);
}

proof fn lemma_taken_is_short(calls: Seq<CallView>, tools: Seq<Seq<char>>, n: int)
    requires
        0 <= n,
    ensures
        taken_to(calls, tools, n).len() <= n,
    decreases n,
{
    if n > 0 {
        lemma_taken_is_short(calls, tools, n - 1);
    }
}

/// Every call that is not a repetition is among the actions of its turn, by its name and its
/// arguments, with a note where its tool is unknown.
pub proof fn lemma_calls_are_listed(
    v: AgentView,
    outputs: Seq<Option<Seq<char>>>,
    i: int,
)
    requires
        0 <= i < v.calls.len(),
        !(exists|j: int|
            0 <= j < i && #[trigger] v.calls[j].name == v.calls[i].name && v.calls[j].arguments
                == v.calls[i].arguments),
    ensures
        ({
            let shown = v.calls[i].name + "("@ + v.calls[i].arguments + ")"@;
            after_results(v, outputs).actions_taken.skip(v.actions_taken.len() as int).contains(
                if v.tools.contains(v.calls[i].name) {
                    shown
                } else {
                    shown + " [tool not found]"@
                },
            )
        }),
{
    let n = v.calls.len() as int;
    lemma_new_calls_of_known_tools_run(v.calls, v.tools, i);
    assert(turn_plan(v.calls, v.tools)[i] == planned(v.calls, v.tools, i));
    lemma_taken_holds(v.calls, v.tools, i, n);
    let all = after_results(v, outputs).actions_taken;
    assert(all.skip(v.actions_taken.len() as int) =~= taken_to(v.calls, v.tools, n));
}

proof fn lemma_taken_holds(calls: Seq<CallView>, tools: Seq<Seq<char>>, i: int, n: int)
    requires
        0 <= i < n <= calls.len(),
        !(planned(calls, tools, i) is Duplicate),
    ensures
        taken_to(calls, tools, n).contains(
            if planned(calls, tools, i) is Execute {
                call_text(calls[i])
            } else {
                call_text(calls[i]) + " [tool not found]"@
            },
        ),
    decreases n,
{
    let entry = if planned(calls, tools, i) is Execute {
        call_text(calls[i])
    } else {
        call_text(calls[i]) + " [tool not found]"@
    };
    let now = taken_to(calls, tools, n);
    if i == n - 1 {
        assert(now[now.len() - 1] == entry);
    } else {
        lemma_taken_holds(calls, tools, i, n - 1);
        let before = taken_to(calls, tools, n - 1);
        let k = choose|k: int| 0 <= k < before.len() && before[k] == entry;
        assert(now[k] == entry);
    }
}

/// Where the calls of a turn differ from each other, their actions are listed one each, in order.
pub proof fn lemma_distinct_calls_are_listed_in_order(
    v: AgentView,
    outputs: Seq<Option<Seq<char>>>,
    i: int,
)
    requires
        forall|a: int, b: int|
            0 <= a < b < v.calls.len() ==> #[trigger] v.calls[a].name != #[trigger] v.calls[b].name
                || v.calls[a].arguments != v.calls[b].arguments,
        0 <= i < v.calls.len(),
    ensures
        after_results(v, outputs).actions_taken.len() == v.actions_taken.len() + v.calls.len(),
        after_results(v, outputs).actions_taken[v.actions_taken.len() + i] == v.calls[i].name + "("@
            + v.calls[i].arguments + ")"@ + (if v.tools.contains(v.calls[i].name) {
            ""@
        } else {
            " [tool not found]"@
        }),
{
    reveal_strlit("");
    lemma_distinct_taken(v.calls, v.tools, v.calls.len() as int);
    let shown = v.calls[i].name + "("@ + v.calls[i].arguments + ")"@;
    assert(shown + ""@ =~= shown);
}

proof fn lemma_distinct_taken(calls: Seq<CallView>, tools: Seq<Seq<char>>, n: int)
    requires
        forall|a: int, b: int|
            0 <= a < b < calls.len() ==> #[trigger] calls[a].name != #[trigger] calls[b].name
                || calls[a].arguments != calls[b].arguments,
        0 <= n <= calls.len(),
    ensures
        taken_to(calls, tools, n).len() == n,
        forall|i: int|
            0 <= i < n ==> #[trigger] taken_to(calls, tools, n)[i] == (if tools.contains(
                calls[i].name,
            ) {
                call_text(calls[i])
            } else {
                call_text(calls[i]) + " [tool not found]"@
            }),
    decreases n,
{
    if n > 0 {
        lemma_distinct_taken(calls, tools, n - 1);
        lemma_new_calls_of_known_tools_run(calls, tools, n - 1);
        assert(turn_plan(calls, tools)[n - 1] == planned(calls, tools, n - 1));
    }
}

/// What counts as the output of a turn changes whenever the output of one of its tools does, so
/// that only turns with the same outputs are taken for the same.
pub proof fn lemma_changed_output_is_noticed(
    calls: Seq<CallView>,
    tools: Seq<Seq<char>>,
    a: Seq<Option<Seq<char>>>,
    b: Seq<Option<Seq<char>>>,
    i: int,
)
    requires
        outputs_fit(calls, tools, a),
        outputs_fit(calls, tools, b),
        0 <= i < calls.len(),
        a[i] is Some,
        a[i] != b[i],
        forall|k: int| 0 <= k < calls.len() && k != i ==> #[trigger] a[k] == b[k],
    ensures
        output_to(calls, tools, a, calls.len() as int) != output_to(
            calls,
            tools,
            b,
            calls.len() as int,
        ),
{
    let n = calls.len() as int;
    let r = lemma_output_parts(calls, tools, a, b, i, n);
    let x = r.0 + a[i]->0 + r.1;
    let y = r.0 + b[i]->0 + r.1;
    assert(b[i] is Some <==> planned(calls, tools, i) is Execute);
    if x == y {
        assert(x.len() == r.0.len() + a[i]->0.len() + r.1.len());
        assert(y.len() == r.0.len() + b[i]->0.len() + r.1.len());
        assert forall|k: int| 0 <= k < a[i]->0.len() implies a[i]->0[k] == b[i]->0[k] by {
            assert(x[r.0.len() + k] == a[i]->0[k]);
            assert(y[r.0.len() + k] == b[i]->0[k]);
        }
        assert(a[i]->0 =~= b[i]->0);
    }
}

proof fn lemma_output_parts(
    calls: Seq<CallView>,
    tools: Seq<Seq<char>>,
    a: Seq<Option<Seq<char>>>,
    b: Seq<Option<Seq<char>>>,
    i: int,
    n: int,
) -> (r: (Seq<char>, Seq<char>))
    requires
        outputs_fit(calls, tools, a),
        outputs_fit(calls, tools, b),
        0 <= i < n <= calls.len(),
        a[i] is Some,
        forall|k: int| 0 <= k < calls.len() && k != i ==> #[trigger] a[k] == b[k],
    ensures
        output_to(calls, tools, a, n) == r.0 + a[i]->0 + r.1,
        output_to(calls, tools, b, n) == r.0 + b[i]->0 + r.1,
    decreases n,
{
    if i == n - 1 {
        lemma_output_prefix(calls, tools, a, b, i);
        assert(a[i] is Some <==> planned(calls, tools, i) is Execute);
        let p = output_to(calls, tools, a, n - 1);
        assert(p + a[i]->0 =~= p + a[i]->0 + Seq::<char>::empty());
        assert(p + b[i]->0 =~= p + b[i]->0 + Seq::<char>::empty());
        (p, Seq::empty())
    } else {
        let r = lemma_output_parts(calls, tools, a, b, i, n - 1);
        assert(a[n - 1] == b[n - 1]);
        if planned(calls, tools, n - 1) is Execute {
            let s = r.1 + a[n - 1]->0;
            assert((r.0 + a[i]->0 + r.1) + a[n - 1]->0 =~= r.0 + a[i]->0 + s);
            assert((r.0 + b[i]->0 + r.1) + a[n - 1]->0 =~= r.0 + b[i]->0 + s);
            (r.0, s)
        } else {
            r
        }
    }
}

proof fn lemma_output_prefix(
    calls: Seq<CallView>,
    tools: Seq<Seq<char>>,
    a: Seq<Option<Seq<char>>>,
    b: Seq<Option<Seq<char>>>,
    n: int,
)
    requires
        0 <= n <= calls.len(),
        forall|k: int| 0 <= k < n ==> #[trigger] a[k] == b[k],
    ensures
        output_to(calls, tools, a, n) == output_to(calls, tools, b, n),
    decreases n,
{
    if n > 0 {
        lemma_output_prefix(calls, tools, a, b, n - 1);
        assert(a[n - 1] == b[n - 1]);
    }
}

/// The repetitions that end a run are counted by outputs: one that differs from the last starts
/// anew, none at all changes nothing, and the count of a run never jumps.
pub proof fn lemma_new_output_starts_anew(
    v: AgentView,
    outputs: Seq<Option<Seq<char>>>,
)
    requires
        0 <= v.repeats < MAX_REPEATS,
        !v.finished,
    ensures
        ({
            let a = after_results(v, outputs);
            let printed = output_to(v.calls, v.tools, outputs, v.calls.len() as int);
            &&& printed.len() == 0 ==> a.repeats == v.repeats && a.last_output == v.last_output
                && !a.finished
            &&& printed.len() > 0 ==> a.last_output == Some(printed)
            &&& printed.len() > 0 && v.last_output != Some(printed) ==> a.repeats == 0
                && !a.finished
            &&& printed.len() > 0 && v.last_output == Some(printed) ==> a.repeats == v.repeats + 1
                && (a.finished <==> v.repeats == 2)
        }),
{
}

/// A run starts with the user's message as its whole history and with nothing counted.
pub proof fn lemma_run_starts_with_the_message(v: AgentView, user_message: Seq<char>)
    ensures
        ({
            let a = started(v, user_message);
            &&& a.history.len() == 1
            &&& a.history[0].role == "user"@
            &&& a.history[0].content == ContentView::Text(user_message)
            &&& a.tools == v.tools && a.max_iterations == v.max_iterations
            &&& a.iteration == 0 && !a.finished && a.text is None
            &&& a.calls.len() == 0 && a.actions_taken.len() == 0
            &&& a.input_tokens == 0 && a.output_tokens == 0
            &&& a.repeats == 0 && a.last_output is None && !a.compaction_done
            &&& !is_over(a) <==> v.max_iterations > 0
        }),
{
}

/// A run is over exactly when it was ended or its turns are used up.
pub proof fn lemma_run_ends_with_its_turns(v: AgentView)
    ensures
        v.finished ==> is_over(v),
        v.iteration >= v.max_iterations ==> is_over(v),
        !v.finished && v.iteration < v.max_iterations ==> !is_over(v),
{
}

/// An answer without calls is the text of the run and ends it; an answer with calls goes on, and
/// joins the history as a message of the assistant: its text first, then each call with its id,
/// its name and its arguments as a document. Tokens are added up either way.
pub proof fn lemma_answer_is_kept(
    v: AgentView,
    answer: Option<Seq<char>>,
    calls: Seq<CallView>,
    input_tokens: int,
    output_tokens: int,
    i: int,
)
    ensures
        ({
            let a = after_reply(v, answer, calls, input_tokens, output_tokens);
            &&& a.input_tokens == v.input_tokens + input_tokens
            &&& a.output_tokens == v.output_tokens + output_tokens
            &&& a.tools == v.tools && a.max_iterations == v.max_iterations
            &&& a.iteration == v.iteration && a.actions_taken == v.actions_taken
            &&& a.repeats == v.repeats && a.last_output == v.last_output
            &&& a.compaction_done == v.compaction_done
            &&& calls.len() == 0 ==> a.finished && a.text == answer && a.history == v.history
                && a.calls == v.calls
            &&& calls.len() > 0 ==> a.finished == v.finished && a.text == v.text && a.calls == calls
            &&& calls.len() > 0 ==> {
                let m = a.history.last();
                let said: int = if answer is Some {
                    1
                } else {
                    0
                };
                &&& a.history == v.history.push(m)
                &&& m.role == "assistant"@
                &&& m.content is Parts
                &&& m.content->Parts_0.len() == said + calls.len()
                &&& answer is Some ==> m.content->Parts_0[0] == (PartView::Text { text: answer->0 })
                &&& 0 <= i < calls.len() ==> {
                    &&& m.content->Parts_0[said + i] matches PartView::ToolUse { id, name, input }
                    &&& id == calls[i].id
                    &&& name == calls[i].name
                    &&& json::json_read(calls[i].arguments) is Ok ==> input == json::json_read(
                        calls[i].arguments,
                    )->Ok_0
                    &&& json::json_read(calls[i].arguments) is Err ==> input == JsonView::Object(
                        Map::<Seq<char>, JsonView>::empty(),
                    )
                }
            }
        }),
{
}

/// The history is compacted exactly above forty messages and once a turn; what is summarized ends
/// at the last message of the user that leaves sixteen messages behind it.
pub proof fn lemma_compaction_ends_at_the_last_user_turn(v: AgentView, k: int)
    ensures
        compaction_due(v) is Some ==> v.history.len() > 40 && !v.compaction_done,
        compaction_due(v) matches Some(end) ==> 1 < end <= v.history.len() - 16
            && v.history[end].role == "user"@ && (end < k <= v.history.len() - 16
            ==> v.history[k].role != "user"@),
        v.history.len() > 40 && !v.compaction_done && 1 < k <= v.history.len() - 16
            && v.history[k].role == "user"@ ==> compaction_due(v) is Some,
{
    let top = v.history.len() - COMPACTION_KEEP_RECENT;
    if v.history.len() > 40 {
        lemma_user_turn(v.history, top);
        lemma_user_turn_is_last(v.history, top, k);
    }
}

proof fn lemma_user_turn_is_last(history: Seq<MessageView>, top: int, k: int)
    requires
        1 <= top,
    ensures
        user_turn_at(history, top) < k <= top ==> history[k].role != "user"@,
    decreases top,
{
    if !(top <= 1 || history[top].role == "user"@) {
        lemma_user_turn_is_last(history, top - 1, k);
    }
}

/// After a compaction the second message is the user's and holds how many messages it stands for
/// and the summary; nothing else of the run changes.
pub proof fn lemma_summary_stands_for_the_messages(v: AgentView, end: int, summary: Seq<char>)
    requires
        1 < end < v.history.len(),
    ensures
        ({
            let a = after_summary(v, end, summary);
            &&& a.history.len() == v.history.len() - end + 2
            &&& a.history[0] == v.history[0]
            &&& a.history[1].role == "user"@
            &&& a.history[1].content is Text
            &&& summary.len() <= 2000 ==> a.history[1].content->Text_0
                == "[Compaction summary of previous "@ + text::decimal((end - 1) as nat)
                + " messages]\n"@ + text::trimmed(summary)
            &&& forall|k: int| end <= k < v.history.len() ==> a.history[k - end + 2]
                == #[trigger] v.history[k]
            &&& a.compaction_done
            &&& a == (AgentView { history: a.history, compaction_done: true, ..v })
        }),
{
}

/// A text is clipped to so many characters: one that fits is kept, and of a longer one the start is
/// kept and three dots show that it went on.
pub proof fn lemma_clipped_is_a_start(s: Seq<char>, max: int)
    requires
        max >= 3,
    ensures
        clipped(s, max).len() <= max,
        s.len() <= max ==> clipped(s, max) == s,
        s.len() > max ==> clipped(s, max).len() == max && clipped(s, max).take(max - 3) == s.take(
            max - 3,
        ) && clipped(s, max).skip(max - 3) == "..."@,
{
    reveal_strlit("...");
    if s.len() > max {
        assert(clipped(s, max).take(max - 3) =~= s.take(max - 3));
        assert(clipped(s, max).skip(max - 3) =~= "..."@);
    }
}

/// The transcript holds every message, in order: a message's line follows the lines of those before
/// it, and is its role in capitals, a colon, what it says and a line end.
pub proof fn lemma_transcript_holds_every_message(messages: Seq<MessageView>, i: int)
    requires
        0 <= i < messages.len(),
        transcript_to(messages, messages.len() as int).len() <= 12000,
    ensures
        ({
            let all = compaction_transcript(messages);
            let line = text::uppercased(messages[i].role) + ": "@ + content_text(
                messages[i].content,
            ) + "\n"@;
            exists|before: Seq<char>, behind: Seq<char>|
                all == #[trigger] (before + line + behind) && before == compaction_transcript(
                    messages.take(i),
                )
        }),
{
    let n = messages.len() as int;
    let behind = lemma_transcript_parts(messages, i, n);
    lemma_transcript_start(messages, i, i);
    let before = transcript_to(messages, i);
    let line = text::uppercased(messages[i].role) + ": "@ + content_text(messages[i].content)
        + "\n"@;
    assert(messages.take(i).len() == i);
    assert(before.len() <= 12000);
    assert(compaction_transcript(messages) == before + line + behind);
}

proof fn lemma_transcript_start(messages: Seq<MessageView>, i: int, n: int)
    requires
        0 <= n <= i <= messages.len(),
    ensures
        transcript_to(messages.take(i), n) == transcript_to(messages, n),
    decreases n,
{
    if n > 0 {
        lemma_transcript_start(messages, i, n - 1);
        assert(messages.take(i)[n - 1] == messages[n - 1]);
    }
}

proof fn lemma_transcript_parts(messages: Seq<MessageView>, i: int, n: int) -> (behind: Seq<char>)
    requires
        0 <= i < n <= messages.len(),
    ensures
        transcript_to(messages, n) == transcript_to(messages, i) + (text::uppercased(
            messages[i].role,
        ) + ": "@ + content_text(messages[i].content) + "\n"@) + behind,
    decreases n,
{
    let line = text::uppercased(messages[i].role) + ": "@ + content_text(messages[i].content)
        + "\n"@;
    let before = transcript_to(messages, i);
    if i == n - 1 {
        assert(before + line =~= before + line + Seq::<char>::empty());
        Seq::empty()
    } else {
        let b = lemma_transcript_parts(messages, i, n - 1);
        let last = text::uppercased(messages[n - 1].role) + ": "@ + content_text(
            messages[n - 1].content,
        ) + "\n"@;
        assert((before + line + b) + last =~= before + line + (b + last));
        b + last
    }
}

/// In a transcript a text stands as it is, a call by its name and its arguments, and a result by
/// its content, which is whole up to five hundred bytes.
pub proof fn lemma_transcript_shows_parts(p: PartView)
    ensures
        p matches PartView::Text { text } ==> content_text(ContentView::Parts(seq![p])) == text,
        p matches PartView::ToolUse { id, name, input } ==> content_text(
            ContentView::Parts(seq![p]),
        ) == "[Tool call: "@ + name + "("@ + json::json_written(input) + ")]"@,
        p matches PartView::ToolResult { tool_use_id, content } ==> (text::byte_len(content) <= 500
            ==> content_text(ContentView::Parts(seq![p])) == "[Tool result: "@ + content + "]"@),
        p matches PartView::ToolResult { tool_use_id, content } ==> (text::byte_len(content) > 500
            ==> content_text(ContentView::Parts(seq![p])) == "[Tool result: "@ + text::byte_prefix(
            content,
            500,
        ) + "...]"@),
{
    let lines = seq![p].map_values(|q: PartView| part_line(q));
    assert(lines.len() == 1 && lines[0] == part_line(p));
}

/// The limits of a run: it is given up at the third repetition of an output, and its history is
/// compacted above forty messages, of which the latest sixteen stay.
pub proof fn lemma_limits_of_runs()
    ensures
        MAX_REPEATS == 3,
        COMPACTION_MAX_MESSAGES == 40,
        COMPACTION_KEEP_RECENT == 16,
        COMPACTION_MAX_SOURCE_CHARS == 12000,
        COMPACTION_MAX_SUMMARY_CHARS == 2000,
        TRANSCRIPT_RESULT_BYTES == 500,
{
}

/// A tool is called with the document that the model gave; text that is none counts as no
/// arguments.
pub proof fn lemma_calls_get_their_arguments(arguments: Seq<char>)
    ensures
        json::json_read(arguments) matches Ok(j) ==> call_input(arguments) == j,
        json::json_read(arguments) is Err ==> call_input(arguments) == JsonView::Object(
            Map::<Seq<char>, JsonView>::empty(),
        ),
{
}

/// A call that does not run is answered with its name, and where the tool is not known also with
/// the name of every tool that is.
pub proof fn lemma_refused_calls_are_explained(name: Seq<char>, tools: Seq<Seq<char>>, i: int) -> (r:
    (Seq<char>, Seq<char>))
    requires
        0 <= i < tools.len(),
    ensures
        duplicate_text(name) == "Skipped: duplicate call to '"@ + name
            + "' with identical arguments. Try a different approach."@,
        not_found_text(name, tools) == "Tool '"@ + name + "' not found. Available tools: "@ + r.0
            + tools[i] + r.1,
{
    let r = text::lemma_joined_holds_every_part(tools, ", "@, i);
    assert(not_found_text(name, tools) =~= "Tool '"@ + name + "' not found. Available tools: "@
        + r.0 + tools[i] + r.1);
    r
}

/// A call is listed by its name and, in brackets, its arguments.
pub proof fn lemma_calls_are_listed_with_arguments(call: CallView)
    ensures
        call_text(call) == call.name + seq!['('] + call.arguments + seq![')'],
{
    reveal_strlit("(");
    reveal_strlit(")");
    assert("("@ =~= seq!['('] && ")"@ =~= seq![')']);
}

/// A message of several parts is shown part by part, a line feed between neighbours.
pub proof fn lemma_messages_are_shown_part_by_part(parts: Seq<PartView>, part: PartView)
    ensures
        content_text(ContentView::Parts(seq![part])) == part_line(part),
        parts.len() > 0 ==> content_text(ContentView::Parts(parts.push(part))) == content_text(
            ContentView::Parts(parts),
        ) + seq!['\n'] + part_line(part),
        forall|t: Seq<char>| #[trigger] content_text(ContentView::Text(t)) == t,
{
    reveal_strlit("\n");
    assert("\n"@ =~= seq!['\n']);
    let lines = parts.map_values(|p: PartView| part_line(p));
    text::lemma_joined_by_parts(lines, part_line(part), "\n"@);
    assert(parts.push(part).map_values(|p: PartView| part_line(p)) =~= lines.push(part_line(part)));
    assert(seq![part].map_values(|p: PartView| part_line(p)) =~= seq![part_line(part)]);
}

/// The summarizer is sent the whole transcript.
pub proof fn lemma_summarizer_is_sent_the_transcript(transcript: Seq<char>)
    ensures
        text::ends(summarizer_message_text(transcript), transcript),
{
    let m = summarizer_message_text(transcript);
    let k = m.len() - transcript.len();
    assert(m.subrange(k, k + transcript.len()) =~= transcript);
}

/// The view of an agent leaves nothing out: its tools, its history, its calls and its result can be
/// read off it.
pub proof fn lemma_agent_view_holds_the_fields(a: AutonomousAgent, actions: Seq<CallAction>, i: int)
    ensures
        a@.tools.len() == a.tools@.len(),
        0 <= i < a.tools@.len() ==> a@.tools[i] == a.tools@[i].name@,
        a@.max_iterations == a.config.max_iterations,
        a@.history.len() == a.history@.len(),
        0 <= i < a.history@.len() ==> a@.history[i] == a.history@[i]@,
        a@.iteration == a.iteration,
        a@.compaction_done == a.compaction_done,
        a@.calls.len() == a.calls@.len(),
        0 <= i < a.calls@.len() ==> a@.calls[i] == a.calls@[i]@,
        a@.finished == a.finished,
        a.result.text matches Some(t) ==> a@.text == Some(t@),
        a.result.text is None ==> a@.text is None,
        a@.actions_taken.len() == a.result.actions_taken@.len(),
        0 <= i < a.result.actions_taken@.len() ==> a@.actions_taken[i]
            == a.result.actions_taken@[i]@,
        a@.input_tokens == a.result.total_input_tokens,
        a@.output_tokens == a.result.total_output_tokens,
        a@.repeats == a.repeats,
        a.last_output matches Some(t) ==> a@.last_output == Some(t@),
        a.last_output is None ==> a@.last_output is None,
        actions_view(actions).len() == actions.len(),
        0 <= i < actions.len() ==> {
            &&& actions[i] is Duplicate <==> actions_view(actions)[i] is Duplicate
            &&& actions[i] is NotFound <==> actions_view(actions)[i] is NotFound
            &&& actions[i] matches CallAction::Execute(j) ==> actions_view(actions)[i]
                == ActionView::Execute(j@)
        },
{
}

/// A text that is too long is clipped to exactly the given length, and ends with three dots; where
/// there is room for no more than that, the dots stand alone.
pub proof fn lemma_clipped_ends_with_dots(s: Seq<char>, max: int)
    requires
        s.len() > max,
    ensures
        max >= 3 ==> clipped(s, max).len() == max && clipped(s, max).take(max - 3) == s.take(max - 3)
            && clipped(s, max).skip(max - 3) == seq!['.', '.', '.'],
        max < 3 ==> clipped(s, max) == seq!['.', '.', '.'],
{
    reveal_strlit("...");
    assert("..."@ =~= seq!['.', '.', '.']);
    if max >= 3 {
        let c = clipped(s, max);
        assert(c.take(max - 3) =~= s.take(max - 3));
        assert(c.skip(max - 3) =~= seq!['.', '.', '.']);
    }
}

} // verus!
