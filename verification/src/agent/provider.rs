//! The protocol of the language model: requests, answers, retries and access tokens.
use vstd::prelude::*;
use crate::agent::types::{
    ChatMessage, ChatResponse, ContentPart, ContentView, MessageContent, MessageView, PartView,
    ToolCall, ToolSpec,
};
use crate::agent::types;
use crate::json::{Json, JsonNumber, JsonObject, JsonView, NumberView};
use crate::json;
use crate::text;

verus! {

// ---------------------------------------------------------------------------
// Messages
// ---------------------------------------------------------------------------
/// Whether a text says nothing.
pub open spec fn blank(t: Seq<char>) -> bool {
    text::trimmed(t).len() == 0
}

/// A text as a block of the protocol.
pub open spec fn text_block(t: Seq<char>) -> JsonView {
    JsonView::Object(map!["type"@ => JsonView::Str("text"@), "text"@ => JsonView::Str(t)])
}

/// A part as a block of the protocol; blank text has none.
pub open spec fn part_block(p: PartView) -> Option<JsonView> {
    match p {
        PartView::Text { text } => if blank(text) {
            None
        } else {
            Some(text_block(text))
        },
        PartView::ToolUse { id, name, input } => Some(
            JsonView::Object(
                map![
                    "type"@ => JsonView::Str("tool_use"@),
                    "id"@ => JsonView::Str(id),
                    "name"@ => JsonView::Str(name),
                    "input"@ => input,
                ],
            ),
        ),
        PartView::ToolResult { tool_use_id, content } => Some(
            JsonView::Object(
                map![
                    "type"@ => JsonView::Str("tool_result"@),
                    "tool_use_id"@ => JsonView::Str(tool_use_id),
                    "content"@ => JsonView::Str(content),
                ],
            ),
        ),
    }
}

/// The blocks of the first `n` parts.
pub open spec fn blocks_to(parts: Seq<PartView>, n: int) -> Seq<JsonView>
    decreases n,
{
    if n <= 0 {
        seq![]
    } else {
        match part_block(parts[n - 1]) {
            Some(block) => blocks_to(parts, n - 1).push(block),
            None => blocks_to(parts, n - 1),
        }
    }
}

/// The blocks of a message's content.
pub open spec fn content_blocks(c: ContentView) -> Seq<JsonView> {
    match c {
        ContentView::Text(t) => if blank(t) {
            seq![]
        } else {
            seq![text_block(t)]
        },
        ContentView::Parts(parts) => blocks_to(parts, parts.len() as int),
    }
}

fn is_blank(t: &str) -> (r: bool)
    ensures
        r == blank(t@),
{
    text::char_count(text::trim(t).as_str()) == 0
}

fn make_text_block(t: &str) -> (r: Json)
    ensures
        r@ == text_block(t@),
{
    let mut o = JsonObject::new();
    o.put("type", Json::string("text"));
    o.put("text", Json::string(t));
    Json::object(o)
}

fn make_part_block(p: &ContentPart) -> (r: Option<Json>)
    ensures
        match r {
            Some(j) => part_block(p@) == Some(j@),
            None => part_block(p@) is None,
        },
{
    match p {
        ContentPart::Text { text } => {
            if is_blank(text.as_str()) {
                None
            } else {
                Some(make_text_block(text.as_str()))
            }
        },
        ContentPart::ToolUse { id, name, input } => {
            let mut o = JsonObject::new();
            o.put("type", Json::string("tool_use"));
            o.put("id", Json::string(id.as_str()));
            o.put("name", Json::string(name.as_str()));
            o.put("input", input.clone());
            Some(Json::object(o))
        },
        ContentPart::ToolResult { tool_use_id, content } => {
            let mut o = JsonObject::new();
            o.put("type", Json::string("tool_result"));
            o.put("tool_use_id", Json::string(tool_use_id.as_str()));
            o.put("content", Json::string(content.as_str()));
            Some(Json::object(o))
        },
    }
}

/// Converts the content of a message to blocks of the protocol, without blank text.
pub fn convert_message_content(msg: &ChatMessage) -> (r: Vec<Json>)
    ensures
        json::views_of(r@) == content_blocks(msg@.content),
{
    let mut out: Vec<Json> = Vec::new();
    match &msg.content {
        MessageContent::Text(t) => {
            if !is_blank(t.as_str()) {
                out.push(make_text_block(t.as_str()));
            }
            assert(json::views_of(out@) =~= content_blocks(msg@.content));
        },
        MessageContent::Parts(parts) => {
            let ghost views = types::parts_view(parts@);
            let mut i: usize = 0;
            while i < parts.len()
                invariant
                    i <= parts@.len(),
                    views == types::parts_view(parts@),
                    json::views_of(out@) =~= blocks_to(views, i as int),
                decreases parts@.len() - i,
            {
                assert(views[i as int] == parts@[i as int]@);
                let ghost before = out@;
                if let Some(block) = make_part_block(&parts[i]) {
                    out.push(block);
                    assert(json::views_of(out@) =~= json::views_of(before).push(block@));
                }
                i = i + 1;
            }
        },
    }
    out
}

/// The turns of the first `n` messages: messages of the system and messages without blocks are
/// left out, and neighbours of the same role become one turn.
pub open spec fn turns_to(messages: Seq<MessageView>, n: int) -> Seq<(Seq<char>, Seq<JsonView>)>
    decreases n,
{
    if n <= 0 {
        seq![]
    } else {
        let before = turns_to(messages, n - 1);
        let role = messages[n - 1].role;
        let blocks = content_blocks(messages[n - 1].content);
        if role == "system"@ || blocks.len() == 0 {
            before
        } else if before.len() > 0 && before.last().0 == role {
            before.drop_last().push((role, before.last().1 + blocks))
        } else {
            before.push((role, blocks))
        }
    }
}

/// The turns of a conversation.
pub open spec fn turns(messages: Seq<MessageView>) -> Seq<(Seq<char>, Seq<JsonView>)> {
    turns_to(messages, messages.len() as int)
}

/// A turn as a message of the protocol.
pub open spec fn turn_json(turn: (Seq<char>, Seq<JsonView>)) -> JsonView {
    JsonView::Object(
        map!["role"@ => JsonView::Str(turn.0), "content"@ => JsonView::Array(turn.1)],
    )
}

/// The messages of the protocol for a conversation.
pub open spec fn converted(messages: Seq<MessageView>) -> Seq<JsonView> {
    turns(messages).map_values(|t: (Seq<char>, Seq<JsonView>)| turn_json(t))
}

/// The roles of the converted messages alternate, none is the system's, and none is empty.
pub proof fn lemma_turns_alternate(messages: Seq<MessageView>)
    ensures
        forall|i: int|
            0 <= i < turns(messages).len() ==> (#[trigger] turns(messages)[i]).0 != "system"@
                && turns(messages)[i].1.len() > 0,
        forall|i: int|
            0 < i < turns(messages).len() ==> (#[trigger] turns(messages)[i]).0 != turns(
                messages,
            )[i - 1].0,
{
    lemma_turns_to_alternate(messages, messages.len() as int);
}

proof fn lemma_turns_to_alternate(messages: Seq<MessageView>, n: int)
    ensures
        forall|i: int|
            0 <= i < turns_to(messages, n).len() ==> (#[trigger] turns_to(messages, n)[i]).0
                != "system"@ && turns_to(messages, n)[i].1.len() > 0,
        forall|i: int|
            0 < i < turns_to(messages, n).len() ==> (#[trigger] turns_to(messages, n)[i]).0
                != turns_to(messages, n)[i - 1].0,
    decreases n,
{
    if n > 0 {
        lemma_turns_to_alternate(messages, n - 1);
        let before = turns_to(messages, n - 1);
        let now = turns_to(messages, n);
        assert forall|i: int| 0 < i < now.len() implies (#[trigger] now[i]).0 != now[i - 1].0 by {
            if i < before.len() {
                assert(before[i].0 != before[i - 1].0);
            }
        }
    }
}

/// The blocks of the first `n` messages that are not the system's, one after the other.
pub open spec fn said_to(messages: Seq<MessageView>, n: int) -> Seq<JsonView>
    decreases n,
{
    if n <= 0 {
        seq![]
    } else if messages[n - 1].role == "system"@ {
        said_to(messages, n - 1)
    } else {
        said_to(messages, n - 1) + content_blocks(messages[n - 1].content)
    }
}

/// The blocks of the first `n` turns, one after the other.
pub open spec fn sent_to(turns: Seq<(Seq<char>, Seq<JsonView>)>, n: int) -> Seq<JsonView>
    decreases n,
{
    if n <= 0 {
        seq![]
    } else {
        sent_to(turns, n - 1) + turns[n - 1].1
    }
}

/// What is sent is what was said: merging messages neither loses, adds nor reorders a block.
pub proof fn lemma_turns_keep_blocks(messages: Seq<MessageView>)
    ensures
        sent_to(turns(messages), turns(messages).len() as int) == said_to(
            messages,
            messages.len() as int,
        ),
{
    lemma_turns_to_keep_blocks(messages, messages.len() as int);
}

proof fn lemma_turns_to_keep_blocks(messages: Seq<MessageView>, n: int)
    ensures
        sent_to(turns_to(messages, n), turns_to(messages, n).len() as int) == said_to(messages, n),
    decreases n,
{
    if n > 0 {
        lemma_turns_to_keep_blocks(messages, n - 1);
        let before = turns_to(messages, n - 1);
        let now = turns_to(messages, n);
        let blocks = content_blocks(messages[n - 1].content);
        let k = before.len() as int;
        if messages[n - 1].role == "system"@ || blocks.len() == 0 {
            assert(blocks.len() == 0 ==> said_to(messages, n - 1) + blocks =~= said_to(
                messages,
                n - 1,
            ));
        } else if k > 0 && before.last().0 == messages[n - 1].role {
            lemma_sent_prefix(before, now, k - 1);
            assert(sent_to(now, k - 1) + (before.last().1 + blocks) =~= sent_to(before, k) + blocks);
        } else {
            lemma_sent_prefix(before, now, k);
        }
    }
}

proof fn lemma_sent_prefix(
    a: Seq<(Seq<char>, Seq<JsonView>)>,
    b: Seq<(Seq<char>, Seq<JsonView>)>,
    n: int,
)
    requires
        n <= a.len(),
        n <= b.len(),
        forall|i: int| 0 <= i < n ==> #[trigger] a[i] == b[i],
    ensures
        sent_to(a, n) == sent_to(b, n),
    decreases n,
{
    if n > 0 {
        lemma_sent_prefix(a, b, n - 1);
    }
}

spec fn rows_turns(rows: Seq<(String, Vec<Json>)>) -> Seq<(Seq<char>, Seq<JsonView>)> {
    rows.map_values(|t: (String, Vec<Json>)| (t.0@, json::views_of(t.1@)))
}

fn collect_turns(messages: &[ChatMessage]) -> (r: Vec<(String, Vec<Json>)>)
    ensures
        rows_turns(r@) == turns(types::messages_view(messages@)),
{
    let ghost views = types::messages_view(messages@);
    let mut rows: Vec<(String, Vec<Json>)> = Vec::new();
    let mut i: usize = 0;
    while i < messages.len()
        invariant
            i <= messages@.len(),
            views == types::messages_view(messages@),
            rows_turns(rows@) =~= turns_to(views, i as int),
        decreases messages@.len() - i,
    {
        let message = &messages[i];
        let ghost before = rows@;
        assert(views[i as int] == message@);
        i = i + 1;
        if text::same(message.role.as_str(), "system") {
            continue ;
        }
        let blocks = convert_message_content(message);
        assert(json::views_of(blocks@).len() == blocks@.len());
        if blocks.len() == 0 {
            continue ;
        }
        let n: usize = rows.len();
        if n > 0 && text::same(rows[n - 1].0.as_str(), message.role.as_str()) {
            assert(rows_turns(before).last() == (
                before.last().0@,
                json::views_of(before.last().1@),
            ));
            match rows.pop() {
                Some(mut last) => {
                    let ghost old_blocks = last.1@;
                    let ghost new_blocks = blocks@;
                    let mut blocks = blocks;
                    last.1.append(&mut blocks);
                    assert(json::views_of(last.1@) =~= json::views_of(old_blocks)
                        + json::views_of(new_blocks));
                    let ghost last_view = (last.0@, json::views_of(last.1@));
                    rows.push(last);
                    assert(rows_turns(rows@) =~= rows_turns(before).drop_last().push(last_view));
                },
                None => {
                    assert(false);
                },
            }
        } else {
            assert(n > 0 ==> rows_turns(before).last().0 == before.last().0@);
            let ghost new_row = (message.role@, json::views_of(blocks@));
            rows.push((message.role.clone(), blocks));
            assert(rows_turns(rows@) =~= rows_turns(before).push(new_row));
        }
    }
    rows
}

/// Converts a conversation to messages of the protocol.
pub fn convert_messages(messages: &[ChatMessage]) -> (r: Vec<Json>)
    ensures
        json::views_of(r@) == converted(types::messages_view(messages@)),
{
    let rows = collect_turns(messages);
    let ghost want = turns(types::messages_view(messages@));
    let mut out: Vec<Json> = Vec::new();
    let mut i: usize = 0;
    while i < rows.len()
        invariant
            i <= rows@.len(),
            rows_turns(rows@) == want,
            want == turns(types::messages_view(messages@)),
            json::views_of(out@) =~= converted(types::messages_view(messages@)).take(i as int),
        decreases rows@.len() - i,
    {
        assert(want[i as int] == (rows@[i as int].0@, json::views_of(rows@[i as int].1@)));
        let mut content: Vec<Json> = Vec::new();
        let blocks = &rows[i].1;
        let mut k: usize = 0;
        while k < blocks.len()
            invariant
                k <= blocks@.len(),
                json::views_of(content@) =~= json::views_of(blocks@).take(k as int),
            decreases blocks@.len() - k,
        {
            let ghost before = content@;
            let block = blocks[k].clone();
            content.push(block);
            assert(json::views_of(content@) =~= json::views_of(before).push(block@));
            assert(json::views_of(blocks@)[k as int] == block@);
            k = k + 1;
        }
        assert(json::views_of(content@) =~= json::views_of(blocks@));
        let mut o = JsonObject::new();
        o.put("role", Json::string(rows[i].0.as_str()));
        o.put("content", Json::array(content));
        let message = Json::object(o);
        assert(message@ == turn_json(want[i as int]));
        let ghost before = out@;
        out.push(message);
        assert(json::views_of(out@) =~= json::views_of(before).push(message@));
        i = i + 1;
    }
    assert(rows_turns(rows@).len() == rows@.len());
    assert(json::views_of(out@) =~= converted(types::messages_view(messages@)));
    out
}

// ---------------------------------------------------------------------------
// Requests
// ---------------------------------------------------------------------------
/// A tool as the protocol describes it.
pub open spec fn tool_json(t: ToolSpec) -> JsonView {
    JsonView::Object(
        map![
            "name"@ => JsonView::Str(t.name@),
            "description"@ => JsonView::Str(t.description@),
            "input_schema"@ => t.parameters@,
        ],
    )
}

/// The tools as the protocol describes them.
pub open spec fn tools_json(tools: Seq<ToolSpec>) -> Seq<JsonView> {
    tools.map_values(|t: ToolSpec| tool_json(t))
}

/// Builds the list of tools of a request.
pub fn build_tools_json(tools: &[ToolSpec]) -> (r: Vec<Json>)
    ensures
        json::views_of(r@) == tools_json(tools@),
{
    let mut out: Vec<Json> = Vec::new();
    let mut i: usize = 0;
    while i < tools.len()
        invariant
            i <= tools@.len(),
            json::views_of(out@) =~= tools_json(tools@).take(i as int),
        decreases tools@.len() - i,
    {
        let tool = &tools[i];
        let mut o = JsonObject::new();
        o.put("name", Json::string(tool.name.as_str()));
        o.put("description", Json::string(tool.description.as_str()));
        o.put("input_schema", tool.parameters.clone());
        let item = Json::object(o);
        let ghost before = out@;
        out.push(item);
        assert(json::views_of(out@) =~= json::views_of(before).push(item@));
        assert(tools_json(tools@)[i as int] == item@);
        i = i + 1;
    }
    assert(json::views_of(out@) =~= tools_json(tools@));
    out
}

/// The longest answer that a request asks for, in tokens.
pub const MAX_TOKENS: u64 = 4096;

/// What every request holds after its first member.
pub open spec fn request_members(
    first: Map<Seq<char>, JsonView>,
    system: Seq<char>,
    messages: Seq<MessageView>,
    tools: Seq<ToolSpec>,
    temperature: NumberView,
) -> Map<Seq<char>, JsonView> {
    let body = first.insert("max_tokens"@, JsonView::Number(NumberView::Unsigned(MAX_TOKENS)))
        .insert("system"@, JsonView::Str(system)).insert(
        "messages"@,
        JsonView::Array(converted(messages)),
    ).insert("temperature"@, JsonView::Number(temperature));
    if tools.len() == 0 {
        body
    } else {
        body.insert("tools"@, JsonView::Array(tools_json(tools)))
    }
}

fn fill_request(
    body: &mut JsonObject,
    system: &str,
    messages: &[ChatMessage],
    tools: &[ToolSpec],
    temperature: &JsonNumber,
)
    ensures
        final(body)@ == request_members(
            old(body)@,
            system@,
            types::messages_view(messages@),
            tools@,
            temperature@,
        ),
{
    body.put("max_tokens", Json::unsigned(MAX_TOKENS));
    body.put("system", Json::string(system));
    body.put("messages", Json::array(convert_messages(messages)));
    body.put("temperature", Json::Number(temperature.clone()));
    let list = build_tools_json(tools);
    assert(json::views_of(list@).len() == list@.len());
    if list.len() > 0 {
        body.put("tools", Json::array(list));
    }
}

/// The provider that speaks to the vendor's own service.
pub struct AnthropicProvider {
    pub api_key: String,
}

impl AnthropicProvider {
    /// A provider with the given key.
    pub fn new(api_key: String) -> (r: AnthropicProvider)
        ensures
            r.api_key == api_key,
    {
        AnthropicProvider { api_key }
    }

    /// Builds the body of a request.
    pub fn build_request_body(
        &self,
        system: &str,
        messages: &[ChatMessage],
        tools: &[ToolSpec],
        model: &str,
        temperature: &JsonNumber,
    ) -> (r: Json)
        ensures
            r@ == JsonView::Object(
                request_members(
                    map!["model"@ => JsonView::Str(model@)],
                    system@,
                    types::messages_view(messages@),
                    tools@,
                    temperature@,
                ),
            ),
    {
        let mut body = JsonObject::new();
        body.put("model", Json::string(model));
        fill_request(&mut body, system, messages, tools, temperature);
        Json::object(body)
    }
}

/// The provider that speaks to the service on Vertex AI.
pub struct VertexAnthropicProvider {
    pub region: String,
    pub project_id: String,
}

impl VertexAnthropicProvider {
    /// A provider for a region and a project.
    pub fn new(region: &str, project_id: &str) -> (r: VertexAnthropicProvider)
        ensures
            r.region@ == region@,
            r.project_id@ == project_id@,
    {
        VertexAnthropicProvider { region: region.to_string(), project_id: project_id.to_string() }
    }

    /// Builds the address of a model.
    pub fn build_url(&self, model: &str) -> (r: String)
        ensures
            r@ == "https://"@ + self.region@ + "-aiplatform.googleapis.com/v1/projects/"@
                + self.project_id@ + "/locations/"@ + self.region@
                + "/publishers/anthropic/models/"@ + model@ + ":rawPredict"@,
    {
        let mut out = "https://".to_string();
        out.append(self.region.as_str());
        out.append("-aiplatform.googleapis.com/v1/projects/");
        out.append(self.project_id.as_str());
        out.append("/locations/");
        out.append(self.region.as_str());
        out.append("/publishers/anthropic/models/");
        out.append(model);
        out.append(":rawPredict");
        out
    }

    /// Builds the body of a request. The model stands in the address.
    pub fn build_request_body(
        &self,
        system: &str,
        messages: &[ChatMessage],
        tools: &[ToolSpec],
        temperature: &JsonNumber,
    ) -> (r: Json)
        ensures
            r@ == JsonView::Object(
                request_members(
                    map!["anthropic_version"@ => JsonView::Str("vertex-2023-10-16"@)],
                    system@,
                    types::messages_view(messages@),
                    tools@,
                    temperature@,
                ),
            ),
    {
        let mut body = JsonObject::new();
        body.put("anthropic_version", Json::string("vertex-2023-10-16"));
        fill_request(&mut body, system, messages, tools, temperature);
        Json::object(body)
    }
}

// ---------------------------------------------------------------------------
// Answers
// ---------------------------------------------------------------------------
/// The tokens that an answer took.
pub struct AnthropicUsage {
    pub input_tokens: u32,
    pub output_tokens: u32,
}

/// One block of an answer.
pub enum AnthropicContent {
    Text { text: String },
    ToolUse { id: String, name: String, input: Json },
}

/// An answer of the service.
pub struct AnthropicResponse {
    pub content: Vec<AnthropicContent>,
    pub usage: AnthropicUsage,
}

/// The texts of the first `n` blocks.
pub open spec fn answer_texts(content: Seq<AnthropicContent>, n: int) -> Seq<Seq<char>>
    decreases n,
{
    if n <= 0 {
        seq![]
    } else {
        match content[n - 1] {
            AnthropicContent::Text { text } => answer_texts(content, n - 1).push(text@),
            _ => answer_texts(content, n - 1),
        }
    }
}

/// The calls of the first `n` blocks.
pub open spec fn answer_calls(content: Seq<AnthropicContent>, n: int) -> Seq<types::CallView>
    decreases n,
{
    if n <= 0 {
        seq![]
    } else {
        match content[n - 1] {
            AnthropicContent::ToolUse { id, name, input } => answer_calls(content, n - 1).push(
                types::CallView {
                    id: id@,
                    name: name@,
                    arguments: json::json_written(input@),
                },
            ),
            _ => answer_calls(content, n - 1),
        }
    }
}

/// Takes an answer of the service apart: its texts, joined by line feeds, and its calls.
pub fn parse_anthropic_response(response: AnthropicResponse) -> (r: Result<ChatResponse, String>)
    ensures
        r is Ok,
        ({
            let n = response.content@.len() as int;
            let texts = answer_texts(response.content@, n);
            let answer = r->Ok_0;
            &&& text::opt(answer.text) == (if texts.len() == 0 {
                None
            } else {
                Some(text::joined(texts, "\n"@))
            })
            &&& types::calls_view(answer.tool_calls@) == answer_calls(response.content@, n)
            &&& answer.input_tokens == response.usage.input_tokens
            &&& answer.output_tokens == response.usage.output_tokens
        }),
{
    let content = response.content;
    let mut texts: Vec<String> = Vec::new();
    let mut calls: Vec<ToolCall> = Vec::new();
    let mut i: usize = 0;
    while i < content.len()
        invariant
            i <= content@.len(),
            text::views(texts@) =~= answer_texts(content@, i as int),
            types::calls_view(calls@) =~= answer_calls(content@, i as int),
        decreases content@.len() - i,
    {
        let ghost texts_before = texts@;
        let ghost calls_before = calls@;
        match &content[i] {
            AnthropicContent::Text { text } => {
                texts.push(text.clone());
                assert(text::views(texts@) =~= text::views(texts_before).push(text@));
            },
            AnthropicContent::ToolUse { id, name, input } => {
                let call = ToolCall {
                    id: id.clone(),
                    name: name.clone(),
                    arguments: input.to_text(),
                };
                calls.push(call);
                assert(types::calls_view(calls@) =~= types::calls_view(calls_before).push(call@));
            },
        }
        i = i + 1;
    }
    assert(text::views(texts@).len() == texts@.len());
    let answer = if texts.len() == 0 {
        None
    } else {
        Some(text::join(&texts, "\n"))
    };
    Ok(
        ChatResponse {
            text: answer,
            tool_calls: calls,
            input_tokens: response.usage.input_tokens,
            output_tokens: response.usage.output_tokens,
        },
    )
}

// ---------------------------------------------------------------------------
// Retries
// ---------------------------------------------------------------------------
/// A request is made again at most this often.
pub const MAX_RETRIES: u32 = 3;

/// The service that a request goes to.
#[derive(Clone, Copy, PartialEq, Eq, Structural)]
pub enum Service {
    Anthropic,
    Vertex,
}

/// How a request ended.
pub enum Reply {
    /// No answer came, for the given reason.
    Unsent { error: String },
    /// An answer with a status and a body.
    Answered { status: u16, body: String },
}

/// What to do after a request.
pub enum RetryStep {
    /// Take the body for the model's answer.
    Accept { body: String },
    /// Wait, then make the request again.
    Wait { seconds: u64 },
    /// Give up with this error.
    Fail { error: String },
}

/// Whether a status means success.
pub open spec fn succeeded(status: u16) -> bool {
    200 <= status < 300
}

/// Whether a status asks for another try: too many requests, or a fault of the server.
pub open spec fn retriable(status: u16) -> bool {
    status == 429 || 500 <= status < 600
}

/// How an error that may pass is told.
pub open spec fn passing_error(service: Service, status: u16, body: Seq<char>) -> Seq<char> {
    (match service {
        Service::Anthropic => "API error (status "@,
        Service::Vertex => "Vertex AI error (status "@,
    }) + text::decimal(status as nat) + "): "@ + body
}

/// How an error that will not pass is told.
pub open spec fn client_error(service: Service, status: u16, body: Seq<char>) -> Seq<char> {
    (match service {
        Service::Anthropic => "Anthropic API client error (status "@,
        Service::Vertex => "Vertex AI client error (status "@,
    }) + text::decimal(status as nat) + "): "@ + body
}

/// The seconds to wait before retry number `attempt`: one, two, four.
pub open spec fn retry_delay(attempt: int) -> int
    decreases attempt,
{
    if attempt <= 1 {
        1
    } else {
        2 * retry_delay(attempt - 1)
    }
}

/// The view of a [`RetryStep`].
pub enum RetryView {
    Accept { body: Seq<char> },
    Wait { seconds: int },
    Fail { error: Seq<char> },
}

impl View for RetryStep {
    type V = RetryView;

    open spec fn view(&self) -> RetryView {
        match self {
            RetryStep::Accept { body } => RetryView::Accept { body: body@ },
            RetryStep::Wait { seconds } => RetryView::Wait { seconds: *seconds as int },
            RetryStep::Fail { error } => RetryView::Fail { error: error@ },
        }
    }
}

/// What to do after an error that may pass: wait, unless the retries are used up.
pub open spec fn again_or_fail(attempt: int, error: Seq<char>) -> RetryView {
    if attempt < MAX_RETRIES {
        RetryView::Wait { seconds: retry_delay(attempt + 1) }
    } else {
        RetryView::Fail { error }
    }
}

/// What to do after the request number `attempt`, counted from zero.
pub open spec fn retry_step(service: Service, attempt: int, reply: Reply) -> RetryView {
    match reply {
        Reply::Unsent { error } => again_or_fail(attempt, "Request failed: "@ + error@),
        Reply::Answered { status, body } => if succeeded(status) {
            RetryView::Accept { body: body@ }
        } else if retriable(status) {
            again_or_fail(attempt, passing_error(service, status, body@))
        } else {
            RetryView::Fail { error: client_error(service, status, body@) }
        },
    }
}

fn wait_or_fail(attempt: u32, error: String) -> (r: RetryStep)
    ensures
        r@ == again_or_fail(attempt as int, error@),
{
    if attempt < MAX_RETRIES {
        let mut seconds: u64 = 1;
        let mut n: u32 = 0;
        while n < attempt
            invariant
                n <= attempt < MAX_RETRIES,
                seconds == retry_delay(n + 1),
                n == 0 ==> seconds == 1,
                n == 1 ==> seconds == 2,
                n == 2 ==> seconds == 4,
            decreases attempt - n,
        {
            seconds = seconds * 2;
            n = n + 1;
        }
        RetryStep::Wait { seconds }
    } else {
        RetryStep::Fail { error }
    }
}

/// Decides what to do after a request.
pub fn judge_reply(service: Service, attempt: u32, reply: Reply) -> (r: RetryStep)
    ensures
        r@ == retry_step(service, attempt as int, reply),
{
    match reply {
        Reply::Unsent { error } => {
            let mut out = "Request failed: ".to_string();
            out.append(error.as_str());
            wait_or_fail(attempt, out)
        },
        Reply::Answered { status, body } => {
            if 200 <= status && status < 300 {
                return RetryStep::Accept { body };
            }
            let passing = status == 429 || (500 <= status && status < 600);
            let mut out = match (service, passing) {
                (Service::Anthropic, true) => "API error (status ",
                (Service::Anthropic, false) => "Anthropic API client error (status ",
                (Service::Vertex, true) => "Vertex AI error (status ",
                (Service::Vertex, false) => "Vertex AI client error (status ",
            }.to_string();
            out.append(text::decimal_of(status as u128).as_str());
            out.append("): ");
            out.append(body.as_str());
            if passing {
                wait_or_fail(attempt, out)
            } else {
                RetryStep::Fail { error: out }
            }
        },
    }
}

/// After the last retry no request follows, and before it each wait is at most four seconds. A
/// fault of the client is never retried.
pub proof fn lemma_retries_are_bounded(service: Service, attempt: int, reply: Reply)
    requires
        0 <= attempt,
    ensures
        retry_step(service, attempt, reply) is Wait ==> attempt < MAX_RETRIES && 1 <= retry_step(
            service,
            attempt,
            reply,
        )->seconds <= 4,
        reply matches Reply::Answered { status, body } ==> (retry_step(
            service,
            attempt,
            reply,
        ) is Wait ==> status == 429 || status >= 500),
{
    assert(retry_delay(1) == 1);
    assert(retry_delay(2) == 2);
    assert(retry_delay(3) == 4);
}

// ---------------------------------------------------------------------------
// Access tokens
// ---------------------------------------------------------------------------
/// A token is given up this many seconds before it expires.
pub const TOKEN_MARGIN_SECS: u64 = 60;

/// How long a token is good for where the service does not say, in seconds.
pub const TOKEN_DEFAULT_SECS: u64 = 3600;

/// A token and the time, in seconds, from which it is not used any more.
pub struct CachedToken {
    pub token: String,
    pub expires_at: u64,
}

/// The time from which a token is not used any more.
pub open spec fn usable_until(now: int, expires_in: int) -> int {
    now + (if expires_in >= TOKEN_MARGIN_SECS {
        expires_in - TOKEN_MARGIN_SECS
    } else {
        0
    })
}

/// A token that is still used has more than the margin left.
pub proof fn lemma_used_token_is_fresh(now: int, expires_in: int, later: int)
    requires
        now <= later < usable_until(now, expires_in),
    ensures
        later + TOKEN_MARGIN_SECS < now + expires_in,
{
}

impl CachedToken {
    /// Keeps a token that was given at `now` for `expires_in` seconds.
    pub fn keep(token: &str, now: u64, expires_in: u64) -> (r: CachedToken)
        requires
            now + expires_in <= u64::MAX + TOKEN_MARGIN_SECS,
        ensures
            r.token@ == token@,
            r.expires_at == usable_until(now as int, expires_in as int),
    {
        let good: u64 = if expires_in >= TOKEN_MARGIN_SECS {
            expires_in - TOKEN_MARGIN_SECS
        } else {
            0
        };
        CachedToken { token: token.to_string(), expires_at: now + good }
    }
}

/// The kept token, where there is one and it may still be used.
pub fn cached_token(cache: &Option<CachedToken>, now: u64) -> (r: Option<String>)
    ensures
        text::opt(r) == (match cache {
            Some(c) => if now < c.expires_at {
                Some(c.token@)
            } else {
                None
            },
            None => None,
        }),
{
    match cache {
        Some(c) => {
            if now < c.expires_at {
                Some(c.token.clone())
            } else {
                None
            }
        },
        None => None,
    }
}

/// The credentials with which a token is asked for.
pub struct AdcCredentials {
    pub client_id: String,
    pub client_secret: String,
    pub refresh_token: String,
}

/// The place of the credentials below a home directory.
pub fn adc_path(home: &str) -> (r: String)
    ensures
        r@ == home@ + "/.config/gcloud/application_default_credentials.json"@,
{
    let mut out = home.to_string();
    out.append("/.config/gcloud/application_default_credentials.json");
    out
}

/// The error where there are no credentials.
pub fn adc_missing(path: &str) -> (r: String)
    ensures
        r@ == "ADC credentials not found at "@ + path@
            + ". Run: gcloud auth application-default login"@,
{
    let mut out = "ADC credentials not found at ".to_string();
    out.append(path);
    out.append(". Run: gcloud auth application-default login");
    out
}

/// The first of the three members that a document of credentials lacks, as the error tells it.
pub open spec fn adc_fault(creds: JsonView) -> Option<Seq<char>> {
    if json::str_member(creds, "client_id"@) is None {
        Some("Missing client_id in ADC file"@)
    } else if json::str_member(creds, "client_secret"@) is None {
        Some("Missing client_secret in ADC file"@)
    } else if json::str_member(creds, "refresh_token"@) is None {
        Some("Missing refresh_token in ADC file"@)
    } else {
        None
    }
}

/// Takes the credentials from their document.
pub fn read_credentials(creds: &Json) -> (r: Result<AdcCredentials, String>)
    ensures
        match r {
            Ok(c) => adc_fault(creds@) is None && json::str_member(creds@, "client_id"@) == Some(
                c.client_id@,
            ) && json::str_member(creds@, "client_secret"@) == Some(c.client_secret@)
                && json::str_member(creds@, "refresh_token"@) == Some(c.refresh_token@),
            Err(e) => adc_fault(creds@) == Some(e@),
        },
{
    let client_id = match creds.str_at("client_id") {
        Some(s) => s,
        None => {
            return Err("Missing client_id in ADC file".to_string());
        },
    };
    let client_secret = match creds.str_at("client_secret") {
        Some(s) => s,
        None => {
            return Err("Missing client_secret in ADC file".to_string());
        },
    };
    let refresh_token = match creds.str_at("refresh_token") {
        Some(s) => s,
        None => {
            return Err("Missing refresh_token in ADC file".to_string());
        },
    };
    Ok(
        AdcCredentials {
            client_id: client_id.to_string(),
            client_secret: client_secret.to_string(),
            refresh_token: refresh_token.to_string(),
        },
    )
}

/// Reads the credentials from the text of their file.
pub fn parse_credentials(content: &str) -> (r: Result<AdcCredentials, String>)
    ensures
        match (json::json_read(content@), r) {
            (Ok(creds), Ok(c)) => adc_fault(creds) is None && json::str_member(
                creds,
                "client_id"@,
            ) == Some(c.client_id@) && json::str_member(creds, "client_secret"@) == Some(
                c.client_secret@,
            ) && json::str_member(creds, "refresh_token"@) == Some(c.refresh_token@),
            (Ok(creds), Err(e)) => adc_fault(creds) == Some(e@),
            (Err(e), Err(f)) => e == f@,
            (Err(_), Ok(_)) => false,
        },
{
    match Json::parse(content) {
        Ok(creds) => read_credentials(&creds),
        Err(e) => Err(e),
    }
}

/// What the service says of a refused refresh.
pub open spec fn refresh_error(body: JsonView) -> Seq<char> {
    match json::str_member(body, "error_description"@) {
        Some(e) => e,
        None => match json::str_member(body, "error"@) {
            Some(e) => e,
            None => "Unknown error"@,
        },
    }
}

/// Takes the token and its lifetime in seconds from the service's answer.
pub fn read_token_reply(success: bool, body: &Json) -> (r: Result<(String, u64), String>)
    ensures
        match r {
            Ok(t) => success && json::str_member(body@, "access_token"@) == Some(t.0@) && t.1 == (
            match json::u64_member(body@, "expires_in"@) {
                Some(n) => n,
                None => TOKEN_DEFAULT_SECS,
            }),
            Err(e) => if !success {
                e@ == "Token refresh failed: "@ + refresh_error(body@)
                    + ". Run: gcloud auth application-default login"@
            } else {
                json::str_member(body@, "access_token"@) is None && e@
                    == "No access_token in response"@
            },
        },
{
    if !success {
        let reason = match body.str_at("error_description") {
            Some(e) => e,
            None => match body.str_at("error") {
                Some(e) => e,
                None => "Unknown error",
            },
        };
        let mut out = "Token refresh failed: ".to_string();
        out.append(reason);
        out.append(". Run: gcloud auth application-default login");
        return Err(out);
    }
    match body.str_at("access_token") {
        Some(token) => {
            let seconds: u64 = match body.u64_at("expires_in") {
                Some(n) => n,
                None => TOKEN_DEFAULT_SECS,
            };
            Ok((token.to_string(), seconds))
        },
        None => Err("No access_token in response".to_string()),
    }
}

// ---------------------------------------------------------------------------
// What the protocol carries
// ---------------------------------------------------------------------------
/// Every part goes out as a block that holds what the part holds: the result of a call with its
/// call and its output, a call with its name and its input, a text with its words. Only text that
/// is all white space is left out.
pub proof fn lemma_blocks_hold_their_parts(
    t: Seq<char>,
    id: Seq<char>,
    name: Seq<char>,
    input: JsonView,
    output: Seq<char>,
)
    ensures
        part_block(PartView::ToolResult { tool_use_id: id, content: output }) matches Some(b)
            && json::str_member(b, "type"@) == Some("tool_result"@) && json::str_member(
            b,
            "tool_use_id"@,
        ) == Some(id) && json::str_member(b, "content"@) == Some(output),
        part_block(PartView::ToolUse { id, name, input }) matches Some(b) && json::str_member(
            b,
            "type"@,
        ) == Some("tool_use"@) && json::str_member(b, "id"@) == Some(id) && json::str_member(
            b,
            "name"@,
        ) == Some(name) && json::member(b, "input"@) == Some(input),
        part_block(PartView::Text { text: t }) is None <==> text::all_white(t),
        part_block(PartView::Text { text: t }) matches Some(b) ==> json::str_member(b, "type"@)
            == Some("text"@) && json::str_member(b, "text"@) == Some(t),
        text::all_white(t) ==> content_blocks(ContentView::Text(t)) == Seq::<JsonView>::empty(),
        !text::all_white(t) ==> content_blocks(ContentView::Text(t)) == content_blocks(
            ContentView::Parts(seq![PartView::Text { text: t }]),
        ),
{
    reveal_strlit("type");
    reveal_strlit("text");
    reveal_strlit("tool_use_id");
    reveal_strlit("content");
    reveal_strlit("id");
    reveal_strlit("name");
    reveal_strlit("input");
    assert("type"@[0] == 't' && "text"@[0] == 't' && "type"@[1] == 'y' && "text"@[1] == 'e');
    assert("id"@.len() == 2 && "name"@.len() == 4 && "input"@.len() == 5 && "type"@.len() == 4);
    assert("tool_use_id"@.len() == 11 && "content"@.len() == 7);
    assert("name"@[0] == 'n');
    text::lemma_blank_is_white(t);
    let one = seq![PartView::Text { text: t }];
    assert(blocks_to(one, 0) =~= seq![]);
    if !text::all_white(t) {
        assert(blocks_to(one, 1) =~= seq![text_block(t)]);
    }
}

proof fn lemma_blocks_prefix(a: Seq<PartView>, b: Seq<PartView>, n: int)
    requires
        n <= a.len(),
        n <= b.len(),
        forall|k: int| 0 <= k < n ==> #[trigger] a[k] == b[k],
    ensures
        blocks_to(a, n) == blocks_to(b, n),
    decreases n,
{
    if n > 0 {
        lemma_blocks_prefix(a, b, n - 1);
    }
}

/// The blocks of a message are those of its parts, one after the other: none is lost, added or
/// moved.
pub proof fn lemma_blocks_part_by_part(parts: Seq<PartView>, part: PartView)
    ensures
        content_blocks(ContentView::Parts(seq![])) == Seq::<JsonView>::empty(),
        content_blocks(ContentView::Parts(parts.push(part))) == content_blocks(
            ContentView::Parts(parts),
        ) + (match part_block(part) {
            Some(block) => seq![block],
            None => seq![],
        }),
{
    let all = parts.push(part);
    let n = parts.len() as int;
    lemma_blocks_prefix(parts, all, n);
    assert(all[n] == part);
    assert(blocks_to(all, n + 1) =~= blocks_to(parts, n) + (match part_block(part) {
        Some(block) => seq![block],
        None => seq![],
    }));
}

proof fn lemma_turns_prefix(a: Seq<MessageView>, b: Seq<MessageView>, n: int)
    requires
        n <= a.len(),
        n <= b.len(),
        forall|k: int| 0 <= k < n ==> #[trigger] a[k] == b[k],
    ensures
        turns_to(a, n) == turns_to(b, n),
    decreases n,
{
    if n > 0 {
        lemma_turns_prefix(a, b, n - 1);
    }
}

/// A message is sent in its own role: it ends the last turn, which has that role, and the turns
/// before it are those of the messages before it. The system's messages are not sent.
pub proof fn lemma_messages_are_sent_in_their_role(messages: Seq<MessageView>, m: MessageView)
    ensures
        ({
            let before = turns(messages);
            let now = turns(messages.push(m));
            let blocks = content_blocks(m.content);
            if m.role == "system"@ || blocks.len() == 0 {
                now == before
            } else {
                &&& now.len() > 0
                &&& now.last().0 == m.role
                &&& if before.len() > 0 && before.last().0 == m.role {
                    now.drop_last() == before.drop_last() && now.last().1 == before.last().1
                        + blocks
                } else {
                    now.drop_last() == before && now.last().1 == blocks
                }
            }
        }),
        turns(seq![]) == Seq::<(Seq<char>, Seq<JsonView>)>::empty(),
{
    let all = messages.push(m);
    let n = messages.len() as int;
    lemma_turns_prefix(messages, all, n);
    assert(all[n] == m);
    let before = turns_to(messages, n);
    let blocks = content_blocks(m.content);
    if m.role == "system"@ || blocks.len() == 0 {
    } else if before.len() > 0 && before.last().0 == m.role {
        assert(turns(all).drop_last() =~= before.drop_last());
    } else {
        assert(turns(all).drop_last() =~= before);
    }
}

/// Each turn goes out as a message with its role and its blocks.
pub proof fn lemma_turns_are_messages(messages: Seq<MessageView>, i: int)
    requires
        0 <= i < turns(messages).len(),
    ensures
        converted(messages).len() == turns(messages).len(),
        json::str_member(converted(messages)[i], "role"@) == Some(turns(messages)[i].0),
        json::array_member(converted(messages)[i], "content"@) == Some(turns(messages)[i].1),
{
    reveal_strlit("role");
    reveal_strlit("content");
    assert("role"@.len() == 4 && "content"@.len() == 7);
}

/// A request holds the system's instructions, the conversation, the temperature and the most tokens
/// that an answer may take, and keeps what it began with. It lists the tools where there are any.
pub proof fn lemma_requests_hold_their_parts(
    first: Map<Seq<char>, JsonView>,
    system: Seq<char>,
    messages: Seq<MessageView>,
    tools: Seq<ToolSpec>,
    temperature: NumberView,
    key: Seq<char>,
)
    ensures
        ({
            let r = JsonView::Object(request_members(first, system, messages, tools, temperature));
            &&& json::str_member(r, "system"@) == Some(system)
            &&& json::array_member(r, "messages"@) == Some(converted(messages))
            &&& json::member(r, "temperature"@) == Some(JsonView::Number(temperature))
            &&& json::u64_member(r, "max_tokens"@) == Some(4096u64)
            &&& tools.len() > 0 ==> json::array_member(r, "tools"@) == Some(tools_json(tools))
            &&& tools.len() == 0 && !first.contains_key("tools"@) ==> json::member(r, "tools"@)
                is None
            &&& first.contains_key(key) && key != "system"@ && key != "messages"@ && key
                != "temperature"@ && key != "max_tokens"@ && key != "tools"@ ==> json::member(r, key)
                == Some(first[key])
        }),
{
    reveal_strlit("system");
    reveal_strlit("messages");
    reveal_strlit("temperature");
    reveal_strlit("max_tokens");
    reveal_strlit("tools");
    assert("system"@.len() == 6 && "messages"@.len() == 8 && "temperature"@.len() == 11
        && "max_tokens"@.len() == 10 && "tools"@.len() == 5);
}

/// Every tool is described in its place, by its name, its description and the schema of its input.
pub proof fn lemma_tools_are_described(tools: Seq<ToolSpec>, i: int)
    requires
        0 <= i < tools.len(),
    ensures
        tools_json(tools).len() == tools.len(),
        json::str_member(tools_json(tools)[i], "name"@) == Some(tools[i].name@),
        json::str_member(tools_json(tools)[i], "description"@) == Some(tools[i].description@),
        json::member(tools_json(tools)[i], "input_schema"@) == Some(tools[i].parameters@),
{
    reveal_strlit("name");
    reveal_strlit("description");
    reveal_strlit("input_schema");
    assert("name"@.len() == 4 && "description"@.len() == 11 && "input_schema"@.len() == 12);
}

proof fn lemma_answers_prefix(a: Seq<AnthropicContent>, b: Seq<AnthropicContent>, n: int)
    requires
        n <= a.len(),
        n <= b.len(),
        forall|k: int| 0 <= k < n ==> #[trigger] a[k] == b[k],
    ensures
        answer_texts(a, n) == answer_texts(b, n),
        answer_calls(a, n) == answer_calls(b, n),
    decreases n,
{
    if n > 0 {
        lemma_answers_prefix(a, b, n - 1);
    }
}

/// An answer is read block by block: a text adds its words to the texts and nothing to the calls, a
/// call adds itself, with its input written out, to the calls and nothing to the texts.
pub proof fn lemma_answers_are_read_block_by_block(
    content: Seq<AnthropicContent>,
    block: AnthropicContent,
)
    ensures
        ({
            let n = content.len() as int;
            let all = content.push(block);
            &&& answer_texts(content, 0) == Seq::<Seq<char>>::empty()
            &&& answer_calls(content, 0) == Seq::<types::CallView>::empty()
            &&& block matches AnthropicContent::Text { text } ==> answer_texts(all, n + 1)
                == answer_texts(content, n).push(text@) && answer_calls(all, n + 1) == answer_calls(
                content,
                n,
            )
            &&& block matches AnthropicContent::ToolUse { id, name, input } ==> {
                &&& answer_texts(all, n + 1) == answer_texts(content, n)
                &&& answer_calls(all, n + 1).drop_last() == answer_calls(content, n)
                &&& answer_calls(all, n + 1).len() > 0
                &&& answer_calls(all, n + 1).last().id == id@
                &&& answer_calls(all, n + 1).last().name == name@
                &&& answer_calls(all, n + 1).last().arguments == json::json_written(input@)
            }
        }),
{
    let n = content.len() as int;
    let all = content.push(block);
    lemma_answers_prefix(content, all, n);
    assert(all[n] == block);
    if block is ToolUse {
        assert(answer_calls(all, n + 1).drop_last() =~= answer_calls(content, n));
    }
}

/// A request that was answered well is not made again, and its body is taken as it is. One that met
/// a fault that may pass is made again after one, two and four seconds, and at the fourth such
/// fault the error tells the status and the body. Any other status is an error at once.
pub proof fn lemma_replies_are_judged_by_status(
    service: Service,
    attempt: int,
    status: u16,
    body: String,
)
    requires
        0 <= attempt,
    ensures
        ({
            let step = retry_step(service, attempt, Reply::Answered { status, body });
            let passes = status == 429 || (500 <= status && status <= 599);
            if 200 <= status && status <= 299 {
                step == (RetryView::Accept { body: body@ })
            } else if passes && attempt < 3 {
                step == (RetryView::Wait {
                    seconds: if attempt == 0 {
                        1
                    } else if attempt == 1 {
                        2
                    } else {
                        4
                    },
                })
            } else {
                &&& step is Fail
                &&& step->error == (if service == Service::Anthropic {
                    if passes {
                        "API error (status "@
                    } else {
                        "Anthropic API client error (status "@
                    }
                } else {
                    if passes {
                        "Vertex AI error (status "@
                    } else {
                        "Vertex AI client error (status "@
                    }
                }) + text::decimal(status as nat) + "): "@ + body@
            }
        }),
{
    assert(retry_delay(1) == 1);
    assert(retry_delay(2) == 2);
    assert(retry_delay(3) == 4);
}

/// A request that could not be sent is made again after one, two and four seconds, and at the
/// fourth time the error tells why.
pub proof fn lemma_unsent_requests_are_made_again(service: Service, attempt: int, error: String)
    requires
        0 <= attempt,
    ensures
        ({
            let step = retry_step(service, attempt, Reply::Unsent { error });
            &&& attempt == 0 ==> step == (RetryView::Wait { seconds: 1 })
            &&& attempt == 1 ==> step == (RetryView::Wait { seconds: 2 })
            &&& attempt == 2 ==> step == (RetryView::Wait { seconds: 4 })
            &&& attempt >= 3 ==> step == (RetryView::Fail {
                error: "Request failed: "@ + error@,
            })
        }),
{
    assert(retry_delay(1) == 1);
    assert(retry_delay(2) == 2);
    assert(retry_delay(3) == 4);
}

/// A token is used until a minute before it expires, and not at all where it is good for less.
pub proof fn lemma_tokens_are_used_to_the_margin(now: int, expires_in: int)
    ensures
        expires_in >= 60 ==> usable_until(now, expires_in) == now + expires_in - 60,
        expires_in < 60 ==> usable_until(now, expires_in) == now,
        TOKEN_DEFAULT_SECS == 3600,
{
}

/// Credentials are complete exactly where all three texts are there, and the error names the first
/// that is not.
pub proof fn lemma_credentials_are_complete(creds: JsonView)
    ensures
        adc_fault(creds) is None <==> json::str_member(creds, "client_id"@) is Some
            && json::str_member(creds, "client_secret"@) is Some && json::str_member(
            creds,
            "refresh_token"@,
        ) is Some,
        json::str_member(creds, "client_id"@) is None ==> adc_fault(creds) == Some(
            "Missing client_id in ADC file"@,
        ),
        json::str_member(creds, "client_id"@) is Some && json::str_member(creds, "client_secret"@)
            is None ==> adc_fault(creds) == Some("Missing client_secret in ADC file"@),
        json::str_member(creds, "client_id"@) is Some && json::str_member(creds, "client_secret"@)
            is Some && json::str_member(creds, "refresh_token"@) is None ==> adc_fault(creds)
            == Some("Missing refresh_token in ADC file"@),
{
}

/// A refused refresh is told by its description, and by its error where there is none.
pub proof fn lemma_refusals_are_told(body: JsonView)
    ensures
        json::str_member(body, "error_description"@) matches Some(e) ==> refresh_error(body) == e,
        json::str_member(body, "error_description"@) is None ==> match json::str_member(
            body,
            "error"@,
        ) {
            Some(e) => refresh_error(body) == e,
            None => refresh_error(body) == "Unknown error"@,
        },
{
}

/// The view of a step after a request leaves nothing out.
pub proof fn lemma_step_view_holds_the_fields(step: RetryStep)
    ensures
        step matches RetryStep::Accept { body } ==> step@ == (RetryView::Accept { body: body@ }),
        step matches RetryStep::Wait { seconds } ==> step@ == (RetryView::Wait {
            seconds: seconds as int,
        }),
        step matches RetryStep::Fail { error } ==> step@ == (RetryView::Fail { error: error@ }),
        MAX_TOKENS == 4096,
        MAX_RETRIES == 3,
        TOKEN_MARGIN_SECS == 60,
{
}

} // verus!
