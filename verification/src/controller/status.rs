//! The patches by which a resource's status is updated.
use vstd::prelude::*;
use crate::crd::{ResourceCondition, ResourcePhase};
use crate::crd;
use crate::json::{Json, JsonObject, JsonView};
use crate::json;

verus! {

/// A patch of the status.
pub open spec fn status_patch(status: Map<Seq<char>, JsonView>) -> JsonView {
    JsonView::Object(map!["status"@ => JsonView::Object(status)])
}

/// Makes a patch of the status.
pub fn make_status_patch(status: JsonObject) -> (r: Json)
    ensures
        r@ == status_patch(status@),
{
    let mut o = JsonObject::new();
    o.put("status", Json::object(status));
    Json::object(o)
}

/// A text of a document, or null.
pub open spec fn text_or_null(s: Option<Seq<char>>) -> JsonView {
    match s {
        Some(t) => JsonView::Str(t),
        None => JsonView::Null,
    }
}

/// The patch that sets phase and message.
pub fn phase_patch(phase: ResourcePhase, message: Option<&str>) -> (r: Json)
    ensures
        r@ == status_patch(
            map![
                "phase"@ => JsonView::Str(crd::phase_name(phase)),
                "message"@ => text_or_null(json::opt_view(message)),
            ],
        ),
{
    let mut o = JsonObject::new();
    o.put("phase", Json::string(phase.as_str()));
    match message {
        Some(m) => o.put("message", Json::string(m)),
        None => o.put("message", Json::Null),
    }
    make_status_patch(o)
}

/// The patch that sets the last action and its time.
pub fn agent_action_patch(action: &str, now: &str) -> (r: Json)
    ensures
        r@ == status_patch(
            map![
                "last_agent_action"@ => JsonView::Str(action@),
                "last_agent_action_time"@ => JsonView::Str(now@),
            ],
        ),
{
    let mut o = JsonObject::new();
    o.put("last_agent_action", Json::string(action));
    o.put("last_agent_action_time", Json::string(now));
    make_status_patch(o)
}

/// A map with one more text, where there is one.
pub open spec fn with_text(
    m: Map<Seq<char>, JsonView>,
    key: Seq<char>,
    s: Option<String>,
) -> Map<Seq<char>, JsonView> {
    match s {
        Some(t) => m.insert(key, JsonView::Str(t@)),
        None => m,
    }
}

/// A condition as a document.
pub open spec fn condition_json(c: ResourceCondition) -> JsonView {
    let base = map![
        "type"@ => JsonView::Str(c.condition_type@),
        "status"@ => JsonView::Str(c.status@),
    ];
    JsonView::Object(with_text(with_text(base, "reason"@, c.reason), "message"@, c.message))
}

/// The patch that sets the conditions to the given one.
pub fn condition_patch(condition: &ResourceCondition) -> (r: Json)
    ensures
        r@ == status_patch(
            map!["conditions"@ => JsonView::Array(seq![condition_json(*condition)])],
        ),
{
    let mut c = JsonObject::new();
    c.put("type", Json::string(condition.condition_type.as_str()));
    c.put("status", Json::string(condition.status.as_str()));
    if let Some(reason) = &condition.reason {
        c.put("reason", Json::string(reason.as_str()));
    }
    if let Some(message) = &condition.message {
        c.put("message", Json::string(message.as_str()));
    }
    let mut list: Vec<Json> = Vec::new();
    list.push(Json::object(c));
    assert(json::views_of(list@) =~= seq![condition_json(*condition)]);
    let mut o = JsonObject::new();
    o.put("conditions", Json::array(list));
    make_status_patch(o)
}

/// A patch of the status sets the given members below `status`, and nothing beside it.
pub proof fn lemma_patch_sets_the_status(status: Map<Seq<char>, JsonView>, key: Seq<char>)
    ensures
        json::object_member(status_patch(status), "status"@) == Some(status),
        key != "status"@ ==> json::member(status_patch(status), key) is None,
        status.dom().contains(key) ==> json::member_in(status_patch(status), "status"@, key) == Some(
            status[key],
        ),
{
}

/// A text that is there is written as it is, and one that is not is null.
pub proof fn lemma_missing_text_is_null(t: Seq<char>)
    ensures
        text_or_null(Some(t)) == JsonView::Str(t),
        text_or_null(None) == JsonView::Null,
{
}

/// A condition is written with its type and its status, and with a reason and a message where it
/// has them.
pub proof fn lemma_conditions_are_written_whole(c: ResourceCondition)
    ensures
        json::str_member(condition_json(c), "type"@) == Some(c.condition_type@),
        json::str_member(condition_json(c), "status"@) == Some(c.status@),
        c.reason matches Some(t) ==> json::str_member(condition_json(c), "reason"@) == Some(t@),
        c.reason is None ==> json::member(condition_json(c), "reason"@) is None,
        c.message matches Some(t) ==> json::str_member(condition_json(c), "message"@) == Some(t@),
        c.message is None ==> json::member(condition_json(c), "message"@) is None,
{
    reveal_strlit("type");
    reveal_strlit("status");
    reveal_strlit("reason");
    reveal_strlit("message");
    assert("type"@.len() == 4 && "message"@.len() == 7);
    assert("status"@[0] == 's' && "reason"@[0] == 'r');
}

} // verus!
