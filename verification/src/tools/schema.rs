//! The JSON schemas by which tools describe their arguments.
use vstd::prelude::*;
use crate::json::{Json, JsonObject, JsonView};
use crate::json;

verus! {

/// A list of texts as an array.
pub open spec fn texts(parts: Seq<Seq<char>>) -> JsonView {
    JsonView::Array(parts.map_values(|p: Seq<char>| JsonView::Str(p)))
}

/// An argument of some type.
pub open spec fn prop(kind: Seq<char>, description: Seq<char>) -> JsonView {
    JsonView::Object(
        map!["type"@ => JsonView::Str(kind), "description"@ => JsonView::Str(description)],
    )
}

/// An argument that is one of some texts.
pub open spec fn choice(values: Seq<Seq<char>>, description: Seq<char>) -> JsonView {
    JsonView::Object(
        map![
            "type"@ => JsonView::Str("string"@),
            "enum"@ => texts(values),
            "description"@ => JsonView::Str(description),
        ],
    )
}

/// An argument that is a list of texts.
pub open spec fn text_list(description: Seq<char>) -> JsonView {
    JsonView::Object(
        map![
            "type"@ => JsonView::Str("array"@),
            "items"@ => JsonView::Object(map!["type"@ => JsonView::Str("string"@)]),
            "description"@ => JsonView::Str(description),
        ],
    )
}

/// The schema of a set of arguments; where `required` is given it names those that must be there.
pub open spec fn arguments(
    props: Map<Seq<char>, JsonView>,
    required: Option<Seq<Seq<char>>>,
) -> JsonView {
    let base = map![
        "type"@ => JsonView::Str("object"@),
        "properties"@ => JsonView::Object(props),
    ];
    JsonView::Object(
        match required {
            Some(names) => base.insert("required"@, texts(names)),
            None => base,
        },
    )
}

/// Makes an array of texts.
pub fn make_texts(parts: Vec<&str>) -> (r: Json)
    ensures
        r@ == texts(parts@.map_values(|p: &str| p@)),
{
    let ghost want = parts@.map_values(|p: &str| p@).map_values(|p: Seq<char>| JsonView::Str(p));
    let mut list: Vec<Json> = Vec::new();
    let mut i: usize = 0;
    while i < parts.len()
        invariant
            i <= parts@.len(),
            want == parts@.map_values(|p: &str| p@).map_values(|p: Seq<char>| JsonView::Str(p)),
            json::views_of(list@) =~= want.take(i as int),
        decreases parts@.len() - i,
    {
        let ghost before = list@;
        let item = Json::string(parts[i]);
        list.push(item);
        assert(json::views_of(list@) =~= json::views_of(before).push(item@));
        i = i + 1;
    }
    assert(json::views_of(list@) =~= want);
    Json::array(list)
}

/// Makes an argument of some type.
pub fn make_prop(kind: &str, description: &str) -> (r: Json)
    ensures
        r@ == prop(kind@, description@),
{
    let mut o = JsonObject::new();
    o.put("type", Json::string(kind));
    o.put("description", Json::string(description));
    Json::object(o)
}

/// Makes an argument that is one of some texts.
pub fn make_choice(values: Vec<&str>, description: &str) -> (r: Json)
    ensures
        r@ == choice(values@.map_values(|p: &str| p@), description@),
{
    let mut o = JsonObject::new();
    o.put("type", Json::string("string"));
    o.put("enum", make_texts(values));
    o.put("description", Json::string(description));
    Json::object(o)
}

/// Makes an argument that is a list of texts.
pub fn make_text_list(description: &str) -> (r: Json)
    ensures
        r@ == text_list(description@),
{
    let mut items = JsonObject::new();
    items.put("type", Json::string("string"));
    let mut o = JsonObject::new();
    o.put("type", Json::string("array"));
    o.put("items", Json::object(items));
    o.put("description", Json::string(description));
    Json::object(o)
}

/// Makes the schema of arguments none of which is said to be required.
pub fn make_open_arguments(props: JsonObject) -> (r: Json)
    ensures
        r@ == arguments(props@, None),
{
    let mut o = JsonObject::new();
    o.put("type", Json::string("object"));
    o.put("properties", Json::object(props));
    Json::object(o)
}

/// Makes the schema of arguments with those that are required.
pub fn make_arguments(props: JsonObject, required: Vec<&str>) -> (r: Json)
    ensures
        r@ == arguments(props@, Some(required@.map_values(|p: &str| p@))),
{
    let mut o = JsonObject::new();
    o.put("type", Json::string("object"));
    o.put("properties", Json::object(props));
    o.put("required", make_texts(required));
    Json::object(o)
}

/// A schema tells the type and the description of every argument, and names those that must be
/// there.
pub proof fn lemma_schemas_tell_their_arguments(
    props: Map<Seq<char>, JsonView>,
    required: Seq<Seq<char>>,
    kind: Seq<char>,
    description: Seq<char>,
    values: Seq<Seq<char>>,
    i: int,
)
    ensures
        json::str_member(arguments(props, Some(required)), "type"@) == Some("object"@),
        json::object_member(arguments(props, Some(required)), "properties"@) == Some(props),
        json::array_member(arguments(props, Some(required)), "required"@) matches Some(names)
            && names.len() == required.len() && (0 <= i < required.len() ==> names[i]
            == JsonView::Str(required[i])),
        json::str_member(arguments(props, None), "type"@) == Some("object"@),
        json::object_member(arguments(props, None), "properties"@) == Some(props),
        json::member(arguments(props, None), "required"@) is None,
        json::str_member(prop(kind, description), "type"@) == Some(kind),
        json::str_member(prop(kind, description), "description"@) == Some(description),
        json::str_member(choice(values, description), "type"@) == Some("string"@),
        json::str_member(choice(values, description), "description"@) == Some(description),
        json::array_member(choice(values, description), "enum"@) matches Some(names) && names.len()
            == values.len() && (0 <= i < values.len() ==> names[i] == JsonView::Str(values[i])),
        json::str_member(text_list(description), "type"@) == Some("array"@),
        json::str_member(text_list(description), "description"@) == Some(description),
        json::member_in(text_list(description), "items"@, "type"@) == Some(
            JsonView::Str("string"@),
        ),
{
    reveal_strlit("type");
    reveal_strlit("properties");
    reveal_strlit("required");
    reveal_strlit("description");
    reveal_strlit("enum");
    reveal_strlit("items");
    assert("type"@.len() == 4 && "properties"@.len() == 10 && "required"@.len() == 8
        && "description"@.len() == 11 && "enum"@.len() == 4 && "items"@.len() == 5);
    assert("type"@[0] == 't' && "enum"@[0] == 'e');
}

} // verus!
