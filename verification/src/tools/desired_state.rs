//! The desired state that a resource carries as an annotation.
use vstd::prelude::*;
use crate::json::{Json, JsonObject, JsonView};
use crate::json;

verus! {

/// The annotation's key.
pub const ANNOTATION_KEY: &'static str = "krust.io/desired-state";

/// The reference by which an object belongs to a resource.
pub open spec fn owner_ref(name: Seq<char>, uid: Seq<char>) -> JsonView {
    JsonView::Object(
        map![
            "apiVersion"@ => JsonView::Str("krust.io/v1"@),
            "kind"@ => JsonView::Str("AIResource"@),
            "name"@ => JsonView::Str(name),
            "uid"@ => JsonView::Str(uid),
            "controller"@ => JsonView::Bool(true),
            "blockOwnerDeletion"@ => JsonView::Bool(true),
        ],
    )
}

/// Builds the reference by which an object belongs to a resource.
pub fn build_owner_ref(name: &str, uid: &str) -> (r: Json)
    ensures
        r@ == owner_ref(name@, uid@),
{
    let mut o = JsonObject::new();
    o.put("apiVersion", Json::string("krust.io/v1"));
    o.put("kind", Json::string("AIResource"));
    o.put("name", Json::string(name));
    o.put("uid", Json::string(uid));
    o.put("controller", Json::Bool(true));
    o.put("blockOwnerDeletion", Json::Bool(true));
    Json::object(o)
}

/// The templates that a document holds; a document of another form holds none.
pub open spec fn templates_in(doc: JsonView) -> Map<Seq<char>, JsonView> {
    match doc {
        JsonView::Object(m) => if json::all_texts(m) {
            m
        } else {
            Map::empty()
        },
        _ => Map::empty(),
    }
}

/// The templates that an annotation holds; none where it is missing or no document.
pub open spec fn templates_of(annotation: Option<Seq<char>>) -> Map<Seq<char>, JsonView> {
    match annotation {
        Some(t) => match json::json_read(t) {
            Ok(doc) => templates_in(doc),
            Err(_) => Map::empty(),
        },
        None => Map::empty(),
    }
}

/// Takes the templates from a document.
pub fn take_templates(doc: Json) -> (r: JsonObject)
    ensures
        r@ == templates_in(doc@),
{
    let ghost all = doc@;
    match doc {
        Json::Object(object) => {
            assert(all == JsonView::Object(object@));
            let entries = object.entries();
            let ghost l = json::pairs_view(entries@);
            let mut i: usize = 0;
            while i < entries.len()
                invariant
                    i <= entries@.len(),
                    all == doc@,
                    all == JsonView::Object(object@),
                    l == json::pairs_view(entries@),
                    json::is_listing(l, object@),
                    forall|k: int| 0 <= k < i ==> (#[trigger] l[k]).1 is Str,
                decreases entries@.len() - i,
            {
                assert(l[i as int] == (entries@[i as int].0@, entries@[i as int].1@));
                if entries[i].1.as_str().is_none() {
                    assert(object@.contains_key(l[i as int].0) && !(object@[l[i as int].0] is Str));
                    return JsonObject::new();
                }
                i = i + 1;
            }
            proof {
                assert(l.len() == entries@.len());
                assert forall|k: Seq<char>| #[trigger] object@.contains_key(k) implies object@[k] is Str by {
                    let j = choose|j: int| 0 <= j < l.len() && (#[trigger] l[j]).0 == k;
                    assert(l[j].1 is Str);
                }
            }
            object
        },
        _ => JsonObject::new(),
    }
}

/// Reads the templates that an annotation holds, by name.
pub fn read_annotation(annotation: Option<&str>) -> (r: JsonObject)
    ensures
        r@ == templates_of(json::opt_view(annotation)),
{
    match annotation {
        Some(t) => match Json::parse(t) {
            Ok(doc) => take_templates(doc),
            Err(_) => JsonObject::new(),
        },
        None => JsonObject::new(),
    }
}

/// The patch that sets the annotation.
pub open spec fn annotation_patch(value: Seq<char>) -> JsonView {
    JsonView::Object(
        map![
            "metadata"@ => JsonView::Object(
                map![
                    "annotations"@ => JsonView::Object(
                        map![ANNOTATION_KEY@ => JsonView::Str(value)],
                    ),
                ],
            ),
        ],
    )
}

/// The templates that an annotation holds, and one more.
pub open spec fn with_template(
    annotation: Option<Seq<char>>,
    template_name: Seq<char>,
    rendered_yaml: Seq<char>,
) -> Map<Seq<char>, JsonView> {
    templates_of(annotation).insert(template_name, JsonView::Str(rendered_yaml))
}

/// The patch that adds a rendered template to those that an annotation holds. The others stay, and
/// what reads the new annotation finds them all.
pub fn store_patch(annotation: Option<&str>, template_name: &str, rendered_yaml: &str) -> (r: Json)
    ensures
        ({
            let all = with_template(json::opt_view(annotation), template_name@, rendered_yaml@);
            let written = json::json_written(JsonView::Object(all));
            r@ == annotation_patch(written) && templates_of(Some(written)) == all
        }),
{
    let mut templates = read_annotation(annotation);
    templates.put(template_name, Json::string(rendered_yaml));
    let value = Json::object(templates).to_text();
    let mut annotations = JsonObject::new();
    annotations.put(ANNOTATION_KEY, Json::Str(value));
    let mut metadata = JsonObject::new();
    metadata.put("annotations", Json::object(annotations));
    let mut patch = JsonObject::new();
    patch.put("metadata", Json::object(metadata));
    Json::object(patch)
}

/// The reference names the resource and says that it controls the object.
pub proof fn lemma_owner_is_named(name: Seq<char>, uid: Seq<char>)
    ensures
        json::str_member(owner_ref(name, uid), "apiVersion"@) == Some("krust.io/v1"@),
        json::str_member(owner_ref(name, uid), "kind"@) == Some("AIResource"@),
        json::str_member(owner_ref(name, uid), "name"@) == Some(name),
        json::str_member(owner_ref(name, uid), "uid"@) == Some(uid),
        json::bool_member(owner_ref(name, uid), "controller"@) == Some(true),
        json::bool_member(owner_ref(name, uid), "blockOwnerDeletion"@) == Some(true),
{
    reveal_strlit("apiVersion");
    reveal_strlit("kind");
    reveal_strlit("name");
    reveal_strlit("uid");
    reveal_strlit("controller");
    reveal_strlit("blockOwnerDeletion");
    assert("apiVersion"@[0] == 'a' && "kind"@[0] == 'k' && "name"@[0] == 'n' && "uid"@[0] == 'u'
        && "controller"@[0] == 'c' && "blockOwnerDeletion"@[0] == 'b');
}

/// Storing a template sets it under its name and leaves the others as they are.
pub proof fn lemma_storing_keeps_the_others(
    annotation: Option<Seq<char>>,
    template_name: Seq<char>,
    rendered_yaml: Seq<char>,
    other: Seq<char>,
)
    ensures
        ({
            let all = with_template(annotation, template_name, rendered_yaml);
            &&& all.dom().contains(template_name)
            &&& all[template_name] == JsonView::Str(rendered_yaml)
            &&& other != template_name ==> all.dom().contains(other) == templates_of(
                annotation,
            ).dom().contains(other)
            &&& other != template_name && all.dom().contains(other) ==> all[other] == templates_of(
                annotation,
            )[other]
        }),
{
}

/// An annotation that is an object of texts holds its members as templates; any other holds none.
pub proof fn lemma_annotations_hold_texts(t: Seq<char>, m: Map<Seq<char>, JsonView>, key: Seq<char>)
    ensures
        json::json_read(t) == Ok::<JsonView, Seq<char>>(JsonView::Object(m)) && (forall|k: Seq<char>|
         #[trigger]
            m.dom().contains(k) ==> m[k] is Str) ==> templates_of(Some(t)) == m,
        json::json_read(t) == Ok::<JsonView, Seq<char>>(JsonView::Object(m)) && m.dom().contains(key)
            && !(m[key] is Str) ==> templates_of(Some(t)) == Map::<Seq<char>, JsonView>::empty(),
        json::json_read(t) is Err ==> templates_of(Some(t)) == Map::<Seq<char>, JsonView>::empty(),
        templates_of(None) == Map::<Seq<char>, JsonView>::empty(),
{
    if json::json_read(t) == Ok::<JsonView, Seq<char>>(JsonView::Object(m)) && m.dom().contains(
        key,
    ) && !(m[key] is Str) {
        assert(m.contains_key(key));
    }
    if forall|k: Seq<char>| #[trigger] m.dom().contains(k) ==> m[k] is Str {
        assert forall|k: Seq<char>| #[trigger] m.contains_key(k) implies m[k] is Str by {
            assert(m.dom().contains(k));
        }
    }
}

/// The patch sets the annotation of the resource's metadata, and nothing else.
pub proof fn lemma_patch_sets_the_annotation(value: Seq<char>, key: Seq<char>)
    ensures
        json::member_in(annotation_patch(value), "metadata"@, "annotations"@) matches Some(a)
            && json::str_member(a, "krust.io/desired-state"@) == Some(value),
        key != "metadata"@ ==> json::member(annotation_patch(value), key) is None,
{
}

} // verus!
