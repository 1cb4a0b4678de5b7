//! JSON documents: a value type, its mathematical view, and its textual forms.
//!
//! Reading and writing text is the work of `serde_json` and `serde_yaml`; everything the crate
//! asks of a document is answered by verified functions on [`Json`].
use vstd::prelude::*;
use crate::text;

verus! {

/// A JSON number.
///
/// A number that is no 64-bit integer is kept by two spellings: `text`, the form that a document
/// has it in, and `display`, the plain decimal form without an exponent.
pub enum JsonNumber {
    Unsigned(u64),
    Signed(i64),
    Float { text: String, display: String },
}

/// A JSON value.
pub enum Json {
    Null,
    Bool(bool),
    Number(JsonNumber),
    Str(String),
    Array(Vec<Json>),
    Object(JsonObject),
}

/// The members of a JSON object. Where a key was put more than once the last value counts.
pub struct JsonObject {
    pub members: Vec<(String, Json)>,
}

/// The mathematical view of a [`JsonNumber`].
pub enum NumberView {
    Unsigned(u64),
    Signed(i64),
    Float { text: Seq<char>, display: Seq<char> },
}

/// The mathematical view of a [`Json`].
pub enum JsonView {
    Null,
    Bool(bool),
    Number(NumberView),
    Str(Seq<char>),
    Array(Seq<JsonView>),
    Object(Map<Seq<char>, JsonView>),
}

impl View for JsonNumber {
    type V = NumberView;

    open spec fn view(&self) -> NumberView {
        match self {
            JsonNumber::Unsigned(n) => NumberView::Unsigned(*n),
            JsonNumber::Signed(n) => NumberView::Signed(*n),
            JsonNumber::Float { text, display } => NumberView::Float {
                text: text@,
                display: display@,
            },
        }
    }
}

impl Json {
    /// What the value denotes.
    pub open spec fn view(&self) -> JsonView
        decreases self, 0nat,
    {
        match self {
            Json::Null => JsonView::Null,
            Json::Bool(b) => JsonView::Bool(*b),
            Json::Number(n) => JsonView::Number(n@),
            Json::Str(s) => JsonView::Str(s@),
            Json::Array(items) => JsonView::Array(items_view(items@, items@.len())),
            Json::Object(object) => JsonView::Object(
                members_view(object.members@, object.members@.len()),
            ),
        }
    }
}

/// The views of the first `n` items.
pub open spec fn items_view(items: Seq<Json>, n: nat) -> Seq<JsonView>
    decreases items, n,
{
    if n == 0 || n > items.len() {
        seq![]
    } else {
        items_view(items, (n - 1) as nat).push(items[n - 1].view())
    }
}

/// The map that the first `n` members denote.
pub open spec fn members_view(members: Seq<(String, Json)>, n: nat) -> Map<Seq<char>, JsonView>
    decreases members, n,
{
    if n == 0 || n > members.len() {
        Map::empty()
    } else {
        members_view(members, (n - 1) as nat).insert(
            members[n - 1].0@,
            members[n - 1].1.view(),
        )
    }
}

impl JsonObject {
    /// The map that the object denotes.
    pub open spec fn view(&self) -> Map<Seq<char>, JsonView> {
        members_view(self.members@, self.members@.len())
    }
}

/// The views of the items of an array.
pub open spec fn views_of(items: Seq<Json>) -> Seq<JsonView> {
    items.map_values(|j: Json| j.view())
}

proof fn lemma_items_view(items: Seq<Json>, n: nat)
    requires
        n <= items.len(),
    ensures
        items_view(items, n) == views_of(items.take(n as int)),
    decreases n,
{
    if n > 0 {
        lemma_items_view(items, (n - 1) as nat);
        assert(views_of(items.take(n as int)) =~= views_of(items.take(n - 1)).push(
            items[n - 1].view(),
        ));
    } else {
        assert(views_of(items.take(0)) =~= seq![]);
    }
}

/// The view of an array is the sequence of its items' views.
pub proof fn lemma_array_view(items: Vec<Json>)
    ensures
        Json::Array(items).view() == JsonView::Array(views_of(items@)),
{
    lemma_items_view(items@, items@.len());
    assert(items@.take(items@.len() as int) =~= items@);
}

proof fn lemma_members_prefix(a: Seq<(String, Json)>, b: Seq<(String, Json)>, n: nat)
    requires
        n <= a.len(),
        n <= b.len(),
        forall|i: int| 0 <= i < n ==> a[i] == b[i],
    ensures
        members_view(a, n) == members_view(b, n),
    decreases n,
{
    if n > 0 {
        lemma_members_prefix(a, b, (n - 1) as nat);
    }
}

proof fn lemma_members_finite(members: Seq<(String, Json)>, n: nat)
    ensures
        members_view(members, n).dom().finite(),
    decreases n,
{
    if n > 0 && n <= members.len() {
        lemma_members_finite(members, (n - 1) as nat);
    }
}

/// An object has finitely many members.
pub proof fn lemma_object_finite(object: JsonObject)
    ensures
        object@.dom().finite(),
{
    lemma_members_finite(object.members@, object.members@.len());
}

// ---------------------------------------------------------------------------
// Asking
// ---------------------------------------------------------------------------
/// The member of an object under `key`.
pub open spec fn member(v: JsonView, key: Seq<char>) -> Option<JsonView> {
    match v {
        JsonView::Object(m) => if m.contains_key(key) {
            Some(m[key])
        } else {
            None
        },
        _ => None,
    }
}

/// The text of a string value.
pub open spec fn str_of(v: JsonView) -> Option<Seq<char>> {
    match v {
        JsonView::Str(s) => Some(s),
        _ => None,
    }
}

/// The number of a value that is an integer from zero up.
pub open spec fn u64_of(v: JsonView) -> Option<u64> {
    match v {
        JsonView::Number(NumberView::Unsigned(n)) => Some(n),
        JsonView::Number(NumberView::Signed(n)) => if n >= 0 {
            Some(n as u64)
        } else {
            None
        },
        _ => None,
    }
}

/// The number of a value that is an integer in the signed 64-bit range.
pub open spec fn i64_of(v: JsonView) -> Option<i64> {
    match v {
        JsonView::Number(NumberView::Unsigned(n)) => if n <= i64::MAX {
            Some(n as i64)
        } else {
            None
        },
        JsonView::Number(NumberView::Signed(n)) => Some(n),
        _ => None,
    }
}

/// The truth value of a boolean.
pub open spec fn bool_of(v: JsonView) -> Option<bool> {
    match v {
        JsonView::Bool(b) => Some(b),
        _ => None,
    }
}

/// The member under the second key of the object under the first.
pub open spec fn member_in(v: JsonView, first: Seq<char>, second: Seq<char>) -> Option<JsonView> {
    match member(v, first) {
        Some(j) => member(j, second),
        None => None,
    }
}

/// The text of the string member under `key`.
pub open spec fn str_member(v: JsonView, key: Seq<char>) -> Option<Seq<char>> {
    match member(v, key) {
        Some(j) => str_of(j),
        None => None,
    }
}

/// The unsigned number under `key`.
pub open spec fn u64_member(v: JsonView, key: Seq<char>) -> Option<u64> {
    match member(v, key) {
        Some(j) => u64_of(j),
        None => None,
    }
}

/// The unsigned number under `key`, where it fits into 32 bits.
pub open spec fn u32_member(v: JsonView, key: Seq<char>) -> Option<u32> {
    match u64_member(v, key) {
        Some(n) => if n <= u32::MAX {
            Some(n as u32)
        } else {
            None
        },
        None => None,
    }
}

/// The signed number under `key`.
pub open spec fn i64_member(v: JsonView, key: Seq<char>) -> Option<i64> {
    match member(v, key) {
        Some(j) => i64_of(j),
        None => None,
    }
}

/// The truth value under `key`.
pub open spec fn bool_member(v: JsonView, key: Seq<char>) -> Option<bool> {
    match member(v, key) {
        Some(j) => bool_of(j),
        None => None,
    }
}

/// The items of the array under `key`.
pub open spec fn array_member(v: JsonView, key: Seq<char>) -> Option<Seq<JsonView>> {
    match member(v, key) {
        Some(JsonView::Array(items)) => Some(items),
        _ => None,
    }
}

/// The members of the object under `key`.
pub open spec fn object_member(v: JsonView, key: Seq<char>) -> Option<Map<Seq<char>, JsonView>> {
    match member(v, key) {
        Some(JsonView::Object(m)) => Some(m),
        _ => None,
    }
}

/// The optional text of an optional string.
pub open spec fn opt_view(s: Option<&str>) -> Option<Seq<char>> {
    match s {
        Some(t) => Some(t@),
        None => None,
    }
}

impl JsonObject {
    /// An object without members.
    pub fn new() -> (r: JsonObject)
        ensures
            r@ == Map::<Seq<char>, JsonView>::empty(),
    {
        JsonObject { members: Vec::new() }
    }

    /// Sets the member under `key`.
    pub fn put(&mut self, key: &str, value: Json)
        ensures
            final(self)@ == old(self)@.insert(key@, value@),
    {
        let ghost before = self.members@;
        self.members.push((key.to_string(), value));
        proof {
            lemma_members_prefix(before, self.members@, before.len());
        }
    }

    /// The member under `key`.
    pub fn get(&self, key: &str) -> (r: Option<&Json>)
        ensures
            match r {
                Some(j) => self@.contains_key(key@) && self@[key@] == j@,
                None => !self@.contains_key(key@),
            },
    {
        let mut i: usize = self.members.len();
        while i > 0
            invariant
                i <= self.members@.len(),
                self@.contains_key(key@) == members_view(self.members@, i as nat).contains_key(
                    key@,
                ),
                self@.contains_key(key@) ==> self@[key@] == members_view(
                    self.members@,
                    i as nat,
                )[key@],
            decreases i,
        {
            if text::same(self.members[i - 1].0.as_str(), key) {
                return Some(&self.members[i - 1].1);
            }
            i = i - 1;
        }
        None
    }
}

impl Json {
    /// A string value.
    pub fn string(s: &str) -> (r: Json)
        ensures
            r@ == JsonView::Str(s@),
    {
        Json::Str(s.to_string())
    }

    /// An unsigned number.
    pub fn unsigned(n: u64) -> (r: Json)
        ensures
            r@ == JsonView::Number(NumberView::Unsigned(n)),
    {
        Json::Number(JsonNumber::Unsigned(n))
    }

    /// An array.
    pub fn array(items: Vec<Json>) -> (r: Json)
        ensures
            r@ == JsonView::Array(views_of(items@)),
    {
        proof {
            lemma_array_view(items);
        }
        Json::Array(items)
    }

    /// An object.
    pub fn object(object: JsonObject) -> (r: Json)
        ensures
            r@ == JsonView::Object(object@),
    {
        Json::Object(object)
    }

    /// The member of an object under `key`.
    pub fn get(&self, key: &str) -> (r: Option<&Json>)
        ensures
            match r {
                Some(j) => member(self@, key@) == Some(j@),
                None => member(self@, key@) is None,
            },
    {
        match self {
            Json::Object(object) => {
                assert(self@ == JsonView::Object(object@));
                object.get(key)
            },
            _ => None,
        }
    }

    /// The text of a string value.
    pub fn as_str(&self) -> (r: Option<&str>)
        ensures
            opt_view(r) == str_of(self@),
    {
        match self {
            Json::Str(s) => Some(s.as_str()),
            _ => None,
        }
    }

    /// The number of a value that is an integer from zero up.
    pub fn as_u64(&self) -> (r: Option<u64>)
        ensures
            r == u64_of(self@),
    {
        match self {
            Json::Number(JsonNumber::Unsigned(n)) => Some(*n),
            Json::Number(JsonNumber::Signed(n)) => if *n >= 0 {
                Some(*n as u64)
            } else {
                None
            },
            _ => None,
        }
    }

    /// The number of a value that is an integer in the signed 64-bit range.
    pub fn as_i64(&self) -> (r: Option<i64>)
        ensures
            r == i64_of(self@),
    {
        match self {
            Json::Number(JsonNumber::Unsigned(n)) => if *n <= i64::MAX as u64 {
                Some(*n as i64)
            } else {
                None
            },
            Json::Number(JsonNumber::Signed(n)) => Some(*n),
            _ => None,
        }
    }

    /// The truth value of a boolean.
    pub fn as_bool(&self) -> (r: Option<bool>)
        ensures
            r == bool_of(self@),
    {
        match self {
            Json::Bool(b) => Some(*b),
            _ => None,
        }
    }

    /// The text of the string member under `key`.
    pub fn str_at(&self, key: &str) -> (r: Option<&str>)
        ensures
            opt_view(r) == str_member(self@, key@),
    {
        match self.get(key) {
            Some(j) => j.as_str(),
            None => None,
        }
    }

    /// The unsigned number under `key`.
    pub fn u64_at(&self, key: &str) -> (r: Option<u64>)
        ensures
            r == u64_member(self@, key@),
    {
        match self.get(key) {
            Some(j) => j.as_u64(),
            None => None,
        }
    }

    /// The unsigned number under `key`, where it fits into 32 bits.
    pub fn u32_at(&self, key: &str) -> (r: Option<u32>)
        ensures
            r == u32_member(self@, key@),
    {
        match self.u64_at(key) {
            Some(n) => if n <= u32::MAX as u64 {
                Some(n as u32)
            } else {
                None
            },
            None => None,
        }
    }

    /// The signed number under `key`.
    pub fn i64_at(&self, key: &str) -> (r: Option<i64>)
        ensures
            r == i64_member(self@, key@),
    {
        match self.get(key) {
            Some(j) => j.as_i64(),
            None => None,
        }
    }

    /// The truth value under `key`.
    pub fn bool_at(&self, key: &str) -> (r: Option<bool>)
        ensures
            r == bool_member(self@, key@),
    {
        match self.get(key) {
            Some(j) => j.as_bool(),
            None => None,
        }
    }

    /// The items of the array under `key`.
    pub fn array_at(&self, key: &str) -> (r: Option<&Vec<Json>>)
        ensures
            match r {
                Some(items) => array_member(self@, key@) == Some(views_of(items@)),
                None => array_member(self@, key@) is None,
            },
    {
        match self.get(key) {
            Some(Json::Array(items)) => {
                proof {
                    lemma_array_view(*items);
                }
                Some(items)
            },
            _ => None,
        }
    }

    /// The member under the second key of the object under the first.
    pub fn get_in(&self, first: &str, second: &str) -> (r: Option<&Json>)
        ensures
            match r {
                Some(j) => member_in(self@, first@, second@) == Some(j@),
                None => member_in(self@, first@, second@) is None,
            },
    {
        match self.get(first) {
            Some(j) => j.get(second),
            None => None,
        }
    }

    /// The members of the object under `key`.
    pub fn object_at(&self, key: &str) -> (r: Option<&JsonObject>)
        ensures
            match r {
                Some(object) => object_member(self@, key@) == Some(object@),
                None => object_member(self@, key@) is None,
            },
    {
        match self.get(key) {
            Some(Json::Object(object)) => Some(object),
            _ => None,
        }
    }
}

impl Clone for JsonNumber {
    fn clone(&self) -> (r: Self)
        ensures
            r@ == self@,
    {
        match self {
            JsonNumber::Unsigned(n) => JsonNumber::Unsigned(*n),
            JsonNumber::Signed(n) => JsonNumber::Signed(*n),
            JsonNumber::Float { text, display } => JsonNumber::Float {
                text: text.clone(),
                display: display.clone(),
            },
        }
    }
}

impl Clone for Json {
    fn clone(&self) -> (r: Self)
        ensures
            r@ == self@,
        decreases self,
    {
        match self {
            Json::Null => Json::Null,
            Json::Bool(b) => Json::Bool(*b),
            Json::Number(n) => Json::Number(n.clone()),
            Json::Str(s) => Json::Str(s.clone()),
            Json::Array(items) => {
                let mut out: Vec<Json> = Vec::new();
                let mut i: usize = 0;
                while i < items.len()
                    invariant
                        i <= items@.len(),
                        self matches Json::Array(v) && v == items,
                        views_of(out@) == views_of(items@.take(i as int)),
                    decreases items@.len() - i,
                {
                    let item = &items[i];
                    assert(decreases_to!(self => items@[i as int]));
                    let ghost before = out@;
                    out.push(item.clone());
                    assert(views_of(out@) =~= views_of(before).push(item@));
                    assert(views_of(items@.take(i + 1)) =~= views_of(items@.take(i as int)).push(
                        item@,
                    ));
                    i = i + 1;
                }
                assert(items@.take(items@.len() as int) =~= items@);
                proof {
                    lemma_array_view(*items);
                    lemma_array_view(out);
                }
                Json::Array(out)
            },
            Json::Object(object) => {
                let mut out = JsonObject { members: Vec::new() };
                let mut i: usize = 0;
                while i < object.members.len()
                    invariant
                        i <= object.members@.len(),
                        self matches Json::Object(o) && o == object,
                        out@ == members_view(object.members@, i as nat),
                    decreases object.members@.len() - i,
                {
                    let entry = &object.members[i];
                    assert(decreases_to!(self => object.members@[i as int].1));
                    let value = entry.1.clone();
                    out.put(entry.0.as_str(), value);
                    i = i + 1;
                }
                Json::Object(out)
            },
        }
    }
}

impl JsonObject {
    /// Copies the object.
    pub fn copy(&self) -> (r: JsonObject)
        ensures
            r@ == self@,
    {
        let mut out = JsonObject::new();
        let mut i: usize = 0;
        while i < self.members.len()
            invariant
                i <= self.members@.len(),
                out@ == members_view(self.members@, i as nat),
            decreases self.members@.len() - i,
        {
            let value = self.members[i].1.clone();
            out.put(self.members[i].0.as_str(), value);
            i = i + 1;
        }
        out
    }
}

// ---------------------------------------------------------------------------
// Members in order
// ---------------------------------------------------------------------------
/// Keys and views of a sequence of members.
pub open spec fn pairs_view(entries: Seq<(String, Json)>) -> Seq<(Seq<char>, JsonView)> {
    entries.map_values(|e: (String, Json)| (e.0@, e.1.view()))
}

/// Whether `l` holds the members of `m`, each once, in ascending order of their keys.
pub open spec fn is_listing(l: Seq<(Seq<char>, JsonView)>, m: Map<Seq<char>, JsonView>) -> bool {
    &&& forall|i: int, j: int|
        0 <= i < j < l.len() ==> text::precedes((#[trigger] l[i]).0, (#[trigger] l[j]).0)
    &&& forall|i: int|
        0 <= i < l.len() ==> m.contains_key((#[trigger] l[i]).0) && m[l[i].0] == l[i].1
    &&& forall|k: Seq<char>| #[trigger]
        m.contains_key(k) ==> exists|i: int| 0 <= i < l.len() && (#[trigger] l[i]).0 == k
}

/// The members of `m` in ascending order of their keys.
pub open spec fn listing(m: Map<Seq<char>, JsonView>) -> Seq<(Seq<char>, JsonView)> {
    choose|l: Seq<(Seq<char>, JsonView)>| is_listing(l, m)
}

proof fn lemma_listing_prefix(
    a: Seq<(Seq<char>, JsonView)>,
    b: Seq<(Seq<char>, JsonView)>,
    m: Map<Seq<char>, JsonView>,
    n: int,
)
    requires
        is_listing(a, m),
        is_listing(b, m),
        0 <= n <= a.len(),
    ensures
        n <= b.len(),
        forall|i: int| 0 <= i < n ==> a[i] == b[i],
    decreases n,
{
    if n > 0 {
        lemma_listing_prefix(a, b, m, n - 1);
        let i = n - 1;
        assert(m.contains_key(a[i].0));
        let j = choose|j: int| 0 <= j < b.len() && (#[trigger] b[j]).0 == a[i].0;
        if j < i {
            assert(b[j] == a[j]);
            assert(text::precedes(a[j].0, a[i].0));
            text::lemma_precedes_irreflexive(a[i].0);
        }
        if j > i {
            assert(m.contains_key(b[i].0));
            let k = choose|k: int| 0 <= k < a.len() && (#[trigger] a[k]).0 == b[i].0;
            assert(text::precedes(b[i].0, b[j].0));
            if k < i {
                assert(a[k] == b[k]);
                assert(text::precedes(b[k].0, b[i].0));
                text::lemma_precedes_irreflexive(b[i].0);
            } else if k == i {
                text::lemma_precedes_irreflexive(a[i].0);
            } else {
                assert(text::precedes(a[i].0, a[k].0));
                text::lemma_precedes_transitive(a[i].0, b[i].0, a[i].0);
                text::lemma_precedes_irreflexive(a[i].0);
            }
        }
        assert(j == i);
    }
}

/// There is one listing of a map.
pub proof fn lemma_listing_unique(l: Seq<(Seq<char>, JsonView)>, m: Map<Seq<char>, JsonView>)
    requires
        is_listing(l, m),
    ensures
        l == listing(m),
{
    let c = listing(m);
    assert(is_listing(c, m));
    lemma_listing_prefix(l, c, m, l.len() as int);
    lemma_listing_prefix(c, l, m, c.len() as int);
    assert(l =~= c);
}

impl JsonObject {
    /// The members in ascending order of their keys.
    pub fn entries(&self) -> (r: Vec<(String, Json)>)
        ensures
            pairs_view(r@) == listing(self@),
            is_listing(pairs_view(r@), self@),
    {
        let mut out: Vec<(String, Json)> = Vec::new();
        let mut n: usize = 0;
        while n < self.members.len()
            invariant
                n <= self.members@.len(),
                is_listing(pairs_view(out@), members_view(self.members@, n as nat)),
            decreases self.members@.len() - n,
        {
            let entry = &self.members[n];
            let value = entry.1.clone();
            insert_sorted(
                &mut out,
                entry.0.as_str(),
                value,
                Ghost(members_view(self.members@, n as nat)),
            );
            n = n + 1;
        }
        proof {
            lemma_listing_unique(pairs_view(out@), self@);
        }
        out
    }
}

fn insert_sorted(
    out: &mut Vec<(String, Json)>,
    key: &str,
    value: Json,
    Ghost(m): Ghost<Map<Seq<char>, JsonView>>,
)
    requires
        is_listing(pairs_view(old(out)@), m),
    ensures
        is_listing(pairs_view(final(out)@), m.insert(key@, value@)),
{
    let ghost l = pairs_view(out@);
    let mut i: usize = 0;
    while i < out.len() && text::is_before(out[i].0.as_str(), key)
        invariant
            i <= out@.len(),
            l == pairs_view(out@),
            forall|k: int| 0 <= k < i ==> text::precedes((#[trigger] l[k]).0, key@),
        decreases out@.len() - i,
    {
        assert(l[i as int].0 == out@[i as int].0@);
        i = i + 1;
    }
    proof {
        if i < out@.len() {
            assert(l[i as int].0 == out@[i as int].0@);
            text::lemma_precedes_total(l[i as int].0, key@);
        }
    }
    if i < out.len() && text::same(out[i].0.as_str(), key) {
        let ghost n = l.update(i as int, (key@, value@));
        out.set(i, (key.to_string(), value));
        proof {
            assert(pairs_view(out@) =~= n);
            assert forall|k: Seq<char>| #[trigger]
                m.insert(key@, value@).contains_key(k) implies exists|j: int|
                0 <= j < n.len() && (#[trigger] n[j]).0 == k by {
                if k == key@ {
                    assert(n[i as int].0 == k);
                } else {
                    let j = choose|j: int| 0 <= j < l.len() && (#[trigger] l[j]).0 == k;
                    assert(n[j].0 == k);
                }
            }
            assert forall|a: int| 0 <= a < n.len() implies m.insert(key@, value@).contains_key(
                (#[trigger] n[a]).0,
            ) && m.insert(key@, value@)[n[a].0] == n[a].1 by {
                if a != i {
                    assert(n[a] == l[a]);
                    if a < i {
                        assert(text::precedes(l[a].0, l[i as int].0));
                    } else {
                        assert(text::precedes(l[i as int].0, l[a].0));
                    }
                    text::lemma_precedes_irreflexive(key@);
                }
            }
            assert forall|a: int, b: int| 0 <= a < b < n.len() implies text::precedes(
                (#[trigger] n[a]).0,
                (#[trigger] n[b]).0,
            ) by {
                assert(text::precedes(l[a].0, l[b].0));
            }
        }
    } else {
        let ghost n = l.insert(i as int, (key@, value@));
        out.insert(i, (key.to_string(), value));
        proof {
            assert(pairs_view(out@) =~= n);
            assert(i < l.len() ==> text::precedes(key@, l[i as int].0));
            assert forall|k: int| i <= k < l.len() implies text::precedes(
                key@,
                (#[trigger] l[k]).0,
            ) by {
                if k > i {
                    assert(text::precedes(l[i as int].0, l[k].0));
                    text::lemma_precedes_transitive(key@, l[i as int].0, l[k].0);
                }
            }
            text::lemma_precedes_irreflexive(key@);
            assert forall|a: int| 0 <= a < n.len() implies m.insert(key@, value@).contains_key(
                (#[trigger] n[a]).0,
            ) && m.insert(key@, value@)[n[a].0] == n[a].1 by {
                if a < i {
                    assert(n[a] == l[a]);
                } else if a > i {
                    assert(n[a] == l[a - 1]);
                }
            }
            assert forall|k: Seq<char>| #[trigger]
                m.insert(key@, value@).contains_key(k) implies exists|j: int|
                0 <= j < n.len() && (#[trigger] n[j]).0 == k by {
                if k == key@ {
                    assert(n[i as int].0 == k);
                } else {
                    let j = choose|j: int| 0 <= j < l.len() && (#[trigger] l[j]).0 == k;
                    if j < i {
                        assert(n[j].0 == k);
                    } else {
                        assert(n[j + 1].0 == k);
                    }
                }
            }
            assert forall|a: int, b: int| 0 <= a < b < n.len() implies text::precedes(
                (#[trigger] n[a]).0,
                (#[trigger] n[b]).0,
            ) by {
                let la = if a < i {
                    a
                } else {
                    a - 1
                };
                let lb = if b < i {
                    b
                } else {
                    b - 1
                };
                if a != i {
                    assert(n[a] == l[la]);
                }
                if b != i {
                    assert(n[b] == l[lb]);
                }
                if a != i && b != i {
                    assert(text::precedes(l[la].0, l[lb].0));
                }
            }
        }
    }
}

// ---------------------------------------------------------------------------
// Text
// ---------------------------------------------------------------------------
/// What `serde_json` reads from a text: the value, or the message of the error.
pub uninterp spec fn json_read(text: Seq<char>) -> Result<JsonView, Seq<char>>;

/// What `serde_yaml` reads from a text: the value, or the message of the error.
pub uninterp spec fn yaml_read(text: Seq<char>) -> Result<JsonView, Seq<char>>;

/// The compact form in which `serde_json` writes a value.
pub uninterp spec fn json_written(value: JsonView) -> Seq<char>;

/// The indented form in which `serde_json` writes a value.
pub uninterp spec fn json_written_pretty(value: JsonView) -> Seq<char>;

/// An integer as floating point shows it in plain decimal form.
pub uninterp spec fn float_decimal(n: u64) -> Seq<char>;

/// The view of the outcome of reading a document.
pub open spec fn read_view(r: Result<Json, String>) -> Result<JsonView, Seq<char>> {
    match r {
        Ok(j) => Ok(j@),
        Err(e) => Err(e@),
    }
}

/// A document of `serde_json`.
#[verifier::external_type_specification]
#[verifier::external_body]
pub struct ExValue(serde_json::Value);

/// The number for what a document says of it: its integer where it has one, else its spellings.
pub fn number_of(
    unsigned: Option<u64>,
    signed: Option<i64>,
    text: String,
    display: String,
) -> (r: JsonNumber)
    ensures
        r@ == (match (unsigned, signed) {
            (Some(n), _) => NumberView::Unsigned(n),
            (None, Some(n)) => NumberView::Signed(n),
            (None, None) => NumberView::Float { text: text@, display: display@ },
        }),
{
    match (unsigned, signed) {
        (Some(n), _) => JsonNumber::Unsigned(n),
        (None, Some(n)) => JsonNumber::Signed(n),
        (None, None) => JsonNumber::Float { text, display },
    }
}

/// Takes over a `serde_json::Value`, variant by variant.
#[verifier::external_body]
fn from_value(value: serde_json::Value) -> Json {
    match value {
        serde_json::Value::Null => Json::Null,
        serde_json::Value::Bool(b) => Json::Bool(b),
        serde_json::Value::Number(n) => Json::Number(
            number_of(n.as_u64(), n.as_i64(), n.to_string(), format!("{}", n.as_f64().unwrap_or_default())),
        ),
        serde_json::Value::String(s) => Json::Str(s),
        serde_json::Value::Array(items) => Json::Array(items.into_iter().map(from_value).collect()),
        serde_json::Value::Object(members) => Json::Object(
            JsonObject { members: members.into_iter().map(|(k, v)| (k, from_value(v))).collect() },
        ),
    }
}

/// Makes a `serde_json::Value`, variant by variant; a number that is no integer by its text.
#[verifier::external_body]
fn to_value(json: &Json) -> serde_json::Value {
    match json {
        Json::Null => serde_json::Value::Null,
        Json::Bool(b) => serde_json::Value::Bool(*b),
        Json::Number(JsonNumber::Unsigned(n)) => serde_json::Value::from(*n),
        Json::Number(JsonNumber::Signed(n)) => serde_json::Value::from(*n),
        Json::Number(JsonNumber::Float { text, .. }) => serde_json::from_str(text).unwrap_or_default(),
        Json::Str(s) => serde_json::Value::String(s.clone()),
        Json::Array(items) => serde_json::Value::Array(items.iter().map(to_value).collect()),
        Json::Object(object) => serde_json::Value::Object(
            object.members.iter().map(|(k, v)| (k.clone(), to_value(v))).collect(),
        ),
    }
}

/// Reads a JSON text.
///
/// Calls `serde_json::from_str`: the value or the error message is a function of the text.
#[verifier::external_body]
pub(crate) fn read_json(text: &str) -> (r: Result<Json, String>)
    ensures
        read_view(r) == json_read(text@),
{
    serde_json::from_str(text).map(from_value).map_err(|e: serde_json::Error| e.to_string())
}

/// Reads a YAML text as a JSON value.
///
/// Calls `serde_yaml::from_str`: the value or the error message is a function of the text.
#[verifier::external_body]
pub(crate) fn read_yaml(text: &str) -> (r: Result<Json, String>)
    ensures
        read_view(r) == yaml_read(text@),
{
    serde_yaml::from_str(text).map(from_value).map_err(|e: serde_yaml::Error| e.to_string())
}

/// Whether every member is a text.
pub open spec fn all_texts(m: Map<Seq<char>, JsonView>) -> bool {
    forall|k: Seq<char>| #[trigger] m.contains_key(k) ==> m[k] is Str
}

/// Whether a value is an object whose members are texts.
pub open spec fn is_flat(v: JsonView) -> bool {
    match v {
        JsonView::Object(m) => all_texts(m),
        _ => false,
    }
}

/// Writes a value as compact JSON text.
///
/// Calls `serde_json::Value::to_string`: the text is a function of the value, since the crate keeps
/// the members of an object sorted by their keys. Where the value is an object of texts,
/// `serde_json::from_str` reads it back from the text. Nothing is said of reading back other
/// values: numbers may come back in another spelling, and deeply nested values are not read.
#[verifier::external_body]
pub(crate) fn write_json(value: &Json) -> (r: String)
    ensures
        r@ == json_written(value@),
        is_flat(value@) ==> json_read(r@) is Ok && json_read(r@)->Ok_0 == value@,
{
    to_value(value).to_string()
}

/// Writes a value as indented JSON text.
///
/// Calls `serde_json::to_string_pretty`, which does not fail on a `serde_json::Value`: the text is
/// a function of the value.
#[verifier::external_body]
pub(crate) fn write_json_pretty(value: &Json) -> (r: String)
    ensures
        r@ == json_written_pretty(value@),
{
    serde_json::to_string_pretty(&to_value(value)).unwrap_or_default()
}

/// Shows an integer as floating point does, in plain decimal form.
///
/// Calls `serde_json::Number::as_f64`, which is defined for every integer: the text is a function
/// of the number.
#[verifier::external_body]
pub(crate) fn show_as_float(n: u64) -> (r: String)
    ensures
        r@ == float_decimal(n),
{
    format!("{}", serde_json::Number::from(n).as_f64().unwrap_or_default())
}

/// A value as text: strings as they are, anything else as a document writes it.
pub open spec fn shown(v: JsonView) -> Seq<char> {
    match v {
        JsonView::Str(s) => s,
        JsonView::Number(NumberView::Unsigned(n)) => text::decimal(n as nat),
        JsonView::Number(NumberView::Signed(n)) => text::signed_decimal(n as int),
        JsonView::Number(NumberView::Float { text, display }) => text,
        JsonView::Bool(true) => "true"@,
        JsonView::Bool(false) => "false"@,
        JsonView::Null => "null"@,
        _ => json_written(v),
    }
}

/// A plain value as text: strings as they are, numbers in plain decimal form, booleans. `None`
/// for null, arrays and objects.
pub open spec fn plain_text(v: JsonView) -> Option<Seq<char>> {
    match v {
        JsonView::Str(s) => Some(s),
        JsonView::Number(NumberView::Unsigned(n)) => if n <= i64::MAX {
            Some(text::decimal(n as nat))
        } else {
            Some(float_decimal(n))
        },
        JsonView::Number(NumberView::Signed(n)) => Some(text::signed_decimal(n as int)),
        JsonView::Number(NumberView::Float { text, display }) => Some(display),
        JsonView::Bool(true) => Some("true"@),
        JsonView::Bool(false) => Some("false"@),
        _ => None,
    }
}

impl Json {
    /// The value as text.
    pub fn show(&self) -> (r: String)
        ensures
            r@ == shown(self@),
    {
        match self {
            Json::Str(s) => s.clone(),
            Json::Number(JsonNumber::Unsigned(n)) => text::decimal_of(*n as u128),
            Json::Number(JsonNumber::Signed(n)) => text::signed_decimal_of(*n),
            Json::Number(JsonNumber::Float { text, display }) => text.clone(),
            Json::Bool(b) => if *b {
                "true".to_string()
            } else {
                "false".to_string()
            },
            Json::Null => "null".to_string(),
            _ => self.to_text(),
        }
    }

    /// The value as text, where it is a plain one.
    pub fn to_plain_text(&self) -> (r: Option<String>)
        ensures
            text::opt(r) == plain_text(self@),
    {
        match self {
            Json::Str(s) => Some(s.clone()),
            Json::Number(JsonNumber::Unsigned(n)) => if *n <= i64::MAX as u64 {
                Some(text::decimal_of(*n as u128))
            } else {
                Some(show_as_float(*n))
            },
            Json::Number(JsonNumber::Signed(n)) => Some(text::signed_decimal_of(*n)),
            Json::Number(JsonNumber::Float { text, display }) => Some(display.clone()),
            Json::Bool(b) => if *b {
                Some("true".to_string())
            } else {
                Some("false".to_string())
            },
            _ => None,
        }
    }

    /// Reads a JSON text: the value, or the message of the error.
    pub fn parse(text: &str) -> (r: Result<Json, String>)
        ensures
            read_view(r) == json_read(text@),
    {
        read_json(text)
    }

    /// Reads a YAML text: the value, or the message of the error.
    pub fn parse_yaml(text: &str) -> (r: Result<Json, String>)
        ensures
            read_view(r) == yaml_read(text@),
    {
        read_yaml(text)
    }

    /// The value as compact JSON text.
    pub fn to_text(&self) -> (r: String)
        ensures
            r@ == json_written(self@),
            is_flat(self@) ==> json_read(r@) is Ok && json_read(r@)->Ok_0 == self@,
    {
        write_json(self)
    }

    /// The value as indented JSON text.
    pub fn to_text_pretty(&self) -> (r: String)
        ensures
            r@ == json_written_pretty(self@),
    {
        write_json_pretty(self)
    }
}

/// What is read off a value goes by its kind: a member is one of an object, a text is a string's, a
/// truth value is a boolean's.
pub proof fn lemma_values_are_read_by_kind(v: JsonView, key: Seq<char>)
    ensures
        v matches JsonView::Object(m) ==> member(v, key) == (if m.dom().contains(key) {
            Some(m[key])
        } else {
            None
        }),
        !(v is Object) ==> member(v, key) is None,
        v matches JsonView::Str(s) ==> str_of(v) == Some(s),
        !(v is Str) ==> str_of(v) is None,
        v matches JsonView::Bool(b) ==> bool_of(v) == Some(b),
        !(v is Bool) ==> bool_of(v) is None,
        !(v is Number) ==> u64_of(v) is None && i64_of(v) is None,
{
}

/// An integer is read as what it is, in every range that holds it, and in no other.
pub proof fn lemma_integers_are_read_exactly(n: u64, i: i64)
    ensures
        u64_of(JsonView::Number(NumberView::Unsigned(n))) == Some(n),
        i64_of(JsonView::Number(NumberView::Signed(i))) == Some(i),
        i64_of(JsonView::Number(NumberView::Unsigned(n))) is Some <==> n <= 0x7fff_ffff_ffff_ffff,
        i64_of(JsonView::Number(NumberView::Unsigned(n))) matches Some(k) ==> k == n,
        u64_of(JsonView::Number(NumberView::Signed(i))) is Some <==> i >= 0,
        u64_of(JsonView::Number(NumberView::Signed(i))) matches Some(k) ==> k == i,
{
}

/// A member that is asked for by its kind is the member under the key, where it is of that kind.
pub proof fn lemma_members_are_read_by_kind(v: JsonView, m: Map<Seq<char>, JsonView>, key: Seq<char>)
    requires
        v == JsonView::Object(m),
    ensures
        m.dom().contains(key) ==> {
            &&& str_member(v, key) == str_of(m[key])
            &&& u64_member(v, key) == u64_of(m[key])
            &&& i64_member(v, key) == i64_of(m[key])
            &&& bool_member(v, key) == bool_of(m[key])
            &&& m[key] matches JsonView::Array(items) ==> array_member(v, key) == Some(items)
            &&& m[key] matches JsonView::Object(o) ==> object_member(v, key) == Some(o)
            &&& !(m[key] is Array) ==> array_member(v, key) is None
            &&& !(m[key] is Object) ==> object_member(v, key) is None
        },
        !m.dom().contains(key) ==> {
            &&& str_member(v, key) is None
            &&& u64_member(v, key) is None
            &&& u32_member(v, key) is None
            &&& i64_member(v, key) is None
            &&& bool_member(v, key) is None
            &&& array_member(v, key) is None
            &&& object_member(v, key) is None
        },
        u32_member(v, key) is Some <==> (u64_member(v, key) matches Some(n) && n <= 0xffff_ffff),
        u32_member(v, key) matches Some(k) ==> u64_member(v, key) == Some(k as u64),
{
}

/// A member below two keys is the member, under the second, of the member under the first.
pub proof fn lemma_members_nest(
    outer: Map<Seq<char>, JsonView>,
    inner: Map<Seq<char>, JsonView>,
    first: Seq<char>,
    second: Seq<char>,
)
    requires
        outer.dom().contains(first),
        outer[first] == JsonView::Object(inner),
        inner.dom().contains(second),
    ensures
        member_in(JsonView::Object(outer), first, second) == Some(inner[second]),
{
}

/// Where a key was put more than once, the last value counts.
pub proof fn lemma_last_value_counts(members: Seq<(String, Json)>, i: int)
    requires
        0 <= i < members.len(),
        forall|j: int| i < j < members.len() ==> (#[trigger] members[j]).0@ != members[i].0@,
    ensures
        members_view(members, members.len()).dom().contains(members[i].0@),
        members_view(members, members.len())[members[i].0@] == members[i].1.view(),
{
    lemma_last_value_to(members, members.len(), i);
}

proof fn lemma_last_value_to(members: Seq<(String, Json)>, n: nat, i: int)
    requires
        0 <= i < n <= members.len(),
        forall|j: int| i < j < n ==> (#[trigger] members[j]).0@ != members[i].0@,
    ensures
        members_view(members, n).dom().contains(members[i].0@),
        members_view(members, n)[members[i].0@] == members[i].1.view(),
    decreases n,
{
    if i < n - 1 {
        lemma_last_value_to(members, (n - 1) as nat, i);
        assert(members[n - 1].0@ != members[i].0@);
    }
}

/// Only keys that were put are members.
pub proof fn lemma_members_were_put(members: Seq<(String, Json)>, key: Seq<char>)
    requires
        forall|j: int| 0 <= j < members.len() ==> (#[trigger] members[j]).0@ != key,
    ensures
        !members_view(members, members.len()).dom().contains(key),
{
    lemma_members_to_were_put(members, members.len(), key);
}

proof fn lemma_members_to_were_put(members: Seq<(String, Json)>, n: nat, key: Seq<char>)
    requires
        n <= members.len(),
        forall|j: int| 0 <= j < n ==> (#[trigger] members[j]).0@ != key,
    ensures
        !members_view(members, n).dom().contains(key),
    decreases n,
{
    if n > 0 {
        lemma_members_to_were_put(members, (n - 1) as nat, key);
        assert(members[n - 1].0@ != key);
    }
}

/// A value is shown as it is written: a string without quotes, a number in decimal digits, the
/// others by their names.
pub proof fn lemma_values_are_shown(s: Seq<char>, n: u64, i: i64)
    ensures
        shown(JsonView::Str(s)) == s,
        plain_text(JsonView::Str(s)) == Some(s),
        text::parsed_unsigned(shown(JsonView::Number(NumberView::Unsigned(n))), u64::MAX as nat)
            == Some(n as nat),
        i < 0 ==> shown(JsonView::Number(NumberView::Signed(i))) == seq!['-'] + text::decimal(
            (-i) as nat,
        ),
        n <= 0x7fff_ffff_ffff_ffff ==> plain_text(JsonView::Number(NumberView::Unsigned(n)))
            == Some(shown(JsonView::Number(NumberView::Unsigned(n)))),
        plain_text(JsonView::Number(NumberView::Signed(i))) == Some(
            shown(JsonView::Number(NumberView::Signed(i))),
        ),
        shown(JsonView::Bool(true)) == "true"@ && shown(JsonView::Bool(false)) == "false"@,
        plain_text(JsonView::Bool(true)) == Some("true"@),
        plain_text(JsonView::Bool(false)) == Some("false"@),
        shown(JsonView::Null) == "null"@,
        plain_text(JsonView::Null) is None,
        forall|v: JsonView| v is Array || v is Object ==> #[trigger] plain_text(v) is None,
{
    text::lemma_decimal_parses(n as nat, u64::MAX as nat);
}

/// A listing of an object holds every member, holds nothing else, and is in ascending order of the
/// keys.
pub proof fn lemma_listing_holds_every_member(
    l: Seq<(Seq<char>, JsonView)>,
    m: Map<Seq<char>, JsonView>,
    key: Seq<char>,
    i: int,
    j: int,
)
    requires
        is_listing(l, m),
    ensures
        l == listing(m),
        m.dom().contains(key) ==> l.contains((key, m[key])),
        0 <= i < l.len() ==> m.dom().contains(l[i].0) && m[l[i].0] == l[i].1,
        0 <= i < j < l.len() ==> text::precedes(l[i].0, l[j].0),
        0 <= i < j < l.len() ==> l[i].0 != l[j].0,
{
    lemma_listing_unique(l, m);
    if m.dom().contains(key) {
        assert(m.contains_key(key));
        let k = choose|k: int| 0 <= k < l.len() && (#[trigger] l[k]).0 == key;
        assert(l[k] == (key, m[key]));
    }
    if 0 <= i < l.len() {
        assert(m.contains_key(l[i].0));
    }
    if 0 <= i < j < l.len() {
        assert(text::precedes(l[i].0, l[j].0));
        text::lemma_precedes_irreflexive(l[i].0);
    }
}

/// The views of documents leave nothing out: what a list of them, an option or the outcome of a read
/// holds can be read off its view.
pub proof fn lemma_views_hold_the_documents(
    items: Seq<Json>,
    entries: Seq<(String, Json)>,
    j: Json,
    e: String,
    s: &str,
    i: int,
)
    ensures
        views_of(items).len() == items.len(),
        0 <= i < items.len() ==> views_of(items)[i] == items[i]@,
        pairs_view(entries).len() == entries.len(),
        0 <= i < entries.len() ==> pairs_view(entries)[i] == (entries[i].0@, entries[i].1@),
        read_view(Ok(j)) == Ok::<JsonView, Seq<char>>(j@),
        read_view(Err(e)) == Err::<JsonView, Seq<char>>(e@),
        opt_view(Some(s)) == Some(s@),
        opt_view(None) is None,
        Json::Null@ == JsonView::Null,
        forall|b: bool| #[trigger] Json::Bool(b)@ == JsonView::Bool(b),
        forall|n: JsonNumber| #[trigger] Json::Number(n)@ == JsonView::Number(n@),
        forall|t: String| #[trigger] Json::Str(t)@ == JsonView::Str(t@),
        forall|n: u64| #[trigger] JsonNumber::Unsigned(n)@ == NumberView::Unsigned(n),
        forall|n: i64| #[trigger] JsonNumber::Signed(n)@ == NumberView::Signed(n),
{
}

} // verus!
