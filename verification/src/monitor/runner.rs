//! What the output of a monitor's script says.
use vstd::prelude::*;
use crate::json::{Json, JsonNumber, JsonObject, JsonView, NumberView};
use crate::json;
use crate::text;

verus! {

/// The outcome of a monitor's run.
pub struct MonitorResult {
    pub resource_namespace: String,
    pub resource_name: String,
    pub monitor_name: String,
    pub output: Json,
    pub triggered: bool,
    pub previous_output: Option<Json>,
}

/// An integer as a number of a document.
pub open spec fn number_of_i32(n: i32) -> NumberView {
    if n >= 0 {
        NumberView::Unsigned(n as u64)
    } else {
        NumberView::Signed(n as i64)
    }
}

/// The members that the first `n` lines set: each line with an equals sign sets one.
pub open spec fn pairs_to(lines: Seq<Seq<char>>, n: int) -> Map<Seq<char>, JsonView>
    decreases n,
{
    if n <= 0 {
        Map::empty()
    } else {
        match text::parted(lines[n - 1], "="@) {
            Some(p) => pairs_to(lines, n - 1).insert(
                text::trimmed(p.0),
                JsonView::Str(text::trimmed(p.1)),
            ),
            None => pairs_to(lines, n - 1),
        }
    }
}

/// What is said of an output that is no document.
pub open spec fn raw_output(stdout: Seq<char>, exit_code: i32) -> JsonView {
    JsonView::Object(
        map![
            "raw"@ => JsonView::Str(stdout),
            "exit_code"@ => JsonView::Number(number_of_i32(exit_code)),
        ],
    )
}

/// What a document says, or the raw output where there is none.
pub open spec fn read_or_raw(
    read: Result<JsonView, Seq<char>>,
    stdout: Seq<char>,
    exit_code: i32,
) -> JsonView {
    match read {
        Ok(j) => j,
        Err(_) => raw_output(stdout, exit_code),
    }
}

/// What the output of a monitor's script says.
pub open spec fn monitor_output(
    parse_type: Seq<char>,
    stdout: Seq<char>,
    exit_code: i32,
) -> JsonView {
    if parse_type == "key-value"@ {
        let lines = text::text_lines(stdout);
        JsonView::Object(pairs_to(lines, lines.len() as int))
    } else if parse_type == "json"@ {
        read_or_raw(json::json_read(stdout), stdout, exit_code)
    } else {
        JsonView::Object(map!["exit_code"@ => JsonView::Number(number_of_i32(exit_code))])
    }
}

/// An integer as a number of a document.
pub fn exit_number(n: i32) -> (r: Json)
    ensures
        r@ == JsonView::Number(number_of_i32(n)),
{
    if n >= 0 {
        Json::Number(JsonNumber::Unsigned(n as u64))
    } else {
        Json::Number(JsonNumber::Signed(n as i64))
    }
}

/// What a read of the output gave, or the raw output where it failed.
pub fn output_or_raw(read: Result<Json, String>, stdout: &str, exit_code: i32) -> (r: Json)
    ensures
        r@ == read_or_raw(json::read_view(read), stdout@, exit_code),
{
    match read {
        Ok(j) => j,
        Err(_) => {
            let mut o = JsonObject::new();
            o.put("raw", Json::string(stdout));
            o.put("exit_code", exit_number(exit_code));
            Json::object(o)
        },
    }
}

/// Reads the output of a monitor's script: as `key=value` lines, as a JSON document, or by its
/// exit code alone.
pub fn parse_monitor_output(parse_type: &str, stdout: &str, exit_code: i32) -> (r: Json)
    ensures
        r@ == monitor_output(parse_type@, stdout@, exit_code),
{
    if text::same(parse_type, "key-value") {
        let lines = text::lines(stdout);
        let ghost views = text::text_lines(stdout@);
        let mut o = JsonObject::new();
        let mut i: usize = 0;
        while i < lines.len()
            invariant
                i <= lines@.len(),
                text::views(lines@) == views,
                o@ == pairs_to(views, i as int),
            decreases lines@.len() - i,
        {
            assert(views[i as int] == lines@[i as int]@);
            if let Some(p) = text::split_once(lines[i].as_str(), "=") {
                o.put(
                    text::trim(p.0.as_str()).as_str(),
                    Json::Str(text::trim(p.1.as_str())),
                );
            }
            i = i + 1;
        }
        assert(views.len() == lines@.len());
        Json::object(o)
    } else if text::same(parse_type, "json") {
        output_or_raw(Json::parse(stdout), stdout, exit_code)
    } else {
        let mut o = JsonObject::new();
        o.put("exit_code", exit_number(exit_code));
        Json::object(o)
    }
}

/// Every line of the form `key=value` sets its key to its value, both without the white space
/// around them, unless a later line sets the key again.
pub proof fn lemma_lines_set_their_keys(
    stdout: Seq<char>,
    exit_code: i32,
    key: Seq<char>,
    value: Seq<char>,
    i: int,
)
    requires
        0 <= i < text::text_lines(stdout).len(),
        !key.contains('='),
        text::text_lines(stdout)[i] == key + seq!['='] + value,
        forall|j: int|
            i < j < text::text_lines(stdout).len() ==> !(text::parted(
                #[trigger] text::text_lines(stdout)[j],
                "="@,
            ) matches Some(p) && text::trimmed(p.0) == text::trimmed(key)),
    ensures
        json::str_member(monitor_output("key-value"@, stdout, exit_code), text::trimmed(key))
            == Some(text::trimmed(value)),
{
    let lines = text::text_lines(stdout);
    lemma_pairs_hold(lines, lines.len() as int, key, value, i);
}

proof fn lemma_pairs_hold(
    lines: Seq<Seq<char>>,
    n: int,
    key: Seq<char>,
    value: Seq<char>,
    i: int,
)
    requires
        0 <= i < n <= lines.len(),
        !key.contains('='),
        lines[i] == key + seq!['='] + value,
        forall|j: int|
            i < j < n ==> !(text::parted(#[trigger] lines[j], "="@) matches Some(p)
                && text::trimmed(p.0) == text::trimmed(key)),
    ensures
        pairs_to(lines, n).dom().contains(text::trimmed(key)),
        pairs_to(lines, n)[text::trimmed(key)] == JsonView::Str(text::trimmed(value)),
    decreases n,
{
    reveal_strlit("=");
    assert("="@ =~= seq!['=']);
    text::lemma_parted_at(key, '=', value);
    if i < n - 1 {
        lemma_pairs_hold(lines, n - 1, key, value, i);
        assert(!(text::parted(lines[n - 1], "="@) matches Some(p) && text::trimmed(p.0)
            == text::trimmed(key)));
    }
}

/// A key that no line sets is not there, and every value that is there is a text.
pub proof fn lemma_only_lines_set_keys(stdout: Seq<char>, exit_code: i32, key: Seq<char>)
    requires
        forall|j: int|
            0 <= j < text::text_lines(stdout).len() ==> !(text::parted(
                #[trigger] text::text_lines(stdout)[j],
                "="@,
            ) matches Some(p) && text::trimmed(p.0) == key),
    ensures
        monitor_output("key-value"@, stdout, exit_code) is Object,
        json::member(monitor_output("key-value"@, stdout, exit_code), key) is None,
{
    let lines = text::text_lines(stdout);
    lemma_pairs_lack(lines, lines.len() as int, key);
}

proof fn lemma_pairs_lack(lines: Seq<Seq<char>>, n: int, key: Seq<char>)
    requires
        n <= lines.len(),
        forall|j: int|
            0 <= j < n ==> !(text::parted(#[trigger] lines[j], "="@) matches Some(p)
                && text::trimmed(p.0) == key),
    ensures
        !pairs_to(lines, n).dom().contains(key),
    decreases n,
{
    if n > 0 {
        lemma_pairs_lack(lines, n - 1, key);
        assert(!(text::parted(lines[n - 1], "="@) matches Some(p) && text::trimmed(p.0) == key));
    }
}

/// An output that is a document is that document; one that was to be and is not is given as it is,
/// with the exit code. Where no form is named, only the exit code counts.
pub proof fn lemma_output_is_read_as_declared(
    parse_type: Seq<char>,
    stdout: Seq<char>,
    exit_code: i32,
)
    ensures
        json::json_read(stdout) matches Ok(j) ==> monitor_output("json"@, stdout, exit_code) == j,
        json::json_read(stdout) is Err ==> json::str_member(
            monitor_output("json"@, stdout, exit_code),
            "raw"@,
        ) == Some(stdout) && json::i64_member(
            monitor_output("json"@, stdout, exit_code),
            "exit_code"@,
        ) == Some(exit_code as i64),
        parse_type != "json"@ && parse_type != "key-value"@ ==> json::i64_member(
            monitor_output(parse_type, stdout, exit_code),
            "exit_code"@,
        ) == Some(exit_code as i64),
{
    reveal_strlit("json");
    reveal_strlit("key-value");
    reveal_strlit("raw");
    reveal_strlit("exit_code");
    assert("json"@.len() == 4 && "key-value"@.len() == 9);
    assert("raw"@.len() == 3 && "exit_code"@.len() == 9);
}

} // verus!
