//! Templates with `${VAR}` and `${VAR:default}` placeholders.
use vstd::prelude::*;
use crate::table::Table;
use crate::table;
use crate::text;

verus! {

/// Whether a placeholder starts at `i`: `${`, at least one character that is no closing brace,
/// and a closing brace somewhere after.
pub open spec fn placeholder_at(s: Seq<char>, i: int) -> bool {
    &&& text::occurs_at(s, "${"@, i)
    &&& text::found_from(s, "}"@, i + 2) matches Some(j) && j > i + 2
}

/// The first placeholder that starts at or after `i`: where it starts, and where its brace
/// closes.
pub open spec fn placeholder_from(s: Seq<char>, i: int) -> Option<(int, int)>
    decreases s.len() - i,
{
    if i < 0 || i >= s.len() {
        None
    } else if placeholder_at(s, i) {
        Some((i, text::found_from(s, "}"@, i + 2)->0))
    } else {
        placeholder_from(s, i + 1)
    }
}

/// The texts between the placeholders, from `i` on; there is one more of them.
pub open spec fn literals_from(s: Seq<char>, i: int) -> Seq<Seq<char>>
    decreases s.len() - i,
{
    match placeholder_from(s, i) {
        Some(p) => if i <= p.0 < p.1 < s.len() {
            seq![s.subrange(i, p.0)] + literals_from(s, p.1 + 1)
        } else {
            seq![s.skip(i)]
        },
        None => seq![s.skip(i)],
    }
}

/// What stands between the braces of the placeholders, from `i` on.
pub open spec fn exprs_from(s: Seq<char>, i: int) -> Seq<Seq<char>>
    decreases s.len() - i,
{
    match placeholder_from(s, i) {
        Some(p) => if i <= p.0 < p.1 < s.len() {
            seq![s.subrange(p.0 + 2, p.1)] + exprs_from(s, p.1 + 1)
        } else {
            seq![]
        },
        None => seq![],
    }
}

/// The texts between the placeholders of a template.
///
/// Calls `regex::Regex::split` with the pattern of a placeholder, which gives the texts between
/// the leftmost matches that do not overlap.
#[verifier::external_body]
pub(crate) fn split_literals(template: &str) -> (r: Vec<String>)
    ensures
        text::views(r@) == literals_from(template@, 0),
{
    match regex::Regex::new(r"\$\{([^}]+)\}") {
        Ok(re) => re.split(template).map(|t| t.to_string()).collect(),
        Err(_) => Vec::new(),
    }
}

/// What stands between the braces of the placeholders of a template.
///
/// Calls `regex::Regex::captures_iter` with the pattern of a placeholder, which gives the first
/// group of the leftmost matches that do not overlap.
#[verifier::external_body]
pub(crate) fn capture_exprs(template: &str) -> (r: Vec<String>)
    ensures
        text::views(r@) == exprs_from(template@, 0),
{
    match regex::Regex::new(r"\$\{([^}]+)\}") {
        Ok(re) => re.captures_iter(template).map(|c| c[1].to_string()).collect(),
        Err(_) => Vec::new(),
    }
}

/// What a placeholder stands for: its variable, else its default; `None` where it has neither.
pub open spec fn filled(expr: Seq<char>, vars: Map<Seq<char>, Seq<char>>) -> Option<Seq<char>> {
    match text::parted(expr, ":"@) {
        Some(p) => if vars.contains_key(p.0) {
            Some(vars[p.0])
        } else {
            Some(p.1)
        },
        None => if vars.contains_key(expr) {
            Some(vars[expr])
        } else {
            None
        },
    }
}

/// The placeholders, among the first `n`, that stand for nothing.
pub open spec fn missing_to(
    exprs: Seq<Seq<char>>,
    vars: Map<Seq<char>, Seq<char>>,
    n: int,
) -> Seq<Seq<char>>
    decreases n,
{
    if n <= 0 {
        seq![]
    } else if filled(exprs[n - 1], vars) is None {
        missing_to(exprs, vars, n - 1).push(exprs[n - 1])
    } else {
        missing_to(exprs, vars, n - 1)
    }
}

/// The placeholders of a template that stand for nothing.
pub open spec fn missing_vars(template: Seq<char>, vars: Map<Seq<char>, Seq<char>>) -> Seq<Seq<char>> {
    let exprs = exprs_from(template, 0);
    missing_to(exprs, vars, exprs.len() as int)
}

/// The first `n + 1` literals with what the first `n` placeholders stand for between them.
pub open spec fn woven_to(
    literals: Seq<Seq<char>>,
    exprs: Seq<Seq<char>>,
    vars: Map<Seq<char>, Seq<char>>,
    n: int,
) -> Seq<char>
    decreases n,
{
    if n <= 0 {
        literals[0]
    } else {
        woven_to(literals, exprs, vars, n - 1) + filled(exprs[n - 1], vars)->0 + literals[n]
    }
}

/// A template with its placeholders filled.
pub open spec fn rendered(template: Seq<char>, vars: Map<Seq<char>, Seq<char>>) -> Seq<char> {
    let exprs = exprs_from(template, 0);
    woven_to(literals_from(template, 0), exprs, vars, exprs.len() as int)
}

proof fn lemma_one_more_literal(s: Seq<char>, i: int)
    ensures
        literals_from(s, i).len() == exprs_from(s, i).len() + 1,
    decreases s.len() - i,
{
    if let Some(p) = placeholder_from(s, i) {
        if i <= p.0 < p.1 < s.len() {
            lemma_one_more_literal(s, p.1 + 1);
        }
    }
}

proof fn lemma_none_missing(
    exprs: Seq<Seq<char>>,
    vars: Map<Seq<char>, Seq<char>>,
    n: int,
    i: int,
)
    requires
        0 <= i < n <= exprs.len(),
        missing_to(exprs, vars, n).len() == 0,
    ensures
        filled(exprs[i], vars) is Some,
    decreases n,
{
    if i < n - 1 {
        lemma_none_missing(exprs, vars, n - 1, i);
    }
}

/// A template without placeholders is rendered as it is, whatever the variables.
pub proof fn lemma_plain_text_is_kept(template: Seq<char>, vars: Map<Seq<char>, Seq<char>>)
    requires
        placeholder_from(template, 0) is None,
    ensures
        missing_vars(template, vars).len() == 0,
        rendered(template, vars) == template,
{
    assert(template.skip(0) =~= template);
}

/// Placeholders that have a default never make a template fail.
pub proof fn lemma_defaults_never_miss(template: Seq<char>, vars: Map<Seq<char>, Seq<char>>)
    requires
        forall|i: int|
            0 <= i < exprs_from(template, 0).len() ==> text::has(
                #[trigger] exprs_from(template, 0)[i],
                ":"@,
            ),
    ensures
        missing_vars(template, vars).len() == 0,
{
    lemma_defaults_to(exprs_from(template, 0), vars, exprs_from(template, 0).len() as int);
}

proof fn lemma_defaults_to(exprs: Seq<Seq<char>>, vars: Map<Seq<char>, Seq<char>>, n: int)
    requires
        n <= exprs.len(),
        forall|i: int| 0 <= i < exprs.len() ==> text::has(#[trigger] exprs[i], ":"@),
    ensures
        missing_to(exprs, vars, n).len() == 0,
    decreases n,
{
    if n > 0 {
        lemma_defaults_to(exprs, vars, n - 1);
        assert(text::has(exprs[n - 1], ":"@));
    }
}

/// Variables that a template needs and that were not given, in the order of their placeholders.
#[derive(Debug)]
pub struct MissingVariables {
    pub names: Vec<String>,
}

impl MissingVariables {
    /// The error in words.
    pub fn message(&self) -> (r: String)
        ensures
            r@ == "Missing template variables: "@ + text::quoted_list(text::views(self.names@)),
    {
        let mut out = "Missing template variables: ".to_string();
        out.append(text::quote_list(&self.names).as_str());
        out
    }
}

fn fill(expr: &str, vars: &Table<String>) -> (r: Option<String>)
    ensures
        text::opt(r) == filled(expr@, table::texts(vars@)),
{
    match text::split_once(expr, ":") {
        Some(p) => match vars.get(p.0.as_str()) {
            Some(v) => Some(v.clone()),
            None => Some(p.1),
        },
        None => match vars.get(expr) {
            Some(v) => Some(v.clone()),
            None => None,
        },
    }
}

/// Fills the placeholders of a template that was taken apart.
pub fn weave(literals: &Vec<String>, exprs: &Vec<String>, vars: &Table<String>) -> (r: Result<
    String,
    MissingVariables,
>)
    requires
        literals@.len() == exprs@.len() + 1,
    ensures
        ({
            let lits = text::views(literals@);
            let names = text::views(exprs@);
            let n = names.len() as int;
            match r {
                Ok(t) => missing_to(names, table::texts(vars@), n).len() == 0 && t@ == woven_to(
                    lits,
                    names,
                    table::texts(vars@),
                    n,
                ),
                Err(e) => missing_to(names, table::texts(vars@), n).len() > 0 && text::views(e.names@)
                    == missing_to(names, table::texts(vars@), n),
            }
        }),
{
    let ghost lits = text::views(literals@);
    let ghost names = text::views(exprs@);
    let mut out = literals[0].clone();
    let mut missing: Vec<String> = Vec::new();
    let mut i: usize = 0;
    while i < exprs.len()
        invariant
            i <= exprs@.len(),
            literals@.len() == exprs@.len() + 1,
            lits == text::views(literals@),
            names == text::views(exprs@),
            text::views(missing@) =~= missing_to(names, table::texts(vars@), i as int),
            missing@.len() == 0 ==> out@ == woven_to(lits, names, table::texts(vars@), i as int),
        decreases exprs@.len() - i,
    {
        assert(names[i as int] == exprs@[i as int]@);
        assert(lits[i + 1] == literals@[i + 1]@);
        let ghost before = missing@;
        assert(text::views(missing@).len() == missing@.len());
        match fill(exprs[i].as_str(), vars) {
            Some(v) => {
                out.append(v.as_str());
                out.append(literals[i + 1].as_str());
            },
            None => {
                missing.push(exprs[i].clone());
                assert(text::views(missing@) =~= text::views(before).push(names[i as int]));
            },
        }
        i = i + 1;
    }
    assert(text::views(missing@).len() == missing@.len());
    assert(names.len() == exprs@.len());
    if missing.len() == 0 {
        Ok(out)
    } else {
        Err(MissingVariables { names: missing })
    }
}

/// Renders a template: each placeholder is exchanged for its variable, or for its default. Fails
/// where a placeholder has neither.
pub fn render_template(template: &str, vars: &Table<String>) -> (r: Result<
    String,
    MissingVariables,
>)
    ensures
        match r {
            Ok(t) => missing_vars(template@, table::texts(vars@)).len() == 0 && t@ == rendered(template@, table::texts(vars@)),
            Err(e) => missing_vars(template@, table::texts(vars@)).len() > 0 && text::views(e.names@)
                == missing_vars(template@, table::texts(vars@)),
        },
{
    let literals = split_literals(template);
    let exprs = capture_exprs(template);
    proof {
        lemma_one_more_literal(template@, 0);
        assert(text::views(literals@).len() == literals@.len());
        assert(text::views(exprs@).len() == exprs@.len());
    }
    weave(&literals, &exprs, vars)
}

// ---------------------------------------------------------------------------
// Rendering, placeholder by placeholder
// ---------------------------------------------------------------------------
proof fn lemma_placeholder_shifts(a: Seq<char>, b: Seq<char>, i: int)
    requires
        0 <= i,
    ensures
        placeholder_from(a + b, a.len() + i) == (match placeholder_from(b, i) {
            Some(p) => Some((a.len() + p.0, a.len() + p.1)),
            None => None,
        }),
    decreases b.len() - i,
{
    if i < b.len() {
        let s = a + b;
        reveal_strlit("}");
        reveal_strlit("${");
        text::lemma_found_shifts(a, b, "}"@, i + 2);
        if i + 2 <= b.len() {
            assert(s.subrange(a.len() + i, a.len() + i + 2) =~= b.subrange(i, i + 2));
        }
        lemma_placeholder_shifts(a, b, i + 1);
    }
}

proof fn lemma_placeholder_bounds(s: Seq<char>, i: int)
    ensures
        placeholder_from(s, i) matches Some(p) ==> i <= p.0 && p.0 + 2 < p.1 && p.1 < s.len(),
    decreases s.len() - i,
{
    if 0 <= i < s.len() {
        if placeholder_at(s, i) {
            reveal_strlit("}");
            text::lemma_found_from(s, "}"@, i + 2);
        } else {
            lemma_placeholder_bounds(s, i + 1);
        }
    }
}

proof fn lemma_parts_shift(a: Seq<char>, b: Seq<char>, i: int)
    requires
        0 <= i <= b.len(),
    ensures
        literals_from(a + b, a.len() + i) == literals_from(b, i),
        exprs_from(a + b, a.len() + i) == exprs_from(b, i),
    decreases b.len() - i,
{
    let s = a + b;
    lemma_placeholder_shifts(a, b, i);
    lemma_placeholder_bounds(b, i);
    match placeholder_from(b, i) {
        Some(p) => {
            if i <= p.0 < p.1 < b.len() {
                lemma_parts_shift(a, b, p.1 + 1);
                assert(s.subrange(a.len() + i, a.len() + p.0) =~= b.subrange(i, p.0));
                assert(s.subrange(a.len() + p.0 + 2, a.len() + p.1) =~= b.subrange(p.0 + 2, p.1));
            } else {
                assert(s.skip(a.len() + i) =~= b.skip(i));
            }
        },
        None => {
            assert(s.skip(a.len() + i) =~= b.skip(i));
        },
    }
}

proof fn lemma_first_placeholder(s: Seq<char>, i: int, n: int)
    requires
        0 <= i <= n < s.len(),
        forall|k: int| i <= k < n ==> #[trigger] s[k] != '$',
        placeholder_at(s, n),
    ensures
        placeholder_from(s, i) == Some((n, text::found_from(s, "}"@, n + 2)->0)),
    decreases n - i,
{
    if i < n {
        reveal_strlit("${");
        assert(!placeholder_at(s, i)) by {
            if text::occurs_at(s, "${"@, i) {
                assert(s.subrange(i, i + 2)[0] == "${"@[0]);
                assert(s[i] == '$');
            }
        }
        lemma_first_placeholder(s, i + 1, n);
    }
}

proof fn lemma_woven_after(
    first: Seq<char>,
    expr: Seq<char>,
    literals: Seq<Seq<char>>,
    exprs: Seq<Seq<char>>,
    vars: Map<Seq<char>, Seq<char>>,
    n: int,
)
    requires
        0 <= n <= exprs.len(),
        n < literals.len(),
    ensures
        woven_to(seq![first] + literals, seq![expr] + exprs, vars, n + 1) == first + filled(
            expr,
            vars,
        )->0 + woven_to(literals, exprs, vars, n),
        missing_to(seq![expr] + exprs, vars, n + 1) == (if filled(expr, vars) is None {
            seq![expr]
        } else {
            seq![]
        }) + missing_to(exprs, vars, n),
    decreases n,
{
    let ls = seq![first] + literals;
    let es = seq![expr] + exprs;
    let head: Seq<Seq<char>> = if filled(expr, vars) is None {
        seq![expr]
    } else {
        seq![]
    };
    if n == 0 {
        assert(ls[0] == first && ls[1] == literals[0] && es[0] == expr);
        assert(woven_to(ls, es, vars, 0) == first);
        assert(missing_to(es, vars, 0) =~= seq![]);
        assert(missing_to(es, vars, 1) =~= head + missing_to(exprs, vars, 0));
    } else {
        lemma_woven_after(first, expr, literals, exprs, vars, n - 1);
        assert(ls[n + 1] == literals[n] && es[n] == exprs[n - 1]);
        assert(woven_to(ls, es, vars, n + 1) =~= first + filled(expr, vars)->0 + woven_to(
            literals,
            exprs,
            vars,
            n,
        ));
        assert(missing_to(es, vars, n + 1) =~= head + missing_to(exprs, vars, n));
    }
}

proof fn lemma_placeholder_is_taken(
    before: Seq<char>,
    expr: Seq<char>,
    after: Seq<char>,
    vars: Map<Seq<char>, Seq<char>>,
)
    requires
        !before.contains('$'),
        expr.len() > 0,
        !expr.contains('}'),
    ensures
        rendered(before + "${"@ + expr + "}"@ + after, vars) == before + filled(expr, vars)->0
            + rendered(after, vars),
        missing_vars(before + "${"@ + expr + "}"@ + after, vars) == (if filled(expr, vars) is None {
            seq![expr]
        } else {
            seq![]
        }) + missing_vars(after, vars),
{
    reveal_strlit("}");
    reveal_strlit("${");
    let open = "${"@;
    let close = "}"@;
    assert(close =~= seq!['}']);
    let head = before + open + expr + close;
    let s = head + after;
    let n = before.len() as int;
    let e = n + 2 + expr.len();
    assert(s.subrange(n, n + 2) =~= open);
    text::lemma_found_from(s, close, n + 2);
    assert(s.subrange(e, e + 1) =~= close);
    assert(text::occurs_at(s, close, e));
    let j = text::found_from(s, close, n + 2)->0;
    if j < e {
        assert(s.subrange(j, j + 1)[0] == close[0]);
        assert(expr[j - n - 2] == s[j]);
        assert(expr.contains(expr[j - n - 2]));
    }
    assert(j == e);
    assert forall|k: int| 0 <= k < n implies #[trigger] s[k] != '$' by {
        assert(s[k] == before[k]);
        assert(before.contains(before[k]));
    }
    lemma_first_placeholder(s, 0, n);
    assert(s.subrange(0, n) =~= before);
    assert(s.subrange(n + 2, e) =~= expr);
    lemma_parts_shift(head, after, 0);
    assert(head.len() == e + 1);
    lemma_one_more_literal(after, 0);
    let ls = literals_from(after, 0);
    let es = exprs_from(after, 0);
    assert(literals_from(s, 0) == seq![before] + ls);
    assert(exprs_from(s, 0) == seq![expr] + es);
    lemma_woven_after(before, expr, ls, es, vars, es.len() as int);
}

/// A placeholder is exchanged for the value of its variable, whether or not it has a default. What
/// stands before it stays, and what follows is rendered in the same way.
pub proof fn lemma_variables_are_put_in(
    before: Seq<char>,
    name: Seq<char>,
    default: Seq<char>,
    after: Seq<char>,
    vars: Map<Seq<char>, Seq<char>>,
)
    requires
        !before.contains('$'),
        name.len() > 0,
        !name.contains('}'),
        !name.contains(':'),
        !default.contains('}'),
        vars.dom().contains(name),
    ensures
        rendered(before + "${"@ + name + "}"@ + after, vars) == before + vars[name] + rendered(
            after,
            vars,
        ),
        rendered(before + "${"@ + (name + seq![':'] + default) + "}"@ + after, vars) == before
            + vars[name] + rendered(after, vars),
        missing_vars(before + "${"@ + name + "}"@ + after, vars) == missing_vars(after, vars),
        missing_vars(before + "${"@ + (name + seq![':'] + default) + "}"@ + after, vars)
            == missing_vars(after, vars),
{
    lemma_name_and_default(name, default);
    lemma_placeholder_is_taken(before, name, after, vars);
    lemma_placeholder_is_taken(before, name + seq![':'] + default, after, vars);
    assert(Seq::<Seq<char>>::empty() + missing_vars(after, vars) =~= missing_vars(after, vars));
}

/// Where a variable is not given, its placeholder is exchanged for the default; without a default
/// the placeholder is reported as missing, before those that follow.
pub proof fn lemma_defaults_stand_in(
    before: Seq<char>,
    name: Seq<char>,
    default: Seq<char>,
    after: Seq<char>,
    vars: Map<Seq<char>, Seq<char>>,
)
    requires
        !before.contains('$'),
        name.len() > 0,
        !name.contains('}'),
        !name.contains(':'),
        !default.contains('}'),
        !vars.dom().contains(name),
    ensures
        rendered(before + "${"@ + (name + seq![':'] + default) + "}"@ + after, vars) == before
            + default + rendered(after, vars),
        missing_vars(before + "${"@ + (name + seq![':'] + default) + "}"@ + after, vars)
            == missing_vars(after, vars),
        missing_vars(before + "${"@ + name + "}"@ + after, vars) == seq![name] + missing_vars(
            after,
            vars,
        ),
{
    lemma_name_and_default(name, default);
    lemma_placeholder_is_taken(before, name, after, vars);
    lemma_placeholder_is_taken(before, name + seq![':'] + default, after, vars);
    assert(Seq::<Seq<char>>::empty() + missing_vars(after, vars) =~= missing_vars(after, vars));
}

proof fn lemma_name_and_default(name: Seq<char>, default: Seq<char>)
    requires
        name.len() > 0,
        !name.contains('}'),
        !name.contains(':'),
        !default.contains('}'),
    ensures
        text::parted(name + seq![':'] + default, ":"@) == Some((name, default)),
        text::parted(name, ":"@) is None,
        !(name + seq![':'] + default).contains('}'),
{
    reveal_strlit(":");
    assert(":"@ =~= seq![':']);
    text::lemma_parted_at(name, ':', default);
    let e = name + seq![':'] + default;
    assert forall|k: int| 0 <= k < e.len() implies e[k] != '}' by {
        if k < name.len() {
            assert(e[k] == name[k] && name.contains(name[k]));
        } else if k > name.len() {
            assert(e[k] == default[k - name.len() - 1] && default.contains(
                default[k - name.len() - 1],
            ));
        }
    }
}

} // verus!
