//! Trigger expressions: comparisons of a monitor's output, joined by `AND` and `OR`.
//!
//! `OR` binds weaker than `AND`; there are no parentheses. Inside of a quoted string, in single or
//! double quotes, neither joins anything. A comparison of two numbers is made in
//! floating point, outside this module: [`numeric_pairs`] lists the pairs of texts that an
//! evaluation may compare, and [`evaluate_trigger`] takes what holds of those that are numbers.
use vstd::prelude::*;
use crate::json::{Json, JsonView};
use crate::json;
use crate::text;

verus! {

/// A comparison operator.
#[derive(Debug, Clone, Copy, PartialEq, Eq, Structural)]
pub enum Operator {
    AtMost,
    AtLeast,
    NotEqual,
    Equal,
    Less,
    Greater,
}

/// The sign of an operator.
pub open spec fn sign(op: Operator) -> Seq<char> {
    match op {
        Operator::AtMost => "<="@,
        Operator::AtLeast => ">="@,
        Operator::NotEqual => "!="@,
        Operator::Equal => "=="@,
        Operator::Less => "<"@,
        Operator::Greater => ">"@,
    }
}

impl Operator {
    /// The sign of the operator.
    pub fn sign(&self) -> (r: &'static str)
        ensures
            r@ == sign(*self),
    {
        match self {
            Operator::AtMost => "<=",
            Operator::AtLeast => ">=",
            Operator::NotEqual => "!=",
            Operator::Equal => "==",
            Operator::Less => "<",
            Operator::Greater => ">",
        }
    }
}

/// The operator of a comparison: the first of the list that occurs in it.
pub open spec fn operator_in(expr: Seq<char>) -> Option<Operator> {
    if text::has(expr, "<="@) {
        Some(Operator::AtMost)
    } else if text::has(expr, ">="@) {
        Some(Operator::AtLeast)
    } else if text::has(expr, "!="@) {
        Some(Operator::NotEqual)
    } else if text::has(expr, "=="@) {
        Some(Operator::Equal)
    } else if text::has(expr, "<"@) {
        Some(Operator::Less)
    } else if text::has(expr, ">"@) {
        Some(Operator::Greater)
    } else {
        None
    }
}

/// A comparison taken apart: left side, operator, right side.
pub open spec fn comparison(expr: Seq<char>) -> Option<(Seq<char>, Operator, Seq<char>)> {
    match operator_in(expr) {
        Some(op) => {
            let sides = text::parted(expr, sign(op))->0;
            Some((text::trimmed(sides.0), op, text::trimmed(sides.1)))
        },
        None => None,
    }
}

struct Comparison {
    left: String,
    op: Operator,
    right: String,
}

fn find_operator(expr: &str) -> (r: Option<Operator>)
    ensures
        r == operator_in(expr@),
{
    if text::contains(expr, "<=") {
        Some(Operator::AtMost)
    } else if text::contains(expr, ">=") {
        Some(Operator::AtLeast)
    } else if text::contains(expr, "!=") {
        Some(Operator::NotEqual)
    } else if text::contains(expr, "==") {
        Some(Operator::Equal)
    } else if text::contains(expr, "<") {
        Some(Operator::Less)
    } else if text::contains(expr, ">") {
        Some(Operator::Greater)
    } else {
        None
    }
}

fn parse_comparison(expr: &str) -> (r: Option<Comparison>)
    ensures
        match r {
            Some(c) => comparison(expr@) == Some((c.left@, c.op, c.right@)),
            None => comparison(expr@) is None,
        },
{
    match find_operator(expr) {
        Some(op) => match text::split_once(expr, op.sign()) {
            Some(sides) => Some(
                Comparison {
                    left: text::trim(sides.0.as_str()),
                    op,
                    right: text::trim(sides.1.as_str()),
                },
            ),
            None => {
                assert(false);
                None
            },
        },
        None => None,
    }
}

// ---------------------------------------------------------------------------
// Joints
// ---------------------------------------------------------------------------
/// Whether a character opens and closes quoted strings.
pub open spec fn is_quote(c: char) -> bool {
    c == '"' || c == '\''
}

/// Whether `c` stands at index `i` or after.
pub open spec fn comes_after(s: Seq<char>, c: char, i: int) -> bool {
    exists|k: int| i <= k < s.len() && #[trigger] s[k] == c
}

/// The quote that is open at index `i` of a text. A quote is closed by the next of its kind; one
/// that no other follows opens nothing.
pub open spec fn quote_at(s: Seq<char>, i: int) -> Option<char>
    decreases i,
{
    if i <= 0 {
        None
    } else {
        match quote_at(s, i - 1) {
            Some(q) => if s[i - 1] == q {
                None
            } else {
                Some(q)
            },
            None => if is_quote(s[i - 1]) && comes_after(s, s[i - 1], i) {
                Some(s[i - 1])
            } else {
                None
            },
        }
    }
}

/// Where `sep` first stands from index `i` on, outside of quoted strings.
pub open spec fn joint_from(s: Seq<char>, sep: Seq<char>, i: int) -> Option<int>
    decreases s.len() + 1 - i,
{
    if i < 0 || i + sep.len() > s.len() {
        None
    } else if text::occurs_at(s, sep, i) && quote_at(s, i) is None {
        Some(i)
    } else {
        joint_from(s, sep, i + 1)
    }
}

/// The parts of an expression, from index `from` on, between the joints.
pub open spec fn logic_parts_from(s: Seq<char>, sep: Seq<char>, from: int) -> Seq<Seq<char>>
    decreases s.len() - from,
{
    match joint_from(s, sep, from) {
        Some(i) => if from <= i && sep.len() > 0 && i + sep.len() <= s.len() {
            seq![s.subrange(from, i)] + logic_parts_from(s, sep, i + sep.len())
        } else {
            seq![s.skip(from)]
        },
        None => seq![s.skip(from)],
    }
}

/// The parts of an expression between the joints: where `sep` stands outside of quoted strings.
pub open spec fn logic_parts(s: Seq<char>, sep: Seq<char>) -> Seq<Seq<char>> {
    logic_parts_from(s, sep, 0)
}

/// Whether a text holds no quote.
pub open spec fn unquoted(s: Seq<char>) -> bool {
    forall|k: int| 0 <= k < s.len() ==> !is_quote(#[trigger] s[k])
}

proof fn lemma_outside_after(s: Seq<char>, sep: Seq<char>, i: int, n: int)
    requires
        0 <= i,
        0 <= n <= sep.len(),
        text::occurs_at(s, sep, i),
        unquoted(sep),
        quote_at(s, i) is None,
    ensures
        quote_at(s, i + n) is None,
    decreases n,
{
    if n > 0 {
        lemma_outside_after(s, sep, i, n - 1);
        assert(s.subrange(i, i + sep.len())[n - 1] == sep[n - 1]);
    }
}

/// A joint is hidden only inside of a quoted string, which its quote closes: the quote that is open
/// there comes again.
pub proof fn lemma_hidden_is_enclosed(s: Seq<char>, i: int)
    requires
        0 <= i <= s.len(),
    ensures
        quote_at(s, i) matches Some(q) ==> is_quote(q) && comes_after(s, q, i) && exists|k: int|
            0 <= k < i && #[trigger] s[k] == q,
    decreases i,
{
    if i > 0 {
        lemma_hidden_is_enclosed(s, i - 1);
        if let Some(q) = quote_at(s, i) {
            match quote_at(s, i - 1) {
                Some(p) => {
                    assert(p == q && s[i - 1] != q);
                    let k = choose|k: int| i - 1 <= k < s.len() && #[trigger] s[k] == q;
                    assert(i <= k < s.len() && s[k] == q);
                },
                None => {
                    assert(s[i - 1] == q);
                },
            }
        }
    }
}

/// Outside of quoted strings an expression is split wherever the joint stands: where it holds no
/// quote, its parts are all its pieces.
pub proof fn lemma_parts_without_quotes(s: Seq<char>, sep: Seq<char>)
    requires
        unquoted(s),
    ensures
        logic_parts(s, sep) == text::pieces(s, sep),
{
    lemma_parts_are_pieces(s, sep, 0);
}

proof fn lemma_unquoted_is_outside(s: Seq<char>, i: int)
    requires
        unquoted(s),
        i <= s.len(),
    ensures
        quote_at(s, i) is None,
    decreases i,
{
    if i > 0 {
        lemma_unquoted_is_outside(s, i - 1);
    }
}

proof fn lemma_joint_is_found(s: Seq<char>, sep: Seq<char>, i: int)
    requires
        unquoted(s),
    ensures
        joint_from(s, sep, i) == text::found_from(s, sep, i),
    decreases s.len() + 1 - i,
{
    if 0 <= i && i + sep.len() <= s.len() {
        lemma_unquoted_is_outside(s, i);
        lemma_joint_is_found(s, sep, i + 1);
    }
}

proof fn lemma_parts_are_pieces(s: Seq<char>, sep: Seq<char>, from: int)
    requires
        unquoted(s),
    ensures
        logic_parts_from(s, sep, from) == text::pieces_from(s, sep, from),
    decreases s.len() - from,
{
    lemma_joint_is_found(s, sep, from);
    match joint_from(s, sep, from) {
        Some(i) => {
            if from <= i && sep.len() > 0 && i + sep.len() <= s.len() {
                lemma_parts_are_pieces(s, sep, i + sep.len());
            }
        },
        None => {},
    }
}

fn does_come_after(cs: &Vec<char>, c: char, from: usize) -> (r: bool)
    ensures
        r == comes_after(cs@, c, from as int),
{
    let mut i: usize = from;
    while i < cs.len()
        invariant
            from <= i,
            forall|k: int| from <= k < i && k < cs@.len() ==> #[trigger] cs@[k] != c,
        decreases cs@.len() - i,
    {
        if cs[i] == c {
            return true;
        }
        i = i + 1;
    }
    false
}

/// Splits an expression at its joints. A quoted string is kept whole.
fn split_logic(expr: &str, sep: &str) -> (r: Vec<String>)
    requires
        sep@.len() > 0,
        unquoted(sep@),
    ensures
        text::views(r@) == logic_parts(expr@, sep@),
        r@.len() >= 1,
{
    let cs = text::chars_of(expr);
    let ps = text::chars_of(sep);
    let n: usize = cs.len();
    let mut out: Vec<String> = Vec::new();
    let mut start: usize = 0;
    let mut i: usize = 0;
    let mut quote: Option<char> = None;
    assert(text::views(out@) + logic_parts_from(expr@, sep@, 0) =~= logic_parts(expr@, sep@));
    while i < n && ps.len() <= n - i
        invariant
            cs@ == expr@,
            ps@ == sep@,
            sep@.len() > 0,
            unquoted(sep@),
            n == cs@.len(),
            start <= i <= n,
            quote == quote_at(expr@, i as int),
            joint_from(expr@, sep@, start as int) == joint_from(expr@, sep@, i as int),
            text::views(out@) + logic_parts_from(expr@, sep@, start as int) == logic_parts(
                expr@,
                sep@,
            ),
        decreases n - i,
    {
        if quote.is_none() && text::at(&cs, &ps, i) {
            let part = text::slice_of(&cs, start, i);
            let ghost before = out@;
            out.push(part);
            proof {
                assert(text::views(out@) =~= text::views(before).push(part@));
                assert(text::views(out@) + logic_parts_from(expr@, sep@, i + sep@.len())
                    =~= text::views(before) + (seq![expr@.subrange(start as int, i as int)]
                    + logic_parts_from(expr@, sep@, i + sep@.len())));
                lemma_outside_after(expr@, sep@, i as int, sep@.len() as int);
            }
            start = i + ps.len();
            i = start;
        } else {
            let c = cs[i];
            match quote {
                Some(q) => {
                    if c == q {
                        quote = None;
                    }
                },
                None => {
                    if (c == '"' || c == '\'') && does_come_after(&cs, c, i + 1) {
                        quote = Some(c);
                    }
                },
            }
            i = i + 1;
        }
    }
    let part = text::slice_of(&cs, start, n);
    assert(part@ =~= expr@.skip(start as int));
    let ghost before = out@;
    out.push(part);
    assert(text::views(out@) =~= text::views(before) + seq![expr@.skip(start as int)]);
    out
}

// ---------------------------------------------------------------------------
// Validation
// ---------------------------------------------------------------------------
/// What is wrong with a trigger expression; each holds the comparison at fault.
#[derive(Debug)]
pub enum TriggerError {
    NoOperator(String),
    EmptyLeft(String),
    EmptyRight(String),
}

/// The view of a [`TriggerError`].
pub enum TriggerFault {
    NoOperator(Seq<char>),
    EmptyLeft(Seq<char>),
    EmptyRight(Seq<char>),
}

impl View for TriggerError {
    type V = TriggerFault;

    open spec fn view(&self) -> TriggerFault {
        match self {
            TriggerError::NoOperator(e) => TriggerFault::NoOperator(e@),
            TriggerError::EmptyLeft(e) => TriggerFault::EmptyLeft(e@),
            TriggerError::EmptyRight(e) => TriggerFault::EmptyRight(e@),
        }
    }
}

/// What is said of a fault.
pub open spec fn fault_message(fault: TriggerFault) -> Seq<char> {
    match fault {
        TriggerFault::NoOperator(e) => "No comparison operator found in: "@ + text::quoted(e),
        TriggerFault::EmptyLeft(e) => "Empty left-hand side in: "@ + text::quoted(e),
        TriggerFault::EmptyRight(e) => "Empty right-hand side in: "@ + text::quoted(e),
    }
}

impl TriggerError {
    /// The error in words.
    pub fn message(&self) -> (r: String)
        ensures
            r@ == fault_message(self@),
    {
        match self {
            TriggerError::NoOperator(e) => {
                let mut out = "No comparison operator found in: ".to_string();
                out.append(text::quote(e.as_str()).as_str());
                out
            },
            TriggerError::EmptyLeft(e) => {
                let mut out = "Empty left-hand side in: ".to_string();
                out.append(text::quote(e.as_str()).as_str());
                out
            },
            TriggerError::EmptyRight(e) => {
                let mut out = "Empty right-hand side in: ".to_string();
                out.append(text::quote(e.as_str()).as_str());
                out
            },
        }
    }
}

/// What is wrong with a comparison.
pub open spec fn comparison_fault(expr: Seq<char>) -> Option<TriggerFault> {
    match comparison(expr) {
        None => Some(TriggerFault::NoOperator(expr)),
        Some(c) => if c.0.len() == 0 {
            Some(TriggerFault::EmptyLeft(expr))
        } else if c.2.len() == 0 {
            Some(TriggerFault::EmptyRight(expr))
        } else {
            None
        },
    }
}

/// The first fault of the comparisons from index `i` on.
pub open spec fn and_fault_from(parts: Seq<Seq<char>>, i: int) -> Option<TriggerFault>
    decreases parts.len() - i,
{
    if i < 0 || i >= parts.len() {
        None
    } else {
        match comparison_fault(text::trimmed(parts[i])) {
            Some(f) => Some(f),
            None => and_fault_from(parts, i + 1),
        }
    }
}

/// The first fault of a conjunction.
pub open spec fn and_fault(expr: Seq<char>) -> Option<TriggerFault> {
    and_fault_from(logic_parts(expr, " AND "@), 0)
}

/// The first fault of the conjunctions from index `i` on.
pub open spec fn or_fault_from(parts: Seq<Seq<char>>, i: int) -> Option<TriggerFault>
    decreases parts.len() - i,
{
    if i < 0 || i >= parts.len() {
        None
    } else {
        match and_fault(text::trimmed(parts[i])) {
            Some(f) => Some(f),
            None => or_fault_from(parts, i + 1),
        }
    }
}

/// The first fault of a trigger expression.
pub open spec fn trigger_fault(expr: Seq<char>) -> Option<TriggerFault> {
    or_fault_from(logic_parts(text::trimmed(expr), " OR "@), 0)
}

/// The outcome of a validation.
pub open spec fn fault_of(r: Result<(), TriggerError>) -> Option<TriggerFault> {
    match r {
        Ok(_) => None,
        Err(e) => Some(e@),
    }
}

fn validate_comparison(expr: &str) -> (r: Result<(), TriggerError>)
    ensures
        fault_of(r) == comparison_fault(expr@),
{
    match parse_comparison(expr) {
        None => Err(TriggerError::NoOperator(expr.to_string())),
        Some(c) => {
            if text::char_count(c.left.as_str()) == 0 {
                Err(TriggerError::EmptyLeft(expr.to_string()))
            } else if text::char_count(c.right.as_str()) == 0 {
                Err(TriggerError::EmptyRight(expr.to_string()))
            } else {
                Ok(())
            }
        },
    }
}

fn validate_and(expr: &str) -> (r: Result<(), TriggerError>)
    ensures
        fault_of(r) == and_fault(expr@),
{
    proof {
        reveal_strlit(" AND ");
    }
    let parts = split_logic(expr, " AND ");
    let ghost views = logic_parts(expr@, " AND "@);
    let mut i: usize = 0;
    while i < parts.len()
        invariant
            i <= parts@.len(),
            text::views(parts@) == views,
            views == logic_parts(expr@, " AND "@),
            and_fault(expr@) == and_fault_from(views, i as int),
        decreases parts@.len() - i,
    {
        assert(views[i as int] == parts@[i as int]@);
        if let Err(e) = validate_comparison(text::trim(parts[i].as_str()).as_str()) {
            return Err(e);
        }
        i = i + 1;
    }
    assert(views.len() == parts@.len());
    Ok(())
}

/// Checks the form of a trigger expression: each comparison has an operator and two sides.
pub fn validate_trigger_syntax(expression: &str) -> (r: Result<(), TriggerError>)
    ensures
        fault_of(r) == trigger_fault(expression@),
{
    proof {
        reveal_strlit(" OR ");
    }
    let expr = text::trim(expression);
    let parts = split_logic(expr.as_str(), " OR ");
    let ghost views = logic_parts(expr@, " OR "@);
    let mut i: usize = 0;
    while i < parts.len()
        invariant
            i <= parts@.len(),
            text::views(parts@) == views,
            views == logic_parts(text::trimmed(expression@), " OR "@),
            trigger_fault(expression@) == or_fault_from(views, i as int),
        decreases parts@.len() - i,
    {
        assert(views[i as int] == parts@[i as int]@);
        if let Err(e) = validate_and(text::trim(parts[i].as_str()).as_str()) {
            return Err(e);
        }
        i = i + 1;
    }
    assert(views.len() == parts@.len());
    Ok(())
}

// ---------------------------------------------------------------------------
// Evaluation
// ---------------------------------------------------------------------------
/// What holds of two numbers.
#[derive(Debug, Clone, Copy)]
pub struct NumericFacts {
    /// They differ by less than the rounding step at one.
    pub close: bool,
    /// They differ by at least that step.
    pub apart: bool,
    pub less: bool,
    pub greater: bool,
    pub at_most: bool,
    pub at_least: bool,
}

/// What holds of two texts that both are numbers.
pub struct NumericRow {
    pub left: String,
    pub right: String,
    pub facts: NumericFacts,
}

/// What the rows from index `i` on say of two texts; `None` where they are not numbers.
pub open spec fn facts_from(rows: Seq<NumericRow>, left: Seq<char>, right: Seq<char>, i: int) -> Option<
    NumericFacts,
>
    decreases rows.len() - i,
{
    if i < 0 || i >= rows.len() {
        None
    } else if rows[i].left@ == left && rows[i].right@ == right {
        Some(rows[i].facts)
    } else {
        facts_from(rows, left, right, i + 1)
    }
}

/// Whether a comparison of numbers holds.
pub open spec fn numeric_holds(facts: NumericFacts, op: Operator) -> bool {
    match op {
        Operator::Equal => facts.close,
        Operator::NotEqual => facts.apart,
        Operator::Less => facts.less,
        Operator::Greater => facts.greater,
        Operator::AtMost => facts.at_most,
        Operator::AtLeast => facts.at_least,
    }
}

/// Whether a comparison of texts holds.
pub open spec fn text_holds(left: Seq<char>, op: Operator, right: Seq<char>) -> bool {
    match op {
        Operator::Equal => left == right,
        Operator::NotEqual => left != right,
        Operator::Less => text::precedes(left, right),
        Operator::Greater => text::precedes(right, left),
        Operator::AtMost => !text::precedes(right, left),
        Operator::AtLeast => !text::precedes(left, right),
    }
}

/// Whether a comparison holds; `None` where it has no operator or the data has no such key.
pub open spec fn comparison_value(
    expr: Seq<char>,
    data: JsonView,
    rows: Seq<NumericRow>,
) -> Option<bool> {
    match comparison(expr) {
        None => None,
        Some(c) => match json::member(data, c.0) {
            None => None,
            Some(v) => match facts_from(rows, json::shown(v), c.2, 0) {
                Some(facts) => Some(numeric_holds(facts, c.1)),
                None => Some(text_holds(json::shown(v), c.1, c.2)),
            },
        },
    }
}

/// Whether all comparisons from index `i` on hold, up to the first that does not or cannot be
/// made.
pub open spec fn and_value_from(
    parts: Seq<Seq<char>>,
    data: JsonView,
    rows: Seq<NumericRow>,
    i: int,
) -> Option<bool>
    decreases parts.len() - i,
{
    if i < 0 || i >= parts.len() {
        Some(true)
    } else {
        match comparison_value(text::trimmed(parts[i]), data, rows) {
            Some(true) => and_value_from(parts, data, rows, i + 1),
            other => other,
        }
    }
}

/// Whether a conjunction holds.
pub open spec fn and_value(expr: Seq<char>, data: JsonView, rows: Seq<NumericRow>) -> Option<bool> {
    and_value_from(logic_parts(expr, " AND "@), data, rows, 0)
}

/// Whether one of the conjunctions from index `i` on holds, up to the first that does or cannot
/// be evaluated.
pub open spec fn or_value_from(
    parts: Seq<Seq<char>>,
    data: JsonView,
    rows: Seq<NumericRow>,
    i: int,
) -> Option<bool>
    decreases parts.len() - i,
{
    if i < 0 || i >= parts.len() {
        Some(false)
    } else {
        match and_value(text::trimmed(parts[i]), data, rows) {
            Some(false) => or_value_from(parts, data, rows, i + 1),
            other => other,
        }
    }
}

/// Whether a trigger expression holds; `None` where it cannot be evaluated.
pub open spec fn trigger_value(
    expr: Seq<char>,
    data: JsonView,
    rows: Seq<NumericRow>,
) -> Option<bool> {
    or_value_from(logic_parts(text::trimmed(expr), " OR "@), data, rows, 0)
}

/// Whether a trigger fires: it does where its expression holds or cannot be evaluated.
pub open spec fn fires(expr: Seq<char>, data: JsonView, rows: Seq<NumericRow>) -> bool {
    trigger_value(expr, data, rows) != Some(false)
}

fn find_facts(rows: &Vec<NumericRow>, left: &str, right: &str) -> (r: Option<NumericFacts>)
    ensures
        r == facts_from(rows@, left@, right@, 0),
{
    let mut i: usize = 0;
    while i < rows.len()
        invariant
            i <= rows@.len(),
            facts_from(rows@, left@, right@, 0) == facts_from(rows@, left@, right@, i as int),
        decreases rows@.len() - i,
    {
        if text::same(rows[i].left.as_str(), left) && text::same(rows[i].right.as_str(), right) {
            return Some(rows[i].facts);
        }
        i = i + 1;
    }
    None
}

fn compare_numbers(facts: NumericFacts, op: Operator) -> (r: bool)
    ensures
        r == numeric_holds(facts, op),
{
    match op {
        Operator::Equal => facts.close,
        Operator::NotEqual => facts.apart,
        Operator::Less => facts.less,
        Operator::Greater => facts.greater,
        Operator::AtMost => facts.at_most,
        Operator::AtLeast => facts.at_least,
    }
}

fn compare_texts(left: &str, op: Operator, right: &str) -> (r: bool)
    ensures
        r == text_holds(left@, op, right@),
{
    match op {
        Operator::Equal => text::same(left, right),
        Operator::NotEqual => !text::same(left, right),
        Operator::Less => text::is_before(left, right),
        Operator::Greater => text::is_before(right, left),
        Operator::AtMost => !text::is_before(right, left),
        Operator::AtLeast => !text::is_before(left, right),
    }
}

fn eval_comparison(expr: &str, data: &Json, rows: &Vec<NumericRow>) -> (r: Option<bool>)
    ensures
        r == comparison_value(expr@, data@, rows@),
{
    match parse_comparison(expr) {
        None => None,
        Some(c) => match data.get(c.left.as_str()) {
            None => None,
            Some(v) => {
                let left = v.show();
                match find_facts(rows, left.as_str(), c.right.as_str()) {
                    Some(facts) => Some(compare_numbers(facts, c.op)),
                    None => Some(compare_texts(left.as_str(), c.op, c.right.as_str())),
                }
            },
        },
    }
}

fn eval_and(expr: &str, data: &Json, rows: &Vec<NumericRow>) -> (r: Option<bool>)
    ensures
        r == and_value(expr@, data@, rows@),
{
    proof {
        reveal_strlit(" AND ");
    }
    let parts = split_logic(expr, " AND ");
    let ghost views = logic_parts(expr@, " AND "@);
    let mut i: usize = 0;
    while i < parts.len()
        invariant
            i <= parts@.len(),
            text::views(parts@) == views,
            views == logic_parts(expr@, " AND "@),
            and_value(expr@, data@, rows@) == and_value_from(views, data@, rows@, i as int),
        decreases parts@.len() - i,
    {
        assert(views[i as int] == parts@[i as int]@);
        match eval_comparison(text::trim(parts[i].as_str()).as_str(), data, rows) {
            Some(true) => {},
            other => {
                return other;
            },
        }
        i = i + 1;
    }
    assert(views.len() == parts@.len());
    Some(true)
}

fn eval_or(expr: &str, data: &Json, rows: &Vec<NumericRow>) -> (r: Option<bool>)
    ensures
        r == or_value_from(logic_parts(expr@, " OR "@), data@, rows@, 0),
{
    proof {
        reveal_strlit(" OR ");
    }
    let parts = split_logic(expr, " OR ");
    let ghost views = logic_parts(expr@, " OR "@);
    let mut i: usize = 0;
    while i < parts.len()
        invariant
            i <= parts@.len(),
            text::views(parts@) == views,
            views == logic_parts(expr@, " OR "@),
            or_value_from(views, data@, rows@, 0) == or_value_from(views, data@, rows@, i as int),
        decreases parts@.len() - i,
    {
        assert(views[i as int] == parts@[i as int]@);
        match eval_and(text::trim(parts[i].as_str()).as_str(), data, rows) {
            Some(false) => {},
            other => {
                return other;
            },
        }
        i = i + 1;
    }
    assert(views.len() == parts@.len());
    Some(false)
}

/// Evaluates a trigger expression on a monitor's output. An expression that cannot be evaluated
/// fires.
pub fn evaluate_trigger(expression: &str, data: &Json, rows: &Vec<NumericRow>) -> (r: bool)
    ensures
        r == fires(expression@, data@, rows@),
{
    let expr = text::trim(expression);
    match eval_or(expr.as_str(), data, rows) {
        Some(value) => value,
        None => true,
    }
}

// ---------------------------------------------------------------------------
// What an evaluation may compare
// ---------------------------------------------------------------------------
/// The pair of texts that a comparison is about.
pub open spec fn pair_of(expr: Seq<char>, data: JsonView) -> Option<(Seq<char>, Seq<char>)> {
    match comparison(expr) {
        None => None,
        Some(c) => match json::member(data, c.0) {
            None => None,
            Some(v) => Some((json::shown(v), c.2)),
        },
    }
}

/// The pairs of the first `n` comparisons.
pub open spec fn and_pairs_to(parts: Seq<Seq<char>>, data: JsonView, n: int) -> Seq<
    (Seq<char>, Seq<char>),
>
    decreases n,
{
    if n <= 0 {
        seq![]
    } else {
        match pair_of(text::trimmed(parts[n - 1]), data) {
            Some(p) => and_pairs_to(parts, data, n - 1).push(p),
            None => and_pairs_to(parts, data, n - 1),
        }
    }
}

/// The pairs of a conjunction.
pub open spec fn and_pairs(expr: Seq<char>, data: JsonView) -> Seq<(Seq<char>, Seq<char>)> {
    let comparisons = logic_parts(expr, " AND "@);
    and_pairs_to(comparisons, data, comparisons.len() as int)
}

/// The pairs of the first `n` conjunctions.
pub open spec fn or_pairs_to(parts: Seq<Seq<char>>, data: JsonView, n: int) -> Seq<
    (Seq<char>, Seq<char>),
>
    decreases n,
{
    if n <= 0 {
        seq![]
    } else {
        or_pairs_to(parts, data, n - 1) + and_pairs(text::trimmed(parts[n - 1]), data)
    }
}

/// The pairs of texts of all comparisons of an expression.
pub open spec fn trigger_pairs(expr: Seq<char>, data: JsonView) -> Seq<(Seq<char>, Seq<char>)> {
    let parts = logic_parts(text::trimmed(expr), " OR "@);
    or_pairs_to(parts, data, parts.len() as int)
}

fn add_pairs(expr: &str, data: &Json, out: &mut Vec<(String, String)>)
    ensures
        text::pair_views(final(out)@) == text::pair_views(old(out)@) + and_pairs(expr@, data@),
{
    proof {
        reveal_strlit(" AND ");
    }
    let parts = split_logic(expr, " AND ");
    let ghost views = logic_parts(expr@, " AND "@);
    let ghost start = out@;
    let mut i: usize = 0;
    assert(text::pair_views(out@) =~= text::pair_views(start) + and_pairs_to(views, data@, 0));
    while i < parts.len()
        invariant
            i <= parts@.len(),
            text::views(parts@) == views,
            text::pair_views(out@) =~= text::pair_views(start) + and_pairs_to(views, data@, i as int),
        decreases parts@.len() - i,
    {
        assert(views[i as int] == parts@[i as int]@);
        let ghost before = out@;
        let part = text::trim(parts[i].as_str());
        if let Some(c) = parse_comparison(part.as_str()) {
            if let Some(v) = data.get(c.left.as_str()) {
                let left = v.show();
                let ghost pair = (left@, c.right@);
                out.push((left, c.right));
                assert(text::pair_views(out@) =~= text::pair_views(before).push(pair));
                assert(pair_of(part@, data@) == Some(pair));
            }
        }
        i = i + 1;
        assert(text::pair_views(out@) =~= text::pair_views(start) + and_pairs_to(views, data@, i as int));
    }
    assert(views.len() == parts@.len());
}

/// Lists the pairs of texts that an evaluation may compare.
pub fn numeric_pairs(expression: &str, data: &Json) -> (r: Vec<(String, String)>)
    ensures
        text::pair_views(r@) == trigger_pairs(expression@, data@),
{
    proof {
        reveal_strlit(" OR ");
    }
    let expr = text::trim(expression);
    let parts = split_logic(expr.as_str(), " OR ");
    let ghost views = logic_parts(expr@, " OR "@);
    let mut out: Vec<(String, String)> = Vec::new();
    let mut i: usize = 0;
    assert(text::pair_views(out@) =~= or_pairs_to(views, data@, 0));
    while i < parts.len()
        invariant
            i <= parts@.len(),
            text::views(parts@) == views,
            text::pair_views(out@) =~= or_pairs_to(views, data@, i as int),
        decreases parts@.len() - i,
    {
        assert(views[i as int] == parts@[i as int]@);
        add_pairs(text::trim(parts[i].as_str()).as_str(), data, &mut out);
        i = i + 1;
    }
    assert(views.len() == parts@.len());
    out
}

/// Whether two lists of rows say the same of a pair.
pub open spec fn agree(a: Seq<NumericRow>, b: Seq<NumericRow>, p: (Seq<char>, Seq<char>)) -> bool {
    facts_from(a, p.0, p.1, 0) == facts_from(b, p.0, p.1, 0)
}

/// Whether two lists of rows say the same of every pair of a list.
pub open spec fn all_agree(
    a: Seq<NumericRow>,
    b: Seq<NumericRow>,
    pairs: Seq<(Seq<char>, Seq<char>)>,
) -> bool {
    forall|p: (Seq<char>, Seq<char>)| #[trigger] pairs.contains(p) ==> agree(a, b, p)
}

proof fn lemma_and_agrees(
    parts: Seq<Seq<char>>,
    data: JsonView,
    a: Seq<NumericRow>,
    b: Seq<NumericRow>,
    i: int,
)
    requires
        0 <= i <= parts.len(),
        all_agree(a, b, and_pairs_to(parts, data, parts.len() as int)),
    ensures
        and_value_from(parts, data, a, i) == and_value_from(parts, data, b, i),
    decreases parts.len() - i,
{
    if i < parts.len() {
        lemma_and_agrees(parts, data, a, b, i + 1);
        if pair_of(text::trimmed(parts[i]), data) is Some {
            lemma_and_pairs_hold(parts, data, i, parts.len() as int);
        }
    }
}

proof fn lemma_and_pairs_hold(parts: Seq<Seq<char>>, data: JsonView, i: int, n: int)
    requires
        0 <= i < n <= parts.len(),
        pair_of(text::trimmed(parts[i]), data) is Some,
    ensures
        and_pairs_to(parts, data, n).contains(pair_of(text::trimmed(parts[i]), data)->0),
    decreases n,
{
    let p = pair_of(text::trimmed(parts[i]), data)->0;
    let now = and_pairs_to(parts, data, n);
    if i == n - 1 {
        assert(now[now.len() - 1] == p);
    } else {
        lemma_and_pairs_hold(parts, data, i, n - 1);
        let before = and_pairs_to(parts, data, n - 1);
        let k = choose|k: int| 0 <= k < before.len() && before[k] == p;
        assert(now[k] == p);
    }
}

proof fn lemma_or_pairs_hold(
    parts: Seq<Seq<char>>,
    data: JsonView,
    i: int,
    n: int,
    p: (Seq<char>, Seq<char>),
)
    requires
        0 <= i < n <= parts.len(),
        and_pairs(text::trimmed(parts[i]), data).contains(p),
    ensures
        or_pairs_to(parts, data, n).contains(p),
    decreases n,
{
    let all = or_pairs_to(parts, data, n);
    let before = or_pairs_to(parts, data, n - 1);
    if i == n - 1 {
        let mine = and_pairs(text::trimmed(parts[i]), data);
        let k = choose|k: int| 0 <= k < mine.len() && mine[k] == p;
        assert(all[before.len() + k] == p);
    } else {
        lemma_or_pairs_hold(parts, data, i, n - 1, p);
        let m = choose|m: int| 0 <= m < before.len() && before[m] == p;
        assert(all[m] == p);
    }
}

proof fn lemma_or_agrees(
    parts: Seq<Seq<char>>,
    data: JsonView,
    a: Seq<NumericRow>,
    b: Seq<NumericRow>,
    i: int,
)
    requires
        0 <= i <= parts.len(),
        all_agree(a, b, or_pairs_to(parts, data, parts.len() as int)),
    ensures
        or_value_from(parts, data, a, i) == or_value_from(parts, data, b, i),
    decreases parts.len() - i,
{
    if i < parts.len() {
        lemma_or_agrees(parts, data, a, b, i + 1);
        let mine = and_pairs(text::trimmed(parts[i]), data);
        assert forall|p: (Seq<char>, Seq<char>)| #[trigger] mine.contains(p) implies agree(
            a,
            b,
            p,
        ) by {
            lemma_or_pairs_hold(parts, data, i, parts.len() as int, p);
        }
        lemma_and_agrees(logic_parts(text::trimmed(parts[i]), " AND "@), data, a, b, 0);
    }
}

/// What a trigger does rests on the listed pairs alone: rows that say the same of them give the
/// same outcome.
pub proof fn lemma_pairs_decide(
    expr: Seq<char>,
    data: JsonView,
    a: Seq<NumericRow>,
    b: Seq<NumericRow>,
)
    requires
        all_agree(a, b, trigger_pairs(expr, data)),
    ensures
        fires(expr, data, a) == fires(expr, data, b),
{
    lemma_or_agrees(logic_parts(text::trimmed(expr), " OR "@), data, a, b, 0);
}

/// Whether the data has the key of every comparison of a conjunction.
pub open spec fn and_keys(expr: Seq<char>, data: JsonView) -> bool {
    let parts = logic_parts(expr, " AND "@);
    forall|i: int|
        0 <= i < parts.len() ==> (comparison(text::trimmed(#[trigger] parts[i])) matches Some(c)
            ==> json::member(data, c.0) is Some)
}

/// Whether the data has the key of every comparison of an expression.
pub open spec fn has_keys(expr: Seq<char>, data: JsonView) -> bool {
    let parts = logic_parts(text::trimmed(expr), " OR "@);
    forall|i: int| 0 <= i < parts.len() ==> and_keys(text::trimmed(#[trigger] parts[i]), data)
}

proof fn lemma_and_is_evaluated(
    expr: Seq<char>,
    data: JsonView,
    rows: Seq<NumericRow>,
    i: int,
)
    requires
        0 <= i,
        and_keys(expr, data),
        and_fault_from(logic_parts(expr, " AND "@), i) is None,
    ensures
        and_value_from(logic_parts(expr, " AND "@), data, rows, i) is Some,
    decreases logic_parts(expr, " AND "@).len() - i,
{
    let parts = logic_parts(expr, " AND "@);
    if i < parts.len() {
        assert(comparison_fault(text::trimmed(parts[i])) is None);
        lemma_and_is_evaluated(expr, data, rows, i + 1);
    }
}

proof fn lemma_or_is_evaluated(
    parts: Seq<Seq<char>>,
    data: JsonView,
    rows: Seq<NumericRow>,
    i: int,
)
    requires
        0 <= i,
        forall|k: int| 0 <= k < parts.len() ==> and_keys(text::trimmed(#[trigger] parts[k]), data),
        or_fault_from(parts, i) is None,
    ensures
        or_value_from(parts, data, rows, i) is Some,
    decreases parts.len() - i,
{
    if i < parts.len() {
        assert(and_fault(text::trimmed(parts[i])) is None);
        lemma_and_is_evaluated(text::trimmed(parts[i]), data, rows, 0);
        lemma_or_is_evaluated(parts, data, rows, i + 1);
    }
}

/// An expression that passes the validation is evaluated wherever the data has its keys: it never
/// fires for want of a value.
pub proof fn lemma_valid_is_evaluated(expr: Seq<char>, data: JsonView, rows: Seq<NumericRow>)
    requires
        trigger_fault(expr) is None,
        has_keys(expr, data),
    ensures
        trigger_value(expr, data, rows) is Some,
{
    lemma_or_is_evaluated(logic_parts(text::trimmed(expr), " OR "@), data, rows, 0);
}

// ---------------------------------------------------------------------------
// Joined expressions
// ---------------------------------------------------------------------------
/// Whether a text is a word between two blanks.
spec fn is_joint(sep: Seq<char>) -> bool {
    &&& sep.len() >= 3
    &&& sep[0] == ' '
    &&& sep.last() == ' '
    &&& forall|k: int| 0 < k < sep.len() - 1 ==> !text::white(#[trigger] sep[k])
    &&& unquoted(sep)
}

/// Whether an expression is joined at index `i`: `sep` stands there, outside of quoted strings.
spec fn joins_at(s: Seq<char>, sep: Seq<char>, i: int) -> bool {
    text::occurs_at(s, sep, i) && quote_at(s, i) is None
}

/// Whether an expression keeps apart from a joint put before or behind it: it neither begins nor
/// ends with the word of one.
pub open spec fn stands_apart(expr: Seq<char>) -> bool {
    let t = text::trimmed(expr);
    &&& !text::begins(t, "OR "@)
    &&& !text::begins(t, "AND "@)
    &&& !text::ends(t, " OR"@)
    &&& !text::ends(t, " AND"@)
}

/// The quote that a reader of the first `i` characters waits for: every quote opens a string, and
/// the next of its kind closes it.
pub open spec fn awaited(s: Seq<char>, i: int) -> Option<char>
    decreases i,
{
    if i <= 0 {
        None
    } else {
        match awaited(s, i - 1) {
            Some(q) => if s[i - 1] == q {
                None
            } else {
                Some(q)
            },
            None => if is_quote(s[i - 1]) {
                Some(s[i - 1])
            } else {
                None
            },
        }
    }
}

/// Whether no quote is left open at the end of an expression.
pub open spec fn quotes_closed(expr: Seq<char>) -> bool {
    awaited(expr, expr.len() as int) is None
}

/// Whether the quote at index `i` of an expression stands alone: it is in no quoted string and
/// opens none.
pub open spec fn lone_at(expr: Seq<char>, i: int) -> bool {
    is_quote(expr[i]) && quote_at(expr, i) is None && !comes_after(expr, expr[i], i + 1)
}

/// Whether the quotes of two expressions keep apart: no quote that stands alone in the first comes
/// again in the second, where it would close a string across both.
pub open spec fn quotes_apart(p: Seq<char>, q: Seq<char>) -> bool {
    forall|i: int| 0 <= i < p.len() && #[trigger] lone_at(p, i) ==> !comes_after(q, p[i], 0)
}

/// Whether an expression has no alternatives: no `OR` joins anything in it.
pub open spec fn is_conjunction(expr: Seq<char>) -> bool {
    logic_parts(text::trimmed(expr), " OR "@).len() == 1
}

proof fn lemma_char_at(s: Seq<char>, pat: Seq<char>, k: int, m: int)
    requires
        text::occurs_at(s, pat, k),
        0 <= m < pat.len(),
    ensures
        s[k + m] == pat[m],
{
    assert(s.subrange(k, k + pat.len())[m] == s[k + m]);
}

/// What is awaited comes, where nothing is awaited in the end.
proof fn lemma_awaited_comes(s: Seq<char>, i: int, n: int)
    requires
        0 <= i <= n <= s.len(),
        awaited(s, n) is None,
        awaited(s, i) is Some,
    ensures
        exists|k: int| i <= k < n && #[trigger] s[k] == awaited(s, i)->0,
    decreases n - i,
{
    let q = awaited(s, i)->0;
    if s[i] == q {
    } else {
        assert(awaited(s, i + 1) == Some(q));
        lemma_awaited_comes(s, i + 1, n);
        let k = choose|k: int| i + 1 <= k < n && #[trigger] s[k] == q;
        assert(i <= k < n && s[k] == q);
    }
}

/// Where no quote is left open, none stands alone.
proof fn lemma_closed_is_awaited(s: Seq<char>, i: int)
    requires
        quotes_closed(s),
        0 <= i <= s.len(),
    ensures
        quote_at(s, i) == awaited(s, i),
        forall|k: int| 0 <= k < i ==> !#[trigger] lone_at(s, k),
    decreases i,
{
    if i > 0 {
        lemma_closed_is_awaited(s, i - 1);
        let c = s[i - 1];
        if awaited(s, i - 1) is None && is_quote(c) {
            assert(awaited(s, i) == Some(c));
            lemma_awaited_comes(s, i, s.len() as int);
            let k = choose|k: int| i <= k < s.len() && #[trigger] s[k] == c;
            assert(comes_after(s, c, i));
        }
    }
}

/// Where its quotes keep apart from what follows, an expression keeps its quotes.
proof fn lemma_quote_apart(u: Seq<char>, rest: Seq<char>, i: int)
    requires
        quotes_apart(u, rest),
        0 <= i <= u.len(),
    ensures
        quote_at(u + rest, i) == quote_at(u, i),
    decreases i,
{
    let s = u + rest;
    if i > 0 {
        lemma_quote_apart(u, rest, i - 1);
        let c = u[i - 1];
        assert(s[i - 1] == c);
        if quote_at(u, i - 1) is None && is_quote(c) {
            if comes_after(u, c, i) {
                let k = choose|k: int| i <= k < u.len() && #[trigger] u[k] == c;
                assert(s[k] == c);
                assert(comes_after(s, c, i));
            } else {
                assert(lone_at(u, i - 1));
                if comes_after(s, c, i) {
                    let k = choose|k: int| i <= k < s.len() && #[trigger] s[k] == c;
                    if k < u.len() {
                        assert(u[k] == c);
                        assert(comes_after(u, c, i));
                    } else {
                        assert(rest[k - u.len()] == c);
                        assert(comes_after(rest, c, 0));
                    }
                }
            }
        }
    }
}

/// No quote is open at the end of an expression whose quotes keep apart from what follows.
proof fn lemma_none_open(u: Seq<char>, rest: Seq<char>)
    requires
        quotes_apart(u, rest),
    ensures
        quote_at(u + rest, u.len() as int) is None,
{
    lemma_quote_apart(u, rest, u.len() as int);
    lemma_hidden_is_enclosed(u, u.len() as int);
}

/// Quotes that keep apart do so without the white space at the ends, and with a joint between.
proof fn lemma_apart_inside(
    a: Seq<char>,
    u: Seq<char>,
    sep: Seq<char>,
    v: Seq<char>,
    d: Seq<char>,
)
    requires
        text::all_white(a),
        unquoted(sep),
        quotes_apart(a + u, v + d),
    ensures
        quotes_apart(u, sep + v),
{
    let p = a + u;
    let q = v + d;
    let n = a.len() as int;
    lemma_white_is_unquoted(a);
    lemma_unquoted_start(a, u, n);
    assert forall|i: int| 0 <= i < u.len() && #[trigger] lone_at(u, i) implies !comes_after(
        sep + v,
        u[i],
        0,
    ) by {
        let c = u[i];
        lemma_quote_behind(a, u, i);
        assert(p[n + i] == c);
        if comes_after(p, c, n + i + 1) {
            let k = choose|k: int| n + i + 1 <= k < p.len() && #[trigger] p[k] == c;
            assert(u[k - n] == c);
            assert(comes_after(u, c, i + 1));
        }
        assert(lone_at(p, n + i));
        if comes_after(sep + v, c, 0) {
            let k = choose|k: int| 0 <= k < (sep + v).len() && #[trigger] (sep + v)[k] == c;
            if k < sep.len() {
                assert(sep[k] == c);
            } else {
                assert(v[k - sep.len()] == c);
                assert(q[k - sep.len()] == c);
                assert(comes_after(q, c, 0));
            }
        }
    }
}

/// Behind a place where no quote is open, the quotes are those of the rest.
proof fn lemma_quote_behind(x: Seq<char>, v: Seq<char>, j: int)
    requires
        quote_at(x + v, x.len() as int) is None,
        0 <= j <= v.len(),
    ensures
        quote_at(x + v, x.len() + j) == quote_at(v, j),
    decreases j,
{
    let s = x + v;
    let n = x.len() as int;
    if j > 0 {
        lemma_quote_behind(x, v, j - 1);
        let c = v[j - 1];
        assert(s[n + j - 1] == c);
        assert(comes_after(s, c, n + j) == comes_after(v, c, j)) by {
            if comes_after(s, c, n + j) {
                let k = choose|k: int| n + j <= k < s.len() && #[trigger] s[k] == c;
                assert(v[k - n] == c);
            }
            if comes_after(v, c, j) {
                let k = choose|k: int| j <= k < v.len() && #[trigger] v[k] == c;
                assert(s[n + k] == c);
            }
        }
    }
}

/// Text without quotes behind an expression does not change its quotes.
proof fn lemma_quote_before(t: Seq<char>, b: Seq<char>, j: int)
    requires
        unquoted(b),
        0 <= j <= t.len(),
    ensures
        quote_at(t + b, j) == quote_at(t, j),
    decreases j,
{
    let s = t + b;
    if j > 0 {
        lemma_quote_before(t, b, j - 1);
        let c = t[j - 1];
        assert(s[j - 1] == c);
        if is_quote(c) {
            assert(comes_after(s, c, j) == comes_after(t, c, j)) by {
                if comes_after(s, c, j) {
                    let k = choose|k: int| j <= k < s.len() && #[trigger] s[k] == c;
                    if k >= t.len() {
                        assert(s[k] == b[k - t.len()]);
                    }
                    assert(t[k] == c);
                }
                if comes_after(t, c, j) {
                    let k = choose|k: int| j <= k < t.len() && #[trigger] t[k] == c;
                    assert(s[k] == c);
                }
            }
        }
    }
}

proof fn lemma_joint_from(s: Seq<char>, sep: Seq<char>, i: int)
    requires
        0 <= i,
    ensures
        match joint_from(s, sep, i) {
            Some(j) => i <= j && joins_at(s, sep, j) && forall|k: int|
                i <= k < j ==> !joins_at(s, sep, k),
            None => forall|k: int| i <= k ==> !joins_at(s, sep, k),
        },
    decreases s.len() + 1 - i,
{
    if i + sep.len() > s.len() {
    } else if joins_at(s, sep, i) {
    } else {
        lemma_joint_from(s, sep, i + 1);
    }
}

proof fn lemma_joint_is(s: Seq<char>, sep: Seq<char>, i: int, j: int)
    requires
        0 <= i <= j,
        joins_at(s, sep, j),
        forall|k: int| i <= k < j ==> !joins_at(s, sep, k),
    ensures
        joint_from(s, sep, i) == Some(j),
{
    lemma_joint_from(s, sep, i);
}

proof fn lemma_joint_none(s: Seq<char>, sep: Seq<char>, i: int)
    requires
        0 <= i,
        forall|k: int| i <= k ==> !joins_at(s, sep, k),
    ensures
        joint_from(s, sep, i) is None,
{
    lemma_joint_from(s, sep, i);
}

proof fn lemma_parts_behind(x: Seq<char>, v: Seq<char>, sep: Seq<char>, from: int)
    requires
        sep.len() > 0,
        0 <= from <= v.len(),
        quote_at(x + v, x.len() as int) is None,
    ensures
        logic_parts_from(x + v, sep, x.len() + from) == logic_parts_from(v, sep, from),
    decreases v.len() - from,
{
    let s = x + v;
    let n = x.len();
    assert forall|k: int| 0 <= k implies joins_at(s, sep, n + k) == #[trigger] joins_at(
        v,
        sep,
        k,
    ) by {
        if k + sep.len() <= v.len() {
            assert(s.subrange(n + k, n + k + sep.len()) =~= v.subrange(k, k + sep.len()));
            lemma_quote_behind(x, v, k);
        }
    }
    lemma_joint_from(v, sep, from);
    match joint_from(v, sep, from) {
        Some(i) => {
            assert forall|k: int| n + from <= k < n + i implies !joins_at(s, sep, k) by {
                assert(joins_at(s, sep, n + (k - n)) == joins_at(v, sep, k - n));
            }
            assert(joins_at(v, sep, i));
            lemma_joint_is(s, sep, n + from, n + i);
            lemma_parts_behind(x, v, sep, i + sep.len());
            assert(s.subrange(n + from, n + i) =~= v.subrange(from, i));
        },
        None => {
            assert forall|k: int| n + from <= k implies !joins_at(s, sep, k) by {
                assert(joins_at(s, sep, n + (k - n)) == joins_at(v, sep, k - n));
            }
            lemma_joint_none(s, sep, n + from);
            assert(s.skip(n + from) =~= v.skip(from));
        },
    }
}

proof fn lemma_parts_cut_from(u: Seq<char>, v: Seq<char>, sep: Seq<char>, from: int)
    requires
        is_joint(sep),
        quotes_apart(u, sep + v),
        0 <= from <= u.len(),
        forall|k: int|
            u.len() - sep.len() < k < u.len() ==> !#[trigger] joins_at(u + sep + v, sep, k),
    ensures
        logic_parts_from(u + sep + v, sep, from) == logic_parts_from(u, sep, from) + logic_parts(
            v,
            sep,
        ),
    decreases u.len() - from,
{
    let s = u + sep + v;
    assert(s =~= u + (sep + v));
    assert forall|k: int| 0 <= k && k + sep.len() <= u.len() implies #[trigger] joins_at(s, sep, k)
        == joins_at(u, sep, k) by {
        assert(s.subrange(k, k + sep.len()) =~= u.subrange(k, k + sep.len()));
        lemma_quote_apart(u, sep + v, k);
    }
    lemma_joint_from(u, sep, from);
    match joint_from(u, sep, from) {
        Some(i) => {
            lemma_joint_is(s, sep, from, i);
            lemma_parts_cut_from(u, v, sep, i + sep.len());
            assert(s.subrange(from, i) =~= u.subrange(from, i));
            let head = seq![u.subrange(from, i)];
            let mid = logic_parts_from(u, sep, i + sep.len());
            assert(head + (mid + logic_parts(v, sep)) =~= (head + mid) + logic_parts(v, sep));
        },
        None => {
            let n = u.len() as int;
            assert(s.subrange(n, n + sep.len()) =~= sep);
            lemma_none_open(u, sep + v);
            assert forall|k: int| from <= k < n implies !joins_at(s, sep, k) by {
                if k + sep.len() <= n {
                    assert(!joins_at(u, sep, k));
                }
            }
            lemma_joint_is(s, sep, from, n);
            lemma_outside_after(s, sep, n, sep.len() as int);
            assert((u + sep).len() == n + sep.len());
            lemma_parts_behind(u + sep, v, sep, 0);
            assert(s.subrange(from, n) =~= u.skip(from));
        },
    }
}

/// White space holds no quote.
proof fn lemma_white_is_unquoted(s: Seq<char>)
    requires
        text::all_white(s),
    ensures
        unquoted(s),
{
    assert forall|k: int| 0 <= k < s.len() implies !is_quote(#[trigger] s[k]) by {
        assert(text::white(s[k]));
    }
}

/// White space around an expression does not change its quotes.
proof fn lemma_quote_between(a: Seq<char>, t: Seq<char>, b: Seq<char>, j: int)
    requires
        text::all_white(a),
        text::all_white(b),
        0 <= j <= t.len(),
    ensures
        quote_at(a + t + b, a.len() + j) == quote_at(t, j),
{
    lemma_white_is_unquoted(a);
    lemma_white_is_unquoted(b);
    let s = a + t + b;
    assert(s =~= a + (t + b));
    lemma_unquoted_start(a, t + b, a.len() as int);
    lemma_quote_behind(a, t + b, j);
    lemma_quote_before(t, b, j);
}

proof fn lemma_unquoted_start(a: Seq<char>, rest: Seq<char>, i: int)
    requires
        unquoted(a),
        0 <= i <= a.len(),
    ensures
        quote_at(a + rest, i) is None,
    decreases i,
{
    if i > 0 {
        lemma_unquoted_start(a, rest, i - 1);
        assert((a + rest)[i - 1] == a[i - 1]);
    }
}

proof fn lemma_parts_before(
    a: Seq<char>,
    t: Seq<char>,
    b: Seq<char>,
    sep: Seq<char>,
    from: int,
)
    requires
        sep.len() > 0,
        text::all_white(a),
        text::all_white(b),
        0 <= from <= t.len(),
        forall|k: int| #[trigger] joins_at(a + t + b, sep, k) == joins_at(t, sep, k - a.len()),
    ensures
        text::alike(
            logic_parts_from(a + t + b, sep, a.len() + from),
            logic_parts_from(t, sep, from),
        ),
    decreases t.len() - from,
{
    let s = a + t + b;
    let n = a.len();
    lemma_joint_from(t, sep, from);
    match joint_from(t, sep, from) {
        Some(i) => {
            assert(joins_at(s, sep, n + i) == joins_at(t, sep, n + i - n));
            lemma_joint_is(s, sep, n + from, n + i);
            lemma_parts_before(a, t, b, sep, i + sep.len());
            assert(s.subrange(n + from, n + i) =~= t.subrange(from, i));
            text::lemma_alike_after(
                t.subrange(from, i),
                t.subrange(from, i),
                logic_parts_from(s, sep, n + (i + sep.len())),
                logic_parts_from(t, sep, i + sep.len()),
            );
        },
        None => {
            lemma_joint_none(s, sep, n + from);
            assert(s.skip(n + from) =~= seq![] + t.skip(from) + b);
            text::lemma_trimmed_between(seq![], t.skip(from), b);
        },
    }
}

/// White space around an expression leaves its parts alike, where no joint begins or ends in it.
proof fn lemma_parts_between(a: Seq<char>, t: Seq<char>, b: Seq<char>, sep: Seq<char>)
    requires
        sep.len() > 0,
        text::all_white(a),
        text::all_white(b),
        forall|k: int| #[trigger]
            text::occurs_at(a + t + b, sep, k) == text::occurs_at(t, sep, k - a.len()),
    ensures
        text::alike(logic_parts(a + t + b, sep), logic_parts(t, sep)),
        forall|k: int| #[trigger] joins_at(a + t + b, sep, k) == joins_at(t, sep, k - a.len()),
{
    let s = a + t + b;
    let n = a.len();
    assert forall|k: int| #[trigger] joins_at(s, sep, k) == joins_at(t, sep, k - n) by {
        assert(text::occurs_at(s, sep, k) == text::occurs_at(t, sep, k - n));
        if text::occurs_at(t, sep, k - n) {
            lemma_quote_between(a, t, b, k - n);
        }
    }
    lemma_joint_from(t, sep, 0);
    match joint_from(t, sep, 0) {
        Some(i) => {
            assert(joins_at(s, sep, n + i) == joins_at(t, sep, n + i - n));
            lemma_joint_is(s, sep, 0, n + i);
            lemma_parts_before(a, t, b, sep, i + sep.len());
            assert(s.subrange(0, n + i) =~= a + t.subrange(0, i) + seq![]);
            text::lemma_trimmed_between(a, t.subrange(0, i), seq![]);
            text::lemma_alike_after(
                s.subrange(0, n + i),
                t.subrange(0, i),
                logic_parts_from(s, sep, n + (i + sep.len())),
                logic_parts_from(t, sep, i + sep.len()),
            );
        },
        None => {
            lemma_joint_none(s, sep, 0);
            assert(s.skip(0) =~= s);
            assert(t.skip(0) =~= t);
            text::lemma_trimmed_between(a, t, b);
        },
    }
}

/// No joint ends in the white space behind a text that does not end with the joint's word.
proof fn lemma_none_behind(t: Seq<char>, b: Seq<char>, sep: Seq<char>)
    requires
        is_joint(sep),
        text::all_white(b),
        text::is_trim(t),
        t.len() > 0,
        !text::ends(t, sep.drop_last()),
    ensures
        forall|k: int| #[trigger]
            text::occurs_at(seq![] + t + b, sep, k) == text::occurs_at(t, sep, k),
{
    let s = seq![] + t + b;
    let n = sep.len();
    assert forall|k: int| #[trigger] text::occurs_at(s, sep, k) == text::occurs_at(t, sep, k) by {
        if 0 <= k && k + n <= t.len() {
            assert(s.subrange(k, k + n) =~= t.subrange(k, k + n));
        } else if text::occurs_at(s, sep, k) {
            lemma_char_at(s, sep, k, n - 2);
            lemma_char_at(s, sep, k, n - 1);
            if k + n - 2 >= t.len() {
                assert(s[k + n - 2] == b[k + n - 2 - t.len()]);
                assert(false);
            }
            assert(k + n - 1 == t.len());
            assert(t.subrange(k, k + n - 1) =~= sep.drop_last()) by {
                assert(s.subrange(k, k + n) == sep);
                assert forall|m: int| 0 <= m < n - 1 implies t[k + m] == sep[m] by {
                    lemma_char_at(s, sep, k, m);
                }
            }
            assert(text::ends(t, sep.drop_last()));
        }
    }
}

/// No joint begins in the white space before a text that does not begin with the joint's word.
proof fn lemma_none_before(a: Seq<char>, t: Seq<char>, sep: Seq<char>)
    requires
        is_joint(sep),
        text::all_white(a),
        !text::begins(t, sep.skip(1)),
    ensures
        forall|k: int| #[trigger]
            text::occurs_at(a + t + seq![], sep, k) == text::occurs_at(t, sep, k - a.len()),
{
    let s = a + t + seq![];
    let n = sep.len();
    assert forall|k: int| #[trigger]
        text::occurs_at(s, sep, k) == text::occurs_at(t, sep, k - a.len()) by {
        if a.len() <= k && k + n <= s.len() {
            assert(s.subrange(k, k + n) =~= t.subrange(k - a.len(), k - a.len() + n));
        } else if text::occurs_at(s, sep, k) {
            lemma_char_at(s, sep, k, 1);
            if k + 1 < a.len() {
                assert(s[k + 1] == a[k + 1]);
                assert(false);
            }
            assert(k + 1 == a.len());
            assert(t.subrange(0, n - 1) =~= sep.skip(1)) by {
                assert forall|m: int| 0 <= m < n - 1 implies t[m] == sep[m + 1] by {
                    lemma_char_at(s, sep, k, m + 1);
                }
            }
            assert(text::begins(t, sep.skip(1)));
        }
    }
}

/// A joint that begins in `u` and runs into the blank behind it makes `u` end with its word.
proof fn lemma_overlap(u: Seq<char>, rest: Seq<char>, sep: Seq<char>, k: int)
    requires
        is_joint(sep),
        rest.len() > 0,
        rest[0] == ' ',
        text::occurs_at(u + rest, sep, k),
        u.len() - sep.len() < k < u.len(),
    ensures
        text::ends(u, sep.drop_last()),
{
    let s = u + rest;
    let m = u.len() - k;
    lemma_char_at(s, sep, k, m);
    assert(s[k + m] == rest[0]);
    assert(m == sep.len() - 1);
    assert(u.subrange(k, u.len() as int) =~= sep.drop_last()) by {
        assert forall|j: int| 0 <= j < m implies u[k + j] == sep[j] by {
            lemma_char_at(s, sep, k, j);
        }
    }
}

/// A text with white space behind it ends with a joint's word only where the text does.
proof fn lemma_ends_itself(t: Seq<char>, b: Seq<char>, sep: Seq<char>)
    requires
        is_joint(sep),
        text::all_white(b),
        text::ends(t + b, sep.drop_last()),
    ensures
        b.len() == 0,
        text::ends(t, sep.drop_last()),
{
    let u = t + b;
    let w = sep.drop_last();
    lemma_char_at(u, w, u.len() - w.len(), w.len() - 1);
    assert(u.last() == sep[sep.len() - 2]);
    if b.len() > 0 {
        assert(u.last() == b[b.len() - 1]);
    }
    assert(u =~= t);
}

/// What is trimmed of two expressions with a joint between them.
proof fn lemma_joined_text(p: Seq<char>, q: Seq<char>, sep: Seq<char>) -> (r: (
    Seq<char>,
    Seq<char>,
))
    requires
        text::trimmed(p).len() > 0,
        text::trimmed(q).len() > 0,
    ensures
        text::all_white(r.0),
        text::all_white(r.1),
        text::trimmed(p + sep + q) == (text::trimmed(p) + r.0) + sep + (r.1 + text::trimmed(q)),
        text::is_trim(text::trimmed(p)),
        text::is_trim(text::trimmed(q)),
        quotes_apart(p, q) && unquoted(sep) ==> quotes_apart(
            text::trimmed(p) + r.0,
            sep + (r.1 + text::trimmed(q)),
        ),
{
    let tp = text::trimmed(p);
    let tq = text::trimmed(q);
    let x = text::lemma_trimmed(p);
    let y = text::lemma_trimmed(q);
    let w = (tp + x.1) + sep + (y.0 + tq);
    assert(p + sep + q =~= x.0 + w + y.1);
    assert(w[0] == tp[0]);
    assert(w.last() == tq.last());
    text::lemma_trimmed_is(x.0, w, y.1);
    assert(p =~= x.0 + (tp + x.1));
    assert(q =~= (y.0 + tq) + y.1);
    if quotes_apart(p, q) && unquoted(sep) {
        lemma_apart_inside(x.0, tp + x.1, sep, y.0 + tq, y.1);
    }
    (x.1, y.0)
}

/// Two expressions with a joint between them have the parts of both.
proof fn lemma_joined_parts(p: Seq<char>, q: Seq<char>, sep: Seq<char>)
    requires
        is_joint(sep),
        text::trimmed(p).len() > 0,
        text::trimmed(q).len() > 0,
        quotes_apart(p, q),
        !text::ends(text::trimmed(p), sep.drop_last()),
        !text::begins(text::trimmed(q), sep.skip(1)),
    ensures
        text::alike(
            logic_parts(text::trimmed(p + sep + q), sep),
            logic_parts(text::trimmed(p), sep) + logic_parts(text::trimmed(q), sep),
        ),
{
    let tp = text::trimmed(p);
    let tq = text::trimmed(q);
    let r = lemma_joined_text(p, q, sep);
    let u = tp + r.0;
    let v = r.1 + tq;
    assert forall|k: int| u.len() - sep.len() < k < u.len() implies !#[trigger] joins_at(
        u + sep + v,
        sep,
        k,
    ) by {
        if text::occurs_at(u + sep + v, sep, k) {
            assert(u + sep + v =~= u + (sep + v));
            lemma_overlap(u, sep + v, sep, k);
            lemma_ends_itself(tp, r.0, sep);
        }
    }
    lemma_parts_cut_from(u, v, sep, 0);
    lemma_none_behind(tp, r.0, sep);
    assert(seq![] + tp + r.0 =~= u);
    lemma_parts_between(seq![], tp, r.0, sep);
    lemma_none_before(r.1, tq, sep);
    assert(r.1 + tq + seq![] =~= v);
    lemma_parts_between(r.1, tq, seq![], sep);
    let all = logic_parts(u, sep) + logic_parts(v, sep);
    let want = logic_parts(tp, sep) + logic_parts(tq, sep);
    assert forall|k: int| 0 <= k < all.len() implies text::trimmed(#[trigger] all[k])
        == text::trimmed(want[k]) by {
        let n = logic_parts(u, sep).len() as int;
        if k < n {
            assert(all[k] == logic_parts(u, sep)[k]);
        } else {
            assert(all[k] == logic_parts(v, sep)[k - n]);
        }
    }
}

proof fn lemma_or_alike(
    a: Seq<Seq<char>>,
    b: Seq<Seq<char>>,
    data: JsonView,
    rows: Seq<NumericRow>,
    i: int,
)
    requires
        0 <= i,
        text::alike(a, b),
    ensures
        or_value_from(a, data, rows, i) == or_value_from(b, data, rows, i),
    decreases a.len() - i,
{
    if i < a.len() {
        assert(text::trimmed(a[i]) == text::trimmed(b[i]));
        lemma_or_alike(a, b, data, rows, i + 1);
    }
}

proof fn lemma_and_alike(
    a: Seq<Seq<char>>,
    b: Seq<Seq<char>>,
    data: JsonView,
    rows: Seq<NumericRow>,
    i: int,
)
    requires
        0 <= i,
        text::alike(a, b),
    ensures
        and_value_from(a, data, rows, i) == and_value_from(b, data, rows, i),
    decreases a.len() - i,
{
    if i < a.len() {
        assert(text::trimmed(a[i]) == text::trimmed(b[i]));
        lemma_and_alike(a, b, data, rows, i + 1);
    }
}

proof fn lemma_or_of_both(
    a: Seq<Seq<char>>,
    b: Seq<Seq<char>>,
    data: JsonView,
    rows: Seq<NumericRow>,
    i: int,
)
    requires
        0 <= i <= a.len() + b.len(),
    ensures
        or_value_from(a + b, data, rows, i) == (if i < a.len() {
            match or_value_from(a, data, rows, i) {
                Some(false) => or_value_from(b, data, rows, 0),
                other => other,
            }
        } else {
            or_value_from(b, data, rows, i - a.len())
        }),
    decreases a.len() + b.len() - i,
{
    let all = a + b;
    if i < all.len() {
        lemma_or_of_both(a, b, data, rows, i + 1);
        if i < a.len() {
            assert(all[i] == a[i]);
        } else {
            assert(all[i] == b[i - a.len()]);
        }
    }
}

proof fn lemma_and_of_both(
    a: Seq<Seq<char>>,
    b: Seq<Seq<char>>,
    data: JsonView,
    rows: Seq<NumericRow>,
    i: int,
)
    requires
        0 <= i <= a.len() + b.len(),
    ensures
        and_value_from(a + b, data, rows, i) == (if i < a.len() {
            match and_value_from(a, data, rows, i) {
                Some(true) => and_value_from(b, data, rows, 0),
                other => other,
            }
        } else {
            and_value_from(b, data, rows, i - a.len())
        }),
    decreases a.len() + b.len() - i,
{
    let all = a + b;
    if i < all.len() {
        lemma_and_of_both(a, b, data, rows, i + 1);
        if i < a.len() {
            assert(all[i] == a[i]);
        } else {
            assert(all[i] == b[i - a.len()]);
        }
    }
}

proof fn lemma_joint_words()
    ensures
        is_joint(" OR "@),
        is_joint(" AND "@),
        " OR "@.drop_last() == " OR"@,
        " OR "@.skip(1) == "OR "@,
        " AND "@.drop_last() == " AND"@,
        " AND "@.skip(1) == "AND "@,
{
    reveal_strlit(" OR ");
    reveal_strlit(" AND ");
    reveal_strlit(" OR");
    reveal_strlit("OR ");
    reveal_strlit(" AND");
    reveal_strlit("AND ");
    assert(" OR "@.drop_last() =~= " OR"@);
    assert(" OR "@.skip(1) =~= "OR "@);
    assert(" AND "@.drop_last() =~= " AND"@);
    assert(" AND "@.skip(1) =~= "AND "@);
}

/// An expression that passes the validation is not blank.
proof fn lemma_valid_is_not_blank(expr: Seq<char>)
    requires
        trigger_fault(expr) is None,
    ensures
        text::trimmed(expr).len() > 0,
{
    let t = text::trimmed(expr);
    if t.len() == 0 {
        lemma_joint_words();
        reveal_strlit("<=");
        reveal_strlit(">=");
        reveal_strlit("!=");
        reveal_strlit("==");
        reveal_strlit("<");
        reveal_strlit(">");
        assert(t =~= seq![]);
        assert(t.skip(0) =~= t);
        assert(logic_parts(t, " OR "@) =~= seq![t]);
        assert(logic_parts(t, " OR "@)[0] == t);
        assert(text::trimmed(t) =~= t) by {
            let r = text::lemma_trimmed(t);
            assert(t.len() == r.0.len() + text::trimmed(t).len() + r.1.len());
        }
        assert(logic_parts(t, " AND "@) =~= seq![t]);
        assert(logic_parts(t, " AND "@)[0] == t);
        assert(operator_in(t) is None);
        assert(comparison_fault(t) is Some);
        assert(and_fault(t) is Some);
    }
}

/// Two expressions joined by `OR` evaluate to the or of both, where no quoted string reaches across
/// the joint.
pub proof fn lemma_or_joins(
    p: Seq<char>,
    q: Seq<char>,
    data: JsonView,
    rows: Seq<NumericRow>,
)
    requires
        trigger_fault(p) is None,
        trigger_fault(q) is None,
        has_keys(p, data),
        has_keys(q, data),
        quotes_apart(p, q),
        stands_apart(p),
        stands_apart(q),
    ensures
        fires(p + " OR "@ + q, data, rows) == (fires(p, data, rows) || fires(q, data, rows)),
        trigger_value(p + " OR "@ + q, data, rows) == Some(
            fires(p, data, rows) || fires(q, data, rows),
        ),
{
    let sep = " OR "@;
    let w = text::trimmed(p + sep + q);
    lemma_joint_words();
    lemma_valid_is_not_blank(p);
    lemma_valid_is_not_blank(q);
    lemma_valid_is_evaluated(p, data, rows);
    lemma_valid_is_evaluated(q, data, rows);
    lemma_joined_parts(p, q, sep);
    let a = logic_parts(text::trimmed(p), sep);
    let b = logic_parts(text::trimmed(q), sep);
    lemma_or_alike(logic_parts(w, sep), a + b, data, rows, 0);
    lemma_or_of_both(a, b, data, rows, 0);
    assert(a.len() > 0);
}

/// An expression with one part holds no joint.
proof fn lemma_single_part(s: Seq<char>, sep: Seq<char>)
    requires
        sep.len() > 0,
    ensures
        logic_parts(s, sep).len() == 1 <==> forall|k: int| !#[trigger] joins_at(s, sep, k),
        logic_parts(s, sep).len() == 1 ==> logic_parts(s, sep) == seq![s],
{
    lemma_joint_from(s, sep, 0);
    assert(s.skip(0) =~= s);
    match joint_from(s, sep, 0) {
        Some(i) => {
            assert(joins_at(s, sep, i));
            assert(logic_parts_from(s, sep, i + sep.len()).len() > 0);
        },
        None => {
            assert forall|k: int| !#[trigger] joins_at(s, sep, k) by {
                assert(k >= 0 ==> !joins_at(s, sep, k));
            }
        },
    }
}

/// Two expressions without alternatives have none when joined by `AND`.
proof fn lemma_and_brings_no_or(p: Seq<char>, q: Seq<char>)
    requires
        text::trimmed(p).len() > 0,
        text::trimmed(q).len() > 0,
        is_conjunction(p),
        is_conjunction(q),
        quotes_apart(p, q),
        stands_apart(p),
        stands_apart(q),
    ensures
        logic_parts(text::trimmed(p + " AND "@ + q), " OR "@).len() == 1,
{
    lemma_joint_words();
    let or = " OR "@;
    let sep = " AND "@;
    let tp = text::trimmed(p);
    let tq = text::trimmed(q);
    let r = lemma_joined_text(p, q, sep);
    let u = tp + r.0;
    let v = r.1 + tq;
    let w = u + sep + v;
    lemma_single_part(tp, or);
    lemma_single_part(tq, or);
    lemma_none_behind(tp, r.0, or);
    assert(seq![] + tp + r.0 =~= u);
    lemma_parts_between(seq![], tp, r.0, or);
    lemma_none_before(r.1, tq, or);
    assert(r.1 + tq + seq![] =~= v);
    lemma_parts_between(r.1, tq, seq![], or);
    let n = u.len() as int;
    assert(w =~= u + (sep + v));
    lemma_none_open(u, sep + v);
    assert(w.subrange(n, n + sep.len()) =~= sep);
    lemma_outside_after(w, sep, n, sep.len() as int);
    reveal_strlit(" OR ");
    reveal_strlit(" AND ");
    assert forall|k: int| !#[trigger] joins_at(w, or, k) by {
        if joins_at(w, or, k) {
            lemma_char_at(w, or, k, 0);
            lemma_char_at(w, or, k, 1);
            if k + 4 <= n {
                assert(w.subrange(k, k + 4) =~= u.subrange(k, k + 4));
                lemma_quote_apart(u, sep + v, k);
                assert(joins_at(u, or, k));
                assert(joins_at(seq![] + tp + r.0, or, k) == joins_at(tp, or, k - 0));
            } else if k < n {
                lemma_overlap(u, sep + v, or, k);
                lemma_ends_itself(tp, r.0, or);
            } else if k < n + 4 {
                assert(w[k] == sep[k - n]);
                assert(w[k + 1] == sep[k + 1 - n]);
            } else if k == n + 4 {
                assert(v.subrange(0, 3) =~= or.skip(1)) by {
                    assert forall|m: int| 0 <= m < 3 implies v[m] == or[m + 1] by {
                        lemma_char_at(w, or, k, m + 1);
                    }
                }
                if r.1.len() > 0 {
                    assert(v[0] == r.1[0]);
                    assert(or[1] == 'O');
                    assert(or.skip(1)[0] == 'O');
                    assert(v.subrange(0, 3)[0] == v[0]);
                } else {
                    assert(v =~= tq);
                    assert(text::begins(tq, or.skip(1)));
                }
                assert(false);
            } else {
                let m = k - n - 5;
                assert(w.subrange(k, k + 4) =~= v.subrange(m, m + 4));
                assert((u + sep).len() == n + 5);
                lemma_quote_behind(u + sep, v, m);
                assert(joins_at(v, or, m));
                assert(joins_at(r.1 + tq + seq![], or, m) == joins_at(tq, or, m - r.1.len()));
            }
        }
    }
    lemma_single_part(w, or);
}

proof fn lemma_value_of_conjunction(expr: Seq<char>, data: JsonView, rows: Seq<NumericRow>)
    requires
        is_conjunction(expr),
    ensures
        trigger_value(expr, data, rows) == and_value_from(
            logic_parts(text::trimmed(expr), " AND "@),
            data,
            rows,
            0,
        ),
{
    let t = text::trimmed(expr);
    lemma_joint_words();
    lemma_single_part(t, " OR "@);
    let r = text::lemma_trimmed(expr);
    text::lemma_trimmed_is(seq![], t, seq![]);
    assert(seq![] + t + seq![] =~= t);
    let parts = logic_parts(t, " OR "@);
    assert(parts.len() == 1 && parts[0] == t);
    assert(or_value_from(parts, data, rows, 1) == Some(false));
}

/// Two expressions without alternatives joined by `AND` evaluate to the and of both, where no
/// quoted string reaches across the joint: `AND` binds tighter than `OR`.
pub proof fn lemma_and_joins(
    p: Seq<char>,
    q: Seq<char>,
    data: JsonView,
    rows: Seq<NumericRow>,
)
    requires
        trigger_fault(p) is None,
        trigger_fault(q) is None,
        has_keys(p, data),
        has_keys(q, data),
        quotes_apart(p, q),
        stands_apart(p),
        stands_apart(q),
        is_conjunction(p),
        is_conjunction(q),
    ensures
        fires(p + " AND "@ + q, data, rows) == (fires(p, data, rows) && fires(q, data, rows)),
        trigger_value(p + " AND "@ + q, data, rows) == Some(
            fires(p, data, rows) && fires(q, data, rows),
        ),
{
    let sep = " AND "@;
    let w = text::trimmed(p + sep + q);
    lemma_joint_words();
    lemma_valid_is_not_blank(p);
    lemma_valid_is_not_blank(q);
    lemma_valid_is_evaluated(p, data, rows);
    lemma_valid_is_evaluated(q, data, rows);
    lemma_joined_parts(p, q, sep);
    lemma_and_brings_no_or(p, q);
    lemma_value_of_conjunction(p + sep + q, data, rows);
    lemma_value_of_conjunction(p, data, rows);
    lemma_value_of_conjunction(q, data, rows);
    let a = logic_parts(text::trimmed(p), sep);
    let b = logic_parts(text::trimmed(q), sep);
    lemma_and_alike(logic_parts(w, sep), a + b, data, rows, 0);
    lemma_and_of_both(a, b, data, rows, 0);
    assert(a.len() > 0);
}

/// An expression whose text holds no ` OR ` at all has no alternatives.
pub proof fn lemma_no_or_is_conjunction(expr: Seq<char>)
    requires
        !text::has(text::trimmed(expr), " OR "@),
    ensures
        is_conjunction(expr),
{
    lemma_joint_words();
    lemma_single_part(text::trimmed(expr), " OR "@);
    text::lemma_has(text::trimmed(expr), " OR "@);
}

/// The quotes of two expressions keep apart where the first leaves no quote open, and where the
/// second holds none.
pub proof fn lemma_closed_quotes_keep_apart(p: Seq<char>, q: Seq<char>)
    requires
        quotes_closed(p) || unquoted(q),
    ensures
        quotes_apart(p, q),
{
    if quotes_closed(p) {
        lemma_closed_is_awaited(p, p.len() as int);
    }
}

// ---------------------------------------------------------------------------
// One comparison
// ---------------------------------------------------------------------------
/// Whether what is known of two numbers is what holds of `l` and `r`.
pub open spec fn are_facts_of(facts: NumericFacts, l: int, r: int) -> bool {
    &&& facts.close == (l == r)
    &&& facts.apart == (l != r)
    &&& facts.less == (l < r)
    &&& facts.greater == (l > r)
    &&& facts.at_most == (l <= r)
    &&& facts.at_least == (l >= r)
}

/// Whether a character stands in an operator.
pub open spec fn in_operator(c: char) -> bool {
    c == '<' || c == '>' || c == '=' || c == '!'
}

/// Whether a text can be one side of a comparison: a word without operators.
pub open spec fn is_operand(s: Seq<char>) -> bool {
    &&& s.len() > 0
    &&& text::is_word(s)
    &&& forall|k: int| 0 <= k < s.len() ==> !in_operator(#[trigger] s[k])
}

// The only operator of a plain comparison is the one between its sides.
proof fn lemma_sign_stands_between(
    key: Seq<char>,
    joint: Seq<char>,
    value: Seq<char>,
    pat: Seq<char>,
    k: int,
)
    requires
        is_operand(key),
        is_operand(value),
        joint.len() >= 3,
        joint[0] == ' ',
        joint.last() == ' ',
        pat.len() > 0,
        forall|i: int| 0 <= i < pat.len() ==> in_operator(#[trigger] pat[i]),
        text::occurs_at(key + joint + value, pat, k),
    ensures
        key.len() < k,
        k + pat.len() < key.len() + joint.len(),
        forall|i: int| 0 <= i < pat.len() ==> #[trigger] pat[i] == joint[k - key.len() + i],
{
    let s = key + joint + value;
    let n = key.len();
    assert forall|i: int| 0 <= i < pat.len() implies n < k + i < n + joint.len() - 1 && #[trigger] pat[i]
        == joint[k - n + i] by {
        lemma_char_at(s, pat, k, i);
        if k + i < n {
            assert(s[k + i] == key[k + i]);
        } else if k + i >= n + joint.len() {
            assert(s[k + i] == value[k + i - n - joint.len()]);
        } else {
            assert(s[k + i] == joint[k + i - n]);
        }
    }
    assert(pat[0] == joint[k - n + 0]);
    assert(pat[pat.len() - 1] == joint[k - n + (pat.len() - 1)]);
}

proof fn lemma_sign_is_found(
    key: Seq<char>,
    joint: Seq<char>,
    value: Seq<char>,
    sign: Seq<char>,
    pat: Seq<char>,
)
    requires
        is_operand(key),
        is_operand(value),
        0 < sign.len() <= 2,
        joint == seq![' '] + sign + seq![' '],
        forall|i: int| 0 <= i < sign.len() ==> in_operator(#[trigger] sign[i]),
        pat.len() > 0,
        forall|i: int| 0 <= i < pat.len() ==> in_operator(#[trigger] pat[i]),
    ensures
        pat == sign ==> text::found(key + joint + value, pat) == Some(key.len() as int + 1),
        text::has(key + joint + value, pat) ==> pat.len() <= sign.len(),
        text::has(key + joint + value, pat) && pat.len() == sign.len() ==> pat == sign,
{
    let s = key + joint + value;
    let n = key.len() as int;
    text::lemma_found_from(s, pat, 0);
    match text::found(s, pat) {
        Some(k) => {
            lemma_sign_stands_between(key, joint, value, pat, k);
            let d = k - n - 1;
            assert(sign.subrange(d, d + pat.len()) =~= pat) by {
                assert forall|i: int| 0 <= i < pat.len() implies sign[d + i] == pat[i] by {
                    assert(pat[i] == joint[k - n + i]);
                }
            }
            if pat.len() == sign.len() {
                assert(d == 0);
                assert(sign.subrange(0, sign.len() as int) =~= sign);
            }
        },
        None => {
            if pat == sign {
                assert(s.subrange(n + 1, n + 1 + sign.len()) =~= sign);
                assert(text::occurs_at(s, pat, n + 1));
            }
        },
    }
}

proof fn lemma_signs_differ()
    ensures
        forall|a: Operator, b: Operator| #[trigger] sign(a) == #[trigger] sign(b) ==> a == b,
        forall|a: Operator, i: int| 0 <= i < sign(a).len() ==> in_operator(#[trigger] sign(a)[i]),
        sign(Operator::AtMost).len() == 2,
        sign(Operator::AtLeast).len() == 2,
        sign(Operator::NotEqual).len() == 2,
        sign(Operator::Equal).len() == 2,
        sign(Operator::Less).len() == 1,
        sign(Operator::Greater).len() == 1,
{
    reveal_strlit("<=");
    reveal_strlit(">=");
    reveal_strlit("!=");
    reveal_strlit("==");
    reveal_strlit("<");
    reveal_strlit(">");
    assert forall|a: Operator, b: Operator| #[trigger] sign(a) == #[trigger] sign(b) implies a == b by {
        assert(sign(a)[0] == sign(b)[0] && sign(a).len() == sign(b).len());
    }
}

proof fn lemma_operator_is_read(key: Seq<char>, joint: Seq<char>, op: Operator, value: Seq<char>)
    requires
        is_operand(key),
        is_operand(value),
        joint == seq![' '] + sign(op) + seq![' '],
    ensures
        operator_in(key + joint + value) == Some(op),
        comparison(key + joint + value) == Some((key, op, value)),
{
    let s = key + joint + value;
    let w = sign(op);
    lemma_signs_differ();
    lemma_sign_is_found(key, joint, value, w, sign(Operator::AtMost));
    lemma_sign_is_found(key, joint, value, w, sign(Operator::AtLeast));
    lemma_sign_is_found(key, joint, value, w, sign(Operator::NotEqual));
    lemma_sign_is_found(key, joint, value, w, sign(Operator::Equal));
    lemma_sign_is_found(key, joint, value, w, sign(Operator::Less));
    lemma_sign_is_found(key, joint, value, w, sign(Operator::Greater));
    let n = key.len() as int;
    assert(text::found(s, w) == Some(n + 1));
    assert(operator_in(s) == Some(op));
    assert(s.take(n + 1) =~= seq![] + key + seq![' ']);
    assert(s.skip(n + 1 + w.len()) =~= seq![' '] + value + seq![]);
    text::lemma_trimmed_is(seq![], key, seq![' ']);
    text::lemma_trimmed_is(seq![' '], value, seq![]);
}

// A plain comparison is one part of an expression, and is trimmed.
proof fn lemma_comparison_is_whole(key: Seq<char>, joint: Seq<char>, op: Operator, value: Seq<char>)
    requires
        is_operand(key),
        is_operand(value),
        joint == seq![' '] + sign(op) + seq![' '],
    ensures
        text::trimmed(key + joint + value) == key + joint + value,
        logic_parts(key + joint + value, " OR "@) == seq![key + joint + value],
        logic_parts(key + joint + value, " AND "@) == seq![key + joint + value],
{
    let s = key + joint + value;
    reveal_strlit("<=");
    reveal_strlit(">=");
    reveal_strlit("!=");
    reveal_strlit("==");
    reveal_strlit("<");
    reveal_strlit(">");
    let w = sign(op);
    let n = key.len() as int;
    assert(s[0] == key[0]);
    assert(s.last() == value.last());
    text::lemma_trimmed_is(seq![], s, seq![]);
    assert(seq![] + s + seq![] =~= s);
    lemma_joint_words();
    reveal_strlit(" OR ");
    reveal_strlit(" AND ");
    assert forall|k: int| 0 <= k < s.len() && #[trigger] s[k] == ' ' implies k == n || k == n + 1
        + w.len() by {
        if k < n {
            assert(s[k] == key[k]);
        } else if k >= n + joint.len() {
            assert(s[k] == value[k - n - joint.len()]);
        } else {
            assert(s[k] == joint[k - n]);
            if 0 < k - n < joint.len() - 1 {
                assert(joint[k - n] == w[k - n - 1]);
            }
        }
    }
    assert forall|k: int| !#[trigger] joins_at(s, " OR "@, k) by {
        if text::occurs_at(s, " OR "@, k) {
            lemma_char_at(s, " OR "@, k, 0);
            lemma_char_at(s, " OR "@, k, 1);
            lemma_char_at(s, " OR "@, k, 3);
            assert(s[k] == ' ' && s[k + 3] == ' ');
            assert(s[n + 1] == joint[1] && joint[1] == w[0]);
        }
    }
    assert forall|k: int| !#[trigger] joins_at(s, " AND "@, k) by {
        if text::occurs_at(s, " AND "@, k) {
            lemma_char_at(s, " AND "@, k, 0);
            lemma_char_at(s, " AND "@, k, 4);
            assert(s[k] == ' ' && s[k + 4] == ' ');
        }
    }
    lemma_single_part(s, " OR "@);
    lemma_single_part(s, " AND "@);
}

proof fn lemma_one_comparison(
    key: Seq<char>,
    joint: Seq<char>,
    op: Operator,
    value: Seq<char>,
    data: JsonView,
    rows: Seq<NumericRow>,
)
    requires
        is_operand(key),
        is_operand(value),
        joint == seq![' '] + sign(op) + seq![' '],
    ensures
        trigger_value(key + joint + value, data, rows) == (match json::member(data, key) {
            None => None,
            Some(v) => Some(
                match facts_from(rows, json::shown(v), value, 0) {
                    Some(facts) => numeric_holds(facts, op),
                    None => text_holds(json::shown(v), op, value),
                },
            ),
        }),
        trigger_fault(key + joint + value) is None,
        trigger_pairs(key + joint + value, data) == (match json::member(data, key) {
            None => seq![],
            Some(v) => seq![(json::shown(v), value)],
        }),
{
    let s = key + joint + value;
    lemma_comparison_is_whole(key, joint, op, value);
    lemma_operator_is_read(key, joint, op, value);
    let parts = seq![s];
    assert(parts[0] == s && parts.len() == 1);
    assert(or_value_from(parts, data, rows, 1) == Some(false));
    assert(and_value_from(parts, data, rows, 1) == Some(true));
    assert(or_fault_from(parts, 1) is None);
    assert(and_fault_from(parts, 1) is None);
    reveal_with_fuel(and_pairs_to, 2);
    reveal_with_fuel(or_pairs_to, 2);
    assert(trigger_pairs(s, data) =~= and_pairs(s, data));
    if let Some(v) = json::member(data, key) {
        assert(and_pairs(s, data) =~= seq![(json::shown(v), value)]);
    } else {
        assert(and_pairs(s, data) =~= seq![]);
    }
}

proof fn lemma_facts_are_found(
    rows: Seq<NumericRow>,
    left: Seq<char>,
    right: Seq<char>,
    l: int,
    r: int,
    i: int,
    k: int,
)
    requires
        0 <= i <= k < rows.len(),
        rows[k].left@ == left && rows[k].right@ == right,
        forall|j: int|
            0 <= j < rows.len() && (#[trigger] rows[j]).left@ == left && rows[j].right@ == right
                ==> are_facts_of(rows[j].facts, l, r),
    ensures
        facts_from(rows, left, right, i) matches Some(f) && are_facts_of(f, l, r),
    decreases k - i,
{
    if i < k {
        lemma_facts_are_found(rows, left, right, l, r, i + 1, k);
    }
}

proof fn lemma_no_facts(rows: Seq<NumericRow>, left: Seq<char>, right: Seq<char>, i: int)
    requires
        0 <= i,
        forall|j: int|
            0 <= j < rows.len() ==> !((#[trigger] rows[j]).left@ == left && rows[j].right@ == right),
    ensures
        facts_from(rows, left, right, i) is None,
    decreases rows.len() - i,
{
    if i < rows.len() {
        lemma_no_facts(rows, left, right, i + 1);
    }
}

proof fn lemma_joints_of_signs()
    ensures
        " <= "@ == seq![' '] + sign(Operator::AtMost) + seq![' '],
        " >= "@ == seq![' '] + sign(Operator::AtLeast) + seq![' '],
        " != "@ == seq![' '] + sign(Operator::NotEqual) + seq![' '],
        " == "@ == seq![' '] + sign(Operator::Equal) + seq![' '],
        " < "@ == seq![' '] + sign(Operator::Less) + seq![' '],
        " > "@ == seq![' '] + sign(Operator::Greater) + seq![' '],
{
    reveal_strlit(" <= ");
    reveal_strlit("<=");
    reveal_strlit(" >= ");
    reveal_strlit(">=");
    reveal_strlit(" != ");
    reveal_strlit("!=");
    reveal_strlit(" == ");
    reveal_strlit("==");
    reveal_strlit(" < ");
    reveal_strlit("<");
    reveal_strlit(" > ");
    reveal_strlit(">");
    assert(" <= "@ =~= seq![' '] + "<="@ + seq![' ']);
    assert(" >= "@ =~= seq![' '] + ">="@ + seq![' ']);
    assert(" != "@ =~= seq![' '] + "!="@ + seq![' ']);
    assert(" == "@ =~= seq![' '] + "=="@ + seq![' ']);
    assert(" < "@ =~= seq![' '] + "<"@ + seq![' ']);
    assert(" > "@ =~= seq![' '] + ">"@ + seq![' ']);
}

/// Where the value under a key and what it is compared with are numbers, a comparison fires exactly
/// when it holds of them.
pub proof fn lemma_numbers_are_compared(
    key: Seq<char>,
    value: Seq<char>,
    data: JsonView,
    rows: Seq<NumericRow>,
    l: int,
    r: int,
    k: int,
)
    requires
        is_operand(key),
        is_operand(value),
        json::member(data, key) is Some,
        0 <= k < rows.len(),
        rows[k].left@ == json::shown(json::member(data, key)->0),
        rows[k].right@ == value,
        forall|j: int|
            0 <= j < rows.len() && (#[trigger] rows[j]).left@ == json::shown(
                json::member(data, key)->0,
            ) && rows[j].right@ == value ==> are_facts_of(rows[j].facts, l, r),
    ensures
        fires(key + " <= "@ + value, data, rows) <==> l <= r,
        fires(key + " >= "@ + value, data, rows) <==> l >= r,
        fires(key + " != "@ + value, data, rows) <==> l != r,
        fires(key + " == "@ + value, data, rows) <==> l == r,
        fires(key + " < "@ + value, data, rows) <==> l < r,
        fires(key + " > "@ + value, data, rows) <==> l > r,
{
    lemma_joints_of_signs();
    lemma_facts_are_found(rows, json::shown(json::member(data, key)->0), value, l, r, 0, k);
    lemma_one_comparison(key, " <= "@, Operator::AtMost, value, data, rows);
    lemma_one_comparison(key, " >= "@, Operator::AtLeast, value, data, rows);
    lemma_one_comparison(key, " != "@, Operator::NotEqual, value, data, rows);
    lemma_one_comparison(key, " == "@, Operator::Equal, value, data, rows);
    lemma_one_comparison(key, " < "@, Operator::Less, value, data, rows);
    lemma_one_comparison(key, " > "@, Operator::Greater, value, data, rows);
}

/// Where one of the two is no number, a comparison fires exactly when it holds of the texts.
pub proof fn lemma_texts_are_compared(
    key: Seq<char>,
    value: Seq<char>,
    data: JsonView,
    rows: Seq<NumericRow>,
)
    requires
        is_operand(key),
        is_operand(value),
        json::member(data, key) is Some,
        forall|j: int|
            0 <= j < rows.len() ==> !((#[trigger] rows[j]).left@ == json::shown(
                json::member(data, key)->0,
            ) && rows[j].right@ == value),
    ensures
        ({
            let shown = json::shown(json::member(data, key)->0);
            &&& fires(key + " <= "@ + value, data, rows) <==> !text::precedes(value, shown)
            &&& fires(key + " >= "@ + value, data, rows) <==> !text::precedes(shown, value)
            &&& fires(key + " != "@ + value, data, rows) <==> shown != value
            &&& fires(key + " == "@ + value, data, rows) <==> shown == value
            &&& fires(key + " < "@ + value, data, rows) <==> text::precedes(shown, value)
            &&& fires(key + " > "@ + value, data, rows) <==> text::precedes(value, shown)
        }),
{
    lemma_joints_of_signs();
    lemma_no_facts(rows, json::shown(json::member(data, key)->0), value, 0);
    lemma_one_comparison(key, " <= "@, Operator::AtMost, value, data, rows);
    lemma_one_comparison(key, " >= "@, Operator::AtLeast, value, data, rows);
    lemma_one_comparison(key, " != "@, Operator::NotEqual, value, data, rows);
    lemma_one_comparison(key, " == "@, Operator::Equal, value, data, rows);
    lemma_one_comparison(key, " < "@, Operator::Less, value, data, rows);
    lemma_one_comparison(key, " > "@, Operator::Greater, value, data, rows);
}

/// A comparison of a key that the data does not have fires, whatever the operator.
pub proof fn lemma_missing_key_fires(
    key: Seq<char>,
    value: Seq<char>,
    data: JsonView,
    rows: Seq<NumericRow>,
)
    requires
        is_operand(key),
        is_operand(value),
        json::member(data, key) is None,
    ensures
        fires(key + " <= "@ + value, data, rows),
        fires(key + " >= "@ + value, data, rows),
        fires(key + " != "@ + value, data, rows),
        fires(key + " == "@ + value, data, rows),
        fires(key + " < "@ + value, data, rows),
        fires(key + " > "@ + value, data, rows),
{
    lemma_joints_of_signs();
    lemma_one_comparison(key, " <= "@, Operator::AtMost, value, data, rows);
    lemma_one_comparison(key, " >= "@, Operator::AtLeast, value, data, rows);
    lemma_one_comparison(key, " != "@, Operator::NotEqual, value, data, rows);
    lemma_one_comparison(key, " == "@, Operator::Equal, value, data, rows);
    lemma_one_comparison(key, " < "@, Operator::Less, value, data, rows);
    lemma_one_comparison(key, " > "@, Operator::Greater, value, data, rows);
}

/// Two words with an operator between them pass the validation, and the pair of texts that their
/// comparison is about is listed.
pub proof fn lemma_plain_comparisons_are_valid(
    key: Seq<char>,
    value: Seq<char>,
    data: JsonView,
    rows: Seq<NumericRow>,
)
    requires
        is_operand(key),
        is_operand(value),
    ensures
        trigger_fault(key + " <= "@ + value) is None,
        trigger_fault(key + " >= "@ + value) is None,
        trigger_fault(key + " != "@ + value) is None,
        trigger_fault(key + " == "@ + value) is None,
        trigger_fault(key + " < "@ + value) is None,
        trigger_fault(key + " > "@ + value) is None,
        json::member(data, key) matches Some(v) ==> trigger_pairs(key + " == "@ + value, data)
            == seq![(json::shown(v), value)],
{
    lemma_joints_of_signs();
    lemma_one_comparison(key, " <= "@, Operator::AtMost, value, data, rows);
    lemma_one_comparison(key, " >= "@, Operator::AtLeast, value, data, rows);
    lemma_one_comparison(key, " != "@, Operator::NotEqual, value, data, rows);
    lemma_one_comparison(key, " == "@, Operator::Equal, value, data, rows);
    lemma_one_comparison(key, " < "@, Operator::Less, value, data, rows);
    lemma_one_comparison(key, " > "@, Operator::Greater, value, data, rows);
}

proof fn lemma_or_faults_of_both(a: Seq<Seq<char>>, b: Seq<Seq<char>>, i: int)
    requires
        0 <= i <= a.len() + b.len(),
    ensures
        or_fault_from(a + b, i) == (if i < a.len() {
            match or_fault_from(a, i) {
                None => or_fault_from(b, 0),
                other => other,
            }
        } else {
            or_fault_from(b, i - a.len())
        }),
    decreases a.len() + b.len() - i,
{
    let all = a + b;
    if i < all.len() {
        lemma_or_faults_of_both(a, b, i + 1);
        if i < a.len() {
            assert(all[i] == a[i]);
        } else {
            assert(all[i] == b[i - a.len()]);
        }
    }
}

proof fn lemma_or_faults_alike(a: Seq<Seq<char>>, b: Seq<Seq<char>>, i: int)
    requires
        0 <= i,
        text::alike(a, b),
    ensures
        or_fault_from(a, i) == or_fault_from(b, i),
    decreases a.len() - i,
{
    if i < a.len() {
        assert(text::trimmed(a[i]) == text::trimmed(b[i]));
        lemma_or_faults_alike(a, b, i + 1);
    }
}

/// Two expressions joined by `OR` pass the validation exactly when both do, and the fault of the
/// first comes first.
pub proof fn lemma_joined_faults(p: Seq<char>, q: Seq<char>)
    requires
        text::trimmed(p).len() > 0,
        text::trimmed(q).len() > 0,
        quotes_apart(p, q),
        stands_apart(p),
        stands_apart(q),
    ensures
        trigger_fault(p + " OR "@ + q) is None <==> trigger_fault(p) is None && trigger_fault(q) is None,
        trigger_fault(p) is Some ==> trigger_fault(p + " OR "@ + q) == trigger_fault(p),
        trigger_fault(p) is None ==> trigger_fault(p + " OR "@ + q) == trigger_fault(q),
{
    let sep = " OR "@;
    lemma_joint_words();
    lemma_joined_parts(p, q, sep);
    let a = logic_parts(text::trimmed(p), sep);
    let b = logic_parts(text::trimmed(q), sep);
    lemma_or_faults_alike(logic_parts(text::trimmed(p + sep + q), sep), a + b, 0);
    lemma_or_faults_of_both(a, b, 0);
    assert(a.len() > 0);
}

/// A word without an operator is no comparison, and its fault names it; it fires all the same.
pub proof fn lemma_words_are_no_comparisons(word: Seq<char>, data: JsonView, rows: Seq<NumericRow>)
    requires
        is_operand(word),
    ensures
        trigger_fault(word) == Some(TriggerFault::NoOperator(word)),
        fires(word, data, rows),
{
    lemma_joint_words();
    reveal_strlit(" OR ");
    reveal_strlit(" AND ");
    reveal_strlit("<=");
    reveal_strlit(">=");
    reveal_strlit("!=");
    reveal_strlit("==");
    reveal_strlit("<");
    reveal_strlit(">");
    text::lemma_word_is_trimmed(word);
    assert forall|k: int| !#[trigger] joins_at(word, " OR "@, k) by {
        if text::occurs_at(word, " OR "@, k) {
            lemma_char_at(word, " OR "@, k, 0);
        }
    }
    assert forall|k: int| !#[trigger] joins_at(word, " AND "@, k) by {
        if text::occurs_at(word, " AND "@, k) {
            lemma_char_at(word, " AND "@, k, 0);
        }
    }
    lemma_single_part(word, " OR "@);
    lemma_single_part(word, " AND "@);
    lemma_holds_no_sign(word, "<="@);
    lemma_holds_no_sign(word, ">="@);
    lemma_holds_no_sign(word, "!="@);
    lemma_holds_no_sign(word, "=="@);
    lemma_holds_no_sign(word, "<"@);
    lemma_holds_no_sign(word, ">"@);
    assert(comparison(word) is None);
    let parts = seq![word];
    assert(parts[0] == word);
    assert(and_value(word, data, rows) is None);
}

proof fn lemma_holds_no_sign(word: Seq<char>, pat: Seq<char>)
    requires
        is_operand(word),
        pat.len() > 0,
        in_operator(pat[0]),
    ensures
        !text::has(word, pat),
{
    text::lemma_found_from(word, pat, 0);
    if let Some(k) = text::found(word, pat) {
        lemma_char_at(word, pat, k, 0);
    }
}

proof fn lemma_first_facts(
    rows: Seq<NumericRow>,
    left: Seq<char>,
    right: Seq<char>,
    i: int,
    k: int,
)
    requires
        0 <= i <= k < rows.len(),
        rows[k].left@ == left && rows[k].right@ == right,
        forall|j: int|
            i <= j < k ==> !((#[trigger] rows[j]).left@ == left && rows[j].right@ == right),
    ensures
        facts_from(rows, left, right, i) == Some(rows[k].facts),
    decreases k - i,
{
    if i < k {
        lemma_first_facts(rows, left, right, i + 1, k);
    }
}

/// A comparison of two numbers goes by the fact that its operator asks for, as the first row on the
/// two texts has it.
pub proof fn lemma_facts_decide(
    key: Seq<char>,
    value: Seq<char>,
    data: JsonView,
    rows: Seq<NumericRow>,
    k: int,
)
    requires
        is_operand(key),
        is_operand(value),
        json::member(data, key) is Some,
        0 <= k < rows.len(),
        rows[k].left@ == json::shown(json::member(data, key)->0),
        rows[k].right@ == value,
        forall|j: int|
            0 <= j < k ==> !((#[trigger] rows[j]).left@ == json::shown(
                json::member(data, key)->0,
            ) && rows[j].right@ == value),
    ensures
        fires(key + " <= "@ + value, data, rows) <==> rows[k].facts.at_most,
        fires(key + " >= "@ + value, data, rows) <==> rows[k].facts.at_least,
        fires(key + " != "@ + value, data, rows) <==> rows[k].facts.apart,
        fires(key + " == "@ + value, data, rows) <==> rows[k].facts.close,
        fires(key + " < "@ + value, data, rows) <==> rows[k].facts.less,
        fires(key + " > "@ + value, data, rows) <==> rows[k].facts.greater,
{
    lemma_joints_of_signs();
    lemma_first_facts(rows, json::shown(json::member(data, key)->0), value, 0, k);
    lemma_one_comparison(key, " <= "@, Operator::AtMost, value, data, rows);
    lemma_one_comparison(key, " >= "@, Operator::AtLeast, value, data, rows);
    lemma_one_comparison(key, " != "@, Operator::NotEqual, value, data, rows);
    lemma_one_comparison(key, " == "@, Operator::Equal, value, data, rows);
    lemma_one_comparison(key, " < "@, Operator::Less, value, data, rows);
    lemma_one_comparison(key, " > "@, Operator::Greater, value, data, rows);
}

#[verifier::spinoff_prover]
#[verifier::rlimit(40)]
proof fn lemma_sign_between(a: Seq<char>, w: Seq<char>, b: Seq<char>, pat: Seq<char>)
    requires
        forall|k: int| 0 <= k < a.len() ==> !in_operator(#[trigger] a[k]),
        forall|k: int| 0 <= k < b.len() ==> !in_operator(#[trigger] b[k]),
        pat.len() > 0,
        forall|i: int| 0 <= i < pat.len() ==> in_operator(#[trigger] pat[i]),
    ensures
        pat == w ==> text::found(a + w + b, pat) == Some(a.len() as int),
        text::has(a + w + b, pat) ==> pat.len() <= w.len(),
        text::has(a + w + b, pat) && pat.len() == w.len() ==> pat == w,
{
    let s = a + w + b;
    let n = a.len() as int;
    text::lemma_found_from(s, pat, 0);
    match text::found(s, pat) {
        Some(k) => {
            lemma_char_at(s, pat, k, 0);
            lemma_char_at(s, pat, k, pat.len() - 1);
            if k < n {
                assert(s[k] == a[k]);
            }
            let e = k + pat.len() - 1;
            if e >= n + w.len() {
                assert(s[e] == b[e - n - w.len()]);
            }
            assert(n <= k && k + pat.len() <= n + w.len());
            if pat.len() == w.len() {
                assert(k == n);
                assert(s.subrange(n, n + w.len()) =~= w);
            }
        },
        None => {
            if pat == w {
                assert(s.subrange(n, n + w.len()) =~= w);
                assert(text::occurs_at(s, pat, n));
            }
        },
    }
}

proof fn lemma_operator_between(a: Seq<char>, op: Operator, b: Seq<char>)
    requires
        forall|k: int| 0 <= k < a.len() ==> !in_operator(#[trigger] a[k]),
        forall|k: int| 0 <= k < b.len() ==> !in_operator(#[trigger] b[k]),
    ensures
        comparison(a + sign(op) + b) == Some((text::trimmed(a), op, text::trimmed(b))),
{
    let s = a + sign(op) + b;
    let w = sign(op);
    lemma_signs_differ();
    lemma_sign_between(a, w, b, sign(Operator::AtMost));
    lemma_sign_between(a, w, b, sign(Operator::AtLeast));
    lemma_sign_between(a, w, b, sign(Operator::NotEqual));
    lemma_sign_between(a, w, b, sign(Operator::Equal));
    lemma_sign_between(a, w, b, sign(Operator::Less));
    lemma_sign_between(a, w, b, sign(Operator::Greater));
    let n = a.len() as int;
    assert(operator_in(s) == Some(op));
    assert(s.take(n) =~= a);
    assert(s.skip(n + w.len()) =~= b);
}

proof fn lemma_one_blank_is_whole(s: Seq<char>, at: int)
    requires
        s.len() > 0,
        !text::white(s[0]),
        !text::white(s.last()),
        forall|k: int| 0 <= k < s.len() && #[trigger] s[k] == ' ' ==> k == at,
    ensures
        text::trimmed(s) == s,
        logic_parts(s, " OR "@) == seq![s],
        logic_parts(s, " AND "@) == seq![s],
{
    text::lemma_trimmed_is(seq![], s, seq![]);
    assert(seq![] + s + seq![] =~= s);
    lemma_joint_words();
    reveal_strlit(" OR ");
    reveal_strlit(" AND ");
    assert forall|k: int| !#[trigger] joins_at(s, " OR "@, k) by {
        if text::occurs_at(s, " OR "@, k) {
            lemma_char_at(s, " OR "@, k, 0);
            lemma_char_at(s, " OR "@, k, 3);
            assert(s[k] == ' ' && s[k + 3] == ' ');
        }
    }
    assert forall|k: int| !#[trigger] joins_at(s, " AND "@, k) by {
        if text::occurs_at(s, " AND "@, k) {
            lemma_char_at(s, " AND "@, k, 0);
            lemma_char_at(s, " AND "@, k, 4);
            assert(s[k] == ' ' && s[k + 4] == ' ');
        }
    }
    lemma_single_part(s, " OR "@);
    lemma_single_part(s, " AND "@);
}

proof fn lemma_fault_of_one(s: Seq<char>)
    requires
        text::trimmed(s) == s,
        logic_parts(s, " OR "@) == seq![s],
        logic_parts(s, " AND "@) == seq![s],
    ensures
        trigger_fault(s) == comparison_fault(s),
{
    let parts = seq![s];
    assert(parts[0] == s && parts.len() == 1);
    assert(or_fault_from(parts, 1) is None);
    assert(and_fault_from(parts, 1) is None);
}

proof fn lemma_side_is_missing(op: Operator, x: Seq<char>)
    requires
        is_operand(x),
    ensures
        trigger_fault(sign(op) + (seq![' '] + x)) == Some(
            TriggerFault::EmptyLeft(sign(op) + (seq![' '] + x)),
        ),
        trigger_fault((x + seq![' ']) + sign(op)) == Some(
            TriggerFault::EmptyRight((x + seq![' ']) + sign(op)),
        ),
{
    lemma_signs_differ();
    let w = sign(op);
    let none = Seq::<char>::empty();
    let b = seq![' '] + x;
    let a = x + seq![' '];
    assert forall|k: int| 0 <= k < b.len() implies !in_operator(#[trigger] b[k]) by {
        if k > 0 {
            assert(b[k] == x[k - 1]);
        }
    }
    assert forall|k: int| 0 <= k < a.len() implies !in_operator(#[trigger] a[k]) by {
        if k < x.len() {
            assert(a[k] == x[k]);
        }
    }
    lemma_operator_between(none, op, b);
    lemma_operator_between(a, op, none);
    let l = w + b;
    let r = a + w;
    assert(none + w + b =~= l);
    assert(a + w + none =~= r);
    assert(text::trimmed(none).len() == 0) by {
        text::lemma_blank_is_white(none);
    }
    text::lemma_trimmed_is(seq![' '], x, seq![]);
    assert(seq![' '] + x + seq![] =~= b);
    text::lemma_trimmed_is(seq![], x, seq![' ']);
    assert(seq![] + x + seq![' '] =~= a);
    assert(in_operator(w[0]) && in_operator(w.last()));
    assert(l[0] == w[0] && l.last() == x.last());
    assert(r[0] == x[0] && r.last() == w.last());
    assert forall|k: int| 0 <= k < l.len() && #[trigger] l[k] == ' ' implies k == w.len() by {
        if k < w.len() {
            assert(l[k] == w[k]);
        } else if k > w.len() {
            assert(l[k] == x[k - w.len() - 1]);
        }
    }
    assert forall|k: int| 0 <= k < r.len() && #[trigger] r[k] == ' ' implies k == x.len() by {
        if k < x.len() {
            assert(r[k] == x[k]);
        } else if k > x.len() {
            assert(r[k] == w[k - x.len() - 1]);
        }
    }
    lemma_one_blank_is_whole(l, w.len() as int);
    lemma_one_blank_is_whole(r, x.len() as int);
    lemma_fault_of_one(l);
    lemma_fault_of_one(r);
}

/// A comparison that lacks its left side or its right side does not pass the validation, whatever
/// its operator, and the fault names the comparison.
pub proof fn lemma_both_sides_are_required(x: Seq<char>)
    requires
        is_operand(x),
    ensures
        trigger_fault("<="@ + (seq![' '] + x)) == Some(
            TriggerFault::EmptyLeft("<="@ + (seq![' '] + x)),
        ),
        trigger_fault((x + seq![' ']) + "<="@) == Some(
            TriggerFault::EmptyRight((x + seq![' ']) + "<="@),
        ),
        trigger_fault(">="@ + (seq![' '] + x)) == Some(
            TriggerFault::EmptyLeft(">="@ + (seq![' '] + x)),
        ),
        trigger_fault((x + seq![' ']) + ">="@) == Some(
            TriggerFault::EmptyRight((x + seq![' ']) + ">="@),
        ),
        trigger_fault("!="@ + (seq![' '] + x)) == Some(
            TriggerFault::EmptyLeft("!="@ + (seq![' '] + x)),
        ),
        trigger_fault((x + seq![' ']) + "!="@) == Some(
            TriggerFault::EmptyRight((x + seq![' ']) + "!="@),
        ),
        trigger_fault("=="@ + (seq![' '] + x)) == Some(
            TriggerFault::EmptyLeft("=="@ + (seq![' '] + x)),
        ),
        trigger_fault((x + seq![' ']) + "=="@) == Some(
            TriggerFault::EmptyRight((x + seq![' ']) + "=="@),
        ),
        trigger_fault("<"@ + (seq![' '] + x)) == Some(
            TriggerFault::EmptyLeft("<"@ + (seq![' '] + x)),
        ),
        trigger_fault((x + seq![' ']) + "<"@) == Some(
            TriggerFault::EmptyRight((x + seq![' ']) + "<"@),
        ),
        trigger_fault(">"@ + (seq![' '] + x)) == Some(
            TriggerFault::EmptyLeft(">"@ + (seq![' '] + x)),
        ),
        trigger_fault((x + seq![' ']) + ">"@) == Some(
            TriggerFault::EmptyRight((x + seq![' ']) + ">"@),
        ),
{
    lemma_side_is_missing(Operator::AtMost, x);
    lemma_side_is_missing(Operator::AtLeast, x);
    lemma_side_is_missing(Operator::NotEqual, x);
    lemma_side_is_missing(Operator::Equal, x);
    lemma_side_is_missing(Operator::Less, x);
    lemma_side_is_missing(Operator::Greater, x);
}

proof fn lemma_and_faults_of_both(a: Seq<Seq<char>>, b: Seq<Seq<char>>, i: int)
    requires
        0 <= i <= a.len() + b.len(),
    ensures
        and_fault_from(a + b, i) == (if i < a.len() {
            match and_fault_from(a, i) {
                None => and_fault_from(b, 0),
                other => other,
            }
        } else {
            and_fault_from(b, i - a.len())
        }),
    decreases a.len() + b.len() - i,
{
    let all = a + b;
    if i < all.len() {
        lemma_and_faults_of_both(a, b, i + 1);
        if i < a.len() {
            assert(all[i] == a[i]);
        } else {
            assert(all[i] == b[i - a.len()]);
        }
    }
}

proof fn lemma_and_faults_alike(a: Seq<Seq<char>>, b: Seq<Seq<char>>, i: int)
    requires
        0 <= i,
        text::alike(a, b),
    ensures
        and_fault_from(a, i) == and_fault_from(b, i),
    decreases a.len() - i,
{
    if i < a.len() {
        assert(text::trimmed(a[i]) == text::trimmed(b[i]));
        lemma_and_faults_alike(a, b, i + 1);
    }
}

proof fn lemma_fault_of_conjunction(p: Seq<char>)
    requires
        is_conjunction(p),
    ensures
        trigger_fault(p) == and_fault_from(logic_parts(text::trimmed(p), " AND "@), 0),
{
    let t = text::trimmed(p);
    let r = text::lemma_trimmed(p);
    text::lemma_trimmed_is(seq![], t, seq![]);
    assert(seq![] + t + seq![] =~= t);
    lemma_joint_words();
    lemma_single_part(t, " OR "@);
    let parts = seq![t];
    assert(parts[0] == t && parts.len() == 1);
    assert(or_fault_from(parts, 1) is None);
}

/// Two expressions without alternatives joined by `AND` pass the validation exactly when both do,
/// and the fault of the first comes first.
pub proof fn lemma_joined_conditions_faults(p: Seq<char>, q: Seq<char>)
    requires
        text::trimmed(p).len() > 0,
        text::trimmed(q).len() > 0,
        quotes_apart(p, q),
        stands_apart(p),
        stands_apart(q),
        is_conjunction(p),
        is_conjunction(q),
    ensures
        trigger_fault(p + " AND "@ + q) is None <==> trigger_fault(p) is None && trigger_fault(q)
            is None,
        trigger_fault(p) is Some ==> trigger_fault(p + " AND "@ + q) == trigger_fault(p),
        trigger_fault(p) is None ==> trigger_fault(p + " AND "@ + q) == trigger_fault(q),
{
    let sep = " AND "@;
    lemma_joint_words();
    lemma_joined_parts(p, q, sep);
    lemma_and_brings_no_or(p, q);
    lemma_fault_of_conjunction(p + sep + q);
    lemma_fault_of_conjunction(p);
    lemma_fault_of_conjunction(q);
    let a = logic_parts(text::trimmed(p), sep);
    let b = logic_parts(text::trimmed(q), sep);
    lemma_and_faults_alike(logic_parts(text::trimmed(p + sep + q), sep), a + b, 0);
    lemma_and_faults_of_both(a, b, 0);
    assert(a.len() > 0);
}

/// A fault is told in words that name what is missing and hold the expression.
pub proof fn lemma_faults_are_told(expr: Seq<char>)
    ensures
        fault_message(TriggerFault::NoOperator(expr)) == "No comparison operator found in: "@
            + text::quoted(expr),
        fault_message(TriggerFault::EmptyLeft(expr)) == "Empty left-hand side in: "@ + text::quoted(
            expr,
        ),
        fault_message(TriggerFault::EmptyRight(expr)) == "Empty right-hand side in: "@
            + text::quoted(expr),
{
}

proof fn lemma_inside_quotes(a: Seq<char>, q: char, m: Seq<char>, b: Seq<char>, i: int)
    requires
        q == '"' || q == '\'',
        !a.contains('"') && !a.contains('\''),
        !m.contains(q),
        0 <= i <= a.len() + 1 + m.len(),
    ensures
        i <= a.len() ==> quote_at(a + seq![q] + m + seq![q] + b, i) is None,
        i > a.len() ==> quote_at(a + seq![q] + m + seq![q] + b, i) == Some(q),
    decreases i,
{
    let s = a + seq![q] + m + seq![q] + b;
    let n = a.len() as int;
    if i > 0 {
        lemma_inside_quotes(a, q, m, b, i - 1);
        if i <= n {
            assert(s[i - 1] == a[i - 1]);
            assert(a.contains(a[i - 1]));
        } else if i == n + 1 {
            assert(s[i - 1] == q);
            assert(s[n + 1 + m.len()] == q);
            assert(comes_after(s, q, i));
        } else {
            assert(s[i - 1] == m[i - 2 - n]);
            assert(m.contains(m[i - 2 - n]));
        }
    }
}

/// What stands in double or in single quotes is one piece: a joint inside of them joins nothing.
pub proof fn lemma_quoted_joints_do_not_count(
    a: Seq<char>,
    q: char,
    m: Seq<char>,
    b: Seq<char>,
)
    requires
        q == '"' || q == '\'',
        !a.contains('"') && !a.contains('\''),
        !m.contains(q),
        !text::has(a, " OR "@) && !text::has(a, " AND "@),
        !text::has(b, " OR "@) && !text::has(b, " AND "@),
    ensures
        logic_parts(a + seq![q] + m + seq![q] + b, " OR "@) == seq![
            a + seq![q] + m + seq![q] + b,
        ],
        logic_parts(a + seq![q] + m + seq![q] + b, " AND "@) == seq![
            a + seq![q] + m + seq![q] + b,
        ],
{
    lemma_joint_words();
    reveal_strlit(" OR ");
    reveal_strlit(" AND ");
    lemma_no_joint_outside(a, q, m, b, " OR "@);
    lemma_no_joint_outside(a, q, m, b, " AND "@);
}

proof fn lemma_no_joint_outside(a: Seq<char>, q: char, m: Seq<char>, b: Seq<char>, sep: Seq<char>)
    requires
        q == '"' || q == '\'',
        !a.contains('"') && !a.contains('\''),
        !m.contains(q),
        sep.len() > 0,
        !sep.contains(q),
        !text::has(a, sep),
        !text::has(b, sep),
    ensures
        logic_parts(a + seq![q] + m + seq![q] + b, sep) == seq![a + seq![q] + m + seq![q] + b],
{
    let s = a + seq![q] + m + seq![q] + b;
    let n = a.len() as int;
    let e = n + 1 + m.len();
    text::lemma_found_from(a, sep, 0);
    text::lemma_found_from(b, sep, 0);
    assert forall|k: int| !#[trigger] joins_at(s, sep, k) by {
        if text::occurs_at(s, sep, k) {
            if k <= n < k + sep.len() {
                lemma_char_at(s, sep, k, n - k);
                assert(s[n] == q);
                assert(sep.contains(sep[n - k]));
            } else if k <= e < k + sep.len() {
                lemma_char_at(s, sep, k, e - k);
                assert(s[e] == q);
                assert(sep.contains(sep[e - k]));
            } else if k + sep.len() <= n {
                assert(s.subrange(k, k + sep.len()) =~= a.subrange(k, k + sep.len()));
                assert(text::occurs_at(a, sep, k));
            } else if k > e {
                let j = k - e - 1;
                assert(s.subrange(k, k + sep.len()) =~= b.subrange(j, j + sep.len()));
                assert(text::occurs_at(b, sep, j));
            } else {
                lemma_inside_quotes(a, q, m, b, k);
            }
        }
    }
    lemma_single_part(s, sep);
}

proof fn lemma_without_quotes_is_unquoted(p: Seq<char>, q: Seq<char>)
    requires
        !p.contains('"') && !p.contains('\''),
    ensures
        quotes_apart(p, q),
{
    assert forall|i: int| 0 <= i < p.len() implies !#[trigger] lone_at(p, i) by {
        assert(p.contains(p[i]));
    }
}

/// Two expressions joined by `OR` evaluate to the or of both where the first holds neither a double
/// nor a single quote, and joined by `AND` to the and of both where they have no alternatives.
pub proof fn lemma_plain_expressions_join(
    p: Seq<char>,
    q: Seq<char>,
    data: JsonView,
    rows: Seq<NumericRow>,
)
    requires
        !p.contains('"') && !p.contains('\''),
        trigger_fault(p) is None,
        trigger_fault(q) is None,
        has_keys(p, data),
        has_keys(q, data),
        stands_apart(p),
        stands_apart(q),
    ensures
        fires(p + " OR "@ + q, data, rows) == (fires(p, data, rows) || fires(q, data, rows)),
        !text::has(text::trimmed(p), " OR "@) && !text::has(text::trimmed(q), " OR "@) ==> fires(
            p + " AND "@ + q,
            data,
            rows,
        ) == (fires(p, data, rows) && fires(q, data, rows)),
{
    lemma_without_quotes_is_unquoted(p, q);
    lemma_or_joins(p, q, data, rows);
    if !text::has(text::trimmed(p), " OR "@) && !text::has(text::trimmed(q), " OR "@) {
        lemma_no_or_is_conjunction(p);
        lemma_no_or_is_conjunction(q);
        lemma_and_joins(p, q, data, rows);
    }
}

/// A validation that passes finds no fault, and one that fails finds the fault that it reports.
pub proof fn lemma_validations_report_their_fault(e: TriggerError)
    ensures
        fault_of(Ok(())) is None,
        fault_of(Err(e)) == Some(e@),
        e matches TriggerError::NoOperator(s) ==> e@ == TriggerFault::NoOperator(s@),
        e matches TriggerError::EmptyLeft(s) ==> e@ == TriggerFault::EmptyLeft(s@),
        e matches TriggerError::EmptyRight(s) ==> e@ == TriggerFault::EmptyRight(s@),
{
}

} // verus!
