//! File paths as text.
use vstd::prelude::*;
use crate::text;

verus! {

/// A path below another: an absolute path stands for itself, any other follows the base and a
/// slash.
pub open spec fn below(base: Seq<char>, part: Seq<char>) -> Seq<char> {
    if text::begins(part, "/"@) {
        part
    } else if base.len() == 0 || text::ends(base, "/"@) {
        base + part
    } else {
        base + "/"@ + part
    }
}

/// Joins a path to its base.
pub fn join(base: &str, part: &str) -> (r: String)
    ensures
        r@ == below(base@, part@),
{
    if text::starts_with(part, "/") {
        return part.to_string();
    }
    let mut out = base.to_string();
    if text::char_count(base) > 0 && text::strip_suffix(base, "/").is_none() {
        out.append("/");
    }
    out.append(part);
    out
}

/// The names that lead from the root along the first `n` steps: an empty step and `.` stay, and
/// `..` goes up, at the root nowhere.
pub open spec fn names_to(steps: Seq<Seq<char>>, n: int) -> Seq<Seq<char>>
    decreases n,
{
    if n <= 0 {
        seq![]
    } else {
        let before = names_to(steps, n - 1);
        if steps[n - 1].len() == 0 || steps[n - 1] == "."@ {
            before
        } else if steps[n - 1] == ".."@ {
            if before.len() > 0 {
                before.drop_last()
            } else {
                before
            }
        } else {
            before.push(steps[n - 1])
        }
    }
}

/// Where an absolute path leads by its text alone.
pub open spec fn lexical(p: Seq<char>) -> Seq<char> {
    let steps = text::pieces(p, "/"@);
    "/"@ + text::joined(names_to(steps, steps.len() as int), "/"@)
}

/// Says where an absolute path leads by its text alone.
pub fn resolve_lexically(p: &str) -> (r: String)
    ensures
        r@ == lexical(p@),
{
    proof {
        reveal_strlit("/");
    }
    let steps = text::split(p, "/");
    let ghost views = text::pieces(p@, "/"@);
    let mut names: Vec<String> = Vec::new();
    let mut i: usize = 0;
    assert(text::views(names@) =~= names_to(views, 0));
    while i < steps.len()
        invariant
            i <= steps@.len(),
            text::views(steps@) == views,
            text::views(names@) =~= names_to(views, i as int),
        decreases steps@.len() - i,
    {
        assert(views[i as int] == steps@[i as int]@);
        let ghost before = names@;
        assert(text::views(before).len() == before.len());
        let step = steps[i].as_str();
        if text::char_count(step) == 0 || text::same(step, ".") {
        } else if text::same(step, "..") {
            let _ = names.pop();
            proof {
                if before.len() > 0 {
                    assert(text::views(names@) =~= text::views(before).drop_last());
                }
            }
        } else {
            names.push(steps[i].clone());
            assert(text::views(names@) =~= text::views(before).push(views[i as int]));
        }
        i = i + 1;
    }
    assert(views.len() == steps@.len());
    let mut out = "/".to_string();
    out.append(text::join(&names, "/").as_str());
    out
}

/// The last of the first `n` steps that is a name or goes up; empty where there is none.
pub open spec fn last_to(steps: Seq<Seq<char>>, n: int) -> Seq<char>
    decreases n,
{
    if n <= 0 {
        seq![]
    } else if steps[n - 1].len() == 0 || steps[n - 1] == "."@ {
        last_to(steps, n - 1)
    } else {
        steps[n - 1]
    }
}

/// The last step of a path.
pub open spec fn last(p: Seq<char>) -> Seq<char> {
    let steps = text::pieces(p, "/"@);
    last_to(steps, steps.len() as int)
}

/// The last step of a path.
pub fn last_step(p: &str) -> (r: String)
    ensures
        r@ == last(p@),
{
    proof {
        reveal_strlit("/");
    }
    let steps = text::split(p, "/");
    let ghost views = text::pieces(p@, "/"@);
    let mut n: usize = steps.len();
    assert(views.len() == steps@.len());
    while n > 0
        invariant
            n <= steps@.len(),
            text::views(steps@) == views,
            views == text::pieces(p@, "/"@),
            last(p@) == last_to(views, n as int),
        decreases n,
    {
        assert(views[n - 1] == steps@[n - 1]@);
        let step = steps[n - 1].as_str();
        if text::char_count(step) > 0 && !text::same(step, ".") {
            return steps[n - 1].clone();
        }
        n = n - 1;
    }
    String::new()
}

/// A path below a base begins with the base, unless it is absolute and stands for itself; between
/// the two stands one slash.
pub proof fn lemma_below_follows_base(base: Seq<char>, part: Seq<char>)
    ensures
        part.len() > 0 && part[0] == '/' ==> below(base, part) == part,
        (part.len() == 0 || part[0] != '/') && base.len() > 0 && base.last() != '/' ==> below(
            base,
            part,
        ) == base + seq!['/'] + part,
        (part.len() == 0 || part[0] != '/') && base.len() > 0 && base.last() == '/' ==> below(
            base,
            part,
        ) == base + part,
        (part.len() == 0 || part[0] != '/') && base.len() == 0 ==> below(base, part) == part,
{
    reveal_strlit("/");
    let slash = "/"@;
    assert(slash =~= seq!['/']);
    if part.len() > 0 {
        assert(part.subrange(0, 1) =~= seq![part[0]]);
        assert(part.subrange(0, 1)[0] == part[0]);
        assert(slash[0] == '/');
    }
    if base.len() > 0 {
        let n = base.len() as int;
        assert(base.subrange(n - 1, n) =~= seq![base.last()]);
        assert(base.subrange(n - 1, n)[0] == base.last());
        assert(slash[0] == '/');
    }
    assert(Seq::<char>::empty() + part =~= part);
    if base.len() == 0 {
        assert(base + part =~= part);
    }
}

/// Where a path leads by its text is told by names alone: no step of it stays or goes up.
pub proof fn lemma_lexical_steps_are_names(steps: Seq<Seq<char>>, n: int, i: int)
    requires
        n <= steps.len(),
        0 <= i < names_to(steps, n).len(),
    ensures
        names_to(steps, n)[i].len() > 0,
        names_to(steps, n)[i] != "."@,
        names_to(steps, n)[i] != ".."@,
    decreases n,
{
    if n > 0 {
        let before = names_to(steps, n - 1);
        if i < before.len() {
            lemma_lexical_steps_are_names(steps, n - 1, i);
        }
    }
}

proof fn lemma_names_prefix(a: Seq<Seq<char>>, b: Seq<Seq<char>>, n: int)
    requires
        n <= a.len(),
        n <= b.len(),
        forall|k: int| 0 <= k < n ==> #[trigger] a[k] == b[k],
    ensures
        names_to(a, n) == names_to(b, n),
        last_to(a, n) == last_to(b, n),
    decreases n,
{
    if n > 0 {
        lemma_names_prefix(a, b, n - 1);
    }
}

/// One more step goes down by its name, up by `..`, and nowhere by `.` or by nothing.
pub proof fn lemma_steps_lead_on(steps: Seq<Seq<char>>, step: Seq<char>)
    ensures
        ({
            let n = steps.len() as int;
            let before = names_to(steps, n);
            let after = names_to(steps.push(step), n + 1);
            &&& step.len() == 0 || step == "."@ ==> after == before
            &&& step == ".."@ && before.len() > 0 ==> after == before.drop_last()
            &&& step == ".."@ && before.len() == 0 ==> after == before
            &&& step.len() > 0 && step != "."@ && step != ".."@ ==> after == before.push(step)
        }),
        names_to(steps, 0) == Seq::<Seq<char>>::empty(),
{
    reveal_strlit(".");
    reveal_strlit("..");
    assert("."@.len() == 1 && ".."@.len() == 2);
    lemma_names_prefix(steps, steps.push(step), steps.len() as int);
}

/// The last step of a path is what follows its last slash, where that is a name; a slash or `.` at
/// the end does not count.
pub proof fn lemma_last_is_the_name(dir: Seq<char>, name: Seq<char>)
    requires
        !name.contains('/'),
    ensures
        name.len() > 0 && name != "."@ ==> last(dir + seq!['/'] + name) == name,
        name.len() > 0 && name != "."@ ==> last(name) == name,
        name.len() == 0 || name == "."@ ==> last(dir + seq!['/'] + name) == last(dir),
{
    reveal_strlit("/");
    assert("/"@ =~= seq!['/']);
    text::lemma_last_piece(dir, '/', name);
    let steps = text::pieces(dir, "/"@);
    let n = steps.len() as int;
    lemma_names_prefix(steps, steps.push(name), n);
    assert(steps.push(name)[n] == name);
    assert(seq![name][0] == name);
}

} // verus!
