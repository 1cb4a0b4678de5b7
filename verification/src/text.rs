//! Text primitives over sequences of characters.
//!
//! Each executable function has a specification function of the same meaning on `Seq<char>`;
//! the rest of the crate states its contracts over those specification functions.
use vstd::prelude::*;

verus! {

// ---------------------------------------------------------------------------
// Characters and conversions
// ---------------------------------------------------------------------------
/// The Unicode `White_Space` property.
pub open spec fn white(c: char) -> bool {
    let n = c as u32;
    ||| 0x9 <= n <= 0xd
    ||| n == 0x20
    ||| n == 0x85
    ||| n == 0xa0
    ||| n == 0x1680
    ||| 0x2000 <= n <= 0x200a
    ||| n == 0x2028
    ||| n == 0x2029
    ||| n == 0x202f
    ||| n == 0x205f
    ||| n == 0x3000
}

/// Tells whether `c` is white space.
pub fn is_white(c: char) -> (r: bool)
    ensures
        r == white(c),
{
    let n: u32 = c as u32;
    (0x9 <= n && n <= 0xd) || n == 0x20 || n == 0x85 || n == 0xa0 || n == 0x1680 || (0x2000 <= n
        && n <= 0x200a) || n == 0x2028 || n == 0x2029 || n == 0x202f || n == 0x205f || n == 0x3000
}

/// The characters of a string, in order.
pub fn chars_of(s: &str) -> (r: Vec<char>)
    ensures
        r@ == s@,
{
    let mut out: Vec<char> = Vec::new();
    for c in it: s.chars()
        invariant
            out@ == s@.take(it.index()),
            it.seq() == s@,
    {
        out.push(c);
        assert(s@.take(it.index() + 1) =~= s@.take(it.index()).push(s@[it.index()]));
    }
    assert(s@.take(s@.len() as int) =~= s@);
    out
}

/// Builds a string from characters.
///
/// Calls `String::from_iter` of the standard library: the string holds the given characters, in
/// the given order.
#[verifier::external_body]
pub(crate) fn string_of(chars: &Vec<char>) -> (r: String)
    ensures
        r@ == chars@,
{
    String::from_iter(chars.iter())
}

/// The string made of the characters `from..to` of `chars`.
pub fn slice_of(chars: &Vec<char>, from: usize, to: usize) -> (r: String)
    requires
        from <= to <= chars@.len(),
    ensures
        r@ == chars@.subrange(from as int, to as int),
{
    let mut out: Vec<char> = Vec::new();
    let mut i: usize = from;
    while i < to
        invariant
            from <= i <= to <= chars@.len(),
            out@ == chars@.subrange(from as int, i as int),
        decreases to - i,
    {
        out.push(chars[i]);
        i = i + 1;
        assert(chars@.subrange(from as int, i as int) =~= chars@.subrange(
            from as int,
            i - 1,
        ).push(chars@[i - 1]));
    }
    string_of(&out)
}

/// The contents of the strings of a vector.
pub open spec fn views(parts: Seq<String>) -> Seq<Seq<char>> {
    parts.map_values(|p: String| p@)
}

/// The contents of a vector of pairs.
pub open spec fn pair_views(pairs: Seq<(String, String)>) -> Seq<(Seq<char>, Seq<char>)> {
    pairs.map_values(|p: (String, String)| (p.0@, p.1@))
}

/// The contents of an optional string.
pub open spec fn opt(s: Option<String>) -> Option<Seq<char>> {
    match s {
        Some(t) => Some(t@),
        None => None,
    }
}

/// The contents of the optional strings of a vector.
pub open spec fn opt_views(parts: Seq<Option<String>>) -> Seq<Option<Seq<char>>> {
    parts.map_values(|p: Option<String>| opt(p))
}

/// Copies an optional string.
pub fn copy_opt(s: &Option<String>) -> (r: Option<String>)
    ensures
        opt(r) == opt(*s),
{
    match s {
        Some(t) => Some(t.clone()),
        None => None,
    }
}

/// Copies a vector of strings.
pub fn copy_all(parts: &Vec<String>) -> (r: Vec<String>)
    ensures
        r@ == parts@,
{
    let mut out: Vec<String> = Vec::new();
    let mut i: usize = 0;
    while i < parts.len()
        invariant
            i <= parts@.len(),
            out@ =~= parts@.take(i as int),
        decreases parts@.len() - i,
    {
        out.push(parts[i].clone());
        i = i + 1;
    }
    assert(out@ =~= parts@);
    out
}

/// Tells whether two strings hold the same characters.
pub fn same(a: &str, b: &str) -> (r: bool)
    ensures
        r == (a@ == b@),
{
    let x = chars_of(a);
    let y = chars_of(b);
    if x.len() != y.len() {
        return false;
    }
    let mut i: usize = 0;
    while i < x.len()
        invariant
            x@ == a@,
            y@ == b@,
            x@.len() == y@.len(),
            i <= x@.len(),
            forall|k: int| 0 <= k < i ==> x@[k] == y@[k],
        decreases x@.len() - i,
    {
        if x[i] != y[i] {
            return false;
        }
        i = i + 1;
    }
    assert(a@ =~= b@);
    true
}

/// Tells whether two optional strings are the same.
pub fn same_opt(a: &Option<String>, b: &Option<String>) -> (r: bool)
    ensures
        r == (opt(*a) == opt(*b)),
{
    match (a, b) {
        (Some(x), Some(y)) => same(x.as_str(), y.as_str()),
        (None, None) => true,
        _ => false,
    }
}

/// Tells whether two vectors hold the same strings in the same order.
pub fn same_all(a: &Vec<String>, b: &Vec<String>) -> (r: bool)
    ensures
        r == (views(a@) == views(b@)),
{
    if a.len() != b.len() {
        assert(views(a@).len() != views(b@).len());
        return false;
    }
    let mut i: usize = 0;
    while i < a.len()
        invariant
            i <= a@.len(),
            a@.len() == b@.len(),
            forall|k: int| 0 <= k < i ==> views(a@)[k] == views(b@)[k],
        decreases a@.len() - i,
    {
        if !same(a[i].as_str(), b[i].as_str()) {
            assert(views(a@)[i as int] != views(b@)[i as int]);
            return false;
        }
        i = i + 1;
    }
    assert(views(a@) =~= views(b@));
    true
}

// ---------------------------------------------------------------------------
// Trimming
// ---------------------------------------------------------------------------
/// The first index at or after `i` that holds no white space.
pub open spec fn white_run(s: Seq<char>, i: int) -> int
    decreases s.len() - i,
{
    if 0 <= i < s.len() && white(s[i]) {
        white_run(s, i + 1)
    } else {
        i
    }
}

/// The text without its leading white space.
pub open spec fn trimmed_start(s: Seq<char>) -> Seq<char> {
    s.skip(white_run(s, 0))
}

/// The text without its trailing white space.
pub open spec fn trimmed_end(s: Seq<char>) -> Seq<char>
    decreases s.len(),
{
    if s.len() > 0 && white(s.last()) {
        trimmed_end(s.drop_last())
    } else {
        s
    }
}

/// The text without its leading and trailing white space.
pub open spec fn trimmed(s: Seq<char>) -> Seq<char> {
    trimmed_end(trimmed_start(s))
}

/// Removes leading white space.
pub fn trim_start(s: &str) -> (r: String)
    ensures
        r@ == trimmed_start(s@),
{
    let cs = chars_of(s);
    let mut i: usize = 0;
    while i < cs.len() && is_white(cs[i])
        invariant
            cs@ == s@,
            i <= cs@.len(),
            white_run(s@, 0) == white_run(s@, i as int),
        decreases cs@.len() - i,
    {
        i = i + 1;
    }
    assert(cs@.subrange(i as int, cs@.len() as int) =~= s@.skip(i as int));
    slice_of(&cs, i, cs.len())
}

/// Removes trailing white space.
pub fn trim_end(s: &str) -> (r: String)
    ensures
        r@ == trimmed_end(s@),
{
    let cs = chars_of(s);
    let mut e: usize = cs.len();
    assert(cs@.take(cs@.len() as int) =~= cs@);
    while e > 0 && is_white(cs[e - 1])
        invariant
            cs@ == s@,
            e <= cs@.len(),
            trimmed_end(s@) == trimmed_end(cs@.take(e as int)),
        decreases e,
    {
        assert(cs@.take(e as int).drop_last() =~= cs@.take(e - 1));
        assert(cs@.take(e as int).last() == cs@[e - 1]);
        e = e - 1;
    }
    assert(cs@.take(e as int).len() == e);
    assert(e > 0 ==> cs@.take(e as int).last() == cs@[e - 1]);
    assert(cs@.subrange(0, e as int) =~= cs@.take(e as int));
    slice_of(&cs, 0, e)
}

/// Removes leading and trailing white space.
pub fn trim(s: &str) -> (r: String)
    ensures
        r@ == trimmed(s@),
{
    let t = trim_start(s);
    trim_end(t.as_str())
}

/// The first index at or after `i` that does not hold `c`.
pub open spec fn char_run(s: Seq<char>, c: char, i: int) -> int
    decreases s.len() - i,
{
    if 0 <= i < s.len() && s[i] == c {
        char_run(s, c, i + 1)
    } else {
        i
    }
}

/// The text without the run of `c` at its start.
pub open spec fn trimmed_start_of(s: Seq<char>, c: char) -> Seq<char> {
    s.skip(char_run(s, c, 0))
}

/// Removes every leading `c`.
pub fn trim_start_of(s: &str, c: char) -> (r: String)
    ensures
        r@ == trimmed_start_of(s@, c),
{
    let cs = chars_of(s);
    let mut i: usize = 0;
    while i < cs.len() && cs[i] == c
        invariant
            cs@ == s@,
            i <= cs@.len(),
            char_run(s@, c, 0) == char_run(s@, c, i as int),
        decreases cs@.len() - i,
    {
        i = i + 1;
    }
    assert(cs@.subrange(i as int, cs@.len() as int) =~= s@.skip(i as int));
    slice_of(&cs, i, cs.len())
}

// ---------------------------------------------------------------------------
// Searching
// ---------------------------------------------------------------------------
/// Whether `pat` occurs in `s` at index `i`.
pub open spec fn occurs_at(s: Seq<char>, pat: Seq<char>, i: int) -> bool {
    &&& 0 <= i
    &&& i + pat.len() <= s.len()
    &&& s.subrange(i, i + pat.len()) == pat
}

/// The first index at or after `i` at which `pat` occurs.
pub open spec fn found_from(s: Seq<char>, pat: Seq<char>, i: int) -> Option<int>
    decreases s.len() + 1 - i,
{
    if i < 0 || i + pat.len() > s.len() {
        None
    } else if occurs_at(s, pat, i) {
        Some(i)
    } else {
        found_from(s, pat, i + 1)
    }
}

/// The first index at which `pat` occurs.
pub open spec fn found(s: Seq<char>, pat: Seq<char>) -> Option<int> {
    found_from(s, pat, 0)
}

/// Whether `pat` occurs anywhere in `s`.
pub open spec fn has(s: Seq<char>, pat: Seq<char>) -> bool {
    found(s, pat) is Some
}

/// Whether `s` begins with `pat`.
pub open spec fn begins(s: Seq<char>, pat: Seq<char>) -> bool {
    occurs_at(s, pat, 0)
}

/// Whether `s` ends with `pat`.
pub open spec fn ends(s: Seq<char>, pat: Seq<char>) -> bool {
    occurs_at(s, pat, s.len() - pat.len())
}

/// A search returns the first occurrence at or after its start, and `None` only where there is
/// no occurrence.
pub proof fn lemma_found_from(s: Seq<char>, pat: Seq<char>, i: int)
    requires
        0 <= i,
    ensures
        match found_from(s, pat, i) {
            Some(j) => i <= j && occurs_at(s, pat, j) && forall|k: int|
                i <= k < j ==> !occurs_at(s, pat, k),
            None => forall|k: int| i <= k ==> !occurs_at(s, pat, k),
        },
    decreases s.len() + 1 - i,
{
    if i + pat.len() > s.len() {
    } else if occurs_at(s, pat, i) {
    } else {
        lemma_found_from(s, pat, i + 1);
    }
}

/// A text contains a pattern exactly when the pattern occurs at some index.
pub proof fn lemma_has(s: Seq<char>, pat: Seq<char>)
    ensures
        has(s, pat) == exists|k: int| occurs_at(s, pat, k),
{
    lemma_found_from(s, pat, 0);
}

/// Tells whether `pat` occurs in `s` at index `i`.
pub fn at(s: &Vec<char>, pat: &Vec<char>, i: usize) -> (r: bool)
    ensures
        r == occurs_at(s@, pat@, i as int),
{
    let n: usize = s.len();
    if i > n || pat.len() > n - i {
        return false;
    }
    let mut k: usize = 0;
    while k < pat.len()
        invariant
            k <= pat@.len(),
            i + pat@.len() <= n,
            n == s@.len(),
            forall|m: int| 0 <= m < k ==> s@[i + m] == pat@[m],
        decreases pat@.len() - k,
    {
        if s[i + k] != pat[k] {
            assert(s@.subrange(i as int, i + pat@.len())[k as int] == s@[i + k]);
            return false;
        }
        k = k + 1;
    }
    assert(s@.subrange(i as int, i + pat@.len()) =~= pat@);
    true
}

/// Finds the first occurrence of `pat` at or after `from`.
pub fn find_from(s: &Vec<char>, pat: &Vec<char>, from: usize) -> (r: Option<usize>)
    ensures
        match r {
            Some(i) => found_from(s@, pat@, from as int) == Some(i as int),
            None => found_from(s@, pat@, from as int) is None,
        },
        r matches Some(i) ==> from <= i && occurs_at(s@, pat@, i as int),
{
    let n: usize = s.len();
    let mut i: usize = from;
    while i < n && pat.len() <= n - i
        invariant
            n == s@.len(),
            from <= i,
            i <= n || i == from,
            found_from(s@, pat@, from as int) == found_from(s@, pat@, i as int),
        decreases n - i,
    {
        if at(s, pat, i) {
            return Some(i);
        }
        i = i + 1;
    }
    assert(i == n && pat@.len() == 0 ==> s@.subrange(i as int, i + pat@.len()) =~= pat@);
    if at(s, pat, i) {
        Some(i)
    } else {
        None
    }
}

/// Finds the first occurrence of `pat` in `s`, as an index of characters.
pub fn find(s: &str, pat: &str) -> (r: Option<usize>)
    ensures
        match r {
            Some(i) => found(s@, pat@) == Some(i as int),
            None => found(s@, pat@) is None,
        },
        r matches Some(i) ==> occurs_at(s@, pat@, i as int),
{
    find_from(&chars_of(s), &chars_of(pat), 0)
}

/// Tells whether `pat` occurs in `s`.
pub fn contains(s: &str, pat: &str) -> (r: bool)
    ensures
        r == has(s@, pat@),
{
    find(s, pat).is_some()
}

/// Tells whether `s` begins with `pat`.
pub fn starts_with(s: &str, pat: &str) -> (r: bool)
    ensures
        r == begins(s@, pat@),
{
    at(&chars_of(s), &chars_of(pat), 0)
}

/// Removes `pat` from the start of `s`, where `s` begins with it.
pub fn strip_prefix(s: &str, pat: &str) -> (r: Option<String>)
    ensures
        match r {
            Some(t) => begins(s@, pat@) && t@ == s@.skip(pat@.len() as int),
            None => !begins(s@, pat@),
        },
{
    let cs = chars_of(s);
    let ps = chars_of(pat);
    if at(&cs, &ps, 0) {
        assert(cs@.subrange(ps@.len() as int, cs@.len() as int) =~= s@.skip(pat@.len() as int));
        Some(slice_of(&cs, ps.len(), cs.len()))
    } else {
        None
    }
}

/// Removes `pat` from the end of `s`, where `s` ends with it.
pub fn strip_suffix(s: &str, pat: &str) -> (r: Option<String>)
    ensures
        match r {
            Some(t) => ends(s@, pat@) && t@ == s@.take(s@.len() - pat@.len()),
            None => !ends(s@, pat@),
        },
{
    let cs = chars_of(s);
    let ps = chars_of(pat);
    if ps.len() > cs.len() {
        return None;
    }
    let cut: usize = cs.len() - ps.len();
    if at(&cs, &ps, cut) {
        assert(cs@.subrange(0, cut as int) =~= s@.take(s@.len() - pat@.len()));
        Some(slice_of(&cs, 0, cut))
    } else {
        None
    }
}

/// The text before and after the first occurrence of `pat`.
pub open spec fn parted(s: Seq<char>, pat: Seq<char>) -> Option<(Seq<char>, Seq<char>)> {
    match found(s, pat) {
        Some(i) => Some((s.take(i), s.skip(i + pat.len()))),
        None => None,
    }
}

/// Splits `s` at the first occurrence of `pat`.
pub fn split_once(s: &str, pat: &str) -> (r: Option<(String, String)>)
    ensures
        match r {
            Some(p) => parted(s@, pat@) == Some((p.0@, p.1@)),
            None => parted(s@, pat@) is None,
        },
{
    let cs = chars_of(s);
    let ps = chars_of(pat);
    match find_from(&cs, &ps, 0) {
        Some(i) => {
            let n: usize = cs.len();
            let before = slice_of(&cs, 0, i);
            let after = slice_of(&cs, i + ps.len(), n);
            assert(before@ =~= s@.take(i as int));
            assert(after@ =~= s@.skip(i + pat@.len()));
            Some((before, after))
        },
        None => None,
    }
}

/// The last index at or before `i` at which `pat` occurs.
pub open spec fn found_back(s: Seq<char>, pat: Seq<char>, i: int) -> Option<int>
    decreases i + 1,
{
    if i < 0 {
        None
    } else if occurs_at(s, pat, i) {
        Some(i)
    } else {
        found_back(s, pat, i - 1)
    }
}

/// The last index at which `pat` occurs.
pub open spec fn found_last(s: Seq<char>, pat: Seq<char>) -> Option<int> {
    found_back(s, pat, s.len() - pat.len())
}

/// Finds the last occurrence of `pat` in `s`, as an index of characters.
pub fn rfind(s: &str, pat: &str) -> (r: Option<usize>)
    ensures
        match r {
            Some(i) => found_last(s@, pat@) == Some(i as int),
            None => found_last(s@, pat@) is None,
        },
        r matches Some(i) ==> occurs_at(s@, pat@, i as int),
{
    let cs = chars_of(s);
    let ps = chars_of(pat);
    if ps.len() > cs.len() {
        return None;
    }
    let mut i: usize = cs.len() - ps.len();
    loop
        invariant
            cs@ == s@,
            ps@ == pat@,
            found_last(s@, pat@) == found_back(s@, pat@, i as int),
        decreases i,
    {
        if at(&cs, &ps, i) {
            return Some(i);
        }
        if i == 0 {
            assert(found_back(s@, pat@, -1) is None);
            return None;
        }
        i = i - 1;
    }
}

// ---------------------------------------------------------------------------
// Splitting and joining
// ---------------------------------------------------------------------------
/// The pieces of `s`, from index `from` on, between occurrences of `sep`.
pub open spec fn pieces_from(s: Seq<char>, sep: Seq<char>, from: int) -> Seq<Seq<char>>
    decreases s.len() - from,
{
    match found_from(s, sep, from) {
        Some(i) => if from <= i && sep.len() > 0 && i + sep.len() <= s.len() {
            seq![s.subrange(from, i)] + pieces_from(s, sep, i + sep.len())
        } else {
            seq![s.skip(from)]
        },
        None => seq![s.skip(from)],
    }
}

/// The pieces of `s` between occurrences of `sep`.
pub open spec fn pieces(s: Seq<char>, sep: Seq<char>) -> Seq<Seq<char>> {
    pieces_from(s, sep, 0)
}

/// Splits `s` at every occurrence of the non-empty separator `sep`.
pub fn split(s: &str, sep: &str) -> (r: Vec<String>)
    requires
        sep@.len() > 0,
    ensures
        views(r@) == pieces(s@, sep@),
        r@.len() >= 1,
{
    let cs = chars_of(s);
    let ps = chars_of(sep);
    let n: usize = cs.len();
    let mut out: Vec<String> = Vec::new();
    let mut from: usize = 0;
    assert(views(out@) + pieces_from(s@, sep@, 0) =~= pieces(s@, sep@));
    loop
        invariant
            cs@ == s@,
            ps@ == sep@,
            sep@.len() > 0,
            n == cs@.len(),
            from <= n,
            views(out@) + pieces_from(s@, sep@, from as int) == pieces(s@, sep@),
        decreases n - from,
    {
        match find_from(&cs, &ps, from) {
            Some(i) => {
                let piece = slice_of(&cs, from, i);
                let ghost before = out@;
                out.push(piece);
                assert(views(out@) =~= views(before).push(piece@));
                assert(views(out@) + pieces_from(s@, sep@, i + sep@.len()) =~= views(before) + (
                seq![s@.subrange(from as int, i as int)] + pieces_from(s@, sep@, i + sep@.len())));
                from = i + ps.len();
            },
            None => {
                let piece = slice_of(&cs, from, n);
                assert(piece@ =~= s@.skip(from as int));
                let ghost before = out@;
                out.push(piece);
                assert(views(out@) =~= views(before) + seq![s@.skip(from as int)]);
                return out;
            },
        }
    }
}

/// A line without the carriage return before its line feed.
pub open spec fn without_cr(s: Seq<char>) -> Seq<char> {
    if s.len() > 0 && s.last() == '\r' {
        s.drop_last()
    } else {
        s
    }
}

/// The lines of `s` from index `from` on: each ends at a line feed, which it does not hold, nor a
/// carriage return directly before it. Text after the last line feed is a line where there is
/// any.
pub open spec fn lines_from(s: Seq<char>, from: int) -> Seq<Seq<char>>
    decreases s.len() - from,
{
    match found_from(s, seq!['\n'], from) {
        Some(i) => if from <= i < s.len() {
            seq![without_cr(s.subrange(from, i))] + lines_from(s, i + 1)
        } else {
            seq![]
        },
        None => if from < s.len() {
            seq![s.skip(from)]
        } else {
            seq![]
        },
    }
}

/// The lines of `s`.
pub open spec fn text_lines(s: Seq<char>) -> Seq<Seq<char>> {
    lines_from(s, 0)
}

/// Splits `s` into its lines.
pub fn lines(s: &str) -> (r: Vec<String>)
    ensures
        views(r@) == text_lines(s@),
{
    let cs = chars_of(s);
    let mut feed: Vec<char> = Vec::new();
    feed.push('\n');
    assert(feed@ =~= seq!['\n']);
    let n: usize = cs.len();
    let mut out: Vec<String> = Vec::new();
    let mut from: usize = 0;
    assert(views(out@) + lines_from(s@, 0) =~= text_lines(s@));
    loop
        invariant
            cs@ == s@,
            feed@ == seq!['\n'],
            n == cs@.len(),
            from <= n,
            views(out@) + lines_from(s@, from as int) == text_lines(s@),
        decreases n - from,
    {
        match find_from(&cs, &feed, from) {
            Some(i) => {
                let end: usize = if i > from && cs[i - 1] == '\r' {
                    i - 1
                } else {
                    i
                };
                let line = slice_of(&cs, from, end);
                proof {
                    let raw = s@.subrange(from as int, i as int);
                    assert(i > from ==> raw.last() == s@[i - 1]);
                    assert(line@ =~= without_cr(raw));
                }
                let ghost before = out@;
                out.push(line);
                assert(views(out@) =~= views(before).push(line@));
                assert(views(out@) + lines_from(s@, i + 1) =~= views(before) + (seq![line@]
                    + lines_from(s@, i + 1)));
                from = i + 1;
            },
            None => {
                if from < n {
                    let line = slice_of(&cs, from, n);
                    assert(line@ =~= s@.skip(from as int));
                    let ghost before = out@;
                    out.push(line);
                    assert(views(out@) =~= views(before) + seq![s@.skip(from as int)]);
                }
                assert(from >= n ==> views(out@) + Seq::<Seq<char>>::empty() =~= views(out@));
                return out;
            },
        }
    }
}

/// The first `n` parts with `sep` between neighbours.
pub open spec fn joined_to(parts: Seq<Seq<char>>, sep: Seq<char>, n: int) -> Seq<char>
    decreases n,
{
    if n <= 0 {
        seq![]
    } else if n == 1 {
        parts[0]
    } else {
        joined_to(parts, sep, n - 1) + sep + parts[n - 1]
    }
}

/// The parts with `sep` between neighbours.
pub open spec fn joined(parts: Seq<Seq<char>>, sep: Seq<char>) -> Seq<char> {
    joined_to(parts, sep, parts.len() as int)
}

/// Joins strings with a separator.
pub fn join(parts: &Vec<String>, sep: &str) -> (r: String)
    ensures
        r@ == joined(views(parts@), sep@),
{
    let mut out = String::new();
    let mut i: usize = 0;
    while i < parts.len()
        invariant
            i <= parts@.len(),
            out@ == joined_to(views(parts@), sep@, i as int),
        decreases parts@.len() - i,
    {
        if i > 0 {
            out.append(sep);
        }
        out.append(parts[i].as_str());
        i = i + 1;
        assert(i == 1 ==> out@ =~= parts@[0]@);
    }
    out
}

/// `s`, from index `from` on, with each occurrence of `pat` exchanged for `to`.
pub open spec fn replaced_from(
    s: Seq<char>,
    pat: Seq<char>,
    to: Seq<char>,
    from: int,
) -> Seq<char>
    decreases s.len() - from,
{
    match found_from(s, pat, from) {
        Some(i) => if from <= i && pat.len() > 0 && i + pat.len() <= s.len() {
            s.subrange(from, i) + to + replaced_from(s, pat, to, i + pat.len())
        } else {
            s.skip(from)
        },
        None => s.skip(from),
    }
}

/// `s` with each occurrence of `pat` exchanged for `to`.
pub open spec fn replaced(s: Seq<char>, pat: Seq<char>, to: Seq<char>) -> Seq<char> {
    replaced_from(s, pat, to, 0)
}

/// Exchanges each occurrence of the non-empty `pat` in `s` for `to`.
pub fn replace(s: &str, pat: &str, to: &str) -> (r: String)
    requires
        pat@.len() > 0,
    ensures
        r@ == replaced(s@, pat@, to@),
{
    let cs = chars_of(s);
    let ps = chars_of(pat);
    let n: usize = cs.len();
    let mut out = String::new();
    let mut from: usize = 0;
    assert(out@ + replaced_from(s@, pat@, to@, 0) =~= replaced(s@, pat@, to@));
    loop
        invariant
            cs@ == s@,
            ps@ == pat@,
            pat@.len() > 0,
            n == cs@.len(),
            from <= n,
            out@ + replaced_from(s@, pat@, to@, from as int) == replaced(s@, pat@, to@),
        decreases n - from,
    {
        match find_from(&cs, &ps, from) {
            Some(i) => {
                let ghost before = out@;
                out.append(slice_of(&cs, from, i).as_str());
                out.append(to);
                proof {
                    let rest = replaced_from(s@, pat@, to@, i + pat@.len());
                    assert(out@ + rest =~= before + (s@.subrange(from as int, i as int) + to@
                        + rest));
                }
                from = i + ps.len();
            },
            None => {
                let tail = slice_of(&cs, from, n);
                assert(tail@ =~= s@.skip(from as int));
                out.append(tail.as_str());
                return out;
            },
        }
    }
}

// ---------------------------------------------------------------------------
// Lengths and slices
// ---------------------------------------------------------------------------
/// Counts the characters of `s`.
pub fn char_count(s: &str) -> (r: usize)
    ensures
        r == s@.len(),
{
    chars_of(s).len()
}

/// The first characters of `s`, at most `n` of them.
pub fn take_chars(s: &str, n: usize) -> (r: String)
    ensures
        r@ == (if n < s@.len() {
            s@.take(n as int)
        } else {
            s@
        }),
{
    let cs = chars_of(s);
    if n < cs.len() {
        assert(cs@.subrange(0, n as int) =~= s@.take(n as int));
        slice_of(&cs, 0, n)
    } else {
        assert(cs@.subrange(0, cs@.len() as int) =~= s@);
        slice_of(&cs, 0, cs.len())
    }
}

/// The number of bytes that a character takes in UTF-8.
pub open spec fn width(c: char) -> nat {
    if (c as u32) < 0x80 {
        1
    } else if (c as u32) < 0x800 {
        2
    } else if (c as u32) < 0x10000 {
        3
    } else {
        4
    }
}

/// The number of bytes that the first `n` characters take in UTF-8.
pub open spec fn bytes_to(s: Seq<char>, n: int) -> nat
    decreases n,
{
    if n <= 0 {
        0
    } else {
        bytes_to(s, n - 1) + width(s[n - 1])
    }
}

/// The number of bytes that a text takes in UTF-8.
pub open spec fn byte_len(s: Seq<char>) -> nat {
    bytes_to(s, s.len() as int)
}

/// Whether a character of `s` ends at byte `n`.
pub open spec fn ends_char(s: Seq<char>, n: nat) -> bool {
    exists|k: int| 0 <= k <= s.len() && bytes_to(s, k) == n
}

/// The first `n` bytes of `s`, where a character ends there.
pub open spec fn byte_prefix(s: Seq<char>, n: nat) -> Seq<char> {
    s.take(choose|k: int| 0 <= k <= s.len() && bytes_to(s, k) == n)
}

proof fn lemma_bytes_grow(s: Seq<char>, i: int, j: int)
    requires
        0 <= i < j <= s.len(),
    ensures
        bytes_to(s, i) < bytes_to(s, j),
    decreases j,
{
    if i < j - 1 {
        lemma_bytes_grow(s, i, j - 1);
    }
}

/// The width of a character in UTF-8.
pub fn width_of(c: char) -> (r: usize)
    ensures
        r == width(c),
{
    let n: u32 = c as u32;
    if n < 0x80 {
        1
    } else if n < 0x800 {
        2
    } else if n < 0x10000 {
        3
    } else {
        4
    }
}

/// Tells whether `s` takes more than `n` bytes.
pub fn longer_than_bytes(s: &str, n: usize) -> (r: bool)
    ensures
        r == (byte_len(s@) > n),
{
    let cs = chars_of(s);
    let mut used: usize = 0;
    let mut i: usize = 0;
    while i < cs.len()
        invariant
            cs@ == s@,
            i <= cs@.len(),
            used == bytes_to(s@, i as int),
            used <= n,
        decreases cs@.len() - i,
    {
        let w: usize = width_of(cs[i]);
        if w > n - used {
            proof {
                if i + 1 < s@.len() {
                    lemma_bytes_grow(s@, i + 1, s@.len() as int);
                }
            }
            return true;
        }
        used = used + w;
        i = i + 1;
    }
    false
}

/// The first `n` bytes of `s`; `None` where no character ends there.
pub fn take_bytes(s: &str, n: usize) -> (r: Option<String>)
    ensures
        match r {
            Some(t) => ends_char(s@, n as nat) && t@ == byte_prefix(s@, n as nat),
            None => !ends_char(s@, n as nat),
        },
{
    let cs = chars_of(s);
    let mut used: usize = 0;
    let mut i: usize = 0;
    while i < cs.len() && used < n
        invariant
            cs@ == s@,
            i <= cs@.len(),
            used == bytes_to(s@, i as int),
            used <= n,
        decreases cs@.len() - i,
    {
        let w: usize = width_of(cs[i]);
        if w > n - used {
            proof {
                assert forall|k: int| 0 <= k <= s@.len() implies bytes_to(s@, k) != n by {
                    if k < i {
                        lemma_bytes_grow(s@, k, i as int);
                    } else if k > i + 1 {
                        lemma_bytes_grow(s@, i + 1, k);
                    }
                }
            }
            return None;
        }
        used = used + w;
        i = i + 1;
    }
    proof {
        assert forall|k: int| 0 <= k <= s@.len() && k != i implies bytes_to(s@, k) != used by {
            if k < i {
                lemma_bytes_grow(s@, k, i as int);
            } else {
                lemma_bytes_grow(s@, i as int, k);
            }
        }
        assert forall|k: int| 0 <= k <= i implies bytes_to(s@, k) <= used by {
            if k < i {
                lemma_bytes_grow(s@, k, i as int);
            }
        }
    }
    if used == n {
        assert(cs@.subrange(0, i as int) =~= s@.take(i as int));
        assert(bytes_to(s@, i as int) == n);
        Some(slice_of(&cs, 0, i))
    } else {
        None
    }
}

// ---------------------------------------------------------------------------
// Decimal numbers
// ---------------------------------------------------------------------------
/// The decimal digit for a number below ten.
pub open spec fn digit(d: nat) -> char {
    (48 + d) as char
}

/// A natural number in decimal notation.
pub open spec fn decimal(n: nat) -> Seq<char>
    decreases n,
{
    if n < 10 {
        seq![digit(n)]
    } else {
        decimal(n / 10).push(digit(n % 10))
    }
}

/// An integer in decimal notation.
pub open spec fn signed_decimal(n: int) -> Seq<char> {
    if n < 0 {
        seq!['-'] + decimal((-n) as nat)
    } else {
        decimal(n as nat)
    }
}

fn digits_of(n: u128) -> (r: Vec<char>)
    ensures
        r@ == decimal(n as nat),
    decreases n,
{
    if n < 10 {
        let mut v: Vec<char> = Vec::new();
        v.push((48 + n as u8) as char);
        assert(v@ =~= decimal(n as nat));
        v
    } else {
        let mut v = digits_of(n / 10);
        v.push((48 + (n % 10) as u8) as char);
        v
    }
}

/// Writes a number in decimal notation.
pub fn decimal_of(n: u128) -> (r: String)
    ensures
        r@ == decimal(n as nat),
{
    string_of(&digits_of(n))
}

/// Writes a signed number in decimal notation.
pub fn signed_decimal_of(n: i64) -> (r: String)
    ensures
        r@ == signed_decimal(n as int),
{
    if n < 0 {
        let m: i128 = -(n as i128);
        let mut v: Vec<char> = Vec::new();
        v.push('-');
        let mut d = digits_of(m as u128);
        v.append(&mut d);
        assert(v@ =~= signed_decimal(n as int));
        string_of(&v)
    } else {
        decimal_of(n as u128)
    }
}

/// Whether `c` is a decimal digit.
pub open spec fn is_digit(c: char) -> bool {
    48 <= c as u32 <= 57
}

/// The number that a run of decimal digits denotes.
pub open spec fn digits_value(s: Seq<char>) -> nat
    decreases s.len(),
{
    if s.len() == 0 {
        0
    } else {
        (digits_value(s.drop_last()) * 10 + (s.last() as u32 - 48)) as nat
    }
}

/// Whether `s` is one or more decimal digits.
pub open spec fn all_digits(s: Seq<char>) -> bool {
    &&& s.len() > 0
    &&& forall|i: int| 0 <= i < s.len() ==> is_digit(#[trigger] s[i])
}

/// `s` without a plus sign at its start.
pub open spec fn unsigned_part(s: Seq<char>) -> Seq<char> {
    if s.len() > 0 && s[0] == '+' {
        s.skip(1)
    } else {
        s
    }
}

/// A number of at most `max` read from an optional plus sign and one or more decimal digits.
pub open spec fn parsed_unsigned(s: Seq<char>, max: nat) -> Option<nat> {
    let d = unsigned_part(s);
    if all_digits(d) && digits_value(d) <= max {
        Some(digits_value(d))
    } else {
        None
    }
}

proof fn lemma_digits_value_grows(s: Seq<char>, k: int)
    requires
        0 <= k <= s.len(),
        all_digits(s),
    ensures
        digits_value(s.take(k)) <= digits_value(s),
    decreases s.len() - k,
{
    if k == s.len() {
        assert(s.take(k) =~= s);
    } else {
        lemma_digits_value_grows(s, k + 1);
        let t = s.take(k + 1);
        assert(t.drop_last() =~= s.take(k));
        assert(t.last() == s[k]);
        assert(is_digit(s[k]));
    }
}

/// Reads an unsigned number.
pub fn parse_u64(s: &str) -> (r: Option<u64>)
    ensures
        match r {
            Some(n) => parsed_unsigned(s@, u64::MAX as nat) == Some(n as nat),
            None => parsed_unsigned(s@, u64::MAX as nat) is None,
        },
{
    let cs = chars_of(s);
    let start: usize = if cs.len() > 0 && cs[0] == '+' {
        1
    } else {
        0
    };
    let ghost d = unsigned_part(s@);
    assert(d =~= cs@.skip(start as int));
    if start == cs.len() {
        return None;
    }
    let mut acc: u64 = 0;
    let mut i: usize = start;
    assert(d.take(0) =~= seq![]);
    while i < cs.len()
        invariant
            cs@ == s@,
            start <= i <= cs@.len(),
            start < cs@.len(),
            d == cs@.skip(start as int),
            d == unsigned_part(s@),
            forall|k: int| 0 <= k < i - start ==> is_digit(#[trigger] d[k]),
            acc == digits_value(d.take(i - start)),
        decreases cs@.len() - i,
    {
        let c: u32 = cs[i] as u32;
        assert(d[i - start] == cs@[i as int]);
        if c < 48 || c > 57 {
            assert(!is_digit(d[i - start]));
            return None;
        }
        let next: u128 = acc as u128 * 10 + (c - 48) as u128;
        proof {
            let t = d.take(i + 1 - start);
            assert(t.drop_last() =~= d.take(i - start));
            assert(t.last() == d[i - start]);
            assert(next == digits_value(t));
            if next > u64::MAX as u128 && all_digits(d) {
                lemma_digits_value_grows(d, i + 1 - start);
            }
        }
        if next > u64::MAX as u128 {
            return None;
        }
        acc = next as u64;
        i = i + 1;
    }
    assert(d.take(i - start) =~= d);
    Some(acc)
}

proof fn lemma_decimal_digits(n: nat)
    ensures
        all_digits(decimal(n)),
        digits_value(decimal(n)) == n,
    decreases n,
{
    if n < 10 {
        let d = seq![digit(n)];
        assert(d.drop_last() =~= seq![]);
        assert(d.last() == digit(n));
        assert(digits_value(seq![]) == 0);
    } else {
        lemma_decimal_digits(n / 10);
        assert(decimal(n).drop_last() =~= decimal(n / 10));
    }
}

/// Reading back a written number gives the number.
pub proof fn lemma_decimal_parses(n: nat, max: nat)
    requires
        n <= max,
    ensures
        parsed_unsigned(decimal(n), max) == Some(n),
{
    lemma_decimal_digits(n);
    assert(is_digit(decimal(n)[0]));
}

// ---------------------------------------------------------------------------
// Case
// ---------------------------------------------------------------------------
/// The Unicode upper case of a text, as the standard library has it.
pub uninterp spec fn uppercased(s: Seq<char>) -> Seq<char>;

/// Whether every character is ASCII.
pub open spec fn ascii(s: Seq<char>) -> bool {
    forall|i: int| 0 <= i < s.len() ==> (#[trigger] s[i] as u32) < 0x80
}

/// The upper case of an ASCII character.
pub open spec fn ascii_upper(c: char) -> char {
    if 97 <= c as u32 <= 122 {
        (c as u32 - 32) as char
    } else {
        c
    }
}

/// The upper case of a text.
///
/// Calls `str::to_uppercase`: the result is a function of the text, and of ASCII text it is the
/// text with `a` to `z` exchanged for `A` to `Z`.
#[verifier::external_body]
pub(crate) fn to_uppercase(s: &str) -> (r: String)
    ensures
        r@ == uppercased(s@),
        ascii(s@) ==> r@ == s@.map_values(|c: char| ascii_upper(c)),
{
    s.to_uppercase()
}

/// Whether the standard library counts a character beyond ASCII as a letter or a digit.
pub uninterp spec fn alphanumeric(c: char) -> bool;

/// Whether a character is a letter or a digit. Of the ASCII characters these are `a` to `z`, `A`
/// to `Z` and `0` to `9`.
pub open spec fn letter_or_digit(c: char) -> bool {
    if (c as u32) < 0x80 {
        48 <= c as u32 <= 57 || 65 <= c as u32 <= 90 || 97 <= c as u32 <= 122
    } else {
        alphanumeric(c)
    }
}

/// Tells whether a character is a letter or a digit.
///
/// Calls `char::is_alphanumeric`: the result is a function of the character, and of an ASCII
/// character it says whether that is one of `a` to `z`, `A` to `Z` and `0` to `9`.
#[verifier::external_body]
pub(crate) fn is_alphanumeric(c: char) -> (r: bool)
    ensures
        (c as u32) >= 0x80 ==> r == alphanumeric(c),
        (c as u32) < 0x80 ==> r == (48 <= c as u32 <= 57 || 65 <= c as u32 <= 90 || 97 <= c as u32
            <= 122),
{
    c.is_alphanumeric()
}

// ---------------------------------------------------------------------------
// Quotation
// ---------------------------------------------------------------------------
/// A text in double quotes, with escapes, as the standard library shows it for debugging.
pub uninterp spec fn quoted(s: Seq<char>) -> Seq<char>;

/// Shows a text in double quotes.
///
/// Calls `format!` with the debugging form of `str`: the result is a function of the text.
#[verifier::external_body]
pub(crate) fn quote(s: &str) -> (r: String)
    ensures
        r@ == quoted(s@),
{
    format!("{:?}", s)
}

/// A list of texts in double quotes, in square brackets.
pub open spec fn quoted_list(parts: Seq<Seq<char>>) -> Seq<char> {
    "["@ + joined(parts.map_values(|p: Seq<char>| quoted(p)), ", "@) + "]"@
}

/// Shows a list of texts.
pub fn quote_list(parts: &Vec<String>) -> (r: String)
    ensures
        r@ == quoted_list(views(parts@)),
{
    let ghost want = views(parts@).map_values(|p: Seq<char>| quoted(p));
    let mut shown: Vec<String> = Vec::new();
    let mut i: usize = 0;
    while i < parts.len()
        invariant
            i <= parts@.len(),
            want == views(parts@).map_values(|p: Seq<char>| quoted(p)),
            views(shown@) =~= want.take(i as int),
        decreases parts@.len() - i,
    {
        let ghost before = shown@;
        shown.push(quote(parts[i].as_str()));
        assert(views(shown@) =~= views(before).push(want[i as int]));
        i = i + 1;
    }
    assert(views(shown@) =~= want);
    let mut out = "[".to_string();
    out.append(join(&shown, ", ").as_str());
    out.append("]");
    out
}

// ---------------------------------------------------------------------------
// Words
// ---------------------------------------------------------------------------
/// The first index at or after `i` that holds white space.
pub open spec fn word_run(s: Seq<char>, i: int) -> int
    decreases s.len() - i,
{
    if 0 <= i < s.len() && !white(s[i]) {
        word_run(s, i + 1)
    } else {
        i
    }
}

/// The words of `s` from index `i` on: the longest runs without white space.
pub open spec fn words_from(s: Seq<char>, i: int) -> Seq<Seq<char>>
    decreases s.len() - i,
{
    let start = white_run(s, i);
    let end = word_run(s, start);
    if 0 <= i <= start < end <= s.len() {
        seq![s.subrange(start, end)] + words_from(s, end)
    } else {
        seq![]
    }
}

/// Splits `s` into its words.
pub fn words(s: &str) -> (r: Vec<String>)
    ensures
        views(r@) == words_from(s@, 0),
{
    let cs = chars_of(s);
    let n: usize = cs.len();
    let mut out: Vec<String> = Vec::new();
    let mut i: usize = 0;
    assert(views(out@) + words_from(s@, 0) =~= words_from(s@, 0));
    loop
        invariant
            cs@ == s@,
            n == cs@.len(),
            i <= n,
            views(out@) + words_from(s@, i as int) == words_from(s@, 0),
        decreases n - i,
    {
        let mut start: usize = i;
        while start < n && is_white(cs[start])
            invariant
                cs@ == s@,
                n == cs@.len(),
                i <= start <= n,
                white_run(s@, i as int) == white_run(s@, start as int),
            decreases n - start,
        {
            start = start + 1;
        }
        let mut end: usize = start;
        while end < n && !is_white(cs[end])
            invariant
                cs@ == s@,
                n == cs@.len(),
                start <= end <= n,
                word_run(s@, start as int) == word_run(s@, end as int),
            decreases n - end,
        {
            end = end + 1;
        }
        if start == end {
            assert(views(out@) + Seq::<Seq<char>>::empty() =~= views(out@));
            return out;
        }
        let ghost before = out@;
        let word = slice_of(&cs, start, end);
        out.push(word);
        assert(views(out@) =~= views(before).push(word@));
        assert(views(out@) + words_from(s@, end as int) =~= views(before) + (seq![word@]
            + words_from(s@, end as int)));
        i = end;
    }
}

// ---------------------------------------------------------------------------
// Order
// ---------------------------------------------------------------------------
/// Whether `a` stands before `b` in the lexicographic order of code points, which is the order of
/// their UTF-8 bytes.
pub open spec fn precedes(a: Seq<char>, b: Seq<char>) -> bool
    decreases b.len(),
{
    if b.len() == 0 {
        false
    } else if a.len() == 0 {
        true
    } else if a[0] == b[0] {
        precedes(a.skip(1), b.skip(1))
    } else {
        a[0] < b[0]
    }
}

/// Tells whether `a` stands before `b`.
pub fn is_before(a: &str, b: &str) -> (r: bool)
    ensures
        r == precedes(a@, b@),
{
    let x = chars_of(a);
    let y = chars_of(b);
    let mut i: usize = 0;
    assert(x@.skip(0) =~= a@);
    assert(y@.skip(0) =~= b@);
    while i < x.len() && i < y.len() && x[i] == y[i]
        invariant
            x@ == a@,
            y@ == b@,
            i <= x@.len(),
            i <= y@.len(),
            precedes(a@, b@) == precedes(x@.skip(i as int), y@.skip(i as int)),
        decreases x@.len() - i,
    {
        assert(x@.skip(i as int).skip(1) =~= x@.skip(i + 1));
        assert(y@.skip(i as int).skip(1) =~= y@.skip(i + 1));
        i = i + 1;
    }
    if i == y.len() {
        false
    } else if i == x.len() {
        true
    } else {
        x[i] < y[i]
    }
}

/// No text stands before itself.
pub proof fn lemma_precedes_irreflexive(a: Seq<char>)
    ensures
        !precedes(a, a),
    decreases a.len(),
{
    if a.len() > 0 {
        lemma_precedes_irreflexive(a.skip(1));
    }
}

/// The order of texts is transitive.
pub proof fn lemma_precedes_transitive(a: Seq<char>, b: Seq<char>, c: Seq<char>)
    requires
        precedes(a, b),
        precedes(b, c),
    ensures
        precedes(a, c),
    decreases a.len(),
{
    if a.len() > 0 && a[0] == b[0] && b[0] == c[0] {
        lemma_precedes_transitive(a.skip(1), b.skip(1), c.skip(1));
    }
}

/// Of two different texts one stands before the other.
pub proof fn lemma_precedes_total(a: Seq<char>, b: Seq<char>)
    ensures
        a == b || precedes(a, b) || precedes(b, a),
    decreases a.len(),
{
    if a.len() == 0 || b.len() == 0 {
        assert(a.len() == 0 && b.len() == 0 ==> a =~= b);
    } else if a[0] == b[0] {
        lemma_precedes_total(a.skip(1), b.skip(1));
        if a.skip(1) == b.skip(1) {
            assert(a =~= seq![a[0]] + a.skip(1));
            assert(b =~= seq![b[0]] + b.skip(1));
        }
    }
}

// ---------------------------------------------------------------------------
// Sorting
// ---------------------------------------------------------------------------
/// A sorted list with one more text in its place.
pub open spec fn placed(sorted: Seq<Seq<char>>, t: Seq<char>) -> Seq<Seq<char>>
    decreases sorted.len(),
{
    if sorted.len() == 0 {
        seq![t]
    } else if precedes(t, sorted.last()) {
        placed(sorted.drop_last(), t).push(sorted.last())
    } else {
        sorted.push(t)
    }
}

/// The first `n` texts, sorted.
pub open spec fn sorted_to(parts: Seq<Seq<char>>, n: int) -> Seq<Seq<char>>
    decreases n,
{
    if n <= 0 {
        seq![]
    } else {
        placed(sorted_to(parts, n - 1), parts[n - 1])
    }
}

/// The texts, sorted.
pub open spec fn sorted(parts: Seq<Seq<char>>) -> Seq<Seq<char>> {
    sorted_to(parts, parts.len() as int)
}

/// Whether no text stands before one that it follows.
pub open spec fn is_sorted(parts: Seq<Seq<char>>) -> bool {
    forall|i: int, j: int|
        0 <= i < j < parts.len() ==> !precedes(#[trigger] parts[j], #[trigger] parts[i])
}

proof fn lemma_placed(sorted: Seq<Seq<char>>, t: Seq<char>)
    requires
        is_sorted(sorted),
    ensures
        is_sorted(placed(sorted, t)),
        placed(sorted, t).to_multiset() == sorted.to_multiset().insert(t),
        placed(sorted, t).len() == sorted.len() + 1,
        forall|b: Seq<char>|
            (!precedes(b, t) && forall|i: int|
                0 <= i < sorted.len() ==> !precedes(b, #[trigger] sorted[i])) ==> forall|i: int|
                0 <= i < placed(sorted, t).len() ==> !precedes(b, #[trigger] placed(sorted, t)[i]),
    decreases sorted.len(),
{
    broadcast use vstd::seq_lib::group_to_multiset_ensures;

    if sorted.len() == 0 {
        assert(sorted =~= seq![]);
        assert(seq![t] =~= Seq::<Seq<char>>::empty().push(t));
    } else if precedes(t, sorted.last()) {
        let rest = sorted.drop_last();
        let last = sorted.last();
        lemma_placed(rest, t);
        let p = placed(rest, t);
        assert(sorted =~= rest.push(last));
        assert forall|i: int| 0 <= i < p.len() implies !precedes(last, #[trigger] p[i]) by {
            if precedes(last, t) {
                lemma_precedes_transitive(t, last, t);
                lemma_precedes_irreflexive(t);
            }
            assert(forall|k: int| 0 <= k < rest.len() ==> !precedes(last, #[trigger] rest[k]));
        }
        assert(p.push(last).to_multiset() =~= sorted.to_multiset().insert(t));
        assert forall|b: Seq<char>|
            (!precedes(b, t) && forall|i: int|
                0 <= i < sorted.len() ==> !precedes(b, #[trigger] sorted[i])) implies forall|i: int|
            0 <= i < placed(sorted, t).len() ==> !precedes(b, #[trigger] placed(sorted, t)[i]) by {
            assert forall|i: int| 0 <= i < rest.len() implies !precedes(b, #[trigger] rest[i]) by {
                assert(rest[i] == sorted[i]);
            }
            assert(!precedes(b, sorted[sorted.len() - 1]));
        }
    } else {
        assert forall|i: int| 0 <= i < sorted.len() implies !precedes(t, #[trigger] sorted[i]) by {
            let last = sorted.last();
            if precedes(t, sorted[i]) && i < sorted.len() - 1 {
                lemma_precedes_total(t, last);
                lemma_precedes_total(sorted[i], last);
                if t == last {
                    assert(!precedes(sorted[sorted.len() - 1], sorted[i]));
                } else {
                    lemma_precedes_transitive(last, t, sorted[i]);
                    assert(!precedes(sorted[sorted.len() - 1], sorted[i]));
                }
            }
        }
    }
}

proof fn lemma_sorted_to(parts: Seq<Seq<char>>, n: int)
    requires
        0 <= n <= parts.len(),
    ensures
        is_sorted(sorted_to(parts, n)),
        sorted_to(parts, n).to_multiset() == parts.take(n).to_multiset(),
        sorted_to(parts, n).len() == n,
    decreases n,
{
    broadcast use vstd::seq_lib::group_to_multiset_ensures;

    if n > 0 {
        lemma_sorted_to(parts, n - 1);
        lemma_placed(sorted_to(parts, n - 1), parts[n - 1]);
        assert(parts.take(n) =~= parts.take(n - 1).push(parts[n - 1]));
    } else {
        assert(parts.take(0) =~= seq![]);
    }
}

/// Sorting orders the texts and neither adds nor loses one.
pub proof fn lemma_sorted(parts: Seq<Seq<char>>)
    ensures
        is_sorted(sorted(parts)),
        sorted(parts).to_multiset() == parts.to_multiset(),
        sorted(parts).len() == parts.len(),
{
    lemma_sorted_to(parts, parts.len() as int);
    assert(parts.take(parts.len() as int) =~= parts);
}

fn place(out: &mut Vec<String>, t: String)
    ensures
        views(final(out)@) == placed(views(old(out)@), t@),
{
    let ghost all = views(out@);
    let ghost rows = out@;
    let mut at: usize = out.len();
    assert(all.take(at as int) =~= all);
    assert(all.skip(at as int) =~= seq![]);
    assert(placed(all, t@) =~= placed(all.take(at as int), t@) + all.skip(at as int));
    while at > 0 && is_before(t.as_str(), out[at - 1].as_str())
        invariant
            at <= out@.len(),
            out@ == rows,
            all == views(rows),
            placed(all, t@) == placed(all.take(at as int), t@) + all.skip(at as int),
        decreases at,
    {
        proof {
            let head = all.take(at as int);
            assert(head.last() == rows[at - 1]@);
            assert(head.drop_last() =~= all.take(at - 1));
            assert(all.skip(at - 1) =~= seq![head.last()] + all.skip(at as int));
            assert(placed(all.take(at - 1), t@).push(head.last()) + all.skip(at as int) =~= placed(
                all.take(at - 1),
                t@,
            ) + all.skip(at - 1));
        }
        at = at - 1;
    }
    proof {
        let head = all.take(at as int);
        if at > 0 {
            assert(head.last() == rows[at - 1]@);
        }
        assert(placed(head, t@) =~= head.push(t@));
    }
    let ghost text = t@;
    out.insert(at, t);
    assert(views(out@) =~= all.take(at as int).push(text) + all.skip(at as int));
}

/// Sorts texts.
pub fn sort(parts: &Vec<String>) -> (r: Vec<String>)
    ensures
        views(r@) == sorted(views(parts@)),
{
    let mut out: Vec<String> = Vec::new();
    let mut i: usize = 0;
    while i < parts.len()
        invariant
            i <= parts@.len(),
            views(out@) =~= sorted_to(views(parts@), i as int),
        decreases parts@.len() - i,
    {
        place(&mut out, parts[i].clone());
        assert(views(parts@)[i as int] == parts@[i as int]@);
        i = i + 1;
    }
    assert(views(parts@).len() == parts@.len());
    out
}

// ---------------------------------------------------------------------------
// Texts put together
// ---------------------------------------------------------------------------
/// Whether every character is white space.
pub open spec fn all_white(s: Seq<char>) -> bool {
    forall|k: int| 0 <= k < s.len() ==> white(#[trigger] s[k])
}

/// Whether a text has white space neither at its start nor at its end.
pub open spec fn is_trim(s: Seq<char>) -> bool {
    s.len() > 0 ==> !white(s[0]) && !white(s.last())
}

proof fn lemma_white_run(s: Seq<char>, i: int)
    requires
        0 <= i <= s.len(),
    ensures
        i <= white_run(s, i) <= s.len(),
        forall|k: int| i <= k < white_run(s, i) ==> white(#[trigger] s[k]),
        white_run(s, i) < s.len() ==> !white(s[white_run(s, i)]),
    decreases s.len() - i,
{
    if i < s.len() && white(s[i]) {
        lemma_white_run(s, i + 1);
    }
}

proof fn lemma_trimmed_end(s: Seq<char>) -> (n: int)
    ensures
        0 <= n <= s.len(),
        trimmed_end(s) == s.take(n),
        all_white(s.skip(n)),
        n > 0 ==> !white(s[n - 1]),
    decreases s.len(),
{
    if s.len() > 0 && white(s.last()) {
        let n = lemma_trimmed_end(s.drop_last());
        assert(s.drop_last().take(n) =~= s.take(n));
        assert forall|k: int| 0 <= k < s.skip(n).len() implies white(#[trigger] s.skip(n)[k]) by {
            if k < s.len() - 1 - n {
                assert(s.skip(n)[k] == s.drop_last().skip(n)[k]);
            }
        }
        n
    } else {
        assert(s.take(s.len() as int) =~= s);
        s.len() as int
    }
}

/// A text is white space, the trimmed text, and white space.
pub proof fn lemma_trimmed(s: Seq<char>) -> (r: (Seq<char>, Seq<char>))
    ensures
        s == r.0 + trimmed(s) + r.1,
        all_white(r.0),
        all_white(r.1),
        is_trim(trimmed(s)),
{
    lemma_white_run(s, 0);
    let i = white_run(s, 0);
    let rest = s.skip(i);
    let n = lemma_trimmed_end(rest);
    assert(s =~= s.take(i) + rest.take(n) + rest.skip(n));
    (s.take(i), rest.skip(n))
}

/// What stands between white space, with none at its own ends, is the trimmed text.
pub proof fn lemma_trimmed_is(a: Seq<char>, t: Seq<char>, b: Seq<char>)
    requires
        all_white(a),
        all_white(b),
        is_trim(t),
    ensures
        trimmed(a + t + b) == t,
{
    let s = a + t + b;
    let r = lemma_trimmed(s);
    let m = trimmed(s);
    assert(s == r.0 + m + r.1);
    if t.len() == 0 {
        if m.len() > 0 {
            assert(s[r.0.len() as int] == m[0]);
            assert(white(s[r.0.len() as int]));
        }
    } else {
        assert(s[a.len() as int] == t[0]);
        assert(s[a.len() + t.len() - 1] == t.last());
        if m.len() == 0 {
            assert(white(s[a.len() as int]));
        } else {
            assert(s[r.0.len() as int] == m[0]);
            assert(s[r.0.len() + m.len() - 1] == m.last());
            if a.len() < r.0.len() {
                assert(s[a.len() as int] == r.0[a.len() as int]);
            }
            if r.0.len() < a.len() {
                assert(s[r.0.len() as int] == a[r.0.len() as int]);
            }
            let e = a.len() + t.len();
            let f = r.0.len() + m.len();
            if e < f {
                assert(s[f - 1] == b[f - 1 - e]);
            }
            if f < e {
                assert(s[e - 1] == r.1[e - 1 - f]);
            }
            assert(m =~= s.subrange(r.0.len() as int, f as int));
            assert(t =~= s.subrange(a.len() as int, e as int));
        }
    }
}

/// White space around a text does not change the trimmed text.
pub proof fn lemma_trimmed_between(a: Seq<char>, x: Seq<char>, b: Seq<char>)
    requires
        all_white(a),
        all_white(b),
    ensures
        trimmed(a + x + b) == trimmed(x),
{
    let r = lemma_trimmed(x);
    assert(a + x + b =~= (a + r.0) + trimmed(x) + (r.1 + b));
    lemma_trimmed_is(a + r.0, trimmed(x), r.1 + b);
}

/// Whether two lists hold the same texts but for white space around them.
pub open spec fn alike(a: Seq<Seq<char>>, b: Seq<Seq<char>>) -> bool {
    a.len() == b.len() && forall|k: int|
        0 <= k < a.len() ==> trimmed(#[trigger] a[k]) == trimmed(b[k])
}

/// Lists stay alike with texts put before them that differ in white space around them only.
pub proof fn lemma_alike_after(x: Seq<char>, y: Seq<char>, a: Seq<Seq<char>>, b: Seq<Seq<char>>)
    requires
        trimmed(x) == trimmed(y),
        alike(a, b),
    ensures
        alike(seq![x] + a, seq![y] + b),
{
    assert forall|k: int| 0 <= k < (seq![x] + a).len() implies trimmed(
        #[trigger] (seq![x] + a)[k],
    ) == trimmed((seq![y] + b)[k]) by {
        if k > 0 {
            assert((seq![x] + a)[k] == a[k - 1]);
        }
    }
}

/// Whether a text holds no white space.
pub open spec fn is_word(s: Seq<char>) -> bool {
    forall|k: int| 0 <= k < s.len() ==> !white(#[trigger] s[k])
}

/// A text without white space is its own trimmed text.
pub proof fn lemma_word_is_trimmed(s: Seq<char>)
    requires
        is_word(s),
    ensures
        trimmed(s) == s,
{
    lemma_trimmed_is(seq![], s, seq![]);
    assert(seq![] + s + seq![] =~= s);
}

/// A written number is made of digits, and so holds no white space.
pub proof fn lemma_decimal_is_word(n: nat)
    ensures
        is_word(decimal(n)),
        decimal(n).len() > 0,
        all_digits(decimal(n)),
{
    lemma_decimal_digits(n);
    assert forall|k: int| 0 <= k < decimal(n).len() implies !white(#[trigger] decimal(n)[k]) by {
        assert(is_digit(decimal(n)[k]));
    }
}

/// Texts stand in the order of their first difference, and a text stands before every longer one
/// that begins with it.
pub proof fn lemma_precedes_by_first_difference(
    start: Seq<char>,
    a: char,
    x: Seq<char>,
    b: char,
    y: Seq<char>,
)
    ensures
        (a as u32) < (b as u32) ==> precedes(start.push(a) + x, start.push(b) + y) && !precedes(
            start.push(b) + y,
            start.push(a) + x,
        ),
        precedes(start, start.push(a) + x),
        !precedes(start.push(a) + x, start),
    decreases start.len(),
{
    let p = start.push(a) + x;
    let q = start.push(b) + y;
    if start.len() == 0 {
        assert(p[0] == a && q[0] == b);
    } else {
        let rest = start.skip(1);
        lemma_precedes_by_first_difference(rest, a, x, b, y);
        assert(p.skip(1) =~= rest.push(a) + x);
        assert(q.skip(1) =~= rest.push(b) + y);
        assert(p[0] == start[0] && q[0] == start[0]);
    }
}

// ---------------------------------------------------------------------------
// Splitting and joining, related
// ---------------------------------------------------------------------------
/// Joining puts the separator between neighbours, and nowhere else.
pub proof fn lemma_joined_by_parts(parts: Seq<Seq<char>>, last: Seq<char>, sep: Seq<char>)
    ensures
        joined(seq![], sep) == Seq::<char>::empty(),
        joined(seq![last], sep) == last,
        parts.len() > 0 ==> joined(parts.push(last), sep) == joined(parts, sep) + sep + last,
{
    lemma_joined_prefix(parts, parts.push(last), sep, parts.len() as int);
}

proof fn lemma_joined_prefix(a: Seq<Seq<char>>, b: Seq<Seq<char>>, sep: Seq<char>, n: int)
    requires
        n <= a.len(),
        n <= b.len(),
        forall|k: int| 0 <= k < n ==> #[trigger] a[k] == b[k],
    ensures
        joined_to(a, sep, n) == joined_to(b, sep, n),
    decreases n,
{
    if n > 1 {
        lemma_joined_prefix(a, b, sep, n - 1);
    }
}

/// Every part stands in the joined text.
pub proof fn lemma_joined_holds_every_part(parts: Seq<Seq<char>>, sep: Seq<char>, i: int) -> (r: (
    Seq<char>,
    Seq<char>,
))
    requires
        0 <= i < parts.len(),
    ensures
        joined(parts, sep) == r.0 + parts[i] + r.1,
{
    lemma_joined_to_holds(parts, sep, parts.len() as int, i)
}

proof fn lemma_joined_to_holds(parts: Seq<Seq<char>>, sep: Seq<char>, n: int, i: int) -> (r: (
    Seq<char>,
    Seq<char>,
))
    requires
        0 <= i < n <= parts.len(),
    ensures
        joined_to(parts, sep, n) == r.0 + parts[i] + r.1,
    decreases n,
{
    if n == 1 {
        assert(joined_to(parts, sep, 1) =~= seq![] + parts[0] + seq![]);
        (seq![], seq![])
    } else if i == n - 1 {
        let a = joined_to(parts, sep, n - 1) + sep;
        assert(joined_to(parts, sep, n) =~= a + parts[i] + seq![]);
        (a, seq![])
    } else {
        let r = lemma_joined_to_holds(parts, sep, n - 1, i);
        let b = r.1 + sep + parts[n - 1];
        assert(joined_to(parts, sep, n) =~= r.0 + parts[i] + b);
        (r.0, b)
    }
}

proof fn lemma_joined_after(first: Seq<char>, rest: Seq<Seq<char>>, sep: Seq<char>, n: int)
    requires
        1 <= n <= rest.len(),
    ensures
        joined_to(seq![first] + rest, sep, n + 1) == first + sep + joined_to(rest, sep, n),
    decreases n,
{
    let all = seq![first] + rest;
    if n == 1 {
        assert(joined_to(all, sep, 1) == all[0]);
        assert(joined_to(all, sep, 2) =~= all[0] + sep + all[1]);
    } else {
        lemma_joined_after(first, rest, sep, n - 1);
        assert(all[n] == rest[n - 1]);
        assert(joined_to(all, sep, n + 1) =~= first + sep + joined_to(rest, sep, n));
    }
}

proof fn lemma_pieces_from_join(s: Seq<char>, sep: Seq<char>, from: int)
    requires
        sep.len() > 0,
        0 <= from <= s.len(),
    ensures
        pieces_from(s, sep, from).len() > 0,
        joined(pieces_from(s, sep, from), sep) == s.skip(from),
        forall|k: int|
            0 <= k < pieces_from(s, sep, from).len() ==> !self::has(
                #[trigger] pieces_from(s, sep, from)[k],
                sep,
            ),
    decreases s.len() - from,
{
    lemma_found_from(s, sep, from);
    match found_from(s, sep, from) {
        Some(i) => {
            let first = s.subrange(from, i);
            let next = i + sep.len();
            lemma_pieces_from_join(s, sep, next);
            let rest = pieces_from(s, sep, next);
            let all = pieces_from(s, sep, from);
            assert(all =~= seq![first] + rest);
            lemma_joined_after(first, rest, sep, rest.len() as int);
            assert(s.subrange(i, next) == sep);
            assert(s.skip(from) =~= first + sep + s.skip(next));
            lemma_free_of(s, sep, from, i);
            assert forall|k: int| 0 <= k < all.len() implies !self::has(#[trigger] all[k], sep) by {
                if k > 0 {
                    assert(all[k] == rest[k - 1]);
                }
            }
        },
        None => {
            let tail = s.skip(from);
            assert(joined(seq![tail], sep) == tail);
            assert(s.subrange(from, s.len() as int) =~= tail);
            lemma_free_of(s, sep, from, s.len() as int);
        },
    }
}

proof fn lemma_free_of(s: Seq<char>, pat: Seq<char>, from: int, to: int)
    requires
        pat.len() > 0,
        0 <= from <= to <= s.len(),
        forall|k: int| from <= k < to ==> !occurs_at(s, pat, k),
    ensures
        !self::has(s.subrange(from, to), pat),
{
    let t = s.subrange(from, to);
    lemma_found_from(t, pat, 0);
    if let Some(k) = found(t, pat) {
        assert(t.subrange(k, k + pat.len()) =~= s.subrange(from + k, from + k + pat.len()));
        assert(occurs_at(s, pat, from + k));
    }
}

/// The pieces of a text, joined by the separator again, are the text, and no piece holds the
/// separator.
pub proof fn lemma_pieces_join(s: Seq<char>, sep: Seq<char>)
    requires
        sep.len() > 0,
    ensures
        joined(pieces(s, sep), sep) == s,
        forall|k: int| 0 <= k < pieces(s, sep).len() ==> !self::has(#[trigger] pieces(s, sep)[k], sep),
{
    lemma_pieces_from_join(s, sep, 0);
    assert(s.skip(0) =~= s);
}

/// A search goes on in what follows a text as it does in what follows alone.
pub proof fn lemma_found_shifts(a: Seq<char>, b: Seq<char>, pat: Seq<char>, i: int)
    requires
        0 <= i,
        pat.len() > 0,
    ensures
        found_from(a + b, pat, a.len() + i) == (match found_from(b, pat, i) {
            Some(k) => Some(a.len() + k),
            None => None,
        }),
{
    let s = a + b;
    lemma_found_from(b, pat, i);
    lemma_found_from(s, pat, a.len() + i);
    assert forall|k: int| 0 <= k implies #[trigger] occurs_at(s, pat, a.len() + k) == occurs_at(
        b,
        pat,
        k,
    ) by {
        if k + pat.len() <= b.len() {
            assert(s.subrange(a.len() + k, a.len() + k + pat.len()) =~= b.subrange(
                k,
                k + pat.len(),
            ));
        }
    }
    match found_from(s, pat, a.len() + i) {
        Some(j) => {
            assert(occurs_at(s, pat, a.len() + (j - a.len())));
        },
        None => {},
    }
    match found_from(b, pat, i) {
        Some(k) => {
            assert(occurs_at(s, pat, a.len() + k));
        },
        None => {},
    }
}

proof fn lemma_lines_shift(a: Seq<char>, b: Seq<char>, i: int)
    requires
        0 <= i,
    ensures
        lines_from(a + b, a.len() + i) == lines_from(b, i),
    decreases b.len() - i,
{
    let s = a + b;
    let feed = seq!['\n'];
    lemma_found_shifts(a, b, feed, i);
    lemma_found_from(b, feed, i);
    match found_from(b, feed, i) {
        Some(k) => {
            lemma_lines_shift(a, b, k + 1);
            assert(s.subrange(a.len() + i, a.len() + k) =~= b.subrange(i, k));
        },
        None => {
            if i < b.len() {
                assert(s.skip(a.len() + i) =~= b.skip(i));
            }
        },
    }
}

/// A text without a line feed is one line where it is not empty. What stands before a line feed is
/// a line, without a carriage return at its end; the lines of what follows come after it.
pub proof fn lemma_lines_end_at_feeds(line: Seq<char>, rest: Seq<char>)
    requires
        !line.contains('\n'),
    ensures
        text_lines(seq![]) == Seq::<Seq<char>>::empty(),
        line.len() > 0 ==> text_lines(line) == seq![line],
        line.len() == 0 || line.last() != '\r' ==> text_lines(line.push('\n') + rest) == seq![line]
            + text_lines(rest),
        text_lines(line.push('\r').push('\n') + rest) == seq![line] + text_lines(rest),
{
    let feed = seq!['\n'];
    lemma_found_from(line, feed, 0);
    if let Some(k) = found(line, feed) {
        assert(line.subrange(k, k + 1)[0] == feed[0]);
        assert(line[k] == '\n');
    }
    assert(line.skip(0) =~= line);
    assert(found_from(Seq::<char>::empty(), feed, 0) is None);
    lemma_line_ends(line, rest);
    let cr = line.push('\r');
    assert forall|k: int| 0 <= k < cr.len() implies cr[k] != '\n' by {
        if k < line.len() {
            assert(cr[k] == line[k]);
            assert(line.contains(line[k]));
        }
    }
    lemma_line_ends(cr, rest);
    assert(cr.drop_last() =~= line);
}

proof fn lemma_line_ends(line: Seq<char>, rest: Seq<char>)
    requires
        !line.contains('\n'),
    ensures
        text_lines(line.push('\n') + rest) == seq![without_cr(line)] + text_lines(rest),
{
    let feed = seq!['\n'];
    let head = line.push('\n');
    let s = head + rest;
    lemma_found_from(s, feed, 0);
    assert(s.subrange(line.len() as int, line.len() as int + 1) =~= feed);
    assert(occurs_at(s, feed, line.len() as int));
    let i = found(s, feed)->0;
    if i < line.len() {
        assert(s.subrange(i, i + 1)[0] == feed[0]);
        assert(line[i] == s[i]);
        assert(line.contains(line[i]));
    }
    assert(i == line.len());
    assert(s.subrange(0, i) =~= line);
    lemma_lines_shift(head, rest, 0);
}

proof fn lemma_replaced_shifts(a: Seq<char>, b: Seq<char>, pat: Seq<char>, to: Seq<char>, i: int)
    requires
        pat.len() > 0,
        0 <= i <= b.len(),
    ensures
        replaced_from(a + b, pat, to, a.len() + i) == replaced_from(b, pat, to, i),
    decreases b.len() - i,
{
    let s = a + b;
    lemma_found_shifts(a, b, pat, i);
    lemma_found_from(b, pat, i);
    match found_from(b, pat, i) {
        Some(k) => {
            lemma_replaced_shifts(a, b, pat, to, k + pat.len());
            assert(s.subrange(a.len() + i, a.len() + k) =~= b.subrange(i, k));
        },
        None => {
            assert(s.skip(a.len() + i) =~= b.skip(i));
        },
    }
}

/// Exchanging a text for another keeps what stands before its first occurrence, puts the other in
/// its place, and goes on after it; a text that does not hold it is unchanged.
pub proof fn lemma_replaced_in_place(
    before: Seq<char>,
    after: Seq<char>,
    pat: Seq<char>,
    to: Seq<char>,
)
    requires
        pat.len() > 0,
        found(before + pat + after, pat) == Some(before.len() as int),
    ensures
        replaced(before + pat + after, pat, to) == before + to + replaced(after, pat, to),
        !self::has(after, pat) ==> replaced(after, pat, to) == after,
{
    let s = before + pat + after;
    assert(s.subrange(0, before.len() as int) =~= before);
    lemma_replaced_shifts(before + pat, after, pat, to, 0);
    assert(after.skip(0) =~= after);
}

/// The decimal notation of a number ends with its last digit, before which stands that of its tens.
pub proof fn lemma_decimal_by_digits(n: nat, d: nat)
    requires
        d < 10,
    ensures
        decimal(d) == seq![(48 + d) as char],
        n > 0 ==> decimal(10 * n + d) == decimal(n).push((48 + d) as char),
        n > 0 ==> signed_decimal(-(n as int)) == seq!['-'] + decimal(n),
        signed_decimal(n as int) == decimal(n),
{
    if n > 0 {
        assert((10 * n + d) / 10 == n);
        assert((10 * n + d) % 10 == d);
    }
}

/// Text of ASCII takes a byte for each character.
pub proof fn lemma_ascii_bytes(s: Seq<char>)
    requires
        ascii(s),
    ensures
        byte_len(s) == s.len(),
{
    lemma_ascii_bytes_to(s, s.len() as int);
}

proof fn lemma_ascii_bytes_to(s: Seq<char>, n: int)
    requires
        ascii(s),
        0 <= n <= s.len(),
    ensures
        bytes_to(s, n) == n,
    decreases n,
{
    if n > 0 {
        lemma_ascii_bytes_to(s, n - 1);
        assert((s[n - 1] as u32) < 0x80);
    }
}

/// Only white space is lost by trimming: a text is trimmed to nothing exactly where it is all white
/// space.
pub proof fn lemma_blank_is_white(s: Seq<char>)
    ensures
        trimmed(s).len() == 0 <==> all_white(s),
{
    let r = lemma_trimmed(s);
    let t = trimmed(s);
    if t.len() == 0 {
        assert(s =~= r.0 + r.1);
    } else {
        assert(s[r.0.len() as int] == t[0]);
    }
}

/// A text is parted at the first occurrence of a character.
pub proof fn lemma_parted_at(before: Seq<char>, c: char, after: Seq<char>)
    requires
        !before.contains(c),
    ensures
        found(before + seq![c] + after, seq![c]) == Some(before.len() as int),
        parted(before + seq![c] + after, seq![c]) == Some((before, after)),
        parted(before, seq![c]) is None,
{
    let pat = seq![c];
    let s = before + pat + after;
    let n = before.len() as int;
    lemma_found_from(s, pat, 0);
    lemma_found_from(before, pat, 0);
    assert(s.subrange(n, n + 1) =~= pat);
    assert(occurs_at(s, pat, n));
    if let Some(k) = found(before, pat) {
        assert(before.subrange(k, k + 1)[0] == pat[0]);
        assert(before.contains(before[k]));
    }
    let k = found(s, pat)->0;
    if k < n {
        assert(s.subrange(k, k + 1)[0] == pat[0]);
        assert(before[k] == s[k]);
        assert(before.contains(before[k]));
    }
    assert(s.take(n) =~= before);
    assert(s.skip(n + 1) =~= after);
}

proof fn lemma_found_before(a: Seq<char>, c: char, b: Seq<char>, from: int)
    requires
        0 <= from <= a.len(),
        !b.contains(c),
    ensures
        found_from(a + seq![c] + b, seq![c], from) == (match found_from(a, seq![c], from) {
            Some(i) => Some(i),
            None => Some(a.len() as int),
        }),
        found_from(a + seq![c] + b, seq![c], a.len() as int + 1) is None,
{
    let pat = seq![c];
    let s = a + pat + b;
    let n = a.len() as int;
    lemma_found_from(s, pat, from);
    lemma_found_from(a, pat, from);
    lemma_found_from(s, pat, n + 1);
    assert(s.subrange(n, n + 1) =~= pat);
    assert(occurs_at(s, pat, n));
    assert forall|k: int| 0 <= k < n implies #[trigger] occurs_at(s, pat, k) == occurs_at(a, pat, k) by {
        assert(s.subrange(k, k + 1) =~= a.subrange(k, k + 1));
    }
    if let Some(k) = found_from(s, pat, n + 1) {
        assert(s.subrange(k, k + 1)[0] == pat[0]);
        assert(b[k - n - 1] == s[k]);
        assert(b.contains(b[k - n - 1]));
    }
    if let Some(k) = found_from(a, pat, from) {
        assert(occurs_at(s, pat, k));
    }
}

proof fn lemma_pieces_append_from(a: Seq<char>, c: char, b: Seq<char>, from: int)
    requires
        0 <= from <= a.len(),
        !b.contains(c),
    ensures
        pieces_from(a + seq![c] + b, seq![c], from) == pieces_from(a, seq![c], from).push(b),
    decreases a.len() - from,
{
    let pat = seq![c];
    let s = a + pat + b;
    let n = a.len() as int;
    lemma_found_before(a, c, b, from);
    lemma_found_from(a, pat, from);
    match found_from(a, pat, from) {
        Some(i) => {
            lemma_pieces_append_from(a, c, b, i + 1);
            assert(s.subrange(from, i) =~= a.subrange(from, i));
            assert(pieces_from(s, pat, from) =~= pieces_from(a, pat, from).push(b));
        },
        None => {
            assert(s.subrange(from, n) =~= a.skip(from));
            assert(s.skip(n + 1) =~= b);
            assert(pieces_from(s, pat, n + 1) =~= seq![b]);
            assert(pieces_from(s, pat, from) =~= pieces_from(a, pat, from).push(b));
        },
    }
}

/// What follows the last separator is the last piece.
pub proof fn lemma_last_piece(before: Seq<char>, c: char, after: Seq<char>)
    requires
        !after.contains(c),
    ensures
        pieces(before + seq![c] + after, seq![c]) == pieces(before, seq![c]).push(after),
        pieces(after, seq![c]) == seq![after],
{
    lemma_pieces_append_from(before, c, after, 0);
    let pat = seq![c];
    lemma_found_from(after, pat, 0);
    if let Some(k) = found(after, pat) {
        assert(after.subrange(k, k + 1)[0] == pat[0]);
        assert(after.contains(after[k]));
    }
    assert(after.skip(0) =~= after);
}

proof fn lemma_runs_shift(a: Seq<char>, b: Seq<char>, i: int)
    requires
        0 <= i <= b.len(),
    ensures
        white_run(a + b, a.len() + i) == a.len() + white_run(b, i),
        word_run(a + b, a.len() + i) == a.len() + word_run(b, i),
    decreases b.len() - i,
{
    if i < b.len() {
        assert((a + b)[a.len() + i] == b[i]);
        lemma_runs_shift(a, b, i + 1);
    }
}

proof fn lemma_word_run(s: Seq<char>, i: int)
    requires
        0 <= i <= s.len(),
    ensures
        i <= word_run(s, i) <= s.len(),
    decreases s.len() - i,
{
    if i < s.len() && !white(s[i]) {
        lemma_word_run(s, i + 1);
    }
}

proof fn lemma_words_shift(a: Seq<char>, b: Seq<char>, i: int)
    requires
        0 <= i <= b.len(),
    ensures
        words_from(a + b, a.len() + i) == words_from(b, i),
    decreases b.len() - i,
{
    lemma_white_run(b, i);
    let start = white_run(b, i);
    lemma_word_run(b, start);
    let end = word_run(b, start);
    lemma_runs_shift(a, b, i);
    lemma_runs_shift(a, b, start);
    if start < end {
        lemma_words_shift(a, b, end);
        assert((a + b).subrange(a.len() + start, a.len() + end) =~= b.subrange(start, end));
    }
}

proof fn lemma_word_run_is(s: Seq<char>, i: int, n: int)
    requires
        0 <= i <= n <= s.len(),
        forall|k: int| i <= k < n ==> !white(#[trigger] s[k]),
        n == s.len() || white(s[n]),
    ensures
        word_run(s, i) == n,
    decreases n - i,
{
    if i < n {
        assert(!white(s[i]));
        lemma_word_run_is(s, i + 1, n);
    }
}

proof fn lemma_white_run_is(s: Seq<char>, i: int, n: int)
    requires
        0 <= i <= n <= s.len(),
        forall|k: int| i <= k < n ==> white(#[trigger] s[k]),
        n == s.len() || !white(s[n]),
    ensures
        white_run(s, i) == n,
    decreases n - i,
{
    if i < n {
        assert(white(s[i]));
        lemma_white_run_is(s, i + 1, n);
    }
}

/// White space sets words apart: a word that stands before white space, or at the end, is the first
/// word, and the words of what follows come after it. White space alone holds no words.
pub proof fn lemma_words_are_set_apart(blank: Seq<char>, word: Seq<char>, rest: Seq<char>)
    requires
        all_white(blank),
        is_word(word),
        word.len() > 0,
        rest.len() == 0 || white(rest[0]),
    ensures
        words_from(blank + word + rest, 0) == seq![word] + words_from(rest, 0),
        words_from(blank, 0) == Seq::<Seq<char>>::empty(),
{
    let s = blank + word + rest;
    let n = blank.len() as int;
    let e = n + word.len();
    assert forall|k: int| 0 <= k < n implies white(#[trigger] s[k]) by {
        assert(s[k] == blank[k]);
    }
    assert(s[n] == word[0]);
    lemma_white_run_is(s, 0, n);
    assert forall|k: int| n <= k < e implies !white(#[trigger] s[k]) by {
        assert(s[k] == word[k - n]);
    }
    if rest.len() > 0 {
        assert(s[e] == rest[0]);
    }
    lemma_word_run_is(s, n, e);
    assert(s.subrange(n, e) =~= word);
    lemma_words_shift(blank + word, rest, 0);
    lemma_white_run_is(blank, 0, n);
}

/// The views of strings leave nothing out: what stands in a list or in an option can be read off its
/// view.
pub proof fn lemma_views_hold_the_texts(
    parts: Seq<String>,
    pairs: Seq<(String, String)>,
    options: Seq<Option<String>>,
    s: String,
    i: int,
)
    ensures
        views(parts).len() == parts.len(),
        0 <= i < parts.len() ==> views(parts)[i] == parts[i]@,
        pair_views(pairs).len() == pairs.len(),
        0 <= i < pairs.len() ==> pair_views(pairs)[i] == (pairs[i].0@, pairs[i].1@),
        opt_views(options).len() == options.len(),
        0 <= i < options.len() ==> opt_views(options)[i] == opt(options[i]),
        opt(Some(s)) == Some(s@),
        opt(None) is None,
{
}

/// A list of quoted texts holds every one of them, in square brackets.
pub proof fn lemma_quoted_lists_hold_every_text(parts: Seq<Seq<char>>, i: int) -> (r: (
    Seq<char>,
    Seq<char>,
))
    requires
        0 <= i < parts.len(),
    ensures
        quoted_list(parts) == seq!['['] + r.0 + quoted(parts[i]) + r.1 + seq![']'],
{
    reveal_strlit("[");
    reveal_strlit("]");
    assert("["@ =~= seq!['['] && "]"@ =~= seq![']']);
    let marked = parts.map_values(|p: Seq<char>| quoted(p));
    let r = lemma_joined_holds_every_part(marked, ", "@, i);
    assert(quoted_list(parts) =~= seq!['['] + r.0 + quoted(parts[i]) + r.1 + seq![']']);
    r
}

} // verus!
