//! Character-level text operations with their mathematical meaning.
//!
//! Every operation works on the `Seq<char>` view of a string. The spec
//! functions here state what `str::trim`, `str::split`, `str::find` and
//! friends compute; the executable functions are proved to compute exactly
//! that.
use vstd::prelude::*;

verus! {

// ------------------------------------------------------------------
// Whitespace
// ------------------------------------------------------------------

/// The Unicode `White_Space` property, which is what `char::is_whitespace`
/// tests.
pub open spec fn is_ws(c: char) -> bool {
    let u = c as u32;
    ||| (0x9 <= u && u <= 0xd)
    ||| u == 0x20
    ||| u == 0x85
    ||| u == 0xa0
    ||| u == 0x1680
    ||| (0x2000 <= u && u <= 0x200a)
    ||| u == 0x2028
    ||| u == 0x2029
    ||| u == 0x202f
    ||| u == 0x205f
    ||| u == 0x3000
}

pub fn is_whitespace(c: char) -> (b: bool)
    ensures
        b == is_ws(c),
{
    let u = c as u32;
    (0x9 <= u && u <= 0xd) || u == 0x20 || u == 0x85 || u == 0xa0 || u == 0x1680 || (0x2000 <= u
        && u <= 0x200a) || u == 0x2028 || u == 0x2029 || u == 0x202f || u == 0x205f || u == 0x3000
}

/// `s` with leading whitespace removed.
pub open spec fn trim_start(s: Seq<char>) -> Seq<char>
    decreases s.len(),
{
    if s.len() > 0 && is_ws(s[0]) {
        trim_start(s.drop_first())
    } else {
        s
    }
}

/// `s` with trailing whitespace removed.
pub open spec fn trim_end(s: Seq<char>) -> Seq<char>
    decreases s.len(),
{
    if s.len() > 0 && is_ws(s.last()) {
        trim_end(s.drop_last())
    } else {
        s
    }
}

/// `str::trim`: both ends stripped of whitespace.
pub open spec fn trim(s: Seq<char>) -> Seq<char> {
    trim_end(trim_start(s))
}

/// True when every character of `s` is whitespace (so `trim(s)` is empty).
pub open spec fn all_ws(s: Seq<char>) -> bool {
    forall|i: int| 0 <= i < s.len() ==> is_ws(#[trigger] s[i])
}

pub proof fn lemma_trim_start_skip(s: Seq<char>, i: int)
    requires
        0 <= i <= s.len(),
        forall|j: int| 0 <= j < i ==> is_ws(#[trigger] s[j]),
    ensures
        trim_start(s) == trim_start(s.skip(i)),
    decreases i,
{
    if i > 0 {
        assert(is_ws(s[0]));
        assert(s.drop_first().skip(i - 1) =~= s.skip(i));
        assert forall|j: int| 0 <= j < i - 1 implies is_ws(#[trigger] s.drop_first()[j]) by {
            assert(s.drop_first()[j] == s[j + 1]);
        }
        lemma_trim_start_skip(s.drop_first(), i - 1);
    } else {
        assert(s.skip(0) =~= s);
    }
}

pub proof fn lemma_trim_end_take(s: Seq<char>, k: int)
    requires
        0 <= k <= s.len(),
        forall|j: int| k <= j < s.len() ==> is_ws(#[trigger] s[j]),
    ensures
        trim_end(s) == trim_end(s.take(k)),
    decreases s.len() - k,
{
    if k < s.len() {
        assert(s.drop_last().take(k) =~= s.take(k));
        lemma_trim_end_take(s.drop_last(), k);
    } else {
        assert(s.take(k) =~= s);
    }
}

/// Positions: `trim_start(s)` is a suffix of `s` starting at the first
/// non-whitespace character.
pub proof fn lemma_trim_start_shape(s: Seq<char>)
    ensures
        exists|i: int|
            0 <= i <= s.len() && trim_start(s) == s.skip(i) && (forall|j: int|
                0 <= j < i ==> is_ws(#[trigger] s[j])) && (i < s.len() ==> !is_ws(s[i])),
    decreases s.len(),
{
    if s.len() > 0 && is_ws(s[0]) {
        lemma_trim_start_shape(s.drop_first());
        let i = choose|i: int|
            0 <= i <= s.drop_first().len() && trim_start(s.drop_first()) == s.drop_first().skip(i)
                && (forall|j: int| 0 <= j < i ==> is_ws(#[trigger] s.drop_first()[j])) && (i
                < s.drop_first().len() ==> !is_ws(s.drop_first()[i]));
        assert(s.drop_first().skip(i) =~= s.skip(i + 1));
        assert forall|j: int| 0 <= j < i + 1 implies is_ws(#[trigger] s[j]) by {
            if j > 0 {
                assert(s[j] == s.drop_first()[j - 1]);
            }
        }
        assert(i + 1 < s.len() ==> s[i + 1] == s.drop_first()[i]);
    } else {
        assert(s.skip(0) =~= s);
    }
}

pub proof fn lemma_trim_end_shape(s: Seq<char>)
    ensures
        exists|k: int|
            0 <= k <= s.len() && trim_end(s) == s.take(k) && (forall|j: int|
                k <= j < s.len() ==> is_ws(#[trigger] s[j])) && (k > 0 ==> !is_ws(s[k - 1])),
    decreases s.len(),
{
    if s.len() > 0 && is_ws(s.last()) {
        lemma_trim_end_shape(s.drop_last());
        let k = choose|k: int|
            0 <= k <= s.drop_last().len() && trim_end(s.drop_last()) == s.drop_last().take(k)
                && (forall|j: int| k <= j < s.drop_last().len() ==> is_ws(#[trigger] s.drop_last()[j]))
                && (k > 0 ==> !is_ws(s.drop_last()[k - 1]));
        assert(s.drop_last().take(k) =~= s.take(k));
        assert forall|j: int| k <= j < s.len() implies is_ws(#[trigger] s[j]) by {
            if j < s.len() - 1 {
                assert(s[j] == s.drop_last()[j]);
            }
        }
    } else {
        assert(s.take(s.len() as int) =~= s);
    }
}

/// Leading whitespace count, executable.
fn count_leading_ws(v: &Vec<char>) -> (i: usize)
    ensures
        i <= v.len(),
        forall|j: int| 0 <= j < i ==> is_ws(#[trigger] v@[j]),
        i < v.len() ==> !is_ws(v@[i as int]),
        trim_start(v@) == v@.skip(i as int),
{
    let mut i: usize = 0;
    while i < v.len() && is_whitespace(v[i])
        invariant
            i <= v.len(),
            forall|j: int| 0 <= j < i ==> is_ws(#[trigger] v@[j]),
        decreases v.len() - i,
    {
        i = i + 1;
    }
    proof {
        lemma_trim_start_skip(v@, i as int);
        let t = v@.skip(i as int);
        if t.len() > 0 {
            assert(t[0] == v@[i as int]);
        }
    }
    i
}

/// End index after dropping trailing whitespace in `v[lo..]`.
fn end_without_trailing_ws(v: &Vec<char>, lo: usize) -> (k: usize)
    requires
        lo <= v.len(),
    ensures
        lo <= k <= v.len(),
        forall|j: int| k <= j < v.len() ==> is_ws(#[trigger] v@[j]),
        k > lo ==> !is_ws(v@[k - 1]),
        trim_end(v@.skip(lo as int)) == v@.subrange(lo as int, k as int),
{
    let mut k: usize = v.len();
    while k > lo && is_whitespace(v[k - 1])
        invariant
            lo <= k <= v.len(),
            forall|j: int| k <= j < v.len() ==> is_ws(#[trigger] v@[j]),
        decreases k,
    {
        k = k - 1;
    }
    proof {
        let s = v@.skip(lo as int);
        let kk = (k - lo) as int;
        assert forall|j: int| kk <= j < s.len() implies is_ws(#[trigger] s[j]) by {
            assert(s[j] == v@[j + lo]);
        }
        lemma_trim_end_take(s, kk);
        assert(s.take(kk) =~= v@.subrange(lo as int, k as int));
        let t = s.take(kk);
        if t.len() > 0 {
            assert(t.last() == v@[k - 1]);
        }
    }
    k
}

// ------------------------------------------------------------------
// Conversions between strings and character vectors
// ------------------------------------------------------------------

/// Appends one character to a string (`String::push`).
#[verifier::external_body]
pub(crate) fn push_char(s: &mut String, c: char)
    ensures
        final(s)@ == old(s)@.push(c),
{
    s.push(c);
}

/// The characters of `s`, in order.
pub fn chars_of(s: &str) -> (v: Vec<char>)
    ensures
        v@ == s@,
{
    let mut v: Vec<char> = Vec::new();
    for c in it: s.chars()
        invariant
            v@ == it.seq().take(it.index() as int),
    {
        v.push(c);
    }
    proof {
        assert(v@ =~= s@);
    }
    v
}

/// A string holding `v[from..to]`.
pub fn string_from(v: &Vec<char>, from: usize, to: usize) -> (r: String)
    requires
        from <= to <= v.len(),
    ensures
        r@ == v@.subrange(from as int, to as int),
{
    let mut r = String::new();
    let mut i = from;
    while i < to
        invariant
            from <= i <= to <= v.len(),
            r@ == v@.subrange(from as int, i as int),
        decreases to - i,
    {
        push_char(&mut r, v[i]);
        i = i + 1;
        proof {
            assert(r@ =~= v@.subrange(from as int, i as int));
        }
    }
    r
}

/// A string holding all of `v`.
pub fn string_of(v: &Vec<char>) -> (r: String)
    ensures
        r@ == v@,
{
    let r = string_from(v, 0, v.len());
    proof {
        assert(v@.subrange(0, v@.len() as int) =~= v@);
    }
    r
}

/// `a ++ b` as a fresh string.
pub fn concat2(a: &str, b: &str) -> (r: String)
    ensures
        r@ == a@ + b@,
{
    let mut r = String::from_str(a);
    r.append(b);
    r
}

/// `a ++ b ++ c` as a fresh string.
pub fn concat3(a: &str, b: &str, c: &str) -> (r: String)
    ensures
        r@ == a@ + b@ + c@,
{
    let mut r = String::from_str(a);
    r.append(b);
    r.append(c);
    r
}

/// A copy of `s`.
pub fn copy_str(s: &str) -> (r: String)
    ensures
        r@ == s@,
{
    String::from_str(s)
}

// ------------------------------------------------------------------
// trim
// ------------------------------------------------------------------

/// `str::trim`.
pub fn trim_str(s: &str) -> (r: String)
    ensures
        r@ == trim(s@),
{
    let v = chars_of(s);
    let i = count_leading_ws(&v);
    let k = end_without_trailing_ws(&v, i);
    string_from(&v, i, k)
}

/// `str::trim_end`.
pub fn trim_end_str(s: &str) -> (r: String)
    ensures
        r@ == trim_end(s@),
{
    let v = chars_of(s);
    let k = end_without_trailing_ws(&v, 0);
    proof {
        assert(v@.skip(0) =~= v@);
    }
    string_from(&v, 0, k)
}

/// True when `trim(s)` is empty, i.e. `s` holds only whitespace.
pub proof fn lemma_trim_empty_iff_all_ws(s: Seq<char>)
    ensures
        trim(s).len() == 0 <==> all_ws(s),
{
    lemma_trim_start_shape(s);
    let i = choose|i: int|
        0 <= i <= s.len() && trim_start(s) == s.skip(i) && (forall|j: int|
            0 <= j < i ==> is_ws(#[trigger] s[j])) && (i < s.len() ==> !is_ws(s[i]));
    lemma_trim_end_shape(trim_start(s));
    let t = trim_start(s);
    let k = choose|k: int|
        0 <= k <= t.len() && trim_end(t) == t.take(k) && (forall|j: int|
            k <= j < t.len() ==> is_ws(#[trigger] t[j])) && (k > 0 ==> !is_ws(t[k - 1]));
    if all_ws(s) {
        if i < s.len() {
            assert(is_ws(s[i]));
        }
        assert(t.len() == 0);
    } else {
        if trim(s).len() == 0 {
            assert(k == 0);
            let w = choose|w: int| 0 <= w < s.len() && !is_ws(#[trigger] s[w]);
            assert(w >= i);
            assert(t[w - i] == s[w]);
        }
    }
}

/// Trimming a trimmed string changes nothing.
pub proof fn lemma_trim_idempotent(s: Seq<char>)
    ensures
        trim(trim(s)) == trim(s),
{
    lemma_trim_start_shape(s);
    let i = choose|i: int|
        0 <= i <= s.len() && trim_start(s) == s.skip(i) && (forall|j: int|
            0 <= j < i ==> is_ws(#[trigger] s[j])) && (i < s.len() ==> !is_ws(s[i]));
    let ts = trim_start(s);
    lemma_trim_end_shape(ts);
    let k = choose|k: int|
        0 <= k <= ts.len() && trim_end(ts) == ts.take(k) && (forall|j: int|
            k <= j < ts.len() ==> is_ws(#[trigger] ts[j])) && (k > 0 ==> !is_ws(ts[k - 1]));
    let t = trim(s);
    if t.len() > 0 {
        assert(t[0] == ts[0]);
        assert(ts[0] == s[i]);
        assert(trim_start(t) == t);
        assert(t.last() == ts[k - 1]);
        assert(trim_end(t) == t);
    }
}

/// True when `s` holds only whitespace.
pub fn is_blank(s: &str) -> (b: bool)
    ensures
        b == (trim(s@).len() == 0),
        b == all_ws(s@),
{
    let v = chars_of(s);
    let i = count_leading_ws(&v);
    proof {
        lemma_trim_empty_iff_all_ws(s@);
    }
    i == v.len()
}

// ------------------------------------------------------------------
// Prefix / suffix / occurrence
// ------------------------------------------------------------------

pub open spec fn is_prefix(p: Seq<char>, s: Seq<char>) -> bool {
    p.len() <= s.len() && s.take(p.len() as int) == p
}

pub open spec fn is_suffix(p: Seq<char>, s: Seq<char>) -> bool {
    p.len() <= s.len() && s.skip(s.len() - p.len()) == p
}

/// `p` occurs in `s` starting at position `i`.
pub open spec fn occurs_at(s: Seq<char>, p: Seq<char>, i: int) -> bool {
    0 <= i && i + p.len() <= s.len() && s.subrange(i, i + p.len()) == p
}

/// First occurrence of `p` in `s` at or after `start` (`str::find`).
pub open spec fn find_from(s: Seq<char>, p: Seq<char>, start: int) -> Option<int>
    decreases s.len() + 1 - start,
{
    if start < 0 || start + p.len() > s.len() {
        None
    } else if occurs_at(s, p, start) {
        Some(start)
    } else {
        find_from(s, p, start + 1)
    }
}

pub open spec fn find(s: Seq<char>, p: Seq<char>) -> Option<int> {
    find_from(s, p, 0)
}

pub open spec fn contains(s: Seq<char>, p: Seq<char>) -> bool {
    find(s, p) is Some
}

/// Last occurrence of `p` in `s` that ends at or before `end`
/// (`str::rfind` when `end == s.len()`).
pub open spec fn rfind_to(s: Seq<char>, p: Seq<char>, end: int) -> Option<int>
    decreases end + 1,
{
    if end < p.len() || end > s.len() {
        None
    } else if occurs_at(s, p, end - p.len()) {
        Some(end - p.len())
    } else {
        rfind_to(s, p, end - 1)
    }
}

pub open spec fn rfind(s: Seq<char>, p: Seq<char>) -> Option<int> {
    rfind_to(s, p, s.len() as int)
}

pub proof fn lemma_find_from_props(s: Seq<char>, p: Seq<char>, start: int)
    requires
        0 <= start,
    ensures
        find_from(s, p, start) matches Some(i) ==> start <= i && occurs_at(s, p, i) && forall|
            j: int,
        |
            start <= j < i ==> !occurs_at(s, p, j),
        find_from(s, p, start) is None ==> forall|j: int| start <= j ==> !occurs_at(s, p, j),
    decreases s.len() + 1 - start,
{
    if start + p.len() > s.len() {
    } else if occurs_at(s, p, start) {
    } else {
        lemma_find_from_props(s, p, start + 1);
    }
}

pub proof fn lemma_find_props(s: Seq<char>, p: Seq<char>)
    ensures
        find(s, p) matches Some(i) ==> 0 <= i && i + p.len() <= s.len() && occurs_at(s, p, i)
            && forall|j: int| 0 <= j < i ==> !occurs_at(s, p, j),
        find(s, p) is None ==> forall|j: int| 0 <= j ==> !occurs_at(s, p, j),
{
    lemma_find_from_props(s, p, 0);
}

/// The first occurrence is what `find` returns.
pub proof fn lemma_find_first(s: Seq<char>, p: Seq<char>, i: int)
    requires
        occurs_at(s, p, i),
        forall|j: int| 0 <= j < i ==> !occurs_at(s, p, j),
    ensures
        find(s, p) == Some(i),
{
    lemma_find_from_first(s, p, 0, i);
}

proof fn lemma_find_from_first(s: Seq<char>, p: Seq<char>, k: int, i: int)
    requires
        0 <= k <= i,
        occurs_at(s, p, i),
        forall|j: int| k <= j < i ==> !occurs_at(s, p, j),
    ensures
        find_from(s, p, k) == Some(i),
    decreases i - k,
{
    if k < i {
        lemma_find_from_first(s, p, k + 1, i);
    }
}

pub proof fn lemma_rfind_to_props(s: Seq<char>, p: Seq<char>, end: int)
    ensures
        rfind_to(s, p, end) matches Some(i) ==> i + p.len() <= end && occurs_at(s, p, i)
            && forall|j: int| i < j && j + p.len() <= end ==> !occurs_at(s, p, j),
        rfind_to(s, p, end) is None && end <= s.len() ==> forall|j: int|
            j + p.len() <= end ==> !occurs_at(s, p, j),
    decreases end + 1,
{
    if end < p.len() || end > s.len() {
    } else if occurs_at(s, p, end - p.len()) {
    } else {
        rfind_to_step(s, p, end);
        lemma_rfind_to_props(s, p, end - 1);
    }
}

proof fn rfind_to_step(s: Seq<char>, p: Seq<char>, end: int)
    requires
        p.len() <= end <= s.len(),
        !occurs_at(s, p, end - p.len()),
    ensures
        rfind_to(s, p, end) == rfind_to(s, p, end - 1),
{
}

pub proof fn lemma_rfind_props(s: Seq<char>, p: Seq<char>)
    ensures
        rfind(s, p) matches Some(i) ==> 0 <= i && i + p.len() <= s.len() && occurs_at(s, p, i)
            && forall|j: int| i < j && j + p.len() <= s.len() ==> !occurs_at(s, p, j),
        rfind(s, p) is None ==> forall|j: int| j + p.len() <= s.len() ==> !occurs_at(s, p, j),
{
    lemma_rfind_to_props(s, p, s.len() as int);
}

/// Executable `occurs_at`.
pub fn occurs_at_exec(s: &Vec<char>, p: &Vec<char>, i: usize) -> (b: bool)
    ensures
        b == occurs_at(s@, p@, i as int),
{
    if p.len() > s.len() || i > s.len() - p.len() {
        return false;
    }
    let mut k: usize = 0;
    while k < p.len()
        invariant
            i + p.len() <= s.len(),
            k <= p.len(),
            forall|j: int| 0 <= j < k ==> s@[i + j] == p@[j],
        decreases p.len() - k,
    {
        if s[i + k] != p[k] {
            proof {
                assert(s@.subrange(i as int, i + p.len())[k as int] == s@[i + k]);
            }
            return false;
        }
        k = k + 1;
    }
    proof {
        assert(s@.subrange(i as int, i + p.len()) =~= p@);
    }
    true
}

/// Executable `find_from` over character vectors.
pub fn find_from_exec(s: &Vec<char>, p: &Vec<char>, start: usize) -> (r: Option<usize>)
    ensures
        match r {
            Some(i) => find_from(s@, p@, start as int) == Some(i as int),
            None => find_from(s@, p@, start as int) is None,
        },
{
    let mut i = start;
    if p.len() > s.len() {
        return None;
    }
    if p.len() == 0 {
        if start <= s.len() {
            proof {
                assert(s@.subrange(start as int, start as int) =~= p@);
            }
            return Some(start);
        }
        return None;
    }
    while i <= s.len() - p.len()
        invariant
            start <= i,
            p.len() <= s.len(),
            p.len() > 0,
            find_from(s@, p@, start as int) == find_from(s@, p@, i as int),
        decreases s.len() - i,
    {
        if occurs_at_exec(s, p, i) {
            return Some(i);
        }
        i = i + 1;
    }
    None
}

/// Executable `find`.
pub fn find_exec(s: &Vec<char>, p: &Vec<char>) -> (r: Option<usize>)
    ensures
        match r {
            Some(i) => find(s@, p@) == Some(i as int),
            None => find(s@, p@) is None,
        },
{
    find_from_exec(s, p, 0)
}

/// Executable `rfind`.
pub fn rfind_exec(s: &Vec<char>, p: &Vec<char>) -> (r: Option<usize>)
    ensures
        match r {
            Some(i) => rfind(s@, p@) == Some(i as int),
            None => rfind(s@, p@) is None,
        },
{
    if p.len() > s.len() {
        return None;
    }
    if p.len() == 0 {
        proof {
            assert(s@.subrange(s@.len() as int, s@.len() as int) =~= p@);
        }
        return Some(s.len());
    }
    let mut end = s.len();
    while end >= p.len()
        invariant
            p.len() <= s.len(),
            p.len() > 0,
            end <= s.len(),
            rfind(s@, p@) == rfind_to(s@, p@, end as int),
        decreases end,
    {
        if occurs_at_exec(s, p, end - p.len()) {
            return Some(end - p.len());
        }
        end = end - 1;
    }
    None
}

/// `str::find` on strings, in character positions.
pub fn find_str(s: &str, p: &str) -> (r: Option<usize>)
    ensures
        match r {
            Some(i) => find(s@, p@) == Some(i as int),
            None => find(s@, p@) is None,
        },
{
    let sv = chars_of(s);
    let pv = chars_of(p);
    find_exec(&sv, &pv)
}

/// `str::contains`.
pub fn contains_str(s: &str, p: &str) -> (b: bool)
    ensures
        b == contains(s@, p@),
{
    find_str(s, p).is_some()
}

/// `str::starts_with`.
pub fn starts_with_str(s: &str, p: &str) -> (b: bool)
    ensures
        b == is_prefix(p@, s@),
{
    let sv = chars_of(s);
    let pv = chars_of(p);
    let b = occurs_at_exec(&sv, &pv, 0);
    proof {
        if p@.len() <= s@.len() {
            assert(s@.subrange(0, p@.len() as int) =~= s@.take(p@.len() as int));
        }
    }
    b
}

/// `str::ends_with`.
pub fn ends_with_str(s: &str, p: &str) -> (b: bool)
    ensures
        b == is_suffix(p@, s@),
{
    let sv = chars_of(s);
    let pv = chars_of(p);
    if pv.len() > sv.len() {
        return false;
    }
    let b = occurs_at_exec(&sv, &pv, sv.len() - pv.len());
    proof {
        assert(s@.subrange(s@.len() - p@.len(), s@.len() as int) =~= s@.skip(
            s@.len() - p@.len(),
        ));
    }
    b
}

/// `str::strip_prefix`.
pub fn strip_prefix_str(s: &str, p: &str) -> (r: Option<String>)
    ensures
        match r {
            Some(t) => is_prefix(p@, s@) && t@ == s@.skip(p@.len() as int),
            None => !is_prefix(p@, s@),
        },
{
    if starts_with_str(s, p) {
        let sv = chars_of(s);
        let pl = p.unicode_len();
        Some(string_from(&sv, pl, sv.len()))
    } else {
        None
    }
}

/// `str::strip_suffix`.
pub fn strip_suffix_str(s: &str, p: &str) -> (r: Option<String>)
    ensures
        match r {
            Some(t) => is_suffix(p@, s@) && t@ == s@.take(s@.len() - p@.len()),
            None => !is_suffix(p@, s@),
        },
{
    if ends_with_str(s, p) {
        let sv = chars_of(s);
        let pl = p.unicode_len();
        Some(string_from(&sv, 0, sv.len() - pl))
    } else {
        None
    }
}

/// Equality of two strings' characters.
pub fn str_eq(a: &str, b: &str) -> (r: bool)
    ensures
        r == (a@ == b@),
{
    let av = chars_of(a);
    let bv = chars_of(b);
    if av.len() != bv.len() {
        return false;
    }
    let mut i: usize = 0;
    while i < av.len()
        invariant
            av@ == a@,
            bv@ == b@,
            av.len() == bv.len(),
            i <= av.len(),
            forall|j: int| 0 <= j < i ==> av@[j] == bv@[j],
        decreases av.len() - i,
    {
        if av[i] != bv[i] {
            proof {
                assert(av@[i as int] != bv@[i as int]);
            }
            return false;
        }
        i = i + 1;
    }
    proof {
        assert(av@ =~= bv@);
    }
    true
}

// ------------------------------------------------------------------
// ASCII case folding
// ------------------------------------------------------------------

pub open spec fn ascii_lower(c: char) -> char {
    if 'A' <= c && c <= 'Z' {
        ((c as u32) + 32) as char
    } else {
        c
    }
}

/// `str::eq_ignore_ascii_case`.
pub open spec fn eq_ignore_ascii_case(a: Seq<char>, b: Seq<char>) -> bool {
    a.len() == b.len() && forall|i: int| 0 <= i < a.len() ==> ascii_lower(a[i]) == ascii_lower(b[i])
}

fn ascii_lower_exec(c: char) -> (r: char)
    ensures
        r == ascii_lower(c),
{
    if 'A' <= c && c <= 'Z' {
        let u: u32 = c as u32;
        let b: u8 = (u + 32) as u8;
        assert(b as u32 == u + 32);
        b as char
    } else {
        c
    }
}

pub fn eq_ignore_ascii_case_str(a: &str, b: &str) -> (r: bool)
    ensures
        r == eq_ignore_ascii_case(a@, b@),
{
    let av = chars_of(a);
    let bv = chars_of(b);
    if av.len() != bv.len() {
        return false;
    }
    let mut i: usize = 0;
    while i < av.len()
        invariant
            av@ == a@,
            bv@ == b@,
            av.len() == bv.len(),
            i <= av.len(),
            forall|j: int| 0 <= j < i ==> ascii_lower(av@[j]) == ascii_lower(bv@[j]),
        decreases av.len() - i,
    {
        if ascii_lower_exec(av[i]) != ascii_lower_exec(bv[i]) {
            proof {
                assert(ascii_lower(av@[i as int]) != ascii_lower(bv@[i as int]));
            }
            return false;
        }
        i = i + 1;
    }
    true
}

// ------------------------------------------------------------------
// Splitting
// ------------------------------------------------------------------

/// `str::split(sep)` for a non-empty separator: the pieces between
/// occurrences, including empty ones.
pub open spec fn split(s: Seq<char>, sep: Seq<char>) -> Seq<Seq<char>>
    decreases s.len(),
{
    if sep.len() == 0 {
        seq![s]
    } else {
        match find(s, sep) {
            Some(i) => if 0 <= i && i + sep.len() <= s.len() {
                seq![s.take(i)] + split(s.skip(i + sep.len()), sep)
            } else {
                seq![s]
            },
            None => seq![s],
        }
    }
}

/// The text before the first occurrence of `sep` (the first item of
/// `str::split`), or all of `s`.
pub open spec fn before_first(s: Seq<char>, sep: Seq<char>) -> Seq<char> {
    match find(s, sep) {
        Some(i) => s.take(i),
        None => s,
    }
}

/// The text after the last occurrence of `sep` (the first item of
/// `str::rsplit`), or all of `s`.
pub open spec fn after_last(s: Seq<char>, sep: Seq<char>) -> Seq<char> {
    match rfind(s, sep) {
        Some(i) => s.skip(i + sep.len()),
        None => s,
    }
}

pub proof fn lemma_split_nonempty(s: Seq<char>, sep: Seq<char>)
    ensures
        split(s, sep).len() >= 1,
    decreases s.len(),
{
    if sep.len() > 0 {
        if let Some(i) = find(s, sep) {
            if 0 <= i && i + sep.len() <= s.len() {
                lemma_split_nonempty(s.skip(i + sep.len()), sep);
            }
        }
    }
}

/// `s.split(sep)` collected into owned strings. `sep` must be non-empty.
pub fn split_str(s: &str, sep: &str) -> (r: Vec<String>)
    requires
        sep@.len() > 0,
    ensures
        r@.map_values(|x: String| x@) == split(s@, sep@),
{
    let sv = chars_of(s);
    let pv = chars_of(sep);
    let mut out: Vec<String> = Vec::new();
    let mut start: usize = 0;
    proof {
        assert(sv@.skip(0) =~= s@);
        assert(out@.map_values(|x: String| x@) =~= Seq::<Seq<char>>::empty());
        assert(Seq::<Seq<char>>::empty() + split(s@, sep@) =~= split(s@, sep@));
    }
    loop
        invariant
            start <= sv.len(),
            pv@ == sep@,
            sv@ == s@,
            pv.len() > 0,
            out@.map_values(|x: String| x@) + split(sv@.skip(start as int), pv@) == split(s@, sep@),
        decreases sv.len() - start,
    {
        let ghost rest = sv@.skip(start as int);
        let found = find_from_exec(&sv, &pv, start);
        match found {
            Some(i) => {
                proof {
                    lemma_find_from_props(sv@, pv@, start as int);
                    lemma_find_shift(sv@, pv@, start as int);
                    assert(find(rest, pv@) == Some(i - start));
                    assert(rest.take(i - start) =~= sv@.subrange(start as int, i as int));
                    assert(rest.skip(i - start + pv@.len()) =~= sv@.skip(i + pv@.len()));
                }
                let piece = string_from(&sv, start, i);
                let ghost before = out@.map_values(|x: String| x@);
                out.push(piece);
                proof {
                    assert(out@.map_values(|x: String| x@) =~= before.push(
                        sv@.subrange(start as int, i as int),
                    ));
                    assert(seq![rest.take(i - start)] + split(sv@.skip(i + pv@.len()), pv@)
                        == split(rest, pv@));
                    assert(before.push(sv@.subrange(start as int, i as int)) + split(
                        sv@.skip(i + pv@.len()),
                        pv@,
                    ) =~= before + (seq![rest.take(i - start)] + split(
                        sv@.skip(i + pv@.len()),
                        pv@,
                    )));
                }
                start = i + pv.len();
            },
            None => {
                proof {
                    lemma_find_shift(sv@, pv@, start as int);
                    assert(find(rest, pv@) is None);
                    assert(rest =~= sv@.subrange(start as int, sv@.len() as int));
                }
                let piece = string_from(&sv, start, sv.len());
                let ghost before = out@.map_values(|x: String| x@);
                out.push(piece);
                proof {
                    assert(out@.map_values(|x: String| x@) =~= before + seq![rest]);
                }
                return out;
            },
        }
    }
}

/// `find` in a suffix is `find_from` in the whole, shifted.
pub proof fn lemma_find_shift(s: Seq<char>, p: Seq<char>, start: int)
    requires
        0 <= start <= s.len(),
    ensures
        match find_from(s, p, start) {
            Some(i) => find(s.skip(start), p) == Some(i - start),
            None => find(s.skip(start), p) is None,
        },
{
    lemma_find_from_shift(s, p, start, 0);
}

proof fn lemma_find_from_shift(s: Seq<char>, p: Seq<char>, start: int, k: int)
    requires
        0 <= start <= s.len(),
        0 <= k,
    ensures
        match find_from(s, p, start + k) {
            Some(i) => find_from(s.skip(start), p, k) == Some(i - start),
            None => find_from(s.skip(start), p, k) is None,
        },
    decreases s.len() + 1 - start - k,
{
    let t = s.skip(start);
    if start + k + p.len() > s.len() {
    } else {
        assert(t.subrange(k, k + p.len()) =~= s.subrange(start + k, start + k + p.len()));
        if occurs_at(s, p, start + k) {
        } else {
            lemma_find_from_shift(s, p, start, k + 1);
        }
    }
}

/// The first piece of `str::split`.
pub fn before_first_str(s: &str, sep: &str) -> (r: String)
    ensures
        r@ == before_first(s@, sep@),
{
    let sv = chars_of(s);
    let pv = chars_of(sep);
    match find_exec(&sv, &pv) {
        Some(i) => {
            proof {
                lemma_find_props(s@, sep@);
                assert(sv@.subrange(0, i as int) =~= s@.take(i as int));
            }
            string_from(&sv, 0, i)
        },
        None => string_of(&sv),
    }
}

/// The first piece of `str::rsplit`.
pub fn after_last_str(s: &str, sep: &str) -> (r: String)
    ensures
        r@ == after_last(s@, sep@),
{
    let sv = chars_of(s);
    let pv = chars_of(sep);
    match rfind_exec(&sv, &pv) {
        Some(i) => {
            proof {
                lemma_rfind_props(s@, sep@);
                assert(i + pv.len() <= sv.len());
                assert(sv@.subrange(i + pv@.len(), sv@.len() as int) =~= s@.skip(
                    i + sep@.len(),
                ));
            }
            string_from(&sv, i + pv.len(), sv.len())
        },
        None => string_of(&sv),
    }
}

/// `str::split_whitespace`: maximal runs of non-whitespace characters.
pub open spec fn words(s: Seq<char>) -> Seq<Seq<char>>
    decreases s.len(),
{
    let t = trim_start(s);
    if t.len() == 0 {
        seq![]
    } else {
        let n = word_len(t);
        proof {
            lemma_trim_start_len(s);
            lemma_word_len(t);
        }
        seq![t.take(n)] + words(t.skip(n))
    }
}

pub proof fn lemma_trim_start_len(s: Seq<char>)
    ensures
        trim_start(s).len() <= s.len(),
        trim_start(s).len() > 0 ==> !is_ws(trim_start(s)[0]),
    decreases s.len(),
{
    if s.len() > 0 && is_ws(s[0]) {
        lemma_trim_start_len(s.drop_first());
    }
}

pub proof fn lemma_word_len(s: Seq<char>)
    ensures
        0 <= word_len(s) <= s.len(),
        s.len() > 0 && !is_ws(s[0]) ==> word_len(s) >= 1,
        forall|j: int| 0 <= j < word_len(s) ==> !is_ws(#[trigger] s[j]),
        word_len(s) < s.len() ==> is_ws(s[word_len(s)]),
    decreases s.len(),
{
    if s.len() > 0 && !is_ws(s[0]) {
        lemma_word_len(s.drop_first());
        assert forall|j: int| 0 <= j < word_len(s) implies !is_ws(#[trigger] s[j]) by {
            if j > 0 {
                assert(s[j] == s.drop_first()[j - 1]);
            }
        }
        if word_len(s) < s.len() {
            assert(s[word_len(s)] == s.drop_first()[word_len(s) - 1]);
        }
    }
}

/// Length of the leading run of non-whitespace characters.
pub open spec fn word_len(s: Seq<char>) -> int
    decreases s.len(),
{
    if s.len() > 0 && !is_ws(s[0]) {
        1 + word_len(s.drop_first())
    } else {
        0
    }
}


/// `word_len(s) == n` exactly when `s[..n]` holds no whitespace and `s[n]`
/// (if any) is whitespace.
pub proof fn lemma_word_len_is(s: Seq<char>, n: int)
    requires
        0 <= n <= s.len(),
        forall|j: int| 0 <= j < n ==> !is_ws(#[trigger] s[j]),
        n < s.len() ==> is_ws(s[n]),
    ensures
        word_len(s) == n,
{
    lemma_word_len(s);
    let w = word_len(s);
    if w < n {
        assert(is_ws(s[w]));
        assert(!is_ws(s[w]));
    } else if w > n {
        assert(!is_ws(s[n]));
    }
}

/// `str::split_whitespace`, collected.
pub fn split_whitespace_str(s: &str) -> (r: Vec<String>)
    ensures
        r@.map_values(|x: String| x@) == words(s@),
{
    let v = chars_of(s);
    let mut out: Vec<String> = Vec::new();
    let mut i: usize = 0;
    proof {
        assert(v@.skip(0) =~= s@);
        assert(out@.map_values(|x: String| x@) =~= Seq::<Seq<char>>::empty());
        assert(Seq::<Seq<char>>::empty() + words(s@) =~= words(s@));
    }
    loop
        invariant
            i <= v.len(),
            v@ == s@,
            out@.map_values(|x: String| x@) + words(v@.skip(i as int)) == words(s@),
        decreases v.len() - i,
    {
        let mut j = i;
        while j < v.len() && is_whitespace(v[j])
            invariant
                i <= j <= v.len(),
                forall|k: int| i <= k < j ==> is_ws(#[trigger] v@[k]),
            decreases v.len() - j,
        {
            j = j + 1;
        }
        let ghost rest = v@.skip(i as int);
        proof {
            assert forall|k: int| 0 <= k < j - i implies is_ws(#[trigger] rest[k]) by {
                assert(rest[k] == v@[i + k]);
            }
            lemma_trim_start_skip(rest, j - i);
            assert(rest.skip(j - i) =~= v@.skip(j as int));
        }
        if j == v.len() {
            proof {
                assert(v@.skip(j as int).len() == 0);
                assert(trim_start(rest).len() == 0);
                assert(words(rest) =~= Seq::<Seq<char>>::empty());
                assert(out@.map_values(|x: String| x@) + Seq::<Seq<char>>::empty() =~= out@.map_values(|x: String| x@));
            }
            return out;
        }
        let mut k = j;
        while k < v.len() && !is_whitespace(v[k])
            invariant
                j <= k <= v.len(),
                forall|m: int| j <= m < k ==> !is_ws(#[trigger] v@[m]),
            decreases v.len() - k,
        {
            k = k + 1;
        }
        let ghost t = v@.skip(j as int);
        proof {
            assert(t[0] == v@[j as int]);
            assert(trim_start(t) == t);
            assert forall|m: int| 0 <= m < k - j implies !is_ws(#[trigger] t[m]) by {
                assert(t[m] == v@[j + m]);
            }
            if k < v.len() {
                assert(t[k - j] == v@[k as int]);
            }
            lemma_word_len_is(t, k - j);
            assert(t.take(k - j) =~= v@.subrange(j as int, k as int));
            assert(t.skip(k - j) =~= v@.skip(k as int));
            assert(words(rest) == seq![t.take(k - j)] + words(t.skip(k - j)));
        }
        let w = string_from(&v, j, k);
        let ghost before = out@.map_values(|x: String| x@);
        out.push(w);
        proof {
            assert(out@.map_values(|x: String| x@) =~= before.push(v@.subrange(j as int, k as int)));
            assert(before.push(v@.subrange(j as int, k as int)) + words(v@.skip(k as int)) =~= before
                + (seq![t.take(k - j)] + words(t.skip(k - j))));
        }
        i = k;
    }
}

// ------------------------------------------------------------------
// Unicode case mapping (std)
// ------------------------------------------------------------------

/// What `str::to_lowercase` returns for `s`: the Unicode lowercase mapping.
pub uninterp spec fn lowercase(s: Seq<char>) -> Seq<char>;

/// What `str::to_uppercase` returns for `s`: the Unicode uppercase mapping.
pub uninterp spec fn uppercase(s: Seq<char>) -> Seq<char>;

/// What `char::to_uppercase` yields for `c`, collected.
pub uninterp spec fn char_uppercase(c: char) -> Seq<char>;

/// `str::to_lowercase`.
#[verifier::external_body]
pub(crate) fn to_lowercase_str(s: &str) -> (r: String)
    ensures
        r@ == lowercase(s@),
{
    s.to_lowercase()
}

/// `str::to_uppercase`.
#[verifier::external_body]
pub(crate) fn to_uppercase_str(s: &str) -> (r: String)
    ensures
        r@ == uppercase(s@),
{
    s.to_uppercase()
}

/// `char::to_uppercase`, collected into a string.
#[verifier::external_body]
pub(crate) fn char_to_uppercase(c: char) -> (r: String)
    ensures
        r@ == char_uppercase(c),
{
    c.to_uppercase().collect()
}

// ------------------------------------------------------------------
// Lists of strings
// ------------------------------------------------------------------

/// The views of a list of strings.
pub open spec fn views(v: Seq<String>) -> Seq<Seq<char>> {
    v.map_values(|x: String| x@)
}

/// `parts.join(sep)`.
pub open spec fn join(parts: Seq<Seq<char>>, sep: Seq<char>) -> Seq<char>
    decreases parts.len(),
{
    if parts.len() == 0 {
        Seq::empty()
    } else if parts.len() == 1 {
        parts[0]
    } else {
        join(parts.drop_last(), sep) + sep + parts.last()
    }
}

/// The parts that hold something besides whitespace, in order.
pub open spec fn nonblank(parts: Seq<Seq<char>>) -> Seq<Seq<char>>
    decreases parts.len(),
{
    if parts.len() == 0 {
        Seq::empty()
    } else if all_ws(parts.last()) {
        nonblank(parts.drop_last())
    } else {
        nonblank(parts.drop_last()).push(parts.last())
    }
}

/// `parts.join(sep)` over owned strings.
pub fn join_strs(parts: &Vec<String>, sep: &str) -> (r: String)
    ensures
        r@ == join(views(parts@), sep@),
{
    if parts.len() == 0 {
        return String::new();
    }
    let mut r = copy_str(parts[0].as_str());
    let mut i: usize = 1;
    proof {
        assert(views(parts@).take(1) =~= seq![parts@[0]@]);
    }
    while i < parts.len()
        invariant
            1 <= i <= parts.len(),
            r@ == join(views(parts@).take(i as int), sep@),
        decreases parts.len() - i,
    {
        let ghost prev = views(parts@).take(i as int);
        r.append(sep);
        r.append(parts[i].as_str());
        proof {
            let next = views(parts@).take(i + 1);
            assert(next.drop_last() =~= prev);
            assert(next.last() == parts@[i as int]@);
        }
        i = i + 1;
    }
    proof {
        assert(views(parts@).take(parts@.len() as int) =~= views(parts@));
    }
    r
}

/// The items of `parts` that hold something besides whitespace, in order.
pub fn keep_nonblank(parts: &Vec<String>) -> (r: Vec<String>)
    ensures
        views(r@) == nonblank(views(parts@)),
{
    let mut out: Vec<String> = Vec::new();
    let mut i: usize = 0;
    while i < parts.len()
        invariant
            i <= parts.len(),
            views(out@) == nonblank(views(parts@).take(i as int)),
        decreases parts.len() - i,
    {
        let ghost prev = views(parts@).take(i as int);
        proof {
            let next = views(parts@).take(i + 1);
            assert(next.drop_last() =~= prev);
            assert(next.last() == parts@[i as int]@);
        }
        if !is_blank(parts[i].as_str()) {
            let ghost before = out@;
            out.push(copy_str(parts[i].as_str()));
            proof {
                assert(views(out@) =~= views(before).push(parts@[i as int]@));
            }
        }
        i = i + 1;
    }
    proof {
        assert(views(parts@).take(parts@.len() as int) =~= views(parts@));
    }
    out
}

/// Each part trimmed, with the empty ones dropped, in order.
pub open spec fn trimmed_nonempty(parts: Seq<Seq<char>>) -> Seq<Seq<char>>
    decreases parts.len(),
{
    if parts.len() == 0 {
        Seq::empty()
    } else if trim(parts.last()).len() == 0 {
        trimmed_nonempty(parts.drop_last())
    } else {
        trimmed_nonempty(parts.drop_last()).push(trim(parts.last()))
    }
}

/// `s.split(sep).map(str::trim).filter(|p| !p.is_empty())`, collected.
pub fn split_trimmed(s: &str, sep: &str) -> (r: Vec<String>)
    requires
        sep@.len() > 0,
    ensures
        views(r@) == trimmed_nonempty(split(s@, sep@)),
{
    let parts = split_str(s, sep);
    let mut out: Vec<String> = Vec::new();
    let mut i: usize = 0;
    while i < parts.len()
        invariant
            i <= parts.len(),
            views(out@) == trimmed_nonempty(views(parts@).take(i as int)),
        decreases parts.len() - i,
    {
        let ghost prev = views(parts@).take(i as int);
        proof {
            let next = views(parts@).take(i + 1);
            assert(next.drop_last() =~= prev);
            assert(next.last() == parts@[i as int]@);
        }
        let t = trim_str(parts[i].as_str());
        if t.unicode_len() > 0 {
            let ghost before = out@;
            out.push(t);
            proof {
                assert(views(out@) =~= views(before).push(trim(parts@[i as int]@)));
            }
        }
        i = i + 1;
    }
    proof {
        assert(views(parts@).take(parts@.len() as int) =~= views(parts@));
        assert(views(parts@) =~= parts@.map_values(|x: String| x@));
    }
    out
}

/// `str::replace` with a non-empty pattern: every non-overlapping
/// occurrence, left to right, replaced.
pub open spec fn replace_all(s: Seq<char>, pat: Seq<char>, rep: Seq<char>) -> Seq<char>
    decreases s.len(),
{
    if pat.len() == 0 {
        s
    } else {
        match find(s, pat) {
            Some(i) => if 0 <= i && i + pat.len() <= s.len() {
                s.take(i) + rep + replace_all(s.skip(i + pat.len()), pat, rep)
            } else {
                s
            },
            None => s,
        }
    }
}

/// `s.replace(pat, rep)` for a non-empty `pat`.
pub fn replace_str(s: &str, pat: &str, rep: &str) -> (r: String)
    requires
        pat@.len() > 0,
    ensures
        r@ == replace_all(s@, pat@, rep@),
{
    let sv = chars_of(s);
    let pv = chars_of(pat);
    let mut out = String::new();
    let mut start: usize = 0;
    proof {
        assert(sv@.skip(0) =~= s@);
        assert(out@ + replace_all(sv@.skip(0), pv@, rep@) =~= replace_all(s@, pat@, rep@));
    }
    loop
        invariant
            start <= sv.len(),
            pv@ == pat@,
            sv@ == s@,
            pv.len() > 0,
            out@ + replace_all(sv@.skip(start as int), pv@, rep@) == replace_all(s@, pat@, rep@),
        decreases sv.len() - start,
    {
        let ghost rest = sv@.skip(start as int);
        match find_from_exec(&sv, &pv, start) {
            Some(i) => {
                proof {
                    lemma_find_from_props(sv@, pv@, start as int);
                    lemma_find_shift(sv@, pv@, start as int);
                    assert(find(rest, pv@) == Some(i - start));
                    assert(rest.take(i - start) =~= sv@.subrange(start as int, i as int));
                    assert(rest.skip(i - start + pv@.len()) =~= sv@.skip(i + pv@.len()));
                }
                let piece = string_from(&sv, start, i);
                let ghost before = out@;
                out.append(piece.as_str());
                out.append(rep);
                proof {
                    assert(before + replace_all(rest, pv@, rep@) =~= out@ + replace_all(
                        sv@.skip(i + pv@.len()),
                        pv@,
                        rep@,
                    ));
                }
                start = i + pv.len();
            },
            None => {
                proof {
                    lemma_find_shift(sv@, pv@, start as int);
                    assert(find(rest, pv@) is None);
                    assert(rest =~= sv@.subrange(start as int, sv@.len() as int));
                }
                let piece = string_from(&sv, start, sv.len());
                out.append(piece.as_str());
                return out;
            },
        }
    }
}

// ------------------------------------------------------------------
// Lines
// ------------------------------------------------------------------

/// No newline in `s`.
pub open spec fn no_newline(s: Seq<char>) -> bool {
    forall|i: int| 0 <= i < s.len() ==> #[trigger] s[i] != '\n'
}

/// `s` holds no occurrence of the character `c`.
pub open spec fn free_of(s: Seq<char>, c: char) -> bool {
    forall|i: int| 0 <= i < s.len() ==> #[trigger] s[i] != c
}

pub proof fn lemma_occurs_char(s: Seq<char>, c: char, j: int)
    ensures
        occurs_at(s, seq![c], j) <==> (0 <= j < s.len() && s[j] == c),
{
    if 0 <= j < s.len() {
        assert(s.subrange(j, j + 1) =~= seq![s[j]]);
        if s.subrange(j, j + 1) == seq![c] {
            assert(s.subrange(j, j + 1)[0] == s[j]);
        }
    }
}

/// A text without the separator character is a single item.
pub proof fn lemma_split_free(s: Seq<char>, c: char)
    requires
        free_of(s, c),
    ensures
        split(s, seq![c]) == seq![s],
{
    lemma_find_props(s, seq![c]);
    if let Some(i) = find(s, seq![c]) {
        lemma_occurs_char(s, c, i);
    }
}

/// Splitting at a character distributes over a concatenation joined by it.
pub proof fn lemma_split_concat_at(a: Seq<char>, b: Seq<char>, c: char)
    ensures
        split(a + seq![c] + b, seq![c]) == split(a, seq![c]) + split(b, seq![c]),
    decreases a.len(),
{
    let sep = seq![c];
    let s = a + sep + b;
    lemma_find_props(a, sep);
    match find(a, sep) {
        Some(i) => {
            lemma_occurs_char(a, c, i);
            lemma_occurs_char(s, c, i);
            assert forall|j: int| 0 <= j < i implies !occurs_at(s, sep, j) by {
                lemma_occurs_char(a, c, j);
                lemma_occurs_char(s, c, j);
            }
            lemma_find_first(s, sep, i);
            assert(s.take(i) =~= a.take(i));
            assert(s.skip(i + 1) =~= a.skip(i + 1) + sep + b);
            lemma_split_concat_at(a.skip(i + 1), b, c);
            assert(split(s, sep) =~= seq![a.take(i)] + split(a.skip(i + 1) + sep + b, sep));
            assert(split(a, sep) =~= seq![a.take(i)] + split(a.skip(i + 1), sep));
            assert(split(s, sep) =~= split(a, sep) + split(b, sep));
        },
        None => {
            let n = a.len() as int;
            lemma_occurs_char(s, c, n);
            assert forall|j: int| 0 <= j < n implies !occurs_at(s, sep, j) by {
                lemma_occurs_char(a, c, j);
                lemma_occurs_char(s, c, j);
            }
            lemma_find_first(s, sep, n);
            assert(s.take(n) =~= a);
            assert(s.skip(n + 1) =~= b);
            assert(split(a, sep) =~= seq![a]);
            assert(split(s, sep) =~= split(a, sep) + split(b, sep));
        },
    }
}

/// Splitting a join at its separator character gives the parts back, when
/// no part holds that character.
pub proof fn lemma_split_join(parts: Seq<Seq<char>>, c: char)
    requires
        parts.len() >= 1,
        forall|k: int| 0 <= k < parts.len() ==> free_of(#[trigger] parts[k], c),
    ensures
        split(join(parts, seq![c]), seq![c]) == parts,
    decreases parts.len(),
{
    if parts.len() == 1 {
        assert(free_of(parts[0], c));
        lemma_split_free(parts[0], c);
        assert(parts =~= seq![parts[0]]);
    } else {
        let init = parts.drop_last();
        assert forall|k: int| 0 <= k < init.len() implies free_of(#[trigger] init[k], c) by {
            assert(init[k] == parts[k]);
        }
        lemma_split_join(init, c);
        assert(free_of(parts.last(), c));
        lemma_split_free(parts.last(), c);
        lemma_split_concat_at(join(init, seq![c]), parts.last(), c);
        assert(parts =~= init + seq![parts.last()]);
    }
}

/// A text without a newline is one line.
pub proof fn lemma_split_single_line(s: Seq<char>)
    requires
        no_newline(s),
    ensures
        split(s, "\n"@) == seq![s],
{
    reveal_strlit("\n");
    assert("\n"@ =~= seq!['\n']);
    lemma_split_free(s, '\n');
}

/// Splitting at newlines distributes over a newline-joined concatenation.
pub proof fn lemma_split_concat_lines(a: Seq<char>, b: Seq<char>)
    ensures
        split(a + "\n"@ + b, "\n"@) == split(a, "\n"@) + split(b, "\n"@),
{
    reveal_strlit("\n");
    assert("\n"@ =~= seq!['\n']);
    lemma_split_concat_at(a, b, '\n');
}

/// A text contains each of its middle parts.
pub proof fn lemma_contains_middle(a: Seq<char>, p: Seq<char>, b: Seq<char>)
    ensures
        contains(a + p + b, p),
{
    let s = a + p + b;
    assert(s.subrange(a.len() as int, (a.len() + p.len()) as int) =~= p);
    lemma_find_props(s, p);
    assert(occurs_at(s, p, a.len() as int));
}

/// What a text contains, a longer text that starts with it contains too.
pub proof fn lemma_contains_prefix_extends(a: Seq<char>, b: Seq<char>, p: Seq<char>)
    requires
        contains(a, p),
    ensures
        contains(a + b, p),
{
    lemma_find_props(a, p);
    let i = find(a, p)->0;
    assert((a + b).subrange(i, i + p.len()) =~= a.subrange(i, i + p.len()));
    lemma_find_props(a + b, p);
    assert(occurs_at(a + b, p, i));
}

/// What a text contains, a longer text that ends with it contains too.
pub proof fn lemma_contains_suffix_extends(a: Seq<char>, b: Seq<char>, p: Seq<char>)
    requires
        contains(b, p),
    ensures
        contains(a + b, p),
{
    lemma_find_props(b, p);
    let i = find(b, p)->0;
    let j = a.len() + i;
    assert((a + b).subrange(j, j + p.len()) =~= b.subrange(i, i + p.len()));
    lemma_find_props(a + b, p);
    assert(occurs_at(a + b, p, j));
}

/// A join contains each of its parts.
pub proof fn lemma_join_contains_part(parts: Seq<Seq<char>>, sep: Seq<char>, i: int)
    requires
        0 <= i < parts.len(),
    ensures
        contains(join(parts, sep), parts[i]),
    decreases parts.len(),
{
    if parts.len() == 1 {
        lemma_contains_middle(Seq::empty(), parts[0], Seq::empty());
        assert(Seq::<char>::empty() + parts[0] + Seq::<char>::empty() =~= parts[0]);
    } else {
        let init = parts.drop_last();
        if i == parts.len() - 1 {
            lemma_contains_middle(join(init, sep) + sep, parts.last(), Seq::empty());
            assert(join(init, sep) + sep + parts.last() + Seq::<char>::empty() =~= join(parts, sep));
        } else {
            lemma_join_contains_part(init, sep, i);
            assert(init[i] == parts[i]);
            lemma_contains_prefix_extends(join(init, sep), sep + parts.last(), parts[i]);
            assert(join(init, sep) + (sep + parts.last()) =~= join(parts, sep));
        }
    }
}

/// The non-blank parts keep every part that is not all whitespace.
pub proof fn lemma_nonblank_keeps(parts: Seq<Seq<char>>, i: int)
    requires
        0 <= i < parts.len(),
        !all_ws(parts[i]),
    ensures
        nonblank(parts).contains(parts[i]),
    decreases parts.len(),
{
    let init = parts.drop_last();
    if i == parts.len() - 1 {
        let r = nonblank(init);
        assert(r.push(parts[i])[r.len() as int] == parts[i]);
    } else {
        lemma_nonblank_keeps(init, i);
        assert(init[i] == parts[i]);
        let r = nonblank(init);
        let k = choose|k: int| 0 <= k < r.len() && r[k] == parts[i];
        if !all_ws(parts.last()) {
            assert(r.push(parts.last())[k] == parts[i]);
        }
    }
}

/// Non-blank text that is one of the parts occurs in the parts' non-blank
/// join.
pub proof fn lemma_nonblank_join_contains(parts: Seq<Seq<char>>, sep: Seq<char>, s: Seq<char>)
    requires
        parts.contains(s),
        !all_ws(s),
    ensures
        contains(join(nonblank(parts), sep), s),
{
    let i = choose|i: int| 0 <= i < parts.len() && parts[i] == s;
    lemma_nonblank_keeps(parts, i);
    let nb = nonblank(parts);
    let k = choose|k: int| 0 <= k < nb.len() && nb[k] == s;
    lemma_join_contains_part(nb, sep, k);
}

/// Replacing a pattern that does not occur changes nothing.
pub proof fn lemma_replace_absent(s: Seq<char>, pat: Seq<char>, rep: Seq<char>)
    requires
        !contains(s, pat),
    ensures
        replace_all(s, pat, rep) == s,
{
}

/// Text without whitespace is its own trim.
pub proof fn lemma_trim_no_ws(s: Seq<char>)
    requires
        forall|i: int| 0 <= i < s.len() ==> !is_ws(#[trigger] s[i]),
    ensures
        trim(s) == s,
{
    if s.len() > 0 {
        assert(!is_ws(s[0]));
        assert(!is_ws(s.last()));
    }
}

} // verus!
