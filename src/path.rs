//! Path expressions: `/`-separated segments, each a mapping key or an array index.
use crate::json::{lookup, lookup_key, Json};
use vstd::prelude::*;
use vstd::string::StrSliceExecFns;

verus! {

/// The pieces of `s` between occurrences of `sep`; there is always at least one.
pub open spec fn split_on(s: Seq<char>, sep: char) -> Seq<Seq<char>>
    decreases s.len(),
{
    if s.len() == 0 {
        seq![seq![]]
    } else {
        let prev = split_on(s.drop_last(), sep);
        if s.last() == sep {
            prev.push(seq![])
        } else {
            prev.update(prev.len() - 1, prev.last().push(s.last()))
        }
    }
}

/// The segments of a path expression, split at every `/`.
pub open spec fn split_path(s: Seq<char>) -> Seq<Seq<char>> {
    split_on(s, '/')
}

pub open spec fn is_digit(c: char) -> bool {
    '0' <= c && c <= '9'
}

/// A canonical decimal numeral: digits only, and no leading zero unless it is `0` itself.
pub open spec fn is_index_text(s: Seq<char>) -> bool {
    &&& s.len() > 0
    &&& forall|i: int| 0 <= i < s.len() ==> is_digit(#[trigger] s[i])
    &&& s[0] == '0' ==> s.len() == 1
}

/// The number that a string of digits denotes.
pub open spec fn digits_value(s: Seq<char>) -> nat
    decreases s.len(),
{
    if s.len() == 0 {
        0
    } else {
        digits_value(s.drop_last()) * 10 + (s.last() as nat - '0' as nat) as nat
    }
}

proof fn lemma_digits_value_grows(s: Seq<char>, i: int)
    requires
        0 <= i <= s.len(),
        forall|k: int| 0 <= k < s.len() ==> is_digit(#[trigger] s[k]),
    ensures
        digits_value(s.take(i)) <= digits_value(s),
    decreases s.len(),
{
    if i < s.len() {
        let t = s.drop_last();
        assert(t.take(i) =~= s.take(i));
        assert forall|k: int| 0 <= k < t.len() implies is_digit(#[trigger] t[k]) by {
            assert(t[k] == s[k]);
        }
        lemma_digits_value_grows(t, i);
        assert(is_digit(s[s.len() - 1]));
    } else {
        assert(s.take(i) =~= s);
    }
}

/// The position that `seg` names in an array of `len` elements, if it names one.
pub open spec fn index_in(seg: Seq<char>, len: nat) -> Option<nat> {
    if is_index_text(seg) && digits_value(seg) < len {
        Some(digits_value(seg))
    } else {
        None
    }
}

/// One step of a walk: a key into a mapping or an index into an array.
pub open spec fn step(v: Json, seg: Seq<char>) -> Option<Json> {
    match v {
        Json::Object(entries) => lookup(entries@, seg),
        Json::Array(items) => match index_in(seg, items@.len()) {
            Some(n) => Some(items@[n as int]),
            None => None,
        },
        _ => None,
    }
}

/// The node reached by following every segment in turn from `v`.
pub open spec fn walk(v: Json, segs: Seq<Seq<char>>) -> Option<Json>
    decreases segs.len(),
{
    if segs.len() == 0 {
        Some(v)
    } else {
        match step(v, segs[0]) {
            Some(next) => walk(next, segs.drop_first()),
            None => None,
        }
    }
}

/// The text of a node that is a JSON string; every other outcome is absence.
pub open spec fn string_leaf(v: Option<Json>) -> Option<Seq<char>> {
    match v {
        Some(Json::Str(s)) => Some(s@),
        _ => None,
    }
}

/// What the path expression `path` selects in `root`.
pub open spec fn resolved(root: Json, path: Seq<char>) -> Option<Seq<char>> {
    string_leaf(walk(root, split_path(path)))
}

pub open spec fn strings_view(v: Seq<String>) -> Seq<Seq<char>> {
    v.map_values(|s: String| s@)
}

pub open spec fn opt_string_view(v: Option<String>) -> Option<Seq<char>> {
    match v {
        Some(s) => Some(s@),
        None => None,
    }
}

/// Splits a path expression into its segments.
pub fn split_segments(path: &str) -> (segs: Vec<String>)
    ensures
        strings_view(segs@) == split_path(path@),
{
    let n = path.unicode_len();
    let mut segs: Vec<String> = Vec::new();
    let mut start: usize = 0;
    let mut i: usize = 0;
    assert(path@.take(0) =~= seq![]);
    while i < n
        invariant
            n == path@.len(),
            start <= i <= n,
            split_path(path@.take(i as int)) == strings_view(segs@).push(
                path@.subrange(start as int, i as int),
            ),
        decreases n - i,
    {
        let c = path.get_char(i);
        assert(path@.take(i + 1).drop_last() =~= path@.take(i as int));
        if c == '/' {
            let seg = path.substring_char(start, i).to_owned();
            let ghost before = segs@;
            segs.push(seg);
            start = i + 1;
            assert(strings_view(segs@) =~= strings_view(before).push(seg@));
            assert(path@.subrange(start as int, i + 1) =~= seq![]);
        } else {
            assert(path@.subrange(start as int, i + 1) =~= path@.subrange(
                start as int,
                i as int,
            ).push(c));
        }
        i = i + 1;
    }
    let last = path.substring_char(start, n).to_owned();
    let ghost before = segs@;
    segs.push(last);
    assert(strings_view(segs@) =~= strings_view(before).push(last@));
    assert(path@.take(n as int) =~= path@);
    assert(strings_view(segs@) =~= split_path(path@));
    segs
}

/// The position that `seg` names in an array of `len` elements, if it names one.
pub fn parse_index(seg: &str, len: usize) -> (r: Option<usize>)
    ensures
        match r {
            Some(n) => index_in(seg@, len as nat) == Some(n as nat),
            None => index_in(seg@, len as nat) is None,
        },
{
    let n = seg.unicode_len();
    if n == 0 || len == 0 {
        return None;
    }
    if seg.get_char(0) == '0' && n != 1 {
        return None;
    }
    let mut acc: usize = 0;
    let mut i: usize = 0;
    assert(seg@.take(0) =~= seq![]);
    while i < n
        invariant
            n == seg@.len(),
            i <= n,
            acc < len,
            acc == digits_value(seg@.take(i as int)),
            forall|k: int| 0 <= k < i ==> is_digit(#[trigger] seg@[k]),
            seg@[0] == '0' ==> n == 1,
        decreases n - i,
    {
        let c = seg.get_char(i);
        if !('0' <= c && c <= '9') {
            return None;
        }
        assert(seg@.take(i + 1).drop_last() =~= seg@.take(i as int));
        let next: u128 = acc as u128 * 10 + (c as u32 - '0' as u32) as u128;
        if next >= len as u128 {
            proof {
                if forall|k: int| 0 <= k < n ==> is_digit(#[trigger] seg@[k]) {
                    lemma_digits_value_grows(seg@, i + 1);
                }
            }
            return None;
        }
        acc = next as usize;
        i = i + 1;
    }
    assert(seg@.take(n as int) =~= seg@);
    Some(acc)
}

/// One step of a walk from `v` along the segment `seg`.
pub fn step_into<'a>(v: &'a Json, seg: &String) -> (r: Option<&'a Json>)
    ensures
        match r {
            Some(c) => step(*v, seg@) == Some(*c),
            None => step(*v, seg@) is None,
        },
{
    match v {
        Json::Object(entries) => lookup_key(entries, seg),
        Json::Array(items) => match parse_index(seg.as_str(), items.len()) {
            Some(n) => Some(&items[n]),
            None => None,
        },
        _ => None,
    }
}

/// Resolves the path expression `path` against `root`: the text of the string it
/// reaches, or `None` where a key is missing, an index is out of range, a node
/// on the way is not a container, or the node reached is not a string.
pub fn resolve(root: &Json, path: &str) -> (r: Option<String>)
    ensures
        opt_string_view(r) == resolved(*root, path@),
{
    let segs = split_segments(path);
    let mut cur: &Json = root;
    let mut i: usize = 0;
    assert(strings_view(segs@).skip(0) =~= strings_view(segs@));
    while i < segs.len()
        invariant
            i <= segs@.len(),
            walk(*root, split_path(path@)) == walk(*cur, strings_view(segs@).skip(i as int)),
            strings_view(segs@) == split_path(path@),
        decreases segs@.len() - i,
    {
        assert(strings_view(segs@).skip(i as int).drop_first() =~= strings_view(segs@).skip(
            i + 1,
        ));
        match step_into(cur, &segs[i]) {
            Some(next) => {
                cur = next;
            },
            None => {
                return None;
            },
        }
        i = i + 1;
    }
    match cur {
        Json::Str(s) => Some(s.clone()),
        _ => None,
    }
}

/// Resolution is a function of the document and the path alone: two results
/// that both meet the contract of `resolve` for the same inputs are equal.
pub proof fn lemma_resolve_deterministic(root: Json, path: Seq<char>, a: Option<String>, b: Option<String>)
    requires
        opt_string_view(a) == resolved(root, path),
        opt_string_view(b) == resolved(root, path),
    ensures
        opt_string_view(a) == opt_string_view(b),
{
}

proof fn lemma_walk_stops(v: Json, segs: Seq<Seq<char>>, k: int)
    requires
        0 <= k < segs.len(),
        walk(v, segs.take(k)) is Some,
        step(walk(v, segs.take(k))->0, segs[k]) is None,
    ensures
        walk(v, segs) is None,
    decreases k,
{
    if k > 0 {
        assert(segs.take(k).drop_first() =~= segs.drop_first().take(k - 1));
        let next = step(v, segs[0])->0;
        lemma_walk_stops(next, segs.drop_first(), k - 1);
    }
}

/// A walk that meets a missing key, an index out of range or a node that is not
/// a container before its last segment is spent resolves to absence.
pub proof fn lemma_absent_on_failed_step(root: Json, path: Seq<char>, k: int)
    requires
        0 <= k < split_path(path).len(),
        walk(root, split_path(path).take(k)) is Some,
        step(walk(root, split_path(path).take(k))->0, split_path(path)[k]) is None,
    ensures
        resolved(root, path) is None,
{
    lemma_walk_stops(root, split_path(path), k);
}

/// A missing key, an index out of range and a scalar node each stop a step.
pub proof fn lemma_failed_steps(v: Json, seg: Seq<char>)
    ensures
        v is Object ==> (lookup(v->Object_0@, seg) is None ==> step(v, seg) is None),
        v is Array ==> (index_in(seg, v->Array_0@.len()) is None ==> step(v, seg) is None),
        !(v is Object || v is Array) ==> step(v, seg) is None,
{
}

/// A path whose last node is a number, a boolean, null, an array or a mapping
/// resolves to absence: such leaves are never turned into text.
pub proof fn lemma_non_string_leaf_absent(root: Json, path: Seq<char>)
    requires
        walk(root, split_path(path)) is Some,
        !(walk(root, split_path(path))->0 is Str),
    ensures
        resolved(root, path) is None,
{
}

} // verus!
