//! Walking a dot-separated key path into a JSON document.
//!
//! The document itself is a `serde_json::Value`, which this crate treats as an
//! opaque tree; what the walk observes of it is named by the uninterpreted
//! functions below, and the walk itself is verified against a recursive
//! specification over those names.

use vstd::prelude::*;

verus! {

#[verifier::external_type_specification]
#[verifier::external_body]
pub struct ExValue(serde_json::Value);

/// The member of `v` named `key`, when `v` is a JSON object that has one.
pub uninterp spec fn json_child(v: serde_json::Value, key: Seq<char>) -> Option<serde_json::Value>;

/// Whether `v` is a JSON object.
pub uninterp spec fn json_is_object(v: serde_json::Value) -> bool;

/// The text of `v`, when `v` is a JSON string.
pub uninterp spec fn json_text(v: serde_json::Value) -> Option<Seq<char>>;

/// The JSON document encoded by `bytes`, when they are well-formed JSON.
pub uninterp spec fn json_document(bytes: Seq<u8>) -> Option<serde_json::Value>;

/// Relies on `serde_json::Value::get` with a string index: on an object it
/// returns the member named by the key, on every other value it returns
/// `None`.
#[verifier::external_body]
pub(crate) fn value_get<'a>(v: &'a serde_json::Value, key: &str) -> (r: Option<
    &'a serde_json::Value,
>)
    ensures
        match r {
            Some(c) => json_child(*v, key@) == Some(*c),
            None => json_child(*v, key@) is None,
        },
{
    v.get(key)
}

/// Relies on `serde_json::Value::is_object`.
#[verifier::external_body]
pub(crate) fn value_is_object(v: &serde_json::Value) -> (r: bool)
    ensures
        r == json_is_object(*v),
{
    v.is_object()
}

/// Relies on `serde_json::Value::as_str`: `Some` exactly on JSON strings.
#[verifier::external_body]
pub(crate) fn value_as_str<'a>(v: &'a serde_json::Value) -> (r: Option<&'a str>)
    ensures
        match r {
            Some(s) => json_text(*v) == Some(s@),
            None => json_text(*v) is None,
        },
{
    v.as_str()
}

/// Relies on `serde_json::from_slice::<Value>`: `Some` exactly on well-formed
/// JSON input.
#[verifier::external_body]
pub(crate) fn json_from_slice(bytes: &[u8]) -> (r: Option<serde_json::Value>)
    ensures
        match r {
            Some(v) => json_document(bytes@) == Some(v),
            None => json_document(bytes@) is None,
        },
{
    serde_json::from_slice::<serde_json::Value>(bytes).ok()
}

/// Why a path walk stopped before reaching a leaf.
#[derive(Debug)]
pub enum ParseError {
    /// A segment of the path was not a member of the current object.
    KeyNotFound(String),
    /// The current value was not an object when a segment remained.
    NotAnObject(String),
}

/// View equality of two path errors: same variant, same segment text.
pub open spec fn parse_error_eq(a: &ParseError, b: &ParseError) -> bool {
    match (a, b) {
        (ParseError::KeyNotFound(x), ParseError::KeyNotFound(y)) => x@ == y@,
        (ParseError::NotAnObject(x), ParseError::NotAnObject(y)) => x@ == y@,
        _ => false,
    }
}

impl Clone for ParseError {
    fn clone(&self) -> (r: Self)
        ensures
            parse_error_eq(self, &r),
    {
        match self {
            ParseError::KeyNotFound(k) => ParseError::KeyNotFound(k.clone()),
            ParseError::NotAnObject(k) => ParseError::NotAnObject(k.clone()),
        }
    }
}

impl PartialEq for ParseError {
    fn eq(&self, other: &Self) -> (r: bool) {
        match (self, other) {
            (ParseError::KeyNotFound(a), ParseError::KeyNotFound(b)) => *a == *b,
            (ParseError::NotAnObject(a), ParseError::NotAnObject(b)) => *a == *b,
            _ => false,
        }
    }
}

impl vstd::std_specs::cmp::PartialEqSpecImpl for ParseError {
    open spec fn obeys_eq_spec() -> bool {
        true
    }

    open spec fn eq_spec(&self, other: &Self) -> bool {
        parse_error_eq(self, other)
    }
}

/// Outcome of walking a dot path into a document.
pub ghost enum WalkResult {
    Found(serde_json::Value),
    KeyNotFound(Seq<char>),
    NotAnObject(Seq<char>),
}

/// Index of the first `'.'` in `s`, or `s.len()` if there is none.
pub open spec fn first_dot(s: Seq<char>) -> nat
    decreases s.len(),
{
    if s.len() == 0 {
        0
    } else if s[0] == '.' {
        0
    } else {
        1 + first_dot(s.subrange(1, s.len() as int))
    }
}

pub proof fn lemma_first_dot(s: Seq<char>)
    ensures
        first_dot(s) <= s.len(),
        first_dot(s) < s.len() ==> s[first_dot(s) as int] == '.',
        forall|j: int| 0 <= j < first_dot(s) ==> s[j] != '.',
    decreases s.len(),
{
    if s.len() == 0 {
    } else if s[0] == '.' {
    } else {
        let sub = s.subrange(1, s.len() as int);
        lemma_first_dot(sub);
        assert forall|j: int| 0 <= j < first_dot(s) implies s[j] != '.' by {
            if j > 0 {
                assert(sub[j - 1] == s[j]);
            }
        }
    }
}

/// If no `'.'` occurs before `m` and `m` is the end or a `'.'`, then `m` is
/// the first dot.
pub proof fn lemma_first_dot_at(s: Seq<char>, m: int)
    requires
        0 <= m <= s.len(),
        forall|j: int| 0 <= j < m ==> s[j] != '.',
        m < s.len() ==> s[m] == '.',
    ensures
        first_dot(s) == m,
    decreases s.len(),
{
    if s.len() == 0 {
    } else if s[0] == '.' {
    } else {
        lemma_first_dot_at(s.subrange(1, s.len() as int), m - 1);
    }
}

/// The walk of `path` into `v`: split at the first dot, step into the named
/// member, and recurse on the rest of the path.
pub open spec fn walk(v: serde_json::Value, path: Seq<char>) -> WalkResult
    decreases path.len(),
{
    let k = first_dot(path);
    let seg = path.subrange(0, k as int);
    if !json_is_object(v) {
        WalkResult::NotAnObject(seg)
    } else {
        match json_child(v, seg) {
            Option::None => WalkResult::KeyNotFound(seg),
            Option::Some(c) => if k >= path.len() {
                WalkResult::Found(c)
            } else {
                walk(c, path.subrange(k as int + 1, path.len() as int))
            },
        }
    }
}

/// Walks `dot_path` (segments separated by `'.'`) into `value`, failing with
/// the offending segment if a step finds no such member or a non-object.
pub fn parse_path<'a>(value: &'a serde_json::Value, dot_path: &str) -> (r: Result<
    &'a serde_json::Value,
    ParseError,
>)
    ensures
        match r {
            Ok(v) => walk(*value, dot_path@) == WalkResult::Found(*v),
            Err(ParseError::KeyNotFound(k)) => walk(*value, dot_path@)
                == WalkResult::KeyNotFound(k@),
            Err(ParseError::NotAnObject(k)) => walk(*value, dot_path@)
                == WalkResult::NotAnObject(k@),
        },
{
    let n = dot_path.unicode_len();
    let mut pos: usize = 0;
    let mut cur: &serde_json::Value = value;
    proof {
        assert(dot_path@.subrange(0, n as int) =~= dot_path@);
    }
    loop
        invariant
            n == dot_path@.len(),
            pos <= n,
            walk(*value, dot_path@) == walk(*cur, dot_path@.subrange(pos as int, n as int)),
        decreases n - pos,
    {
        let ghost suffix = dot_path@.subrange(pos as int, n as int);
        // Find the end of the current segment.
        let mut k: usize = pos;
        while k < n && dot_path.get_char(k) != '.'
            invariant
                pos <= k <= n,
                n == dot_path@.len(),
                forall|j: int| pos <= j < k ==> dot_path@[j] != '.',
            decreases n - k,
        {
            k = k + 1;
        }
        proof {
            assert forall|j: int| 0 <= j < k - pos implies suffix[j] != '.' by {
                assert(suffix[j] == dot_path@[pos + j]);
            }
            if k < n {
                assert(suffix[k - pos] == dot_path@[k as int]);
            }
            lemma_first_dot_at(suffix, k - pos);
            assert(suffix.subrange(0, (k - pos) as int) =~= dot_path@.subrange(
                pos as int,
                k as int,
            ));
        }
        let seg = dot_path.substring_char(pos, k);
        if !value_is_object(cur) {
            return Err(ParseError::NotAnObject(seg.to_owned()));
        }
        match value_get(cur, seg) {
            None => {
                return Err(ParseError::KeyNotFound(seg.to_owned()));
            },
            Some(c) => {
                if k == n {
                    return Ok(c);
                }
                proof {
                    assert(suffix.subrange((k - pos + 1) as int, suffix.len() as int)
                        =~= dot_path@.subrange((k + 1) as int, n as int));
                }
                cur = c;
                pos = k + 1;
            },
        }
    }
}

} // verus!
