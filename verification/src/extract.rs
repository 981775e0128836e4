//! The extraction engine: pull one value out of a JSON response body.
//!
//! A pattern is a dot-separated path of object fields and array indices
//! (`data.items.0.id`).  It is turned into an RFC 6901 JSON pointer, the
//! pointer is evaluated against the parsed response, and the selected value
//! is flattened to display form: a JSON string loses its surrounding
//! quotes, every other value keeps its pretty-printed text.  An empty
//! result counts as not found, so a blank extraction never pollutes the
//! context.

use vstd::prelude::*;
use crate::text::{chars_to_string, str_to_chars, sub_chars};

verus! {

/// The pretty-printed text of the value an RFC 6901 pointer selects from a
/// JSON document; nothing when the document does not parse or the pointer
/// misses.
pub uninterp spec fn json_pointer_text(doc: Seq<char>, ptr: Seq<char>) -> Option<Seq<char>>;

/// Relies on `serde_json::from_str::<Value>`, `Value::pointer` and
/// `serde_json::to_string_pretty`: parse the document, select the value the
/// pointer addresses, and render it.  All three depend on their arguments
/// alone, so the outcome is a function of `doc` and `ptr`.
#[verifier::external_body]
fn json_pointer_query(doc: &str, ptr: &str) -> (r: Option<String>)
    ensures
        match r {
            Some(s) => json_pointer_text(doc@, ptr@) == Some(s@),
            None => json_pointer_text(doc@, ptr@) is None,
        },
{
    let v: serde_json::Value = match serde_json::from_str(doc) {
        Ok(v) => v,
        Err(_) => return None,
    };
    match v.pointer(ptr) {
        Some(hit) => serde_json::to_string_pretty(hit).ok(),
        None => None,
    }
}

/// How one pattern character is written inside a JSON pointer: `.` separates
/// reference tokens, and `~` and `/` are escaped as RFC 6901 demands.
pub open spec fn pointer_encoding(c: char) -> Seq<char> {
    if c == '.' {
        seq!['/']
    } else if c == '~' {
        seq!['~', '0']
    } else if c == '/' {
        seq!['~', '1']
    } else {
        seq![c]
    }
}

/// The pointer text for the pattern characters, without the leading slash.
pub open spec fn pointer_body(p: Seq<char>) -> Seq<char>
    decreases p.len(),
{
    if p.len() == 0 {
        Seq::empty()
    } else {
        pointer_encoding(p[0]) + pointer_body(p.skip(1))
    }
}

/// The JSON pointer a pattern denotes: the empty pattern addresses the whole
/// document, any other pattern one reference token per dot-separated
/// segment.
pub open spec fn spec_pointer_of(p: Seq<char>) -> Seq<char> {
    if p.len() == 0 {
        Seq::empty()
    } else {
        seq!['/'] + pointer_body(p)
    }
}

proof fn lemma_pointer_body_push(p: Seq<char>, c: char)
    ensures
        pointer_body(p.push(c)) == pointer_body(p) + pointer_encoding(c),
    decreases p.len(),
{
    if p.len() == 0 {
        assert(p.push(c)[0] == c);
        assert(p.push(c).skip(1) =~= Seq::<char>::empty());
        assert(pointer_body(Seq::<char>::empty()) == Seq::<char>::empty());
        assert(pointer_body(p.push(c)) == pointer_encoding(c) + pointer_body(
            p.push(c).skip(1),
        ));
        assert(pointer_body(p.push(c)) =~= pointer_encoding(c));
        assert(pointer_body(p) + pointer_encoding(c) =~= pointer_encoding(c));
    } else {
        lemma_pointer_body_push(p.skip(1), c);
        assert(p.push(c).skip(1) =~= p.skip(1).push(c));
        assert(p.push(c)[0] == p[0]);
        assert(pointer_encoding(p[0]) + (pointer_body(p.skip(1)) + pointer_encoding(c)) =~= (
        pointer_encoding(p[0]) + pointer_body(p.skip(1))) + pointer_encoding(c));
    }
}

/// The pointer for a pattern, executable form.
pub fn pointer_of(pattern: &Vec<char>) -> (r: Vec<char>)
    ensures
        r@ == spec_pointer_of(pattern@),
{
    let n = pattern.len();
    if n == 0 {
        let r: Vec<char> = Vec::new();
        proof {
            assert(r@ =~= spec_pointer_of(pattern@));
        }
        return r;
    }
    let mut out: Vec<char> = Vec::new();
    out.push('/');
    let mut i: usize = 0;
    while i < n
        invariant
            i <= n,
            n == pattern@.len(),
            out@ == seq!['/'] + pointer_body(pattern@.subrange(0, i as int)),
        decreases n - i,
    {
        let ghost prefix = pattern@.subrange(0, i as int);
        let c = pattern[i];
        if c == '.' {
            out.push('/');
        } else if c == '~' {
            out.push('~');
            out.push('0');
        } else if c == '/' {
            out.push('~');
            out.push('1');
        } else {
            out.push(c);
        }
        proof {
            lemma_pointer_body_push(prefix, c);
            assert(pattern@.subrange(0, i + 1 as int) =~= prefix.push(c));
            assert(out@ =~= seq!['/'] + pointer_body(pattern@.subrange(0, i + 1 as int)));
        }
        i += 1;
    }
    proof {
        assert(pattern@.subrange(0, n as int) =~= pattern@);
    }
    out
}

/// Display form of a selected value: a JSON string drops its surrounding
/// quotes, anything else stays as rendered.
pub open spec fn strip_quotes(v: Seq<char>) -> Seq<char> {
    if v.len() >= 2 && v[0] == '"' {
        v.subrange(1, v.len() - 1)
    } else {
        v
    }
}

/// What extraction yields on a response and a pattern: the display form of
/// the selected value, unless nothing is selected or the display form is
/// empty.
pub open spec fn spec_extract(doc: Seq<char>, pattern: Seq<char>) -> Option<Seq<char>> {
    match json_pointer_text(doc, spec_pointer_of(pattern)) {
        Some(raw) => {
            let s = strip_quotes(raw);
            if s.len() == 0 {
                None
            } else {
                Some(s)
            }
        },
        None => None,
    }
}

/// Evaluate an extraction pattern against a JSON response body.
///
/// The result is a function of the response text and the pattern alone, so
/// extracting the same pattern twice from the same text yields the same
/// optional value.
pub fn extract(response: &str, pattern: &str) -> (r: Option<String>)
    ensures
        match r {
            Some(s) => spec_extract(response@, pattern@) == Some(s@),
            None => spec_extract(response@, pattern@) is None,
        },
{
    let pat = str_to_chars(pattern);
    let ptr_chars = pointer_of(&pat);
    let ptr = chars_to_string(&ptr_chars);
    match json_pointer_query(response, ptr.as_str()) {
        Some(raw) => {
            let rc = str_to_chars(raw.as_str());
            let stripped: Vec<char> = if rc.len() >= 2 && rc[0] == '"' {
                sub_chars(&rc, 1, rc.len() - 1)
            } else {
                rc
            };
            if stripped.len() == 0 {
                None
            } else {
                Some(chars_to_string(&stripped))
            }
        },
        None => None,
    }
}

/// Law: extraction is deterministic.  Two results that both satisfy the
/// contract of [`extract`] for the same response and pattern are equal.
pub proof fn lemma_extract_idempotent(
    response: Seq<char>,
    pattern: Seq<char>,
    r1: Option<Seq<char>>,
    r2: Option<Seq<char>>,
)
    requires
        r1 == spec_extract(response, pattern),
        r2 == spec_extract(response, pattern),
    ensures
        r1 == r2,
{
}

} // verus!
