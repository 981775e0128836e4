//! Content-type-aware body planning.
//!
//! The transport sends whatever this module plans: the body verbatim, the
//! decoded pairs of a form-encoded body, or multipart fields where a value
//! beginning with `@` names a local file whose bytes become the part
//! payload.  Asking for a form or multipart encoding without a decodable
//! body is an error, never a silent fallback.

use vstd::prelude::*;
use vstd::string::StringExecFns;
use crate::error::CoreError;
use crate::jsonio::flat_json_value;
use crate::kv::{map_of_pairs, unique_keys, KvMap};
use crate::text::{str_to_chars, sub_chars, chars_to_string};

verus! {

/// One field of a multipart body.
pub enum BodyPart {
    Text { name: String, value: String },
    File { name: String, path: String },
}

/// How a request body is to be sent.
pub enum BodyPlan {
    Empty,
    Raw(String),
    Form(Vec<(String, String)>),
    Multipart(Vec<BodyPart>),
}

/// The header key that selects the encoding.
pub open spec fn content_type_key() -> Seq<char> {
    "Content-Type"@
}

/// The form-encoded content type.
pub open spec fn urlencoded_type() -> Seq<char> {
    "application/x-www-form-urlencoded"@
}

/// The multipart content type.
pub open spec fn multipart_type() -> Seq<char> {
    "multipart/form-data"@
}

/// The content type resolved from a header mapping, with its default.
pub open spec fn resolved_content_type(h: Map<Seq<char>, Seq<char>>) -> Seq<char> {
    if h.contains_key(content_type_key()) {
        h[content_type_key()]
    } else {
        "application/json"@
    }
}

/// A value with every leading `@` removed.
pub open spec fn spec_strip_ats(v: Seq<char>) -> Seq<char>
    decreases v.len(),
{
    if v.len() > 0 && v[0] == '@' {
        spec_strip_ats(v.skip(1))
    } else {
        v
    }
}

proof fn lemma_strip_ats_at(v: Seq<char>, i: int)
    requires
        0 <= i <= v.len(),
        forall|k: int| 0 <= k < i ==> v[k] == '@',
        i == v.len() || v[i] != '@',
    ensures
        spec_strip_ats(v) == v.skip(i),
    decreases i,
{
    if i == 0 {
        assert(v.skip(0) =~= v);
    } else {
        assert(v[0] == '@');
        lemma_strip_ats_at(v.skip(1), i - 1);
        assert(v.skip(1).skip(i - 1) =~= v.skip(i));
    }
}

/// The part built from one decoded pair: a file part when the value starts
/// with `@`, a text part otherwise.
pub open spec fn part_of_pair(part: BodyPart, name: Seq<char>, value: Seq<char>) -> bool {
    if value.len() > 0 && value[0] == '@' {
        part matches BodyPart::File { name: n, path: p } && n@ == name && p@ == spec_strip_ats(
            value,
        )
    } else {
        part matches BodyPart::Text { name: n, value: v } && n@ == name && v@ == value
    }
}

/// Each part corresponds to the decoded pair at its position.
pub open spec fn parts_correspond(parts: Seq<BodyPart>, pairs: Seq<(String, String)>) -> bool {
    parts.len() == pairs.len() && forall|i: int|
        0 <= i < parts.len() ==> part_of_pair(parts[i], pairs[i].0@, pairs[i].1@)
}

/// What the planner promises about its result.
pub open spec fn plan_ok(
    plan: BodyPlan,
    h: Map<Seq<char>, Seq<char>>,
    body: Option<String>,
) -> bool {
    match plan {
        BodyPlan::Empty => {
            &&& resolved_content_type(h) != urlencoded_type()
            &&& resolved_content_type(h) != multipart_type()
            &&& body is None
        },
        BodyPlan::Raw(b) => {
            &&& resolved_content_type(h) != urlencoded_type()
            &&& resolved_content_type(h) != multipart_type()
            &&& body matches Some(b0) && b@ == b0@
        },
        BodyPlan::Form(pairs) => {
            &&& resolved_content_type(h) == urlencoded_type()
            &&& unique_keys(pairs@)
            &&& body matches Some(b0) && flat_json_value(b0@) == Some(map_of_pairs(pairs@))
        },
        BodyPlan::Multipart(parts) => {
            &&& resolved_content_type(h) == multipart_type()
            &&& body matches Some(b0) && (exists|pairs: Seq<(String, String)>|
                unique_keys(pairs) && flat_json_value(b0@) == Some(map_of_pairs(pairs))
                    && parts_correspond(parts@, pairs))
        },
    }
}

/// Remove every leading `@` of a value, executable form.
fn strip_ats(v: &String) -> (r: String)
    ensures
        r@ == spec_strip_ats(v@),
{
    let cs = str_to_chars(v.as_str());
    let n = cs.len();
    let mut i: usize = 0;
    while i < n && cs[i] == '@'
        invariant
            i <= n,
            n == cs@.len(),
            cs@ == v@,
            forall|k: int| 0 <= k < i ==> cs@[k] == '@',
        decreases n - i,
    {
        i += 1;
    }
    proof {
        lemma_strip_ats_at(v@, i as int);
    }
    let tail = sub_chars(&cs, i, n);
    proof {
        assert(tail@ =~= v@.skip(i as int));
    }
    chars_to_string(&tail)
}

/// Decide how the body is sent, from the resolved headers and body.
///
/// A form or multipart content type demands a body that decodes as a flat
/// JSON object; a missing body is a configuration error and an undecodable
/// one a serialization error.  Any other content type sends the body
/// verbatim, or nothing when there is none.
pub fn plan_body(headers: &KvMap, body: &Option<String>) -> (r: Result<BodyPlan, CoreError>)
    requires
        headers.wf(),
    ensures
        match r {
            Ok(plan) => plan_ok(plan, headers@, *body),
            Err(e) => (resolved_content_type(headers@) == urlencoded_type()
                || resolved_content_type(headers@) == multipart_type()) && (match *body {
                Some(b) => e matches CoreError::Serialization(_) && flat_json_value(b@) is None,
                None => e matches CoreError::Configuration(_),
            }),
        },
{
    let ct_key = String::from_str("Content-Type");
    let default_ct = String::from_str("application/json");
    let ct: &String = match headers.get(&ct_key) {
        Some(v) => v,
        None => &default_ct,
    };
    proof {
        assert(ct@ == resolved_content_type(headers@));
    }
    let is_form = ct.eq(&String::from_str("application/x-www-form-urlencoded"));
    let is_multipart = ct.eq(&String::from_str("multipart/form-data"));
    if !is_form && !is_multipart {
        return match body {
            Some(b) => Ok(BodyPlan::Raw(clone_string(b))),
            None => Ok(BodyPlan::Empty),
        };
    }
    let b = match body {
        Some(b) => b,
        None => {
            return Err(
                CoreError::Configuration(
                    String::from_str("a form or multipart request needs a body"),
                ),
            );
        },
    };
    let pairs = match crate::jsonio::decode_flat_pairs(b.as_str()) {
        Some(pairs) => pairs,
        None => {
            return Err(CoreError::Serialization(clone_string(b)));
        },
    };
    if is_form {
        return Ok(BodyPlan::Form(pairs));
    }
    let mut parts: Vec<BodyPart> = Vec::new();
    let mut i: usize = 0;
    let n = pairs.len();
    while i < n
        invariant
            i <= n,
            n == pairs@.len(),
            parts@.len() == i,
            forall|k: int| 0 <= k < i ==> part_of_pair(parts@[k], pairs@[k].0@, pairs@[k].1@),
        decreases n - i,
    {
        let name = clone_string(&pairs[i].0);
        let value = &pairs[i].1;
        let vc = str_to_chars(value.as_str());
        if vc.len() > 0 && vc[0] == '@' {
            let path = strip_ats(value);
            parts.push(BodyPart::File { name, path });
        } else {
            parts.push(BodyPart::Text { name, value: clone_string(value) });
        }
        i += 1;
    }
    proof {
        let ghost witness = pairs@;
        assert(unique_keys(witness) && flat_json_value(b@) == Some(map_of_pairs(witness))
            && parts_correspond(parts@, witness));
    }
    Ok(BodyPlan::Multipart(parts))
}

/// A copy of a string.
pub fn clone_string(s: &String) -> (r: String)
    ensures
        r == *s,
{
    s.clone()
}

} // verus!
