//! The persisted data model: projects, actions, context, history, flows and
//! test suites.
//!
//! Header mappings and configuration are stored as flat JSON objects of
//! string pairs; the accessors here decode them and fail with a
//! serialization error on any other shape instead of defaulting.  Durations
//! are whole milliseconds and timestamps whole seconds, as assigned by the
//! storage collaborator.

use vstd::prelude::*;
use vstd::string::StringExecFns;
use crate::encode::{content_type_key, resolved_content_type, urlencoded_type};
use crate::error::CoreError;
use crate::jsonio::{flat_json_value, load_flat_map, save_flat_map};
use crate::kv::KvMap;

verus! {

/// A named group of actions with optional base URLs and a configuration
/// mapping, stored as a flat JSON object.
pub struct Project {
    pub name: String,
    pub test_url: Option<String>,
    pub prod_url: Option<String>,
    pub conf: String,
}

impl Project {
    /// Build a project, encoding its configuration mapping.
    pub fn new(
        name: String,
        test_url: Option<String>,
        prod_url: Option<String>,
        conf: &KvMap,
    ) -> (r: Project)
        requires
            conf.wf(),
        ensures
            r.name == name,
            r.test_url == test_url,
            r.prod_url == prod_url,
            flat_json_value(r.conf@) == Some(conf@),
    {
        Project { name, test_url, prod_url, conf: save_flat_map(conf) }
    }

    /// The decoded configuration mapping.
    pub fn get_conf(&self) -> (r: Result<KvMap, CoreError>)
        ensures
            match r {
                Ok(m) => m.wf() && flat_json_value(self.conf@) == Some(m@),
                Err(e) => e matches CoreError::Serialization(_) && flat_json_value(
                    self.conf@,
                ) is None,
            },
    {
        load_flat_map(self.conf.as_str())
    }
}

/// A named, reusable HTTP request template bound to a project.
pub struct Action {
    pub name: String,
    pub url: String,
    pub verb: String,
    pub static_body: Option<String>,
    pub headers: String,
    pub body_example: Option<String>,
    pub response_example: Option<String>,
    pub project_name: String,
}

impl Action {
    /// Build an action, encoding its headers; asking for a form action
    /// binds the content type to the form-encoded one, over any header of
    /// the same name.
    pub fn new(
        name: String,
        url: String,
        verb: String,
        static_body: Option<String>,
        headers: &KvMap,
        form: bool,
        project_name: String,
    ) -> (r: Action)
        requires
            headers.wf(),
        ensures
            r.name == name,
            r.url == url,
            r.verb == verb,
            r.static_body == static_body,
            r.body_example is None,
            r.response_example is None,
            r.project_name == project_name,
            flat_json_value(r.headers@) == Some(
                if form {
                    headers@.insert(content_type_key(), urlencoded_type())
                } else {
                    headers@
                },
            ),
    {
        let headers_doc: String = if form {
            let mut with_form = headers.duplicate();
            with_form.insert(
                String::from_str("Content-Type"),
                String::from_str("application/x-www-form-urlencoded"),
            );
            save_flat_map(&with_form)
        } else {
            save_flat_map(headers)
        };
        Action {
            name,
            url,
            verb,
            static_body,
            headers: headers_doc,
            body_example: None,
            response_example: None,
            project_name,
        }
    }

    /// The decoded header mapping.
    pub fn headers_as_map(&self) -> (r: Result<KvMap, CoreError>)
        ensures
            match r {
                Ok(m) => m.wf() && flat_json_value(self.headers@) == Some(m@),
                Err(e) => e matches CoreError::Serialization(_) && flat_json_value(
                    self.headers@,
                ) is None,
            },
    {
        load_flat_map(self.headers.as_str())
    }

    /// Whether the stored headers select the form-encoded content type.
    pub fn is_form(&self) -> (r: Result<bool, CoreError>)
        ensures
            match r {
                Ok(b) => flat_json_value(self.headers@) is Some && b == (resolved_content_type(
                    flat_json_value(self.headers@)->Some_0,
                ) == urlencoded_type()),
                Err(e) => e matches CoreError::Serialization(_) && flat_json_value(
                    self.headers@,
                ) is None,
            },
    {
        let headers = match self.headers_as_map() {
            Ok(m) => m,
            Err(e) => {
                return Err(e);
            },
        };
        proof {
            assert(flat_json_value(self.headers@) == Some(headers@));
        }
        let ct_key = String::from_str("Content-Type");
        proof {
            assert(ct_key@ == content_type_key());
        }
        match headers.get(&ct_key) {
            Some(v) => {
                proof {
                    assert(headers@.contains_key(content_type_key()));
                    assert(resolved_content_type(headers@) == v@);
                    assert("application/x-www-form-urlencoded"@ == urlencoded_type());
                }
                Ok(v.eq(&String::from_str("application/x-www-form-urlencoded")))
            },
            None => {
                proof {
                    reveal_strlit("application/json");
                    reveal_strlit("application/x-www-form-urlencoded");
                    assert(!headers@.contains_key(content_type_key()));
                    assert(resolved_content_type(headers@) == "application/json"@);
                    assert("application/json"@.len() != "application/x-www-form-urlencoded"@.len());
                    assert(resolved_content_type(headers@) != urlencoded_type());
                }
                Ok(false)
            },
        }
    }
}

/// The persisted context: one JSON object of string-to-string pairs.
pub struct Context {
    pub value: String,
}

impl Context {
    /// The decoded context mapping.
    pub fn get_value(&self) -> (r: Result<KvMap, CoreError>)
        ensures
            match r {
                Ok(m) => m.wf() && flat_json_value(self.value@) == Some(m@),
                Err(e) => e matches CoreError::Serialization(_) && flat_json_value(
                    self.value@,
                ) is None,
            },
    {
        load_flat_map(self.value.as_str())
    }

    /// Encode a mapping as the persisted context.
    pub fn of_map(m: &KvMap) -> (r: Context)
        requires
            m.wf(),
        ensures
            flat_json_value(r.value@) == Some(m@),
    {
        Context { value: save_flat_map(m) }
    }
}

/// An immutable audit entry of one executed HTTP attempt.
pub struct History {
    pub id: Option<i64>,
    pub action_name: String,
    pub url: String,
    pub body: Option<String>,
    pub headers: Option<String>,
    pub response: Option<String>,
    pub status_code: u16,
    pub duration_ms: u64,
    pub timestamp: Option<i64>,
}

impl History {
    /// A copy of the record.
    pub fn duplicate(&self) -> (r: History)
        ensures
            r == *self,
    {
        History {
            id: self.id,
            action_name: self.action_name.clone(),
            url: self.url.clone(),
            body: clone_opt_string(&self.body),
            headers: clone_opt_string(&self.headers),
            response: clone_opt_string(&self.response),
            status_code: self.status_code,
            duration_ms: self.duration_ms,
            timestamp: self.timestamp,
        }
    }
}

/// A copy of an optional string.
pub fn clone_opt_string(o: &Option<String>) -> (r: Option<String>)
    ensures
        r == *o,
{
    match o {
        Some(s) => Some(s.clone()),
        None => None,
    }
}

/// A named, ordered list of per-step run arguments, serialized by the
/// storage layer.
pub struct Flow {
    pub name: String,
    pub run_action_args: String,
}

/// A named group of expectations over flows.
pub struct TestSuite {
    pub name: String,
    pub created_at: Option<i64>,
}

/// One expectation: the named flow must yield exactly `expect`.
pub struct TestSuiteInstance {
    pub test_suite_name: String,
    pub flow_name: String,
    pub expect: String,
}

impl TestSuiteInstance {
    /// Build one expectation.
    pub fn new(test_suite_name: String, flow_name: String, expect: String) -> (r:
        TestSuiteInstance)
        ensures
            r.test_suite_name == test_suite_name,
            r.flow_name == flow_name,
            r.expect == expect,
    {
        TestSuiteInstance { test_suite_name, flow_name, expect }
    }
}

} // verus!
