use apirun::dto::{Action, Context, History, Project, TestSuiteInstance};
use apirun::encode::{plan_body, BodyPart, BodyPlan};
use apirun::engine::{process_result, FetchResult, HttpResult, StepOutcome};
use apirun::error::CoreError;
use apirun::extract::extract;
use apirun::flow::{FlowRun, FlowState};
use apirun::history::list_history_page;
use apirun::jsonio::{context_round_trip, load_flat_map, save_flat_map};
use apirun::kv::KvMap;
use apirun::resolver::{resolve_action, RunActionArgs};
use apirun::suite::evaluate_suite;
use apirun::template::resolve_template;

fn kv(pairs: &[(&str, &str)]) -> KvMap {
    let mut m = KvMap::new();
    for (k, v) in pairs {
        m.insert(k.to_string(), v.to_string());
    }
    m
}

fn args_for(name: &str, extraction: Option<Vec<(String, Option<String>)>>) -> RunActionArgs {
    RunActionArgs {
        name: name.to_string(),
        headers: KvMap::new(),
        query_params: KvMap::new(),
        body: None,
        extract_pattern: extraction,
    }
}

// Exactly one history record per produced response, none on a transport
// failure.
#[test]
fn history_written_once_on_success() {
    let ctx = KvMap::new();
    let fetch = Ok(FetchResult::new("{\"ok\":true}".to_string(), 200, 12));
    let out = process_result("login", "https://api.test/login", &KvMap::new(), &None, &fetch, &None, &ctx);
    let h = out.history.expect("one record is owed");
    assert_eq!(h.status_code, 200);
    assert_eq!(h.action_name, "login");
    assert_eq!(h.url, "https://api.test/login");
    assert_eq!(h.response.as_deref(), Some("{\"ok\":true}"));
    assert!(out.error.is_none());
}

#[test]
fn history_written_once_on_application_error() {
    let ctx = KvMap::new();
    let fetch = Ok(FetchResult::new("missing".to_string(), 500, 3));
    let out = process_result("a", "u", &KvMap::new(), &None, &fetch, &None, &ctx);
    assert!(out.history.is_some());
    assert!(matches!(out.error, Some(CoreError::Application(500))));
}

#[test]
fn no_history_on_transport_error() {
    let ctx = kv(&[("keep", "me")]);
    let fetch: Result<FetchResult, String> = Err("connection refused".to_string());
    let out = process_result("a", "u", &KvMap::new(), &None, &fetch, &None, &ctx);
    assert!(out.history.is_none());
    assert!(matches!(out.error, Some(CoreError::Transport(ref m)) if m == "connection refused"));
    assert_eq!(out.ctx.get(&"keep".to_string()), Some(&"me".to_string()));
    assert!(!out.save_context);
}

// Round-trip: persisting a context mapping then loading it returns an
// equal mapping, order-irrelevant.
#[test]
fn context_persist_round_trip() {
    let m = kv(&[("zeta", "1"), ("alpha", "2"), ("mid", "x y\"z")]);
    let doc = save_flat_map(&m);
    let loaded = load_flat_map(&doc).expect("the persisted context decodes");
    assert_eq!(loaded.len(), 3);
    assert_eq!(loaded.get(&"zeta".to_string()), Some(&"1".to_string()));
    assert_eq!(loaded.get(&"alpha".to_string()), Some(&"2".to_string()));
    assert_eq!(loaded.get(&"mid".to_string()), Some(&"x y\"z".to_string()));
    let again = context_round_trip(&m);
    assert_eq!(again.len(), 3);
    assert_eq!(again.get(&"mid".to_string()), Some(&"x y\"z".to_string()));
}

#[test]
fn malformed_context_is_a_serialization_error() {
    assert!(matches!(load_flat_map("not json at all"), Err(CoreError::Serialization(_))));
    assert!(matches!(load_flat_map("{\"n\": 5}"), Err(CoreError::Serialization(_))));
    assert!(matches!(load_flat_map("[1,2]"), Err(CoreError::Serialization(_))));
}

// Extracting the same pattern twice from the same response yields the
// same optional value.
#[test]
fn extraction_is_idempotent() {
    let resp = "{\"data\":{\"items\":[{\"id\":\"first\"},{\"id\":\"second\"}]}}";
    let once = extract(resp, "data.items.1.id");
    let twice = extract(resp, "data.items.1.id");
    assert_eq!(once, twice);
    assert_eq!(once.as_deref(), Some("second"));
}

#[test]
fn extraction_edges() {
    assert_eq!(extract("{\"token\":\"abc123\"}", "token").as_deref(), Some("abc123"));
    // a missing path and an invalid document both yield nothing
    assert_eq!(extract("{\"token\":\"abc123\"}", "nope"), None);
    assert_eq!(extract("not json", "token"), None);
    // an empty extracted string counts as not found
    assert_eq!(extract("{\"token\":\"\"}", "token"), None);
    // non-string values keep their rendered text
    assert_eq!(extract("{\"n\":5}", "n").as_deref(), Some("5"));
    assert_eq!(extract("{\"b\":true}", "b").as_deref(), Some("true"));
    // the whole document for the empty pattern
    assert_eq!(extract("\"only\"", "").as_deref(), Some("only"));
}

// A value bound by step k is substituted literally into step k+1.
#[test]
fn flow_threads_bindings_between_steps() {
    let steps = vec![
        args_for("login", Some(vec![("token".to_string(), Some("auth".to_string()))])),
        args_for("profile", None),
    ];
    let mut run = FlowRun::start(steps, KvMap::new());
    run.begin();
    assert!(matches!(run.state, FlowState::Running(0)));

    // step 0 executes and binds auth := abc123
    let fetch = Ok(FetchResult::new("{\"token\":\"abc123\"}".to_string(), 200, 5));
    let out = run.advance("login", "https://api.test/login", &KvMap::new(), &None, &fetch, false);
    assert!(out.save_context);
    assert!(matches!(run.state, FlowState::Running(1)));

    // step 1 resolves its template against the threaded context
    let action = Action::new(
        "profile".to_string(),
        "https://api.test/me/{{auth}}".to_string(),
        "GET".to_string(),
        None,
        &KvMap::new(),
        false,
        "demo".to_string(),
    );
    let step = args_for("profile", None);
    let rr = resolve_action(&action, &step, &run.ctx).expect("everything is bound");
    assert_eq!(rr.url, "https://api.test/me/abc123");
    assert!(!rr.url.contains("{{"));
}

#[test]
fn flow_aborts_on_error_unless_told_otherwise() {
    let steps = vec![args_for("a", None), args_for("b", None)];
    let mut run = FlowRun::start(steps, KvMap::new());
    run.begin();
    let fetch = Ok(FetchResult::new("gone".to_string(), 404, 2));
    run.advance("a", "u", &KvMap::new(), &None, &fetch, false);
    assert!(matches!(run.state, FlowState::Aborted(0)));

    let steps = vec![args_for("a", None), args_for("b", None)];
    let mut run = FlowRun::start(steps, KvMap::new());
    run.begin();
    let fetch = Ok(FetchResult::new("gone".to_string(), 404, 2));
    run.advance("a", "u", &KvMap::new(), &None, &fetch, true);
    assert!(matches!(run.state, FlowState::Running(1)));
}

// Scenario: a login action whose response carries a token, with the
// extraction bound to `auth`, leaves auth -> abc123 in the context.
#[test]
fn login_token_lands_in_context() {
    let ctx = KvMap::new();
    let fetch = Ok(FetchResult::new("{\"token\":\"abc123\"}".to_string(), 200, 40));
    let extraction = Some(vec![("token".to_string(), Some("auth".to_string()))]);
    let out: StepOutcome = process_result(
        "login",
        "https://api.test/login",
        &KvMap::new(),
        &Some("{\"u\":\"a\"}".to_string()),
        &fetch,
        &extraction,
        &ctx,
    );
    assert_eq!(out.ctx.get(&"auth".to_string()), Some(&"abc123".to_string()));
    assert!(out.save_context);
    assert_eq!(out.extracted.len(), 1);
    assert_eq!(out.extracted[0].1.as_deref(), Some("abc123"));
    assert!(out.history.is_some());
}

// Scenario: a 404 with an extraction spec configured writes history with
// status 404 and leaves the context untouched.
#[test]
fn status_404_skips_extraction() {
    let ctx = kv(&[("auth", "old")]);
    let fetch = Ok(FetchResult::new("{\"token\":\"abc123\"}".to_string(), 404, 7));
    let extraction = Some(vec![("token".to_string(), Some("auth".to_string()))]);
    let out = process_result("login", "u", &KvMap::new(), &None, &fetch, &extraction, &ctx);
    let h = out.history.expect("the attempt is recorded");
    assert_eq!(h.status_code, 404);
    assert_eq!(out.ctx.get(&"auth".to_string()), Some(&"old".to_string()));
    assert!(out.extracted.is_empty());
    assert!(!out.save_context);
}

// Scenario: a multipart body plans one text part and one file part whose
// payload will be read from the named path.
#[test]
fn multipart_body_plans_text_and_file_parts() {
    let headers = kv(&[("Content-Type", "multipart/form-data")]);
    let body = Some("{\"f1\":\"hello\",\"f2\":\"@/tmp/x.bin\"}".to_string());
    let plan = plan_body(&headers, &body).expect("the body decodes");
    let parts = match plan {
        BodyPlan::Multipart(parts) => parts,
        other => panic!("expected a multipart plan, got {:?}", kind_of(&other)),
    };
    assert_eq!(parts.len(), 2);
    let mut saw_text = false;
    let mut saw_file = false;
    for part in &parts {
        match part {
            BodyPart::Text { name, value } => {
                assert_eq!(name, "f1");
                assert_eq!(value, "hello");
                saw_text = true;
            },
            BodyPart::File { name, path } => {
                assert_eq!(name, "f2");
                assert_eq!(path, "/tmp/x.bin");
                saw_file = true;
            },
        }
    }
    assert!(saw_text && saw_file);
}

fn kind_of(plan: &BodyPlan) -> &'static str {
    match plan {
        BodyPlan::Empty => "empty",
        BodyPlan::Raw(_) => "raw",
        BodyPlan::Form(_) => "form",
        BodyPlan::Multipart(_) => "multipart",
    }
}

#[test]
fn form_body_decodes_to_pairs() {
    let headers = kv(&[("Content-Type", "application/x-www-form-urlencoded")]);
    let body = Some("{\"user\":\"a\",\"pass\":\"b\"}".to_string());
    match plan_body(&headers, &body).unwrap() {
        BodyPlan::Form(mut pairs) => {
            pairs.sort();
            assert_eq!(pairs, vec![
                ("pass".to_string(), "b".to_string()),
                ("user".to_string(), "a".to_string()),
            ]);
        },
        other => panic!("expected a form plan, got {:?}", kind_of(&other)),
    }
}

#[test]
fn body_plan_errors() {
    let headers = kv(&[("Content-Type", "multipart/form-data")]);
    assert!(matches!(plan_body(&headers, &None), Err(CoreError::Configuration(_))));
    let body = Some("not an object".to_string());
    assert!(matches!(plan_body(&headers, &body), Err(CoreError::Serialization(_))));
    // any other content type sends the body verbatim
    let plain = kv(&[]);
    match plan_body(&plain, &Some("raw text".to_string())).unwrap() {
        BodyPlan::Raw(b) => assert_eq!(b, "raw text"),
        other => panic!("expected a raw plan, got {:?}", kind_of(&other)),
    }
}

// Scenario: one failing instance is reported failed while the others are
// still evaluated.
#[test]
fn suite_reports_every_instance() {
    let instances = vec![
        TestSuiteInstance::new("s".to_string(), "good".to_string(), "abc123".to_string()),
        TestSuiteInstance::new("s".to_string(), "bad".to_string(), "abc123".to_string()),
        TestSuiteInstance::new("s".to_string(), "aborted".to_string(), "abc123".to_string()),
    ];
    let outcomes = vec![
        Ok("abc123".to_string()),
        Ok("xyz999".to_string()),
        Err("aborted at step 0".to_string()),
    ];
    let report = evaluate_suite(&instances, &outcomes);
    assert_eq!(report.passed, vec!["good".to_string()]);
    assert_eq!(report.failed.len(), 2);
    assert_eq!(report.failed[0], ("bad".to_string(), "xyz999".to_string()));
    assert_eq!(report.failed[1], ("aborted".to_string(), "aborted at step 0".to_string()));
}

#[test]
fn template_resolution() {
    let ctx = kv(&[("v", "value"), ("w", "")]);
    assert_eq!(resolve_template("https://x/{{v}}/end", &ctx).unwrap(), "https://x/value/end");
    assert_eq!(resolve_template("{{v}}{{w}}{{v}}", &ctx).unwrap(), "valuevalue");
    // a placeholder with no binding names the variable in the error
    match resolve_template("https://x/{{missing}}", &ctx) {
        Err(CoreError::Configuration(n)) => assert_eq!(n, "missing"),
        other => panic!("expected a configuration error, got ok={:?}", other.is_ok()),
    }
    // an opener with no closer stays verbatim
    assert_eq!(resolve_template("a {{ b", &ctx).unwrap(), "a {{ b");
}

#[test]
fn resolver_merges_and_substitutes() {
    let stored_headers = kv(&[("X-One", "stored"), ("X-Two", "{{v}}")]);
    let action = Action::new(
        "a".to_string(),
        "https://x/{{v}}".to_string(),
        "POST".to_string(),
        Some("{\"k\":\"{{v}}\"}".to_string()),
        &stored_headers,
        false,
        "demo".to_string(),
    );
    let mut args = args_for("a", None);
    args.headers.insert("X-One".to_string(), "override".to_string());
    let ctx = kv(&[("v", "7")]);
    let rr = resolve_action(&action, &args, &ctx).unwrap();
    assert_eq!(rr.verb, "POST");
    assert_eq!(rr.url, "https://x/7");
    assert_eq!(rr.headers.get(&"X-One".to_string()), Some(&"override".to_string()));
    assert_eq!(rr.headers.get(&"X-Two".to_string()), Some(&"7".to_string()));
    assert_eq!(rr.body.as_deref(), Some("{\"k\":\"7\"}"));
}

#[test]
fn resolver_rejects_bad_verb_and_unbound_placeholder() {
    let action = Action::new(
        "a".to_string(),
        "https://x".to_string(),
        "PATCH".to_string(),
        None,
        &KvMap::new(),
        false,
        "demo".to_string(),
    );
    assert!(matches!(
        resolve_action(&action, &args_for("a", None), &KvMap::new()),
        Err(CoreError::Configuration(_))
    ));
    let action = Action::new(
        "a".to_string(),
        "https://x/{{gone}}".to_string(),
        "GET".to_string(),
        None,
        &KvMap::new(),
        false,
        "demo".to_string(),
    );
    match resolve_action(&action, &args_for("a", None), &KvMap::new()) {
        Err(CoreError::Configuration(n)) => assert_eq!(n, "gone"),
        _ => panic!("an unbound placeholder is a configuration error"),
    }
}

#[test]
fn action_form_flag_sets_content_type() {
    let action = Action::new(
        "a".to_string(),
        "u".to_string(),
        "POST".to_string(),
        None,
        &kv(&[("X-H", "1")]),
        true,
        "demo".to_string(),
    );
    assert_eq!(action.is_form(), Ok(true));
    let headers = action.headers_as_map().unwrap();
    assert_eq!(
        headers.get(&"Content-Type".to_string()),
        Some(&"application/x-www-form-urlencoded".to_string())
    );
    assert_eq!(headers.get(&"X-H".to_string()), Some(&"1".to_string()));
}

#[test]
fn project_and_context_blobs_decode() {
    let project = Project::new("demo".to_string(), None, None, &kv(&[("base", "https://x")]));
    let conf = project.get_conf().unwrap();
    assert_eq!(conf.get(&"base".to_string()), Some(&"https://x".to_string()));

    let stored = Context { value: "{\"auth\":\"abc\"}".to_string() };
    let m = stored.get_value().unwrap();
    assert_eq!(m.get(&"auth".to_string()), Some(&"abc".to_string()));
    assert!(matches!(
        Context { value: "broken".to_string() }.get_value(),
        Err(CoreError::Serialization(_))
    ));
}

#[test]
fn http_result_wraps_and_extracts() {
    let hr = HttpResult::new(Ok(FetchResult::new("{\"a\":\"b\"}".to_string(), 200, 1)));
    assert_eq!(hr.extract_pattern("a", "{\"a\":\"b\"}").as_deref(), Some("b"));
    let out = hr.handle_result("a", "u", &KvMap::new(), &None, &None, &KvMap::new());
    assert!(out.history.is_some());
}

#[test]
fn kv_map_inserts_and_overrides() {
    let mut m = KvMap::new();
    m.insert("k".to_string(), "1".to_string());
    m.insert("k".to_string(), "2".to_string());
    assert_eq!(m.len(), 1);
    assert_eq!(m.get(&"k".to_string()), Some(&"2".to_string()));
    assert_eq!(m.get(&"absent".to_string()), None);
    assert!(m.contains_key(&"k".to_string()));
}

#[test]
fn history_pages_keep_order() {
    let mut items: Vec<History> = Vec::new();
    for i in 0..5i64 {
        items.push(History {
            id: Some(i),
            action_name: format!("a{}", i),
            url: "u".to_string(),
            body: None,
            headers: None,
            response: None,
            status_code: 200,
            duration_ms: 1,
            timestamp: Some(100 - i),
        });
    }
    let page0 = list_history_page(&items, 0, 2);
    assert_eq!(page0.len(), 2);
    assert_eq!(page0[0].action_name, "a0");
    assert_eq!(page0[1].action_name, "a1");
    let page2 = list_history_page(&items, 2, 2);
    assert_eq!(page2.len(), 1);
    assert_eq!(page2[0].action_name, "a4");
    let beyond = list_history_page(&items, 9, 2);
    assert!(beyond.is_empty());
}

#[test]
fn display_only_extraction_binds_nothing() {
    let ctx = KvMap::new();
    let fetch = Ok(FetchResult::new("{\"token\":\"abc123\"}".to_string(), 200, 1));
    // a pattern without a bind name is still attempted, for display
    let extraction = Some(vec![("token".to_string(), None)]);
    let out = process_result("a", "u", &KvMap::new(), &None, &fetch, &extraction, &ctx);
    assert_eq!(out.extracted.len(), 1);
    assert_eq!(out.extracted[0].1.as_deref(), Some("abc123"));
    assert_eq!(out.ctx.len(), 0);
}

#[test]
fn query_params_are_substituted() {
    let action = Action::new(
        "a".to_string(),
        "https://x".to_string(),
        "GET".to_string(),
        None,
        &KvMap::new(),
        false,
        "demo".to_string(),
    );
    let mut args = args_for("a", None);
    args.query_params.insert("token".to_string(), "{{auth}}".to_string());
    let ctx = kv(&[("auth", "abc")]);
    let rr = resolve_action(&action, &args, &ctx).unwrap();
    assert_eq!(rr.query_params.get(&"token".to_string()), Some(&"abc".to_string()));
}

#[test]
fn example_update_follows_success_only() {
    let ctx = KvMap::new();
    let body = Some("{\"u\":\"a\"}".to_string());
    let ok = Ok(FetchResult::new("resp".to_string(), 201, 1));
    let out = process_result("a", "u", &KvMap::new(), &body, &ok, &None, &ctx);
    assert_eq!(out.example_update, Some(("resp".to_string(), body.clone())));
    let bad = Ok(FetchResult::new("resp".to_string(), 404, 1));
    let out = process_result("a", "u", &KvMap::new(), &body, &bad, &None, &ctx);
    assert!(out.example_update.is_none());
}

#[test]
fn file_part_strips_every_leading_at_sign() {
    let headers = kv(&[("Content-Type", "multipart/form-data")]);
    let body = Some("{\"f\":\"@@double\"}".to_string());
    match plan_body(&headers, &body).unwrap() {
        BodyPlan::Multipart(parts) => match &parts[0] {
            BodyPart::File { name, path } => {
                assert_eq!(name, "f");
                assert_eq!(path, "double");
            },
            _ => panic!("a value starting with @ is a file part"),
        },
        other => panic!("expected a multipart plan, got {:?}", kind_of(&other)),
    }
}

#[test]
fn empty_flow_completes_immediately() {
    let mut run = FlowRun::start(Vec::new(), KvMap::new());
    run.begin();
    assert!(matches!(run.state, FlowState::Completed));
    assert!(run.current_step().is_none());
}
