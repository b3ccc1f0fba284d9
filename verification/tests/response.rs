use nodeget::response::{
    error_response_json, id_response_json, set_enable_response_json, success_response_json, token_created_response_json,
    token_creation_answer,
};
use nodeget::js_auth::{
    dedup_names, keep_allowed, js_result_denied_message, js_result_requirement, js_worker_denied_message, js_worker_requirement,
    rt_pool_denied_message, rt_pool_requirement,
};
use nodeget::permission::{JsResult, JsResultAction, JsWorker, NodeGet, Permission, Scope};

#[test]
fn id_answers() {
    assert_eq!(id_response_json(0), "{\"id\":0}");
    assert_eq!(id_response_json(1234567), "{\"id\":1234567}");
    assert_eq!(id_response_json(-5), "{\"id\":-5}");
    assert_eq!(id_response_json(i64::MIN), "{\"id\":-9223372036854775808}");
    assert_eq!(id_response_json(i64::MAX), "{\"id\":9223372036854775807}");
}

#[test]
fn set_enable_answers() {
    assert_eq!(set_enable_response_json(Some(true)), "{\"success\":true,\"enabled\":true}");
    assert_eq!(set_enable_response_json(Some(false)), "{\"success\":true,\"enabled\":false}");
    assert_eq!(set_enable_response_json(None), "{\"success\":false,\"message\":\"Crontab not found\"}");
}

#[test]
fn token_created_answer() {
    assert_eq!(token_created_response_json("K", "S"), "{\"key\":\"K\",\"secret\":\"S\"}");
    assert_eq!(success_response_json(), "{\"success\":true}");
}

#[test]
fn js_result_requirement_and_refusal() {
    let r = js_result_requirement("w", JsResultAction::Delete);
    assert!(matches!(r.scopes.as_slice(), [Scope::JsWorker(w)] if w == "w"));
    assert!(matches!(r.permissions.as_slice(), [Permission::JsResult(JsResult::Delete(w))] if w == "w"));
    assert_eq!(
        js_result_denied_message("w", JsResultAction::Read),
        "Permission denied for js_result on worker 'w', action: Read"
    );
    assert_eq!(
        js_result_denied_message("bot", JsResultAction::Delete),
        format!("Permission denied for js_result on worker 'bot', action: {:?}", JsResultAction::Delete)
    );
}

#[test]
fn js_worker_requirement_and_refusal() {
    let r = js_worker_requirement("bot", JsWorker::ListAllJsWorker);
    assert!(matches!(r.scopes.as_slice(), [Scope::JsWorker(w)] if w == "bot"));
    assert!(matches!(r.permissions.as_slice(), [Permission::JsWorker(JsWorker::ListAllJsWorker)]));
    assert_eq!(
        js_worker_denied_message("bot", JsWorker::ListAllJsWorker),
        format!("Permission denied for js_worker 'bot', required permission: {:?}", JsWorker::ListAllJsWorker)
    );
    let p = rt_pool_requirement();
    assert!(matches!(p.scopes.as_slice(), [Scope::Global]));
    assert!(matches!(p.permissions.as_slice(), [Permission::NodeGet(NodeGet::GetRtPool)]));
    assert_eq!(rt_pool_denied_message(), "Permission denied: missing nodeget.get_rt_pool permission");
}

#[test]
fn dedup_keeps_each_run_once() {
    let v = |xs: &[&str]| xs.iter().map(|s| s.to_string()).collect::<Vec<_>>();
    assert_eq!(dedup_names(v(&["a", "a", "b", "c", "c", "c"])), v(&["a", "b", "c"]));
    assert_eq!(dedup_names(v(&["a", "b", "a"])), v(&["a", "b", "a"]));
    assert_eq!(dedup_names(vec![]), Vec::<String>::new());
    let mut std_dedup = v(&["x", "x", "y", "x", "x"]);
    std_dedup.dedup();
    assert_eq!(dedup_names(v(&["x", "x", "y", "x", "x"])), std_dedup);
}

#[test]
fn dedup_of_sorted_names_keeps_each_once() {
    let mut names: Vec<String> = ["b", "a", "c", "a", "b", "b"].iter().map(|s| s.to_string()).collect();
    names.sort();
    let out = dedup_names(names);
    assert_eq!(out, vec!["a".to_string(), "b".to_string(), "c".to_string()]);
}

#[test]
fn token_answer_escapes_like_serde_json() {
    assert_eq!(
        token_created_response_json("a\"b\\c", "x\ny\u{1}\t\u{8}\u{c}\r/é"),
        "{\"key\":\"a\\\"b\\\\c\",\"secret\":\"x\\ny\\u0001\\t\\b\\f\\r/é\"}"
    );
    let key = "k\u{1f}\"";
    let expected = format!("{{\"key\":{},\"secret\":{}}}", serde_json::to_string(key).unwrap(), serde_json::to_string("s").unwrap());
    assert_eq!(token_created_response_json(key, "s"), expected);
}

#[test]
fn error_answers() {
    assert_eq!(error_response_json(102, "no"), "{\"error_id\":102,\"error_message\":\"no\"}");
    assert_eq!(
        error_response_json(101, "bad \"x\""),
        "{\"error_id\":101,\"error_message\":\"bad \\\"x\\\"\"}"
    );
}

#[test]
fn token_creation_answers() {
    assert_eq!(
        token_creation_answer(&Ok(("K".to_string(), "S".to_string()))),
        "{\"key\":\"K\",\"secret\":\"S\"}"
    );
    assert_eq!(
        token_creation_answer(&Err((103, "Database error".to_string()))),
        "{\"error_id\":103,\"error_message\":\"Database error\"}"
    );
}

#[test]
fn only_allowed_workers_are_kept_in_order() {
    let checked = vec![
        ("a".to_string(), true),
        ("b".to_string(), false),
        ("c".to_string(), true),
        ("d".to_string(), false),
    ];
    assert_eq!(keep_allowed(checked), vec!["a".to_string(), "c".to_string()]);
    assert!(keep_allowed(vec![]).is_empty());
    assert!(keep_allowed(vec![("x".to_string(), false)]).is_empty());
}
