use nodeget::permission::{
    authorize_crontab_read, authorize_crontab_write, build_required_permission, check_token_window,
    crontab_read_selection, dynamic_report_requirement, metadata_write_requirement, token_grants_crontab,
    Crontab, CrontabSelection, DynamicMonitoring, JsResult, JsResultAction, Limit, Metadata, Permission,
    Scope, Task, Token,
};

fn token(from: Option<i64>, to: Option<i64>, limits: Vec<Limit>) -> Token {
    Token {
        version: 1,
        token_key: "n0kB8lSAykFd9Egu".to_string(),
        timestamp_from: from,
        timestamp_to: to,
        token_limit: limits,
        username: None,
    }
}

#[test]
fn required_permission_names_the_worker() {
    assert!(matches!(
        build_required_permission(JsResultAction::Read, "w1"),
        Permission::JsResult(JsResult::Read(w)) if w == "w1"
    ));
    assert!(matches!(
        build_required_permission(JsResultAction::Delete, "w2"),
        Permission::JsResult(JsResult::Delete(w)) if w == "w2"
    ));
}

#[test]
fn token_window_bounds_are_inclusive() {
    let t = token(Some(100), Some(200), vec![]);
    assert!(check_token_window(&t, 100).is_ok());
    assert!(check_token_window(&t, 200).is_ok());
    assert_eq!(check_token_window(&t, 99), Err((102, "Token is not yet valid".to_string())));
    assert_eq!(check_token_window(&t, 201), Err((102, "Token has expired".to_string())));
    let open = token(None, None, vec![]);
    assert!(check_token_window(&open, i64::MIN).is_ok());
    assert!(check_token_window(&open, i64::MAX).is_ok());
}

#[test]
fn crontab_permission_found_in_any_limit() {
    let t = token(
        None,
        None,
        vec![
            Limit { scopes: vec![Scope::Global], permissions: vec![Permission::Task(Task::Listen)] },
            Limit {
                scopes: vec![Scope::Global],
                permissions: vec![Permission::Task(Task::Create("ping".to_string())), Permission::Crontab(Crontab::Read)],
            },
        ],
    );
    assert!(token_grants_crontab(&t, Crontab::Read));
    assert!(!token_grants_crontab(&t, Crontab::Write));
    assert!(!token_grants_crontab(&token(None, None, vec![]), Crontab::Read));
}

#[test]
fn read_selection_global_agents_or_nothing() {
    let a = 1u128;
    let b = 2u128;
    let read = || Permission::Crontab(Crontab::Read);
    let agents = token(
        None,
        None,
        vec![
            Limit { scopes: vec![Scope::AgentUuid(a)], permissions: vec![read()] },
            Limit { scopes: vec![Scope::Global], permissions: vec![Permission::Crontab(Crontab::Write)] },
            Limit { scopes: vec![Scope::JsWorker("w".to_string()), Scope::AgentUuid(b)], permissions: vec![read()] },
        ],
    );
    match crontab_read_selection(&agents) {
        CrontabSelection::Agents(v) => assert_eq!(v, vec![a, b]),
        other => panic!("unexpected {other:?}"),
    }
    let global = token(
        None,
        None,
        vec![
            Limit { scopes: vec![Scope::AgentUuid(a)], permissions: vec![read()] },
            Limit { scopes: vec![Scope::Global], permissions: vec![read()] },
        ],
    );
    assert!(matches!(crontab_read_selection(&global), CrontabSelection::All));
    let nothing = token(
        None,
        None,
        vec![Limit { scopes: vec![Scope::JsWorker("w".to_string())], permissions: vec![read()] }],
    );
    assert!(matches!(crontab_read_selection(&nothing), CrontabSelection::Nothing));
}

#[test]
fn crontab_read_authorization_order() {
    let read_limit = || Limit { scopes: vec![Scope::Global], permissions: vec![Permission::Crontab(Crontab::Read)] };
    let expired = token(None, Some(10), vec![read_limit()]);
    assert_eq!(authorize_crontab_read(&expired, 11).err(), Some((102, "Token has expired".to_string())));
    let no_perm = token(None, None, vec![]);
    assert_eq!(
        authorize_crontab_read(&no_perm, 0).err(),
        Some((102, "Permission Denied: Insufficient Crontab Read permission".to_string()))
    );
    let ok = token(Some(0), None, vec![read_limit()]);
    assert!(matches!(authorize_crontab_read(&ok, 5), Ok(CrontabSelection::All)));
}

#[test]
fn crontab_write_authorization() {
    let write = token(None, None, vec![Limit { scopes: vec![], permissions: vec![Permission::Crontab(Crontab::Write)] }]);
    assert_eq!(authorize_crontab_write(&write, 0), Ok(()));
    assert_eq!(
        authorize_crontab_write(&write, 0).and(authorize_crontab_write(&token(Some(1), None, vec![]), 0)),
        Err((102, "Token is not yet valid".to_string()))
    );
    let read_only = token(None, None, vec![Limit { scopes: vec![], permissions: vec![Permission::Crontab(Crontab::Read)] }]);
    assert_eq!(
        authorize_crontab_write(&read_only, 0),
        Err((102, "Permission Denied: Insufficient Crontab Write permission".to_string()))
    );
}

#[test]
fn agent_requirements() {
    let a = 77u128;
    let r = dynamic_report_requirement(a);
    assert!(matches!(r.scopes.as_slice(), [Scope::AgentUuid(x)] if *x == a));
    assert!(matches!(r.permissions.as_slice(), [Permission::DynamicMonitoring(DynamicMonitoring::Write)]));
    let m = metadata_write_requirement(a);
    assert!(matches!(m.scopes.as_slice(), [Scope::AgentUuid(x)] if *x == a));
    assert!(matches!(m.permissions.as_slice(), [Permission::Metadata(Metadata::Write)]));
}
