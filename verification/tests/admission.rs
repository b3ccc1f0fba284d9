use std::str::FromStr;

use nodeget::admission::{
    crontab_create_precheck, crontab_create_verdict, dynamic_report_precheck, dynamic_report_verdict,
    metadata_write_precheck, metadata_write_verdict, parse_agent_uuid, parse_reported_uuid, permission_outcome,
    read_credentials,
};
use nodeget::crontab::{AgentCronType, CronType, ServerCronType};
use nodeget::permission::{Crontab, DynamicMonitoring, Metadata, Permission, Scope, Task};
use nodeget::task::TaskEventType;
use nodeget::token::TokenOrAuth;

const AGENT_TEXT: &str = "e8583352-39e8-5a5b-b66c-e450689088fd";
const AGENT: u128 = 0xe858_3352_39e8_5a5b_b66c_e450_6890_88fd;

fn uuid_error(raw: &str) -> String {
    uuid::Uuid::from_str(raw).unwrap_err().to_string()
}

#[test]
fn agent_uuid_parses_to_its_value() {
    assert_eq!(parse_agent_uuid(AGENT_TEXT), Ok(AGENT));
    assert_eq!(parse_reported_uuid(AGENT_TEXT), Ok(AGENT));
    assert_eq!(parse_agent_uuid("E8583352-39E8-5A5B-B66C-E450689088FD"), Ok(AGENT));
}

#[test]
fn bad_agent_uuid_gives_101() {
    let (code, msg) = parse_agent_uuid("not-a-uuid").unwrap_err();
    assert_eq!(code, 101);
    assert_eq!(msg, format!("Invalid UUID format: {}", uuid_error("not-a-uuid")));
    let (code, msg) = parse_reported_uuid("not-a-uuid").unwrap_err();
    assert_eq!(code, 101);
    assert_eq!(msg, uuid_error("not-a-uuid"));
    assert!(!msg.is_empty());
}

#[test]
fn permission_outcome_gives_102_when_refused() {
    assert_eq!(permission_outcome(true, "no"), Ok(()));
    assert_eq!(permission_outcome(false, "no"), Err((102, "no".to_string())));
    assert_eq!(crontab_create_verdict(true), Ok(()));
    assert_eq!(
        crontab_create_verdict(false),
        Err((102, "Permission Denied: Insufficient Crontab or Task permissions".to_string()))
    );
    assert_eq!(metadata_write_verdict(true), Ok(()));
    assert_eq!(
        metadata_write_verdict(false),
        Err((102, "Permission Denied: Missing Metadata Write permission".to_string()))
    );
    assert_eq!(dynamic_report_verdict(true), Ok(()));
    assert_eq!(
        dynamic_report_verdict(false),
        Err((102, "Permission Denied: Missing DynamicMonitoring Write permission for this Agent".to_string()))
    );
}

#[test]
fn credentials_are_read_or_refused_with_101() {
    assert_eq!(read_credentials("k:s"), Ok(TokenOrAuth::Token("k".to_string(), "s".to_string())));
    assert_eq!(read_credentials("u|p"), Ok(TokenOrAuth::Auth("u".to_string(), "p".to_string())));
    assert_eq!(
        read_credentials("plain"),
        Err((101, "Failed to parse token: Invalid token format: missing ':' separator".to_string()))
    );
}

fn agent_job(uuids: Vec<u128>) -> CronType {
    CronType::Agent(uuids, AgentCronType::Task(TaskEventType::Ip))
}

#[test]
fn create_checks_cron_before_token() {
    let (code, msg) = crontab_create_precheck("not a cron", "plain", &agent_job(vec![])).err().unwrap();
    assert_eq!(code, 101);
    assert!(msg.starts_with("Invalid cron expression: "));
}

#[test]
fn create_checks_token_before_agent_list() {
    let (code, msg) = crontab_create_precheck("*/5 * * * * *", "plain", &agent_job(vec![])).err().unwrap();
    assert_eq!(code, 101);
    assert_eq!(msg, "Failed to parse token: Invalid token format: missing ':' separator");
}

#[test]
fn create_refuses_empty_agent_list() {
    let (code, msg) = crontab_create_precheck("*/5 * * * * *", "k:s", &agent_job(vec![])).err().unwrap();
    assert_eq!(code, 101);
    assert_eq!(msg, "Agent list cannot be empty");
}

#[test]
fn create_passes_with_requirement() {
    match crontab_create_precheck("*/5 * * * * *", "k:s", &agent_job(vec![1, 2])) {
        Ok((toa, req)) => {
            assert_eq!(toa, TokenOrAuth::Token("k".to_string(), "s".to_string()));
            assert!(matches!(req.scopes.as_slice(), [Scope::AgentUuid(1), Scope::AgentUuid(2)]));
            assert!(matches!(
                req.permissions.as_slice(),
                [Permission::Crontab(Crontab::Write), Permission::Task(Task::Create(n))] if n == "ip"
            ));
        },
        Err(e) => panic!("unexpected refusal {e:?}"),
    }
    match crontab_create_precheck("*/5 * * * * *", "u|p", &CronType::Server(ServerCronType::CleanUpDatabase)) {
        Ok((toa, req)) => {
            assert_eq!(toa, TokenOrAuth::Auth("u".to_string(), "p".to_string()));
            assert!(matches!(req.scopes.as_slice(), [Scope::Global]));
            assert!(matches!(req.permissions.as_slice(), [Permission::Crontab(Crontab::Write)]));
        },
        Err(e) => panic!("unexpected refusal {e:?}"),
    }
}

#[test]
fn metadata_write_checks_token() {
    let (code, msg) = metadata_write_precheck("plain", 7).err().unwrap();
    assert_eq!(code, 101);
    assert_eq!(msg, "Failed to parse token: Invalid token format: missing ':' separator");
    match metadata_write_precheck("k:s", 7) {
        Ok((toa, req)) => {
            assert_eq!(toa, TokenOrAuth::Token("k".to_string(), "s".to_string()));
            assert!(matches!(req.scopes.as_slice(), [Scope::AgentUuid(7)]));
            assert!(matches!(req.permissions.as_slice(), [Permission::Metadata(Metadata::Write)]));
        },
        Err(e) => panic!("unexpected refusal {e:?}"),
    }
}

#[test]
fn dynamic_report_checks_uuid_before_token() {
    let (code, msg) = dynamic_report_precheck("bad", "plain").err().unwrap();
    assert_eq!(code, 101);
    assert_eq!(msg, format!("Invalid UUID format: {}", uuid_error("bad")));
    let (code, msg) = dynamic_report_precheck(AGENT_TEXT, "plain").err().unwrap();
    assert_eq!(code, 101);
    assert_eq!(msg, "Failed to parse token: Invalid token format: missing ':' separator");
    match dynamic_report_precheck(AGENT_TEXT, "k:s") {
        Ok((agent, toa, req)) => {
            assert_eq!(agent, AGENT);
            assert_eq!(toa, TokenOrAuth::Token("k".to_string(), "s".to_string()));
            assert!(matches!(req.scopes.as_slice(), [Scope::AgentUuid(a)] if *a == AGENT));
            assert!(matches!(
                req.permissions.as_slice(),
                [Permission::DynamicMonitoring(DynamicMonitoring::Write)]
            ));
        },
        Err(e) => panic!("unexpected refusal {e:?}"),
    }
}
