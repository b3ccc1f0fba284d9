use nodeget::task::{ExecuteTask, HttpRequestTask, TaskEventType, WebShellTask};
use std::collections::BTreeMap;
use nodeget::text::cast_signed;
use nodeget::task_query::{plan_task_query, TaskQueryCondition, TaskRowFilter};
use nodeget::monitoring::SortOrder;

fn http_request(body: Option<String>, body_base64: Option<String>) -> HttpRequestTask {
    let mut headers = BTreeMap::new();
    headers.insert("content-type".to_string(), "application/json".to_string());
    HttpRequestTask {
        url: url::Url::parse("https://example.com").unwrap(),
        method: "POST".to_string(),
        headers,
        body,
        body_base64,
        ip: Some("ipv4 auto".to_string()),
    }
}

#[test]
fn http_request_has_at_most_one_body() {
    assert!(http_request(Some("x".to_string()), None).has_at_most_one_body());
    assert!(http_request(None, Some("eA==".to_string())).has_at_most_one_body());
    assert!(http_request(None, None).has_at_most_one_body());
    assert!(!http_request(Some("x".to_string()), Some("eA==".to_string())).has_at_most_one_body());
}

fn all_kinds() -> Vec<TaskEventType> {
    vec![
        TaskEventType::Ping("1.1.1.1".to_string()),
        TaskEventType::TcpPing("1.1.1.1:80".to_string()),
        TaskEventType::HttpPing(url::Url::parse("https://1.1.1.1/").unwrap()),
        TaskEventType::HttpRequest(http_request(Some("{}".to_string()), None)),
        TaskEventType::WebShell(WebShellTask {
            url: url::Url::parse("wss://example.com/auto_gen").unwrap(),
            terminal_id: 0x4c8d1cba_244e_4baf_9b65_c881f86ca60au128,
        }),
        TaskEventType::Execute(ExecuteTask { cmd: "ls".to_string(), args: vec!["-1".to_string(), "tmp".to_string()] }),
        TaskEventType::ReadConfig,
        TaskEventType::EditConfig("log_level = \"info\"".to_string()),
        TaskEventType::Ip,
    ]
}

#[test]
fn task_names_and_permission_fields() {
    let expected = [
        ("ping", "allow_icmp_ping", true),
        ("tcp_ping", "allow_tcp_ping", true),
        ("http_ping", "allow_http_ping", true),
        ("http_request", "allow_http_request", false),
        ("web_shell", "allow_web_shell", false),
        ("execute", "allow_execute", false),
        ("read_config", "allow_read_config", false),
        ("edit_config", "allow_edit_config", false),
        ("ip", "allow_ip", false),
    ];
    for (kind, (name, field, ping)) in all_kinds().iter().zip(expected) {
        assert_eq!(kind.task_name(), name);
        assert_eq!(kind.permission_field(), field);
        assert_eq!(kind.is_ping_task(), ping);
    }
}

#[test]
fn permission_field_is_allow_and_task_name_except_icmp() {
    for kind in all_kinds() {
        if matches!(kind, TaskEventType::Ping(_)) {
            assert_eq!(kind.permission_field(), format!("allow_icmp_{}", kind.task_name()));
        } else {
            assert_eq!(kind.permission_field(), format!("allow_{}", kind.task_name()));
        }
    }
}

#[test]
fn ids_wrap_like_a_signed_cast() {
    assert_eq!(cast_signed(0), 0);
    assert_eq!(cast_signed(42), 42);
    assert_eq!(cast_signed(i64::MAX as u64), i64::MAX);
    assert_eq!(cast_signed(1u64 << 63), i64::MIN);
    assert_eq!(cast_signed(u64::MAX), -1);
}

#[test]
fn task_plan_keeps_each_filter_condition() {
    let conds = vec![
        TaskQueryCondition::TaskId(7),
        TaskQueryCondition::IsSuccess,
        TaskQueryCondition::IsFailure,
        TaskQueryCondition::IsRunning,
        TaskQueryCondition::Type("tcp_ping".to_string()),
        TaskQueryCondition::Limit(4),
        TaskQueryCondition::CronSource("nightly".to_string()),
    ];
    let pg = plan_task_query(&conds);
    assert_eq!(pg.filters.len(), 6);
    assert!(matches!(&pg.filters[5], TaskRowFilter::CronSourceIs(n) if n == "nightly"));
    assert!(matches!(pg.filters[0], TaskRowFilter::IdIs(7)));
    assert!(matches!(pg.filters[1], TaskRowFilter::SuccessIs(true)));
    assert!(matches!(pg.filters[2], TaskRowFilter::SuccessIs(false)));
    assert!(matches!(pg.filters[3], TaskRowFilter::SuccessIsNull));
    assert!(matches!(&pg.filters[4], TaskRowFilter::EventTypeHasKey(k) if k == "tcp_ping"));
    assert_eq!(pg.order, SortOrder::Desc);
    assert_eq!(pg.limit, Some(4));
    let odd = plan_task_query(&vec![TaskQueryCondition::Type("a_b%".to_string())]);
    assert!(matches!(&odd.filters[0], TaskRowFilter::EventTypeHasKey(k) if k == "a_b%"));
}

#[test]
fn task_plan_last_and_timestamps() {
    let u = 5u128;
    let conds = vec![
        TaskQueryCondition::Last,
        TaskQueryCondition::Uuid(u),
        TaskQueryCondition::TimestampFromTo(1, 2),
        TaskQueryCondition::TimestampFrom(3),
        TaskQueryCondition::TimestampTo(4),
    ];
    let plan = plan_task_query(&conds);
    assert_eq!(plan.filters.len(), 4);
    assert!(matches!(plan.filters[0], TaskRowFilter::UuidIs(x) if x == u));
    assert!(matches!(plan.filters[1], TaskRowFilter::TimestampBetween(1, 2)));
    assert!(matches!(plan.filters[2], TaskRowFilter::TimestampFrom(3)));
    assert!(matches!(plan.filters[3], TaskRowFilter::TimestampTo(4)));
    assert_eq!(plan.order, SortOrder::Desc);
    assert_eq!(plan.limit, Some(1));
}
