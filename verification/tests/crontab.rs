use nodeget::crontab::{
    select_crontabs, Cron, cron_from_stored,
    cron_expression_check, cron_runs_on_any, crontab_create_requirement, validate_cron_expression,
    AgentCronType, CronType, ServerCronType,
};
use nodeget::permission::{Crontab, CrontabSelection, Permission, Scope, Task};
use nodeget::task::TaskEventType;

#[test]
fn valid_cron_expressions_pass() {
    assert_eq!(validate_cron_expression("0 30 9,12,15 1,15 May-Aug Mon,Wed,Fri 2018/2"), Ok(()));
    assert_eq!(validate_cron_expression("*/5 * * * * *"), Ok(()));
}

#[test]
fn invalid_cron_expression_is_error_101() {
    let (code, msg) = validate_cron_expression("not a cron").err().unwrap();
    assert_eq!(code, 101);
    assert!(msg.starts_with("Invalid cron expression: "));
    assert!(msg.len() > "Invalid cron expression: ".len());
}

#[test]
fn cron_check_formats_the_parse_error() {
    assert_eq!(cron_expression_check(None), Ok(()));
    assert_eq!(
        cron_expression_check(Some("bad field".to_string())),
        Err((101, "Invalid cron expression: bad field".to_string()))
    );
}

#[test]
fn agent_job_needs_agents_and_task_creation() {
    let a = 1u128;
    let b = 2u128;
    let job = CronType::Agent(vec![a, b], AgentCronType::Task(TaskEventType::TcpPing("x:1".to_string())));
    let req = crontab_create_requirement(&job).ok().unwrap();
    assert!(matches!(req.scopes.as_slice(), [Scope::AgentUuid(x), Scope::AgentUuid(y)] if *x == a && *y == b));
    assert!(matches!(
        req.permissions.as_slice(),
        [Permission::Crontab(Crontab::Write), Permission::Task(Task::Create(n))] if n == "tcp_ping"
    ));
}

#[test]
fn agent_job_without_agents_is_refused() {
    let job = CronType::Agent(vec![], AgentCronType::Task(TaskEventType::Ip));
    assert_eq!(
        crontab_create_requirement(&job).err(),
        Some((101, "Agent list cannot be empty".to_string()))
    );
}

#[test]
fn server_job_needs_global_scope() {
    let req = crontab_create_requirement(&CronType::Server(ServerCronType::CleanUpDatabase)).ok().unwrap();
    assert!(matches!(req.scopes.as_slice(), [Scope::Global]));
    assert!(matches!(req.permissions.as_slice(), [Permission::Crontab(Crontab::Write)]));
}

#[test]
fn job_visibility_by_agent() {
    let a = 10u128;
    let b = 11u128;
    let c = 12u128;
    let job = CronType::Agent(vec![a, b], AgentCronType::Task(TaskEventType::Ip));
    assert!(cron_runs_on_any(&job, &vec![c, b]));
    assert!(!cron_runs_on_any(&job, &vec![c]));
    assert!(!cron_runs_on_any(&job, &vec![]));
    assert!(!cron_runs_on_any(&CronType::Server(ServerCronType::CleanUpDatabase), &vec![a]));
}

#[test]
fn selection_keeps_readable_jobs_in_order() {
    let a = 1u128;
    let b = 2u128;
    let jobs = || {
        vec![
            Cron { id: 1, name: "on-a".into(), enable: true, cron_expression: "x".into(), cron_type: CronType::Agent(vec![a], AgentCronType::Task(TaskEventType::Ip)), last_run_time: None },
            Cron { id: 2, name: "server".into(), enable: true, cron_expression: "x".into(), cron_type: CronType::Server(ServerCronType::CleanUpDatabase), last_run_time: None },
            Cron { id: 3, name: "on-b".into(), enable: false, cron_expression: "x".into(), cron_type: CronType::Agent(vec![b, a], AgentCronType::Task(TaskEventType::Ip)), last_run_time: Some(4) },
        ]
    };
    let all = select_crontabs(jobs(), &CrontabSelection::All);
    assert_eq!(all.iter().map(|c| c.id).collect::<Vec<_>>(), vec![1, 2, 3]);
    let only_b = select_crontabs(jobs(), &CrontabSelection::Agents(vec![b]));
    assert_eq!(only_b.iter().map(|c| c.id).collect::<Vec<_>>(), vec![3]);
    let only_a = select_crontabs(jobs(), &CrontabSelection::Agents(vec![a]));
    assert_eq!(only_a.iter().map(|c| c.id).collect::<Vec<_>>(), vec![1, 3]);
    assert!(select_crontabs(jobs(), &CrontabSelection::Nothing).is_empty());
}

#[test]
fn stored_job_kind_falls_back_to_clean_up() {
    let c = cron_from_stored(4, "n".to_string(), true, "* * * * * *".to_string(), None, Some(9));
    assert_eq!(c.id, 4);
    assert_eq!(c.name, "n");
    assert!(c.enable);
    assert_eq!(c.cron_expression, "* * * * * *");
    assert!(matches!(c.cron_type, CronType::Server(ServerCronType::CleanUpDatabase)));
    assert_eq!(c.last_run_time, Some(9));
    let kept = cron_from_stored(
        5,
        "m".to_string(),
        false,
        "0 * * * * *".to_string(),
        Some(CronType::Agent(vec![3], AgentCronType::Task(TaskEventType::Ip))),
        None,
    );
    assert!(matches!(&kept.cron_type, CronType::Agent(u, AgentCronType::Task(TaskEventType::Ip)) if u == &vec![3u128]));
    assert!(!kept.enable);
    assert_eq!(kept.last_run_time, None);
}
