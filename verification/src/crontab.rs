//! Scheduled jobs: what they run and where, and the checks made when one is
//! created or listed.

use vstd::prelude::*;
use vstd::string::*;
use crate::external::{cron_parse_failure, cron_schedule_failure};
use crate::permission::{Crontab, CrontabSelection, Permission, Requirement, RpcError, Scope, Task};
use crate::task::{TaskEventType, spec_task_name};

verus! {

/// Jobs that the server runs itself.
#[derive(Debug, Clone, Copy)]
pub enum ServerCronType {
    CleanUpDatabase,
}

/// Jobs that agents run.
#[derive(Debug)]
pub enum AgentCronType {
    /// Send the given task to the agents.
    Task(TaskEventType),
}

/// What a scheduled job runs, and where.
#[derive(Debug)]
pub enum CronType {
    /// On these agents.
    Agent(Vec<u128>, AgentCronType),
    /// On the server.
    Server(ServerCronType),
}

/// A scheduled job as the RPC API reports it.
#[derive(Debug)]
pub struct Cron {
    pub id: i64,
    pub name: String,
    pub enable: bool,
    pub cron_expression: String,
    pub cron_type: CronType,
    pub last_run_time: Option<i64>,
}

/// The kind of a stored job: what its stored JSON reads as, or cleaning up
/// the database when it reads as no kind.
pub open spec fn stored_cron_type(parsed: Option<CronType>) -> CronType {
    match parsed {
        Some(t) => t,
        None => CronType::Server(ServerCronType::CleanUpDatabase),
    }
}

/// A stored job as the RPC API reports it. `parsed` is what the stored
/// JSON of its kind reads as, if it reads as a kind.
pub fn cron_from_stored(
    id: i64,
    name: String,
    enable: bool,
    cron_expression: String,
    parsed: Option<CronType>,
    last_run_time: Option<i64>,
) -> (res: Cron)
    ensures
        res.id == id,
        res.name == name,
        res.enable == enable,
        res.cron_expression == cron_expression,
        res.cron_type == stored_cron_type(parsed),
        res.last_run_time == last_run_time,
{
    let cron_type = match parsed {
        Some(t) => t,
        None => CronType::Server(ServerCronType::CleanUpDatabase),
    };
    Cron { id, name, enable, cron_expression, cron_type, last_run_time }
}

/// The answer to a cron expression that does not parse: code 101 and the
/// parse error after a fixed prefix.
pub open spec fn invalid_cron_message(failure: Seq<char>) -> Seq<char> {
    "Invalid cron expression: "@ + failure
}

/// Turns the outcome of parsing a cron expression into the answer to the
/// caller: nothing when it parsed, else error 101 with the parse error.
pub fn cron_expression_check(failure: Option<String>) -> (res: Result<(), RpcError>)
    ensures
        match failure {
            None => res is Ok,
            Some(m) => res matches Err((code, msg)) && code == 101 && msg@ == invalid_cron_message(m@),
        },
{
    match failure {
        None => Ok(()),
        Some(m) => {
            let mut msg = String::from_str("Invalid cron expression: ");
            msg.append(m.as_str());
            Err((101, msg))
        },
    }
}

/// Checks that a cron expression parses, as creating a job requires first.
pub fn validate_cron_expression(expr: &str) -> (res: Result<(), RpcError>)
    ensures
        match cron_parse_failure(expr@) {
            None => res is Ok,
            Some(m) => res matches Err((code, msg)) && code == 101 && msg@ == invalid_cron_message(m),
        },
{
    cron_expression_check(cron_schedule_failure(expr))
}

/// Whether `req` is what creating a job of this kind needs: crontab
/// writing always; on agents, each listed agent as a scope, in order, and
/// the right to create the job's task kind; on the server, the global
/// scope.
pub open spec fn is_create_requirement(cron_type: CronType, req: Requirement) -> bool {
    match cron_type {
        CronType::Agent(uuids, AgentCronType::Task(task)) => {
            &&& req.scopes@.len() == uuids@.len()
            &&& forall|i: int| 0 <= i < uuids@.len() ==> req.scopes@[i] == Scope::AgentUuid(#[trigger] uuids@[i])
            &&& req.permissions@.len() == 2
            &&& req.permissions@[0] == Permission::Crontab(Crontab::Write)
            &&& req.permissions@[1] matches Permission::Task(Task::Create(name)) && name@ == spec_task_name(task)
        },
        CronType::Server(_) => {
            &&& req.scopes@.len() == 1
            &&& req.scopes@[0] is Global
            &&& req.permissions@.len() == 1
            &&& req.permissions@[0] == Permission::Crontab(Crontab::Write)
        },
    }
}

/// Creating a job on agents needs each listed agent as a scope, in order,
/// crontab writing and the right to create the job's task under the name
/// that the task itself gives
/// (`TaskEventType::task_name`): `ping` for an ICMP ping, and likewise for
/// every kind of task.
pub proof fn lemma_create_needs_task_by_its_name(uuids: Vec<u128>, task: TaskEventType, req: Requirement)
    requires
        is_create_requirement(CronType::Agent(uuids, AgentCronType::Task(task)), req),
    ensures
        req.scopes@.len() == uuids@.len(),
        forall|i: int| 0 <= i < uuids@.len() ==> #[trigger] req.scopes@[i] == Scope::AgentUuid(uuids@[i]),
        req.permissions@.len() == 2,
        req.permissions@[0] == Permission::Crontab(Crontab::Write),
        match req.permissions@[1] {
            Permission::Task(Task::Create(name)) => name@ == spec_task_name(task) && (task is Ping ==> name@
                == "ping"@),
            _ => false,
        },
{
}

/// Creating a job on the server needs crontab writing in the global scope,
/// and nothing more.
pub proof fn lemma_server_job_needs_global_crontab_write(kind: ServerCronType, req: Requirement)
    requires
        is_create_requirement(CronType::Server(kind), req),
    ensures
        req.scopes@ == seq![Scope::Global],
        req.permissions@ == seq![Permission::Crontab(Crontab::Write)],
{
    assert(req.scopes@ =~= seq![Scope::Global]);
    assert(req.permissions@ =~= seq![Permission::Crontab(Crontab::Write)]);
}

/// What creating a job of a kind needs. A job on agents needs an agent
/// list that is not empty (else code 101).
pub fn crontab_create_requirement(cron_type: &CronType) -> (res: Result<Requirement, RpcError>)
    ensures
        match cron_type {
            CronType::Agent(uuids, _) => if uuids@.len() == 0 {
                res matches Err((code, msg)) && code == 101 && msg@ == "Agent list cannot be empty"@
            } else {
                res matches Ok(req) && is_create_requirement(*cron_type, req)
            },
            CronType::Server(_) => res matches Ok(req) && is_create_requirement(*cron_type, req),
        },
        match (*cron_type, res) {
            (CronType::Agent(_, AgentCronType::Task(task)), Ok(req)) => match req.permissions@[1] {
                Permission::Task(Task::Create(name)) => name@ == spec_task_name(task),
                _ => false,
            },
            _ => true,
        },
{
    let mut scopes: Vec<Scope> = Vec::new();
    let mut permissions: Vec<Permission> = Vec::new();
    permissions.push(Permission::Crontab(Crontab::Write));
    match cron_type {
        CronType::Agent(uuids, agent_cron_type) => {
            if uuids.len() == 0 {
                return Err((101, String::from_str("Agent list cannot be empty")));
            }
            let n = uuids.len();
            let mut i: usize = 0;
            while i < n
                invariant
                    n == uuids@.len(),
                    i <= n,
                    scopes@.len() == i,
                    forall|j: int| 0 <= j < i ==> scopes@[j] == Scope::AgentUuid(#[trigger] uuids@[j]),
                decreases n - i,
            {
                scopes.push(Scope::AgentUuid(uuids[i]));
                i = i + 1;
            }
            match agent_cron_type {
                AgentCronType::Task(task_event_type) => {
                    permissions.push(
                        Permission::Task(Task::Create(String::from_str(task_event_type.task_name()))),
                    );
                },
            }
        },
        CronType::Server(_) => {
            scopes.push(Scope::Global);
        },
    }
    Ok(Requirement { scopes, permissions })
}

/// Whether a job runs on one of the given agents; server jobs run on none.
pub open spec fn cron_targets_any(cron_type: CronType, uuids: Seq<u128>) -> bool {
    match cron_type {
        CronType::Agent(agents, _) => exists|i: int, j: int|
            #![trigger agents@[i], uuids[j]]
            0 <= i < agents@.len() && 0 <= j < uuids.len() && agents@[i] == uuids[j],
        CronType::Server(_) => false,
    }
}

/// Whether `u` is one of `uuids`.
fn contains_uuid(uuids: &Vec<u128>, u: &u128) -> (res: bool)
    ensures
        res == uuids@.contains(*u),
{
    let n = uuids.len();
    let mut j: usize = 0;
    while j < n
        invariant
            n == uuids@.len(),
            j <= n,
            forall|k: int| 0 <= k < j ==> uuids@[k] != *u,
        decreases n - j,
    {
        if uuids[j] == *u {
            return true;
        }
        j = j + 1;
    }
    false
}

/// Whether a job runs on one of the given agents, as a reader limited to
/// those agents may see it.
pub fn cron_runs_on_any(cron_type: &CronType, uuids: &Vec<u128>) -> (res: bool)
    ensures
        res == cron_targets_any(*cron_type, uuids@),
{
    match cron_type {
        CronType::Agent(agents, _) => {
            let n = agents.len();
            let mut i: usize = 0;
            while i < n
                invariant
                    n == agents@.len(),
                    i <= n,
                    *cron_type is Agent,
                    cron_type->Agent_0@ == agents@,
                    forall|k: int| 0 <= k < i ==> !uuids@.contains(#[trigger] agents@[k]),
                decreases n - i,
            {
                if contains_uuid(uuids, &agents[i]) {
                    proof {
                        let j = choose|j: int| 0 <= j < uuids@.len() && uuids@[j] == agents@[i as int];
                        assert(agents@[i as int] == uuids@[j]);
                    }
                    return true;
                }
                i = i + 1;
            }
            proof {
                assert forall|a: int, b: int| 0 <= a < agents@.len() && 0 <= b < uuids@.len() implies agents@[a] != uuids@[b] by {
                    assert(!uuids@.contains(agents@[a]));
                }
            }
            false
        },
        CronType::Server(_) => false,
    }
}

/// The jobs of a list that run on one of the given agents, in order.
pub open spec fn crons_on_agents(crons: Seq<Cron>, uuids: Seq<u128>) -> Seq<Cron>
    decreases crons.len(),
{
    if crons.len() == 0 {
        Seq::empty()
    } else {
        let rest = crons_on_agents(crons.drop_last(), uuids);
        if cron_targets_any(crons.last().cron_type, uuids) {
            rest.push(crons.last())
        } else {
            rest
        }
    }
}

/// The jobs of a list that a selection lets a token read, in order.
pub open spec fn selected_crons(crons: Seq<Cron>, selection: CrontabSelection) -> Seq<Cron> {
    match selection {
        CrontabSelection::All => crons,
        CrontabSelection::Agents(uuids) => crons_on_agents(crons, uuids@),
        CrontabSelection::Nothing => Seq::empty(),
    }
}

/// Keeps the stored jobs that a token may read: all of them, those that
/// run on one of its agents, or none.
pub fn select_crontabs(crons: Vec<Cron>, selection: &CrontabSelection) -> (res: Vec<Cron>)
    ensures
        res@ == selected_crons(crons@, *selection),
{
    match selection {
        CrontabSelection::All => crons,
        CrontabSelection::Nothing => Vec::new(),
        CrontabSelection::Agents(uuids) => {
            let ghost all = crons@;
            let mut out: Vec<Cron> = Vec::new();
            for cron in it: crons.into_iter()
                invariant
                    it.seq() == all,
                    out@ == crons_on_agents(all.take(it.index() as int), uuids@),
            {
                let ghost idx = it.index();
                let keep = cron_runs_on_any(&cron.cron_type, uuids);
                proof {
                    assert(all.take(idx + 1).drop_last() =~= all.take(idx as int));
                }
                if keep {
                    out.push(cron);
                }
            }
            assert(all.take(all.len() as int) =~= all);
            out
        },
    }
}

} // verus!
