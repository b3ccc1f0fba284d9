//! The checks that an RPC handler makes before it touches the database, in
//! the order in which it makes them, and the answer to the permission check
//! that follows. The permission check itself reads the token table, so the
//! caller makes it between the two.

use vstd::prelude::*;
use vstd::string::*;
use crate::crontab::{CronType, is_create_requirement, invalid_cron_message, validate_cron_expression,
    crontab_create_requirement};
use crate::external::{cron_parse_failure, parse_uuid_text, uuid_text_parse};
use crate::permission::{DynamicMonitoring, Metadata, Permission, Requirement, RpcError, Scope,
    dynamic_report_requirement, metadata_write_requirement};
use crate::token::{TokenOrAuth, credentials_readable, missing_separator_message, reads_as,
    token_parse_error};

verus! {

/// Whether an answer is the error with this code and message.
pub open spec fn is_error<T>(res: Result<T, RpcError>, code: i64, msg: Seq<char>) -> bool {
    match res {
        Ok(_) => false,
        Err((c, m)) => c == code && m@ == msg,
    }
}

/// The message of an agent UUID that does not parse.
pub open spec fn invalid_uuid_message(e: Seq<char>) -> Seq<char> {
    "Invalid UUID format: "@ + e
}

/// The message of credentials that cannot be read.
pub open spec fn unreadable_token_message() -> Seq<char> {
    "Failed to parse token: "@ + missing_separator_message()
}

/// The answer to the parse of a reported agent UUID: its value, or code 101
/// with the parse error's text after `prefix`.
pub fn uuid_parse_answer(parsed: Result<u128, String>, prefix: &str) -> (res: Result<u128, RpcError>)
    ensures
        match parsed {
            Ok(v) => res == Ok::<u128, RpcError>(v),
            Err(e) => is_error(res, 101, prefix@ + e@),
        },
{
    match parsed {
        Ok(v) => Ok(v),
        Err(e) => {
            let mut msg = String::from_str(prefix);
            msg.append(e.as_str());
            Err((101, msg))
        },
    }
}

/// Reads the UUID of an agent that reports dynamic data: code 101 with
/// `Invalid UUID format: ` and the parse error when it does not parse.
pub fn parse_agent_uuid(raw: &str) -> (res: Result<u128, RpcError>)
    ensures
        match uuid_text_parse(raw@) {
            Ok(v) => res == Ok::<u128, RpcError>(v),
            Err(e) => is_error(res, 101, invalid_uuid_message(e)),
        },
{
    uuid_parse_answer(parse_uuid_text(raw), "Invalid UUID format: ")
}

/// Reads the UUID of an agent that reports static data: code 101 with the
/// parse error alone when it does not parse.
pub fn parse_reported_uuid(raw: &str) -> (res: Result<u128, RpcError>)
    ensures
        match uuid_text_parse(raw@) {
            Ok(v) => res == Ok::<u128, RpcError>(v),
            Err(e) => is_error(res, 101, e),
        },
{
    let res = uuid_parse_answer(parse_uuid_text(raw), "");
    proof {
        reveal_strlit("");
        match uuid_text_parse(raw@) {
            Ok(_) => {},
            Err(e) => {
                assert(""@ + e =~= e);
            },
        }
    }
    res
}

/// The answer to a permission check: success when it passed, else code 102
/// with the refusal.
pub fn permission_outcome(allowed: bool, denial: &str) -> (res: Result<(), RpcError>)
    ensures
        res is Ok <==> allowed,
        !allowed ==> is_error(res, 102, denial@),
{
    if allowed {
        Ok(())
    } else {
        Err((102, String::from_str(denial)))
    }
}

/// Reads credentials for a handler: code 101 with the reason when they
/// cannot be read.
pub fn read_credentials(token: &str) -> (res: Result<TokenOrAuth, RpcError>)
    ensures
        res is Ok <==> credentials_readable(token@),
        match res {
            Ok(toa) => reads_as(token@, toa),
            Err(_) => is_error(res, 101, unreadable_token_message()),
        },
{
    match TokenOrAuth::from_full_token(token) {
        Ok(toa) => Ok(toa),
        Err(e) => Err(token_parse_error(e.as_str())),
    }
}

/// Whether a job kind runs on agents but lists none.
pub open spec fn lists_no_agent(cron_type: CronType) -> bool {
    match cron_type {
        CronType::Agent(uuids, _) => uuids@.len() == 0,
        CronType::Server(_) => false,
    }
}

/// The checks of creating a job, in order: the cron expression must parse,
/// then the credentials must be readable, then a job on agents must list
/// one. All three refusals have code 101. What passes them is the read
/// credentials and what the permission check must grant.
pub fn crontab_create_precheck(expr: &str, token: &str, cron_type: &CronType) -> (res: Result<
    (TokenOrAuth, Requirement),
    RpcError,
>)
    ensures
        match cron_parse_failure(expr@) {
            Some(m) => is_error(res, 101, invalid_cron_message(m)),
            None => if !credentials_readable(token@) {
                is_error(res, 101, unreadable_token_message())
            } else if lists_no_agent(*cron_type) {
                is_error(res, 101, "Agent list cannot be empty"@)
            } else {
                match res {
                    Ok((toa, req)) => reads_as(token@, toa) && is_create_requirement(*cron_type, req),
                    Err(_) => false,
                }
            },
        },
{
    validate_cron_expression(expr)?;
    let toa = read_credentials(token)?;
    let req = crontab_create_requirement(cron_type)?;
    Ok((toa, req))
}

/// The answer to the permission check of creating a job.
pub fn crontab_create_verdict(allowed: bool) -> (res: Result<(), RpcError>)
    ensures
        res is Ok <==> allowed,
        !allowed ==> is_error(res, 102, "Permission Denied: Insufficient Crontab or Task permissions"@),
{
    permission_outcome(allowed, "Permission Denied: Insufficient Crontab or Task permissions")
}

/// The checks of writing an agent's metadata: the credentials must be
/// readable (else code 101). What passes is the read credentials and what
/// the permission check must grant: writing metadata for that agent.
pub fn metadata_write_precheck(token: &str, agent: u128) -> (res: Result<(TokenOrAuth, Requirement), RpcError>)
    ensures
        if !credentials_readable(token@) {
            is_error(res, 101, unreadable_token_message())
        } else {
            match res {
                Ok((toa, req)) => {
                    &&& reads_as(token@, toa)
                    &&& req.scopes@ == seq![Scope::AgentUuid(agent)]
                    &&& req.permissions@ == seq![Permission::Metadata(Metadata::Write)]
                },
                Err(_) => false,
            }
        },
{
    let toa = read_credentials(token)?;
    Ok((toa, metadata_write_requirement(agent)))
}

/// The answer to the permission check of writing metadata.
pub fn metadata_write_verdict(allowed: bool) -> (res: Result<(), RpcError>)
    ensures
        res is Ok <==> allowed,
        !allowed ==> is_error(res, 102, "Permission Denied: Missing Metadata Write permission"@),
{
    permission_outcome(allowed, "Permission Denied: Missing Metadata Write permission")
}

/// The checks of a report of dynamic data, in order: the agent's UUID must
/// parse, then the credentials must be readable; both refusals have code
/// 101. What passes is the agent, the read credentials and what the
/// permission check must grant: writing dynamic data for that agent.
pub fn dynamic_report_precheck(raw_uuid: &str, token: &str) -> (res: Result<
    (u128, TokenOrAuth, Requirement),
    RpcError,
>)
    ensures
        match uuid_text_parse(raw_uuid@) {
            Err(e) => is_error(res, 101, invalid_uuid_message(e)),
            Ok(agent) => if !credentials_readable(token@) {
                is_error(res, 101, unreadable_token_message())
            } else {
                match res {
                    Ok((a, toa, req)) => {
                        &&& a == agent
                        &&& reads_as(token@, toa)
                        &&& req.scopes@ == seq![Scope::AgentUuid(agent)]
                        &&& req.permissions@ == seq![Permission::DynamicMonitoring(DynamicMonitoring::Write)]
                    },
                    Err(_) => false,
                }
            },
        },
{
    let agent = parse_agent_uuid(raw_uuid)?;
    let toa = read_credentials(token)?;
    Ok((agent, toa, dynamic_report_requirement(agent)))
}

/// The answer to the permission check of a dynamic report.
pub fn dynamic_report_verdict(allowed: bool) -> (res: Result<(), RpcError>)
    ensures
        res is Ok <==> allowed,
        !allowed ==> is_error(
            res,
            102,
            "Permission Denied: Missing DynamicMonitoring Write permission for this Agent"@,
        ),
{
    permission_outcome(allowed, "Permission Denied: Missing DynamicMonitoring Write permission for this Agent")
}

} // verus!
