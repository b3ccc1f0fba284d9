//! The JSON texts that the RPC handlers answer with.

use vstd::prelude::*;
use vstd::string::*;
use crate::text::{signed_decimal, push_signed_decimal};
use crate::external::{json_quote, json_string_literal};
use crate::permission::RpcError;

verus! {

/// `{"id":N}`: the id of a row that was written.
pub open spec fn id_json(id: int) -> Seq<char> {
    "{\"id\":"@ + signed_decimal(id) + "}"@
}

/// The answer that reports the id of a row that was written.
pub fn id_response_json(id: i64) -> (res: String)
    ensures
        res@ == id_json(id as int),
{
    let mut out = String::from_str("{\"id\":");
    push_signed_decimal(&mut out, id);
    out.append("}");
    out
}

/// The answer to enabling or disabling a job: its new state, or that no job
/// has the name.
pub open spec fn set_enable_json(state: Option<bool>) -> Seq<char> {
    match state {
        Some(true) => "{\"success\":true,\"enabled\":true}"@,
        Some(false) => "{\"success\":true,\"enabled\":false}"@,
        None => "{\"success\":false,\"message\":\"Crontab not found\"}"@,
    }
}

/// The answer to enabling or disabling a job.
pub fn set_enable_response_json(state: Option<bool>) -> (res: String)
    ensures
        res@ == set_enable_json(state),
{
    match state {
        Some(true) => String::from_str("{\"success\":true,\"enabled\":true}"),
        Some(false) => String::from_str("{\"success\":true,\"enabled\":false}"),
        None => String::from_str("{\"success\":false,\"message\":\"Crontab not found\"}"),
    }
}

/// `{"key":K,"secret":S}`: a token that was created, its key and secret
/// written as JSON strings.
pub open spec fn token_created_json(key: Seq<char>, secret: Seq<char>) -> Seq<char> {
    "{\"key\":"@ + json_quote(key) + ",\"secret\":"@ + json_quote(secret) + "}"@
}

/// The answer that hands out a created token.
pub fn token_created_response_json(key: &str, secret: &str) -> (res: String)
    ensures
        res@ == token_created_json(key@, secret@),
{
    let mut out = String::from_str("{\"key\":");
    let k = json_string_literal(key);
    out.append(k.as_str());
    out.append(",\"secret\":");
    let s = json_string_literal(secret);
    out.append(s.as_str());
    out.append("}");
    out
}

/// `{"error_id":N,"error_message":M}`: the answer to a failed request, its
/// code as a decimal number and its message as a JSON string.
pub open spec fn error_json(code: int, msg: Seq<char>) -> Seq<char> {
    "{\"error_id\":"@ + signed_decimal(code) + ",\"error_message\":"@ + json_quote(msg) + "}"@
}

/// The answer to a failed request.
pub fn error_response_json(code: i64, msg: &str) -> (res: String)
    ensures
        res@ == error_json(code as int, msg@),
{
    let mut out = String::from_str("{\"error_id\":");
    push_signed_decimal(&mut out, code);
    out.append(",\"error_message\":");
    let m = json_string_literal(msg);
    out.append(m.as_str());
    out.append("}");
    out
}

/// The answer to creating a token: the created key and secret, or the
/// error that the creation ended with.
pub fn token_creation_answer(result: &Result<(String, String), RpcError>) -> (res: String)
    ensures
        match result {
            Ok((k, s)) => res@ == token_created_json(k@, s@),
            Err((c, m)) => res@ == error_json(*c as int, m@),
        },
{
    match result {
        Ok((k, s)) => token_created_response_json(k.as_str(), s.as_str()),
        Err((c, m)) => error_response_json(*c, m.as_str()),
    }
}

/// The answer to storing a value.
pub fn success_response_json() -> (res: String)
    ensures
        res@ == "{\"success\":true}"@,
{
    String::from_str("{\"success\":true}")
}

} // verus!
