//! Tasks that the server hands to agents: their kinds, names and the agent
//! permission that each kind needs.

use vstd::prelude::*;
use std::collections::BTreeMap;

verus! {

/// A general HTTP request made by an agent.
#[derive(Debug)]
pub struct HttpRequestTask {
    pub url: url::Url,
    pub method: String,
    pub headers: BTreeMap<String, String>,
    /// The body as text; never set together with `body_base64`.
    pub body: Option<String>,
    /// The body as Base64; never set together with `body`.
    pub body_base64: Option<String>,
    /// The source IP to use, or `ipv4 auto` / `ipv6 auto`.
    pub ip: Option<String>,
}

impl HttpRequestTask {
    /// Whether at most one of the two body fields is set, as a request must.
    pub fn has_at_most_one_body(&self) -> (res: bool)
        ensures
            res == !(self.body is Some && self.body_base64 is Some),
    {
        !(self.body.is_some() && self.body_base64.is_some())
    }
}

/// A web shell session: the WebSocket to connect to and the terminal.
#[derive(Debug)]
pub struct WebShellTask {
    pub url: url::Url,
    pub terminal_id: u128,
}

/// A command to execute, with its arguments; no shell is involved.
#[derive(Debug)]
pub struct ExecuteTask {
    pub cmd: String,
    pub args: Vec<String>,
}

/// What an agent is asked to do.
#[derive(Debug)]
pub enum TaskEventType {
    /// ICMP ping; the target may be a domain name that still needs resolving.
    Ping(String),
    /// TCP ping; the target may be a domain name that still needs resolving.
    TcpPing(String),
    /// HTTP ping of a URL.
    HttpPing(url::Url),
    /// A general HTTP request.
    HttpRequest(HttpRequestTask),
    /// Web shell over a WebSocket URL.
    WebShell(WebShellTask),
    /// Command execution.
    Execute(ExecuteTask),
    /// Read the agent's `config.toml`.
    ReadConfig,
    /// Replace the agent's `config.toml` with this TOML text.
    EditConfig(String),
    /// Report the agent's IP addresses.
    Ip,
}

/// The name that identifies a kind of task.
pub open spec fn spec_task_name(t: TaskEventType) -> Seq<char> {
    match t {
        TaskEventType::Ping(_) => "ping"@,
        TaskEventType::TcpPing(_) => "tcp_ping"@,
        TaskEventType::HttpPing(_) => "http_ping"@,
        TaskEventType::HttpRequest(_) => "http_request"@,
        TaskEventType::WebShell(_) => "web_shell"@,
        TaskEventType::Execute(_) => "execute"@,
        TaskEventType::ReadConfig => "read_config"@,
        TaskEventType::EditConfig(_) => "edit_config"@,
        TaskEventType::Ip => "ip"@,
    }
}

/// Whether a kind of task measures latency.
pub open spec fn spec_is_ping_task(t: TaskEventType) -> bool {
    t is Ping || t is TcpPing || t is HttpPing
}

/// The field of the agent configuration that allows a kind of task. The
/// fields of HTTP requests and of reading and editing the configuration are
/// this library's own names, formed as the others are; the agent's
/// configuration documents none for them.
pub open spec fn spec_permission_field(t: TaskEventType) -> Seq<char> {
    match t {
        TaskEventType::Ping(_) => "allow_icmp_ping"@,
        TaskEventType::TcpPing(_) => "allow_tcp_ping"@,
        TaskEventType::HttpPing(_) => "allow_http_ping"@,
        TaskEventType::HttpRequest(_) => "allow_http_request"@,
        TaskEventType::WebShell(_) => "allow_web_shell"@,
        TaskEventType::Execute(_) => "allow_execute"@,
        TaskEventType::ReadConfig => "allow_read_config"@,
        TaskEventType::EditConfig(_) => "allow_edit_config"@,
        TaskEventType::Ip => "allow_ip"@,
    }
}

impl TaskEventType {
    /// The name that identifies this kind of task.
    pub fn task_name(&self) -> (res: &'static str)
        ensures
            res@ == spec_task_name(*self),
    {
        match self {
            TaskEventType::Ping(_) => "ping",
            TaskEventType::TcpPing(_) => "tcp_ping",
            TaskEventType::HttpPing(_) => "http_ping",
            TaskEventType::HttpRequest(_) => "http_request",
            TaskEventType::WebShell(_) => "web_shell",
            TaskEventType::Execute(_) => "execute",
            TaskEventType::ReadConfig => "read_config",
            TaskEventType::EditConfig(_) => "edit_config",
            TaskEventType::Ip => "ip",
        }
    }

    /// Whether the task measures latency (ICMP, TCP or HTTP ping).
    pub fn is_ping_task(&self) -> (res: bool)
        ensures
            res == spec_is_ping_task(*self),
    {
        match self {
            TaskEventType::Ping(_) | TaskEventType::TcpPing(_) | TaskEventType::HttpPing(_) => true,
            _ => false,
        }
    }

    /// The field of the agent configuration that must allow the task.
    pub fn permission_field(&self) -> (res: &'static str)
        ensures
            res@ == spec_permission_field(*self),
    {
        match self {
            TaskEventType::Ping(_) => "allow_icmp_ping",
            TaskEventType::TcpPing(_) => "allow_tcp_ping",
            TaskEventType::HttpPing(_) => "allow_http_ping",
            TaskEventType::HttpRequest(_) => "allow_http_request",
            TaskEventType::WebShell(_) => "allow_web_shell",
            TaskEventType::Execute(_) => "allow_execute",
            TaskEventType::ReadConfig => "allow_read_config",
            TaskEventType::EditConfig(_) => "allow_edit_config",
            TaskEventType::Ip => "allow_ip",
        }
    }
}

/// One task as sent to an agent.
#[derive(Debug)]
pub struct TaskEvent {
    pub task_id: u64,
    /// Only checks who uploads the result; it takes no part in authorization.
    pub task_token: String,
    pub task_event_type: TaskEventType,
}

/// Every task kind but the ICMP ping is allowed by the configuration field
/// named `allow_` followed by its task name; the ICMP ping is allowed by
/// `allow_icmp_ping`.
pub proof fn lemma_permission_field_names_task(t: TaskEventType)
    ensures
        !(t is Ping) ==> spec_permission_field(t) == "allow_"@ + spec_task_name(t),
        t is Ping ==> spec_permission_field(t) == "allow_icmp_"@ + spec_task_name(t),
{
    reveal_strlit("allow_");
    reveal_strlit("allow_icmp_");
    match t {
        TaskEventType::Ping(_) => {
            reveal_strlit("ping");
            reveal_strlit("allow_icmp_ping");
            assert(spec_permission_field(t) =~= "allow_icmp_"@ + spec_task_name(t));
        },
        TaskEventType::TcpPing(_) => {
            reveal_strlit("tcp_ping");
            reveal_strlit("allow_tcp_ping");
            assert(spec_permission_field(t) =~= "allow_"@ + spec_task_name(t));
        },
        TaskEventType::HttpPing(_) => {
            reveal_strlit("http_ping");
            reveal_strlit("allow_http_ping");
            assert(spec_permission_field(t) =~= "allow_"@ + spec_task_name(t));
        },
        TaskEventType::HttpRequest(_) => {
            reveal_strlit("http_request");
            reveal_strlit("allow_http_request");
            assert(spec_permission_field(t) =~= "allow_"@ + spec_task_name(t));
        },
        TaskEventType::ReadConfig => {
            reveal_strlit("read_config");
            reveal_strlit("allow_read_config");
            assert(spec_permission_field(t) =~= "allow_"@ + spec_task_name(t));
        },
        TaskEventType::EditConfig(_) => {
            reveal_strlit("edit_config");
            reveal_strlit("allow_edit_config");
            assert(spec_permission_field(t) =~= "allow_"@ + spec_task_name(t));
        },
        TaskEventType::WebShell(_) => {
            reveal_strlit("web_shell");
            reveal_strlit("allow_web_shell");
            assert(spec_permission_field(t) =~= "allow_"@ + spec_task_name(t));
        },
        TaskEventType::Execute(_) => {
            reveal_strlit("execute");
            reveal_strlit("allow_execute");
            assert(spec_permission_field(t) =~= "allow_"@ + spec_task_name(t));
        },
        TaskEventType::Ip => {
            reveal_strlit("ip");
            reveal_strlit("allow_ip");
            assert(spec_permission_field(t) =~= "allow_"@ + spec_task_name(t));
        },
    }
}

} // verus!
