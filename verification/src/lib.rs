//! Verified core of the NodeGet monitoring server: query planning, task
//! descriptions, token handling, permission decisions, the checks that the
//! RPC handlers make and their order, the job cache and the text of the
//! answers and log lines that the RPC layer writes.

pub mod external;
pub mod text;
pub mod monitoring;
pub mod task;
pub mod task_query;
pub mod token;
pub mod permission;
pub mod js_auth;
pub mod crontab;
pub mod crontab_cache;
pub mod admission;
pub mod response;
pub mod rpc;
pub mod rpc_timing;
