//! Tokens and their limits: the scopes and permissions a token grants, and
//! the decisions the RPC handlers take on them before they touch any data.

use vstd::prelude::*;
use vstd::string::*;

verus! {

/// Where a permission applies.
#[derive(Debug)]
pub enum Scope {
    /// Everywhere.
    Global,
    /// To one agent.
    AgentUuid(u128),
    /// To one JS worker.
    JsWorker(String),
}

/// Permissions on scheduled jobs.
#[derive(Debug, PartialEq, Eq, Structural, Clone, Copy)]
pub enum Crontab {
    Read,
    Write,
    Delete,
}

/// Permissions on tasks; the string names a task kind.
#[derive(Debug)]
pub enum Task {
    Listen,
    Create(String),
    Write(String),
}

/// Permissions on the stored results of a JS worker.
#[derive(Debug)]
pub enum JsResult {
    Read(String),
    Delete(String),
}

/// Permissions on JS workers.
#[derive(Debug, PartialEq, Eq, Structural, Clone, Copy)]
pub enum JsWorker {
    ListAllJsWorker,
}

/// Permissions on the server itself.
#[derive(Debug, PartialEq, Eq, Structural, Clone, Copy)]
pub enum NodeGet {
    GetRtPool,
}

/// Permissions on dynamic monitoring data.
#[derive(Debug, PartialEq, Eq, Structural, Clone, Copy)]
pub enum DynamicMonitoring {
    Write,
}

/// Permissions on agent metadata.
#[derive(Debug, PartialEq, Eq, Structural, Clone, Copy)]
pub enum Metadata {
    Write,
}

/// A permission that a token limit can grant.
#[derive(Debug)]
pub enum Permission {
    Crontab(Crontab),
    Task(Task),
    JsResult(JsResult),
    JsWorker(JsWorker),
    NodeGet(NodeGet),
    DynamicMonitoring(DynamicMonitoring),
    Metadata(Metadata),
}

/// One limit of a token: its permissions hold in its scopes.
#[derive(Debug)]
pub struct Limit {
    pub scopes: Vec<Scope>,
    pub permissions: Vec<Permission>,
}

/// A stored token.
#[derive(Debug)]
pub struct Token {
    pub version: u64,
    pub token_key: String,
    /// The token is not valid before this time (milliseconds), if set.
    pub timestamp_from: Option<i64>,
    /// The token is not valid after this time (milliseconds), if set.
    pub timestamp_to: Option<i64>,
    pub token_limit: Vec<Limit>,
    pub username: Option<String>,
}

/// An error answered to an RPC caller: a code and a message.
pub type RpcError = (i64, String);

/// What a request needs: every permission in every scope.
pub struct Requirement {
    pub scopes: Vec<Scope>,
    pub permissions: Vec<Permission>,
}

/// Which stored results of a JS worker a request touches.
#[derive(Debug, Clone, Copy)]
pub enum JsResultAction {
    Read,
    Delete,
}

/// The permission that a JS result action on a worker needs.
pub fn build_required_permission(action: JsResultAction, worker_name: &str) -> (res: Permission)
    ensures
        match action {
            JsResultAction::Read => res matches Permission::JsResult(JsResult::Read(w)) && w@ == worker_name@,
            JsResultAction::Delete => res matches Permission::JsResult(JsResult::Delete(w)) && w@ == worker_name@,
        },
{
    match action {
        JsResultAction::Read => Permission::JsResult(JsResult::Read(worker_name.to_owned())),
        JsResultAction::Delete => Permission::JsResult(JsResult::Delete(worker_name.to_owned())),
    }
}

/// Why a token is not valid at `now`, if it is not: before its start it is
/// not yet valid, after its end it has expired. Both bounds are inclusive.
pub open spec fn window_error(from: Option<i64>, to: Option<i64>, now: i64) -> Option<Seq<char>> {
    if from matches Some(f) && now < f {
        Some("Token is not yet valid"@)
    } else if to matches Some(t) && now > t {
        Some("Token has expired"@)
    } else {
        None
    }
}

/// Checks that a token is valid at `now` (milliseconds).
pub fn check_token_window(token: &Token, now: i64) -> (res: Result<(), RpcError>)
    ensures
        match res {
            Ok(()) => window_error(token.timestamp_from, token.timestamp_to, now) is None,
            Err((code, msg)) => code == 102 && window_error(token.timestamp_from, token.timestamp_to, now)
                == Some(msg@),
        },
{
    if let Some(from) = token.timestamp_from {
        if now < from {
            return Err((102, String::from_str("Token is not yet valid")));
        }
    }
    if let Some(to) = token.timestamp_to {
        if now > to {
            return Err((102, String::from_str("Token has expired")));
        }
    }
    Ok(())
}

/// A token is valid exactly between its bounds, both included.
pub proof fn lemma_window_is_inclusive_interval(from: Option<i64>, to: Option<i64>, now: i64)
    ensures
        window_error(from, to, now) is None <==> ((from matches Some(f) ==> f <= now) && (to matches Some(
            t,
        ) ==> now <= t)),
{
}

/// Whether a limit grants a crontab permission.
pub open spec fn limit_has_crontab(l: Limit, c: Crontab) -> bool {
    exists|j: int| 0 <= j < l.permissions@.len() && l.permissions@[j] == Permission::Crontab(c)
}

/// Whether some limit of a token grants a crontab permission.
pub open spec fn token_has_crontab(t: Token, c: Crontab) -> bool {
    exists|i: int| 0 <= i < t.token_limit@.len() && limit_has_crontab(#[trigger] t.token_limit@[i], c)
}

/// Whether a limit grants a crontab permission.
fn limit_grants_crontab(limit: &Limit, wanted: Crontab) -> (res: bool)
    ensures
        res == limit_has_crontab(*limit, wanted),
{
    let n = limit.permissions.len();
    let mut j: usize = 0;
    while j < n
        invariant
            n == limit.permissions@.len(),
            j <= n,
            forall|k: int| 0 <= k < j ==> limit.permissions@[k] != Permission::Crontab(wanted),
        decreases n - j,
    {
        match &limit.permissions[j] {
            Permission::Crontab(c) => {
                if *c == wanted {
                    return true;
                }
            },
            _ => {},
        }
        j = j + 1;
    }
    false
}

/// Whether some limit of the token grants a crontab permission.
pub fn token_grants_crontab(token: &Token, wanted: Crontab) -> (res: bool)
    ensures
        res == token_has_crontab(*token, wanted),
        res <==> exists|i: int, j: int|
            0 <= i < token.token_limit@.len() && 0 <= j < token.token_limit@[i].permissions@.len()
                && #[trigger] token.token_limit@[i].permissions@[j] == Permission::Crontab(wanted),
{
    proof {
        lemma_crontab_granted_anywhere(*token, wanted);
    }
    let n = token.token_limit.len();
    let mut i: usize = 0;
    while i < n
        invariant
            n == token.token_limit@.len(),
            i <= n,
            forall|k: int| 0 <= k < i ==> !limit_has_crontab(#[trigger] token.token_limit@[k], wanted),
        decreases n - i,
    {
        if limit_grants_crontab(&token.token_limit[i], wanted) {
            return true;
        }
        i = i + 1;
    }
    false
}

/// Which scheduled jobs a token may read.
#[derive(Debug)]
pub enum CrontabSelection {
    /// All jobs.
    All,
    /// The jobs that run on one of these agents.
    Agents(Vec<u128>),
    /// None.
    Nothing,
}

/// The agents that a list of scopes names, in order.
pub open spec fn scopes_agent_uuids(ss: Seq<Scope>) -> Seq<u128>
    decreases ss.len(),
{
    if ss.len() == 0 {
        Seq::empty()
    } else {
        let rest = scopes_agent_uuids(ss.drop_last());
        match ss.last() {
            Scope::AgentUuid(u) => rest.push(u),
            _ => rest,
        }
    }
}

/// Whether a list of scopes holds the global scope.
pub open spec fn scopes_have_global(ss: Seq<Scope>) -> bool {
    exists|k: int| 0 <= k < ss.len() && ss[k] is Global
}

/// The agents named by the limits that grant crontab reading, in order.
pub open spec fn read_agent_uuids(ls: Seq<Limit>) -> Seq<u128>
    decreases ls.len(),
{
    if ls.len() == 0 {
        Seq::empty()
    } else {
        read_agent_uuids(ls.drop_last()) + if limit_has_crontab(ls.last(), Crontab::Read) {
            scopes_agent_uuids(ls.last().scopes@)
        } else {
            Seq::empty()
        }
    }
}

/// Whether a limit that grants crontab reading does so globally.
pub open spec fn read_is_global(ls: Seq<Limit>) -> bool {
    exists|i: int| 0 <= i < ls.len() && limit_has_crontab(#[trigger] ls[i], Crontab::Read) && scopes_have_global(ls[i].scopes@)
}

/// The agents of a scope list, extended by those of one more scope.
proof fn lemma_scopes_step(ss: Seq<Scope>, i: int)
    requires
        0 <= i < ss.len(),
    ensures
        ss.take(i + 1).drop_last() == ss.take(i),
        ss.take(i + 1).last() == ss[i],
{
    assert(ss.take(i + 1).drop_last() =~= ss.take(i));
}

/// Collects the agents of the scopes of a limit and whether one scope is
/// global.
fn collect_scopes(scopes: &Vec<Scope>, allowed: &mut Vec<u128>) -> (has_global: bool)
    ensures
        final(allowed)@ == old(allowed)@ + scopes_agent_uuids(scopes@),
        has_global == scopes_have_global(scopes@),
{
    let n = scopes.len();
    let mut has_global = false;
    let mut k: usize = 0;
    let ghost start = allowed@;
    while k < n
        invariant
            n == scopes@.len(),
            k <= n,
            allowed@ == start + scopes_agent_uuids(scopes@.take(k as int)),
            has_global == scopes_have_global(scopes@.take(k as int)),
        decreases n - k,
    {
        proof {
            lemma_scopes_step(scopes@, k as int);
        }
        let ghost prefix = scopes@.take(k as int);
        let ghost next = scopes@.take(k + 1);
        match &scopes[k] {
            Scope::Global => {
                has_global = true;
            },
            Scope::AgentUuid(u) => {
                allowed.push(*u);
            },
            Scope::JsWorker(_) => {},
        }
        proof {
            assert(allowed@ =~= start + scopes_agent_uuids(next));
            if scopes@[k as int] is Global {
                assert(next[k as int] is Global);
            } else {
                assert forall|j: int| 0 <= j < next.len() && next[j] is Global implies prefix[j] is Global by {
                    assert(j < k);
                }
            }
        }
        k = k + 1;
    }
    assert(scopes@.take(n as int) =~= scopes@);
    has_global
}

/// A list of scopes names an agent exactly when one of its scopes is that
/// agent's scope.
pub proof fn lemma_scopes_name_agent(ss: Seq<Scope>, u: u128)
    ensures
        scopes_agent_uuids(ss).contains(u) <==> exists|k: int| 0 <= k < ss.len() && ss[k] == Scope::AgentUuid(u),
    decreases ss.len(),
{
    if ss.len() > 0 {
        let init = ss.drop_last();
        let last = ss.len() - 1;
        lemma_scopes_name_agent(init, u);
        let rest = scopes_agent_uuids(init);
        if exists|k: int| 0 <= k < init.len() && init[k] == Scope::AgentUuid(u) {
            let k = choose|k: int| 0 <= k < init.len() && init[k] == Scope::AgentUuid(u);
            assert(ss[k] == Scope::AgentUuid(u));
        }
        match ss[last] {
            Scope::AgentUuid(w) => {
                assert(scopes_agent_uuids(ss) == rest.push(w));
                if scopes_agent_uuids(ss).contains(u) {
                    let m = choose|m: int| 0 <= m < rest.push(w).len() && rest.push(w)[m] == u;
                    if m < rest.len() {
                        assert(rest.contains(u));
                    } else {
                        assert(ss[last] == Scope::AgentUuid(u));
                    }
                }
                if exists|k: int| 0 <= k < ss.len() && ss[k] == Scope::AgentUuid(u) {
                    let k = choose|k: int| 0 <= k < ss.len() && ss[k] == Scope::AgentUuid(u);
                    if k < last {
                        assert(init[k] == ss[k]);
                        let m = choose|m: int| 0 <= m < rest.len() && rest[m] == u;
                        assert(rest.push(w)[m] == u);
                    } else {
                        assert(rest.push(w)[rest.len() as int] == u);
                    }
                }
            },
            _ => {
                assert(scopes_agent_uuids(ss) == rest);
                if exists|k: int| 0 <= k < ss.len() && ss[k] == Scope::AgentUuid(u) {
                    let k = choose|k: int| 0 <= k < ss.len() && ss[k] == Scope::AgentUuid(u);
                    assert(k < last);
                    assert(init[k] == ss[k]);
                }
            },
        }
    }
}

/// The agents whose jobs a token's limits let it read are exactly the agents
/// that a limit names in an agent scope while that same limit holds crontab
/// reading, at any place of its permission list. A limit without crontab
/// reading adds no agent, whatever it names.
pub proof fn lemma_read_agents_come_from_read_limits(ls: Seq<Limit>, u: u128)
    ensures
        read_agent_uuids(ls).contains(u) <==> exists|i: int, j: int, k: int|
            #![trigger ls[i].permissions@[j], ls[i].scopes@[k]]
            0 <= i < ls.len() && 0 <= j < ls[i].permissions@.len() && 0 <= k < ls[i].scopes@.len()
                && ls[i].permissions@[j] == Permission::Crontab(Crontab::Read)
                && ls[i].scopes@[k] == Scope::AgentUuid(u),
    decreases ls.len(),
{
    if ls.len() > 0 {
        let init = ls.drop_last();
        let last = ls.len() - 1;
        let l = ls[last];
        lemma_read_agents_come_from_read_limits(init, u);
        lemma_scopes_name_agent(l.scopes@, u);
        let rest = read_agent_uuids(init);
        let extra = if limit_has_crontab(l, Crontab::Read) {
            scopes_agent_uuids(l.scopes@)
        } else {
            Seq::empty()
        };
        assert(read_agent_uuids(ls) == rest + extra);
        let whole = rest + extra;
        if whole.contains(u) {
            let m = choose|m: int| 0 <= m < whole.len() && whole[m] == u;
            if m < rest.len() {
                assert(rest[m] == u);
                assert(rest.contains(u));
                let (i, j, k) = choose|i: int, j: int, k: int|
                    #![trigger init[i].permissions@[j], init[i].scopes@[k]]
                    0 <= i < init.len() && 0 <= j < init[i].permissions@.len() && 0 <= k < init[i].scopes@.len()
                        && init[i].permissions@[j] == Permission::Crontab(Crontab::Read)
                        && init[i].scopes@[k] == Scope::AgentUuid(u);
                assert(ls[i] == init[i]);
                assert(ls[i].permissions@[j] == Permission::Crontab(Crontab::Read) && ls[i].scopes@[k] == Scope::AgentUuid(u));
            } else {
                assert(extra[m - rest.len()] == u);
                assert(extra.contains(u));
                assert(limit_has_crontab(l, Crontab::Read));
                let j = choose|j: int| 0 <= j < l.permissions@.len() && l.permissions@[j] == Permission::Crontab(Crontab::Read);
                let k = choose|k: int| 0 <= k < l.scopes@.len() && l.scopes@[k] == Scope::AgentUuid(u);
                assert(ls[last].permissions@[j] == Permission::Crontab(Crontab::Read) && ls[last].scopes@[k] == Scope::AgentUuid(u));
            }
        }
        if exists|i: int, j: int, k: int|
            #![trigger ls[i].permissions@[j], ls[i].scopes@[k]]
            0 <= i < ls.len() && 0 <= j < ls[i].permissions@.len() && 0 <= k < ls[i].scopes@.len()
                && ls[i].permissions@[j] == Permission::Crontab(Crontab::Read)
                && ls[i].scopes@[k] == Scope::AgentUuid(u) {
            let (i, j, k) = choose|i: int, j: int, k: int|
                #![trigger ls[i].permissions@[j], ls[i].scopes@[k]]
                0 <= i < ls.len() && 0 <= j < ls[i].permissions@.len() && 0 <= k < ls[i].scopes@.len()
                    && ls[i].permissions@[j] == Permission::Crontab(Crontab::Read)
                    && ls[i].scopes@[k] == Scope::AgentUuid(u);
            if i < last {
                assert(init[i] == ls[i]);
                assert(init[i].permissions@[j] == Permission::Crontab(Crontab::Read) && init[i].scopes@[k] == Scope::AgentUuid(u));
                let m = choose|m: int| 0 <= m < rest.len() && rest[m] == u;
                assert(whole[m] == u);
            } else {
                assert(limit_has_crontab(l, Crontab::Read));
                assert(l.scopes@[k] == Scope::AgentUuid(u));
                assert(extra.contains(u));
                let m = choose|m: int| 0 <= m < extra.len() && extra[m] == u;
                assert(whole[rest.len() + m] == u);
            }
        }
    }
}

/// A token grants a crontab permission exactly when one of its limits holds
/// that permission at some place of its permission list, whatever other
/// permissions, crontab ones included, stand before it.
pub proof fn lemma_crontab_granted_anywhere(t: Token, c: Crontab)
    ensures
        token_has_crontab(t, c) <==> exists|i: int, j: int|
            0 <= i < t.token_limit@.len() && 0 <= j < t.token_limit@[i].permissions@.len()
                && #[trigger] t.token_limit@[i].permissions@[j] == Permission::Crontab(c),
{
    if token_has_crontab(t, c) {
        let i = choose|i: int| 0 <= i < t.token_limit@.len() && limit_has_crontab(#[trigger] t.token_limit@[i], c);
        let j = choose|j: int| 0 <= j < t.token_limit@[i].permissions@.len()
            && t.token_limit@[i].permissions@[j] == Permission::Crontab(c);
        assert(t.token_limit@[i].permissions@[j] == Permission::Crontab(c));
    }
    if exists|i: int, j: int|
        0 <= i < t.token_limit@.len() && 0 <= j < t.token_limit@[i].permissions@.len()
            && #[trigger] t.token_limit@[i].permissions@[j] == Permission::Crontab(c) {
        let (i, j) = choose|i: int, j: int|
            0 <= i < t.token_limit@.len() && 0 <= j < t.token_limit@[i].permissions@.len()
                && #[trigger] t.token_limit@[i].permissions@[j] == Permission::Crontab(c);
        assert(limit_has_crontab(t.token_limit@[i], c));
    }
}

/// Whether a selection is the one that a token's limits call for.
pub open spec fn selection_matches(sel: CrontabSelection, t: Token) -> bool {
    match sel {
        CrontabSelection::All => read_is_global(t.token_limit@),
        CrontabSelection::Agents(v) => !read_is_global(t.token_limit@) && v@ == read_agent_uuids(t.token_limit@)
            && v@.len() > 0,
        CrontabSelection::Nothing => !read_is_global(t.token_limit@) && read_agent_uuids(t.token_limit@).len()
            == 0,
    }
}

/// Decides which scheduled jobs a token may read.
pub fn crontab_read_selection(token: &Token) -> (res: CrontabSelection)
    ensures
        selection_matches(res, *token),
        match res {
            CrontabSelection::Agents(v) => forall|u: u128| #[trigger] v@.contains(u) <==> exists|i: int, j: int, k: int|
                #![trigger token.token_limit@[i].permissions@[j], token.token_limit@[i].scopes@[k]]
                0 <= i < token.token_limit@.len() && 0 <= j < token.token_limit@[i].permissions@.len()
                    && 0 <= k < token.token_limit@[i].scopes@.len()
                    && token.token_limit@[i].permissions@[j] == Permission::Crontab(Crontab::Read)
                    && token.token_limit@[i].scopes@[k] == Scope::AgentUuid(u),
            _ => true,
        },
{
    let limits = &token.token_limit;
    let n = limits.len();
    let mut has_global = false;
    let mut allowed: Vec<u128> = Vec::new();
    let mut i: usize = 0;
    while i < n
        invariant
            n == limits@.len(),
            i <= n,
            allowed@ == read_agent_uuids(limits@.take(i as int)),
            has_global == read_is_global(limits@.take(i as int)),
        decreases n - i,
    {
        let ghost prefix = limits@.take(i as int);
        let ghost next = limits@.take(i + 1);
        assert(next.drop_last() =~= prefix);
        assert(next.last() == limits@[i as int]);
        let limit = &limits[i];
        if limit_grants_crontab(limit, Crontab::Read) {
            let g = collect_scopes(&limit.scopes, &mut allowed);
            has_global = has_global || g;
        }
        proof {
            if limit_has_crontab(limits@[i as int], Crontab::Read) && scopes_have_global(limits@[i as int].scopes@) {
                assert(limit_has_crontab(next[i as int], Crontab::Read));
            }
            assert forall|j: int| 0 <= j < next.len() && limit_has_crontab(#[trigger] next[j], Crontab::Read) && scopes_have_global(next[j].scopes@)
                implies (j < i && limit_has_crontab(prefix[j], Crontab::Read) && scopes_have_global(prefix[j].scopes@))
                || (j == i && limit_has_crontab(limits@[i as int], Crontab::Read) && scopes_have_global(limits@[i as int].scopes@)) by {
                if j < i {
                    assert(next[j] == prefix[j]);
                }
            }
            assert(has_global == read_is_global(next));
        }
        i = i + 1;
    }
    assert(limits@.take(n as int) =~= limits@);
    assert forall|u: u128| #[trigger] allowed@.contains(u) <==> exists|i: int, j: int, k: int|
        #![trigger token.token_limit@[i].permissions@[j], token.token_limit@[i].scopes@[k]]
        0 <= i < token.token_limit@.len() && 0 <= j < token.token_limit@[i].permissions@.len()
            && 0 <= k < token.token_limit@[i].scopes@.len()
            && token.token_limit@[i].permissions@[j] == Permission::Crontab(Crontab::Read)
            && token.token_limit@[i].scopes@[k] == Scope::AgentUuid(u) by {
        lemma_read_agents_come_from_read_limits(token.token_limit@, u);
    }
    if has_global {
        CrontabSelection::All
    } else if allowed.len() > 0 {
        CrontabSelection::Agents(allowed)
    } else {
        CrontabSelection::Nothing
    }
}

/// Decides whether a token may list scheduled jobs at `now`, and which: it
/// must be valid then and grant crontab reading in some limit.
pub fn authorize_crontab_read(token: &Token, now: i64) -> (res: Result<CrontabSelection, RpcError>)
    ensures
        match res {
            Ok(sel) => window_error(token.timestamp_from, token.timestamp_to, now) is None && token_has_crontab(
                *token,
                Crontab::Read,
            ) && selection_matches(sel, *token) && match sel {
                CrontabSelection::Agents(v) => forall|u: u128| #[trigger] v@.contains(u) <==> exists|i: int, j: int, k: int|
                #![trigger token.token_limit@[i].permissions@[j], token.token_limit@[i].scopes@[k]]
                0 <= i < token.token_limit@.len() && 0 <= j < token.token_limit@[i].permissions@.len()
                    && 0 <= k < token.token_limit@[i].scopes@.len()
                    && token.token_limit@[i].permissions@[j] == Permission::Crontab(Crontab::Read)
                    && token.token_limit@[i].scopes@[k] == Scope::AgentUuid(u),
                _ => true,
            },
            Err((code, msg)) => code == 102 && (window_error(token.timestamp_from, token.timestamp_to, now)
                == Some(msg@) || (window_error(token.timestamp_from, token.timestamp_to, now) is None
                && !token_has_crontab(*token, Crontab::Read)
                && msg@ == "Permission Denied: Insufficient Crontab Read permission"@)),
        },
        res is Ok <==> window_error(token.timestamp_from, token.timestamp_to, now) is None && exists|i: int, j: int|
                0 <= i < token.token_limit@.len() && 0 <= j < token.token_limit@[i].permissions@.len()
                    && #[trigger] token.token_limit@[i].permissions@[j] == Permission::Crontab(Crontab::Read),
{
    proof {
        lemma_crontab_granted_anywhere(*token, Crontab::Read);
    }
    check_token_window(token, now)?;
    if !token_grants_crontab(token, Crontab::Read) {
        return Err((102, String::from_str("Permission Denied: Insufficient Crontab Read permission")));
    }
    Ok(crontab_read_selection(token))
}

/// Decides whether a token may enable or disable scheduled jobs at `now`:
/// it must be valid then and grant crontab writing in some limit.
pub fn authorize_crontab_write(token: &Token, now: i64) -> (res: Result<(), RpcError>)
    ensures
        match res {
            Ok(()) => window_error(token.timestamp_from, token.timestamp_to, now) is None && token_has_crontab(
                *token,
                Crontab::Write,
            ),
            Err((code, msg)) => code == 102 && (window_error(token.timestamp_from, token.timestamp_to, now)
                == Some(msg@) || (window_error(token.timestamp_from, token.timestamp_to, now) is None
                && !token_has_crontab(*token, Crontab::Write)
                && msg@ == "Permission Denied: Insufficient Crontab Write permission"@)),
        },
        res is Ok <==> window_error(token.timestamp_from, token.timestamp_to, now) is None && exists|i: int, j: int|
                0 <= i < token.token_limit@.len() && 0 <= j < token.token_limit@[i].permissions@.len()
                    && #[trigger] token.token_limit@[i].permissions@[j] == Permission::Crontab(Crontab::Write),
{
    proof {
        lemma_crontab_granted_anywhere(*token, Crontab::Write);
    }
    check_token_window(token, now)?;
    if !token_grants_crontab(token, Crontab::Write) {
        return Err((102, String::from_str("Permission Denied: Insufficient Crontab Write permission")));
    }
    Ok(())
}

/// What an agent's report of dynamic monitoring data needs: writing dynamic
/// monitoring data in the scope of that agent.
pub fn dynamic_report_requirement(agent: u128) -> (res: Requirement)
    ensures
        res.scopes@ == seq![Scope::AgentUuid(agent)],
        res.permissions@ == seq![Permission::DynamicMonitoring(DynamicMonitoring::Write)],
{
    let mut scopes: Vec<Scope> = Vec::new();
    scopes.push(Scope::AgentUuid(agent));
    let mut permissions: Vec<Permission> = Vec::new();
    permissions.push(Permission::DynamicMonitoring(DynamicMonitoring::Write));
    assert(scopes@ =~= seq![Scope::AgentUuid(agent)]);
    assert(permissions@ =~= seq![Permission::DynamicMonitoring(DynamicMonitoring::Write)]);
    Requirement { scopes, permissions }
}

/// What writing the metadata of an agent needs: writing metadata in the
/// scope of that agent.
pub fn metadata_write_requirement(agent: u128) -> (res: Requirement)
    ensures
        res.scopes@ == seq![Scope::AgentUuid(agent)],
        res.permissions@ == seq![Permission::Metadata(Metadata::Write)],
{
    let mut scopes: Vec<Scope> = Vec::new();
    scopes.push(Scope::AgentUuid(agent));
    let mut permissions: Vec<Permission> = Vec::new();
    permissions.push(Permission::Metadata(Metadata::Write));
    assert(scopes@ =~= seq![Scope::AgentUuid(agent)]);
    assert(permissions@ =~= seq![Permission::Metadata(Metadata::Write)]);
    Requirement { scopes, permissions }
}

} // verus!
