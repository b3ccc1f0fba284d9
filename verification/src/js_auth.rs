//! What access to JS workers and their stored results needs, how a
//! refusal reads, and which workers a caller may see.

use vstd::prelude::*;
use vstd::string::*;
use crate::permission::{
    JsResult, JsResultAction, JsWorker, NodeGet, Permission, Requirement, Scope, build_required_permission,
};

verus! {

/// The name under which an action is written in messages.
pub open spec fn action_name(action: JsResultAction) -> Seq<char> {
    match action {
        JsResultAction::Read => "Read"@,
        JsResultAction::Delete => "Delete"@,
    }
}

/// The name under which a worker permission is written in messages.
pub open spec fn worker_permission_name(p: JsWorker) -> Seq<char> {
    match p {
        JsWorker::ListAllJsWorker => "ListAllJsWorker"@,
    }
}

/// What an action on the stored results of a worker needs: the permission
/// of the action on that worker, in the worker's scope.
pub fn js_result_requirement(worker_name: &str, action: JsResultAction) -> (res: Requirement)
    ensures
        res.scopes@.len() == 1,
        res.scopes@[0] matches Scope::JsWorker(w) && w@ == worker_name@,
        res.permissions@.len() == 1,
        match action {
            JsResultAction::Read => res.permissions@[0] matches Permission::JsResult(JsResult::Read(w)) && w@
                == worker_name@,
            JsResultAction::Delete => res.permissions@[0] matches Permission::JsResult(JsResult::Delete(w))
                && w@ == worker_name@,
        },
{
    let mut scopes: Vec<Scope> = Vec::new();
    scopes.push(Scope::JsWorker(worker_name.to_owned()));
    let mut permissions: Vec<Permission> = Vec::new();
    permissions.push(build_required_permission(action, worker_name));
    Requirement { scopes, permissions }
}

/// The refusal of an action on the stored results of a worker.
pub open spec fn js_result_denied(worker_name: Seq<char>, action: JsResultAction) -> Seq<char> {
    "Permission denied for js_result on worker '"@ + worker_name + "', action: "@ + action_name(action)
}

/// The message that refuses an action on the stored results of a worker.
pub fn js_result_denied_message(worker_name: &str, action: JsResultAction) -> (res: String)
    ensures
        res@ == js_result_denied(worker_name@, action),
{
    let mut out = String::from_str("Permission denied for js_result on worker '");
    out.append(worker_name);
    out.append("', action: ");
    match action {
        JsResultAction::Read => out.append("Read"),
        JsResultAction::Delete => out.append("Delete"),
    }
    out
}

/// What a permission on a worker needs: that permission in the worker's
/// scope.
pub fn js_worker_requirement(worker_name: &str, permission: JsWorker) -> (res: Requirement)
    ensures
        res.scopes@.len() == 1,
        res.scopes@[0] matches Scope::JsWorker(w) && w@ == worker_name@,
        res.permissions@ == seq![Permission::JsWorker(permission)],
{
    let mut scopes: Vec<Scope> = Vec::new();
    scopes.push(Scope::JsWorker(worker_name.to_owned()));
    let mut permissions: Vec<Permission> = Vec::new();
    permissions.push(Permission::JsWorker(permission));
    assert(permissions@ =~= seq![Permission::JsWorker(permission)]);
    Requirement { scopes, permissions }
}

/// The refusal of a permission on a worker.
pub open spec fn js_worker_denied(worker_name: Seq<char>, permission: JsWorker) -> Seq<char> {
    "Permission denied for js_worker '"@ + worker_name + "', required permission: "@ + worker_permission_name(
        permission,
    )
}

/// The message that refuses a permission on a worker.
pub fn js_worker_denied_message(worker_name: &str, permission: JsWorker) -> (res: String)
    ensures
        res@ == js_worker_denied(worker_name@, permission),
{
    let mut out = String::from_str("Permission denied for js_worker '");
    out.append(worker_name);
    out.append("', required permission: ");
    match permission {
        JsWorker::ListAllJsWorker => out.append("ListAllJsWorker"),
    }
    out
}

/// What reading the pool of JS runtimes needs: that server permission,
/// globally.
pub fn rt_pool_requirement() -> (res: Requirement)
    ensures
        res.scopes@ == seq![Scope::Global],
        res.permissions@ == seq![Permission::NodeGet(NodeGet::GetRtPool)],
{
    let mut scopes: Vec<Scope> = Vec::new();
    scopes.push(Scope::Global);
    let mut permissions: Vec<Permission> = Vec::new();
    permissions.push(Permission::NodeGet(NodeGet::GetRtPool));
    assert(scopes@ =~= seq![Scope::Global]);
    assert(permissions@ =~= seq![Permission::NodeGet(NodeGet::GetRtPool)]);
    Requirement { scopes, permissions }
}

/// The message that refuses reading the pool of JS runtimes.
pub fn rt_pool_denied_message() -> (res: String)
    ensures
        res@ == "Permission denied: missing nodeget.get_rt_pool permission"@,
{
    String::from_str("Permission denied: missing nodeget.get_rt_pool permission")
}

/// A list of names with each run of equal neighbours kept once, as
/// `Vec::dedup` leaves it.
pub open spec fn dedup_runs(s: Seq<Seq<char>>) -> Seq<Seq<char>>
    decreases s.len(),
{
    if s.len() == 0 {
        Seq::empty()
    } else {
        let rest = dedup_runs(s.drop_last());
        if rest.len() > 0 && rest.last() == s.last() {
            rest
        } else {
            rest.push(s.last())
        }
    }
}

/// The texts of a list of strings.
pub open spec fn string_views(v: Seq<String>) -> Seq<Seq<char>> {
    v.map_values(|s: String| s@)
}

/// Keeps each run of equal neighbouring names once; on a sorted list this
/// keeps every name once.
pub fn dedup_names(names: Vec<String>) -> (res: Vec<String>)
    ensures
        string_views(res@) == dedup_runs(string_views(names@)),
{
    let mut out: Vec<String> = Vec::new();
    let n = names.len();
    let mut i: usize = 0;
    while i < n
        invariant
            n == names@.len(),
            i <= n,
            string_views(out@) == dedup_runs(string_views(names@.take(i as int))),
        decreases n - i,
    {
        let ghost prefix = string_views(names@.take(i as int));
        let ghost next = string_views(names@.take(i + 1));
        assert(next.drop_last() =~= prefix);
        assert(next.last() == names@[i as int]@);
        let keep = if out.len() == 0 {
            true
        } else {
            let last = out.len() - 1;
            !(out[last] == names[i])
        };
        if keep {
            out.push(names[i].clone());
            assert(string_views(out@) =~= dedup_runs(next));
        }
        i = i + 1;
    }
    assert(names@.take(n as int) =~= names@);
    out
}

/// The names whose permission check passed, in their order.
pub open spec fn allowed_names(checked: Seq<(Seq<char>, bool)>) -> Seq<Seq<char>>
    decreases checked.len(),
{
    if checked.len() == 0 {
        Seq::empty()
    } else {
        let rest = allowed_names(checked.drop_last());
        if checked.last().1 {
            rest.push(checked.last().0)
        } else {
            rest
        }
    }
}

/// The texts of a list of names, each with the outcome of its check.
pub open spec fn checked_views(v: Seq<(String, bool)>) -> Seq<(Seq<char>, bool)> {
    v.map_values(|p: (String, bool)| (p.0@, p.1))
}

/// The names kept from two lists put together are those kept from the
/// first followed by those kept from the second.
pub proof fn lemma_allowed_names_append(a: Seq<(Seq<char>, bool)>, b: Seq<(Seq<char>, bool)>)
    ensures
        allowed_names(a + b) == allowed_names(a) + allowed_names(b),
    decreases b.len(),
{
    if b.len() == 0 {
        assert(a + b =~= a);
        assert(allowed_names(a) + allowed_names(b) =~= allowed_names(a));
    } else {
        lemma_allowed_names_append(a, b.drop_last());
        assert((a + b).drop_last() =~= a + b.drop_last());
        assert((a + b).last() == b.last());
        if b.last().1 {
            assert(allowed_names(a) + allowed_names(b) =~= (allowed_names(a) + allowed_names(b.drop_last())).push(
                b.last().0,
            ));
        }
    }
}

/// One worker is kept exactly when its check passed.
pub proof fn lemma_allowed_names_single(name: Seq<char>, passed: bool)
    ensures
        allowed_names(seq![(name, passed)]) == if passed { seq![name] } else { Seq::<Seq<char>>::empty() },
{
    let s = seq![(name, passed)];
    assert(s.drop_last() =~= Seq::<(Seq<char>, bool)>::empty());
    assert(allowed_names(s.drop_last()) =~= Seq::<Seq<char>>::empty());
    assert(s.last() == (name, passed));
    if passed {
        assert(Seq::<Seq<char>>::empty().push(name) =~= seq![name]);
    }
}

/// A name is kept exactly when it stands in the list paired with a passed
/// check, wherever it stands, the last place included.
pub proof fn lemma_allowed_names_members(checked: Seq<(Seq<char>, bool)>, name: Seq<char>)
    ensures
        allowed_names(checked).contains(name) <==> exists|i: int| 0 <= i < checked.len() && #[trigger] checked[i]
            == (name, true),
    decreases checked.len(),
{
    if checked.len() > 0 {
        let init = checked.drop_last();
        let last = checked.len() - 1;
        lemma_allowed_names_members(init, name);
        let rest = allowed_names(init);
        if exists|i: int| 0 <= i < init.len() && #[trigger] init[i] == (name, true) {
            let i = choose|i: int| 0 <= i < init.len() && #[trigger] init[i] == (name, true);
            assert(checked[i] == init[i]);
        }
        if checked.last().1 {
            let all = rest.push(checked.last().0);
            assert(allowed_names(checked) == all);
            if all.contains(name) {
                let m = choose|m: int| 0 <= m < all.len() && all[m] == name;
                if m < rest.len() {
                    assert(rest.contains(name));
                } else {
                    assert(checked[last] == (name, true));
                }
            }
            if exists|i: int| 0 <= i < checked.len() && #[trigger] checked[i] == (name, true) {
                let i = choose|i: int| 0 <= i < checked.len() && #[trigger] checked[i] == (name, true);
                if i < last {
                    assert(init[i] == checked[i]);
                    let m = choose|m: int| 0 <= m < rest.len() && rest[m] == name;
                    assert(all[m] == name);
                } else {
                    assert(all[rest.len() as int] == name);
                }
            }
        } else {
            assert(allowed_names(checked) == rest);
            if exists|i: int| 0 <= i < checked.len() && #[trigger] checked[i] == (name, true) {
                let i = choose|i: int| 0 <= i < checked.len() && #[trigger] checked[i] == (name, true);
                assert(i != last);
                assert(init[i] == checked[i]);
            }
        }
    }
}

/// Keeps each worker whose permission check passed, in order, and no other.
pub fn keep_allowed(checked: Vec<(String, bool)>) -> (res: Vec<String>)
    ensures
        string_views(res@) == allowed_names(checked_views(checked@)),
        forall|i: int| 0 <= i < checked@.len() && #[trigger] checked@[i].1 ==> exists|j: int|
            0 <= j < res@.len() && res@[j]@ == checked@[i].0@,
        forall|j: int| 0 <= j < res@.len() ==> checked_views(checked@).contains((#[trigger] res@[j]@, true)),
{
    let mut out: Vec<String> = Vec::new();
    let n = checked.len();
    let mut i: usize = 0;
    while i < n
        invariant
            n == checked@.len(),
            i <= n,
            string_views(out@) == allowed_names(checked_views(checked@.take(i as int))),
        decreases n - i,
    {
        let ghost next = checked_views(checked@.take(i + 1));
        assert(next.drop_last() =~= checked_views(checked@.take(i as int)));
        assert(next.last() == (checked@[i as int].0@, checked@[i as int].1));
        if checked[i].1 {
            out.push(checked[i].0.clone());
        }
        assert(string_views(out@) =~= allowed_names(next));
        i = i + 1;
    }
    assert(checked@.take(n as int) =~= checked@);
    proof {
        let cv = checked_views(checked@);
        let rv = string_views(out@);
        assert forall|i: int| 0 <= i < checked@.len() && #[trigger] checked@[i].1 implies exists|j: int|
            0 <= j < out@.len() && out@[j]@ == checked@[i].0@ by {
            lemma_allowed_names_members(cv, checked@[i].0@);
            assert(cv[i] == (checked@[i].0@, true));
            let j = choose|j: int| 0 <= j < rv.len() && rv[j] == checked@[i].0@;
            assert(out@[j]@ == rv[j]);
        }
        assert forall|j: int| 0 <= j < out@.len() implies cv.contains((#[trigger] out@[j]@, true)) by {
            assert(rv[j] == out@[j]@);
            lemma_allowed_names_members(cv, out@[j]@);
            assert(rv.contains(out@[j]@));
            let i = choose|i: int| 0 <= i < cv.len() && #[trigger] cv[i] == (out@[j]@, true);
            assert(cv[i] == (out@[j]@, true));
        }
    }
    out
}

/// The last name kept is the last name of the list.
proof fn lemma_dedup_runs_last(s: Seq<Seq<char>>)
    requires
        s.len() > 0,
    ensures
        dedup_runs(s).len() > 0,
        dedup_runs(s).last() == s.last(),
    decreases s.len(),
{
    if s.len() > 1 {
        lemma_dedup_runs_last(s.drop_last());
    }
}

/// Deduplication keeps exactly the names of the list.
pub proof fn lemma_dedup_runs_same_names(s: Seq<Seq<char>>, x: Seq<char>)
    ensures
        dedup_runs(s).contains(x) <==> s.contains(x),
    decreases s.len(),
{
    if s.len() > 0 {
        let rest = s.drop_last();
        lemma_dedup_runs_same_names(rest, x);
        if rest.len() > 0 {
            lemma_dedup_runs_last(rest);
        }
        if rest.contains(x) {
            let i = choose|i: int| 0 <= i < rest.len() && rest[i] == x;
            assert(s[i] == x);
        }
        if s.contains(x) {
            let i = choose|i: int| 0 <= i < s.len() && s[i] == x;
            if i < rest.len() {
                assert(rest[i] == x);
            }
        }
        let r = dedup_runs(rest);
        if r.len() > 0 && r.last() == s.last() {
            if x == s.last() {
                assert(r[r.len() - 1] == x);
            }
        } else {
            assert(r.push(s.last())[r.len() as int] == s.last());
            if r.contains(x) {
                let j = choose|j: int| 0 <= j < r.len() && r[j] == x;
                assert(r.push(s.last())[j] == x);
            }
            if r.push(s.last()).contains(x) {
                let j = choose|j: int| 0 <= j < r.len() + 1 && r.push(s.last())[j] == x;
                if j < r.len() {
                    assert(r[j] == x);
                }
            }
        }
    }
}

/// Whether equal names stand next to each other, as in a sorted list.
pub open spec fn grouped(s: Seq<Seq<char>>) -> bool {
    forall|i: int, j: int, k: int|
        #![trigger s[i], s[j], s[k]]
        0 <= i < j < k < s.len() && s[i] == s[k] ==> s[j] == s[i]
}

/// On a list whose equal names stand together, such as a sorted one,
/// deduplication keeps every name exactly once.
pub proof fn lemma_dedup_runs_unique(s: Seq<Seq<char>>)
    requires
        grouped(s),
    ensures
        dedup_runs(s).no_duplicates(),
    decreases s.len(),
{
    if s.len() > 0 {
        let rest = s.drop_last();
        assert(grouped(rest)) by {
            assert forall|i: int, j: int, k: int| #![trigger rest[i], rest[j], rest[k]] 0 <= i < j < k < rest.len() && rest[i] == rest[k] implies rest[j] == rest[i] by {
                assert(s[i] == s[k]);
                assert(s[j] == rest[j]);
            }
        }
        lemma_dedup_runs_unique(rest);
        let r = dedup_runs(rest);
        let n = s.len();
        if !(r.len() > 0 && r.last() == s.last()) {
            if r.contains(s.last()) {
                lemma_dedup_runs_same_names(rest, s.last());
                let i = choose|i: int| 0 <= i < rest.len() && rest[i] == s.last();
                lemma_dedup_runs_last(rest);
                assert(rest.last() == s[n - 2]);
                if i < n - 2 {
                    assert(s[i] == s[n - 1]);
                    assert(s[n - 2] == s[i]);
                }
                assert(false);
            }
            let p = r.push(s.last());
            assert forall|a: int, b: int| 0 <= a < p.len() && 0 <= b < p.len() && a != b implies p[a] != p[b] by {
                if a < r.len() && b < r.len() {
                    assert(p[a] == r[a] && p[b] == r[b]);
                } else if a < r.len() {
                    assert(p[a] == r[a]);
                } else {
                    assert(p[b] == r[b]);
                }
            }
        }
    }
}

} // verus!
