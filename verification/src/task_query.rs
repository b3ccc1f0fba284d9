//! Queries over the task table: conditions and the plan they turn into.

use vstd::prelude::*;
use vstd::string::*;
use crate::monitoring::{SortOrder, plan_order, plan_limit, order_and_limit};
use crate::text::{signed_bits, cast_signed};

verus! {

/// A condition of a task query.
#[derive(Debug)]
pub enum TaskQueryCondition {
    TaskId(u64),
    Uuid(u128),
    /// `start <= timestamp <= end`.
    TimestampFromTo(i64, i64),
    /// `start <= timestamp`.
    TimestampFrom(i64),
    /// `timestamp <= end`.
    TimestampTo(i64),
    /// Only tasks whose `success` is true.
    IsSuccess,
    /// Only tasks whose `success` is false.
    IsFailure,
    /// Only tasks whose `success` is not set yet.
    IsRunning,
    /// Only tasks whose event type has a field of this name.
    Type(String),
    /// Only tasks that the scheduled job of this name created.
    CronSource(String),
    /// At most this many tasks, the newest first.
    Limit(u64),
    /// Only the newest task.
    Last,
}

/// A query over the task table.
pub struct TaskDataQuery {
    pub condition: Vec<TaskQueryCondition>,
}

/// A filter on the rows of the task table.
#[derive(Debug)]
pub enum TaskRowFilter {
    IdIs(i64),
    UuidIs(u128),
    TimestampBetween(i64, i64),
    TimestampFrom(i64),
    TimestampTo(i64),
    SuccessIs(bool),
    SuccessIsNull,
    /// The JSON event type has a top-level key of this name: PostgreSQL's
    /// `?` operator; elsewhere the keys that the database's JSON functions
    /// list for the top level of the stored object.
    EventTypeHasKey(String),
    /// The task was created by the scheduled job of this name.
    CronSourceIs(String),
}

/// A task row filter as a mathematical value.
pub enum TaskFilterView {
    IdIs(i64),
    UuidIs(u128),
    TimestampBetween(i64, i64),
    TimestampFrom(i64),
    TimestampTo(i64),
    SuccessIs(bool),
    SuccessIsNull,
    EventTypeHasKey(Seq<char>),
    CronSourceIs(Seq<char>),
}

impl View for TaskRowFilter {
    type V = TaskFilterView;

    open spec fn view(&self) -> TaskFilterView {
        match self {
            TaskRowFilter::IdIs(i) => TaskFilterView::IdIs(*i),
            TaskRowFilter::UuidIs(u) => TaskFilterView::UuidIs(*u),
            TaskRowFilter::TimestampBetween(s, e) => TaskFilterView::TimestampBetween(*s, *e),
            TaskRowFilter::TimestampFrom(s) => TaskFilterView::TimestampFrom(*s),
            TaskRowFilter::TimestampTo(e) => TaskFilterView::TimestampTo(*e),
            TaskRowFilter::SuccessIs(b) => TaskFilterView::SuccessIs(*b),
            TaskRowFilter::SuccessIsNull => TaskFilterView::SuccessIsNull,
            TaskRowFilter::EventTypeHasKey(k) => TaskFilterView::EventTypeHasKey(k@),
            TaskRowFilter::CronSourceIs(n) => TaskFilterView::CronSourceIs(n@),
        }
    }
}

/// What a task query asks of the database.
pub struct TaskQueryPlan {
    pub filters: Vec<TaskRowFilter>,
    /// The direction of `ORDER BY id`.
    pub order: SortOrder,
    pub limit: Option<u64>,
}

/// The filter that a task condition stands for, if it stands for one.
pub open spec fn task_condition_filter(c: TaskQueryCondition) -> Option<TaskFilterView> {
    match c {
        TaskQueryCondition::TaskId(id) => Some(TaskFilterView::IdIs(signed_bits(id) as i64)),
        TaskQueryCondition::Uuid(u) => Some(TaskFilterView::UuidIs(u)),
        TaskQueryCondition::TimestampFromTo(s, e) => Some(TaskFilterView::TimestampBetween(s, e)),
        TaskQueryCondition::TimestampFrom(s) => Some(TaskFilterView::TimestampFrom(s)),
        TaskQueryCondition::TimestampTo(e) => Some(TaskFilterView::TimestampTo(e)),
        TaskQueryCondition::IsSuccess => Some(TaskFilterView::SuccessIs(true)),
        TaskQueryCondition::IsFailure => Some(TaskFilterView::SuccessIs(false)),
        TaskQueryCondition::IsRunning => Some(TaskFilterView::SuccessIsNull),
        TaskQueryCondition::Type(k) => Some(TaskFilterView::EventTypeHasKey(k@)),
        TaskQueryCondition::CronSource(n) => Some(TaskFilterView::CronSourceIs(n@)),
        TaskQueryCondition::Limit(_) => None,
        TaskQueryCondition::Last => None,
    }
}

/// The filters of a list of task conditions, in order.
pub open spec fn task_conditions_filters(cs: Seq<TaskQueryCondition>) -> Seq<TaskFilterView>
    decreases cs.len(),
{
    if cs.len() == 0 {
        Seq::empty()
    } else {
        let rest = task_conditions_filters(cs.drop_last());
        match task_condition_filter(cs.last()) {
            Some(f) => rest.push(f),
            None => rest,
        }
    }
}

/// The limit of the last `Limit` condition of a list, if there is one.
pub open spec fn task_conditions_limit(cs: Seq<TaskQueryCondition>) -> Option<u64>
    decreases cs.len(),
{
    if cs.len() == 0 {
        None
    } else {
        match cs.last() {
            TaskQueryCondition::Limit(n) => Some(n),
            _ => task_conditions_limit(cs.drop_last()),
        }
    }
}

/// Whether a list of task conditions holds `Last`.
pub open spec fn task_conditions_want_last(cs: Seq<TaskQueryCondition>) -> bool {
    exists|i: int| 0 <= i < cs.len() && cs[i] is Last
}

/// The views of a list of task filters.
pub open spec fn task_filter_views(fs: Seq<TaskRowFilter>) -> Seq<TaskFilterView> {
    fs.map_values(|f: TaskRowFilter| f@)
}

/// Turns the conditions of a task query into the plan that the database
/// query is built from.
pub fn plan_task_query(conditions: &Vec<TaskQueryCondition>) -> (plan: TaskQueryPlan)
    ensures
        task_filter_views(plan.filters@) == task_conditions_filters(conditions@),
        plan.order == plan_order(task_conditions_limit(conditions@), task_conditions_want_last(conditions@)),
        plan.limit == plan_limit(task_conditions_limit(conditions@), task_conditions_want_last(conditions@)),
{
    let mut filters: Vec<TaskRowFilter> = Vec::new();
    let mut limit_count: Option<u64> = None;
    let mut is_last = false;
    let n = conditions.len();
    let mut i: usize = 0;
    while i < n
        invariant
            n == conditions@.len(),
            i <= n,
            task_filter_views(filters@) == task_conditions_filters(conditions@.take(i as int)),
            limit_count == task_conditions_limit(conditions@.take(i as int)),
            is_last == task_conditions_want_last(conditions@.take(i as int)),
        decreases n - i,
    {
        let c = &conditions[i];
        let ghost prefix = conditions@.take(i as int);
        let ghost next = conditions@.take(i + 1);
        let ghost old_filters = filters@;
        assert(next.drop_last() =~= prefix);
        assert(next.last() == *c);
        match c {
            TaskQueryCondition::TaskId(id) => filters.push(TaskRowFilter::IdIs(cast_signed(*id))),
            TaskQueryCondition::Uuid(u) => filters.push(TaskRowFilter::UuidIs(*u)),
            TaskQueryCondition::TimestampFromTo(s, e) => filters.push(TaskRowFilter::TimestampBetween(*s, *e)),
            TaskQueryCondition::TimestampFrom(s) => filters.push(TaskRowFilter::TimestampFrom(*s)),
            TaskQueryCondition::TimestampTo(e) => filters.push(TaskRowFilter::TimestampTo(*e)),
            TaskQueryCondition::IsSuccess => filters.push(TaskRowFilter::SuccessIs(true)),
            TaskQueryCondition::IsFailure => filters.push(TaskRowFilter::SuccessIs(false)),
            TaskQueryCondition::IsRunning => filters.push(TaskRowFilter::SuccessIsNull),
            TaskQueryCondition::Type(key) => filters.push(TaskRowFilter::EventTypeHasKey(key.clone())),
            TaskQueryCondition::CronSource(name) => filters.push(TaskRowFilter::CronSourceIs(name.clone())),
            TaskQueryCondition::Limit(l) => {
                limit_count = Some(*l);
            },
            TaskQueryCondition::Last => {
                is_last = true;
            },
        }
        proof {
            match task_condition_filter(*c) {
                Some(f) => {
                    assert(filters@ =~= old_filters.push(filters@.last()));
                    assert(task_filter_views(filters@) =~= task_filter_views(old_filters).push(f));
                },
                None => {
                    assert(filters@ =~= old_filters);
                },
            }
            if c is Last {
                assert(next[i as int] is Last);
            } else {
                assert forall|j: int| 0 <= j < next.len() && next[j] is Last implies prefix[j] is Last by {
                    assert(j < i);
                }
            }
            assert(is_last == task_conditions_want_last(next));
        }
        i = i + 1;
    }
    assert(conditions@.take(n as int) =~= conditions@);
    let (order, limit) = order_and_limit(limit_count, is_last);
    TaskQueryPlan { filters, order, limit }
}

/// The filters of two lists of task conditions put together are those of
/// the first list followed by those of the second: every condition of
/// either list restricts the tasks found.
pub proof fn lemma_task_conditions_filters_append(c1: Seq<TaskQueryCondition>, c2: Seq<TaskQueryCondition>)
    ensures
        task_conditions_filters(c1 + c2) == task_conditions_filters(c1)
            + task_conditions_filters(c2),
    decreases c2.len(),
{
    if c2.len() == 0 {
        assert(c1 + c2 =~= c1);
        assert(task_conditions_filters(c1) + task_conditions_filters(c2)
            =~= task_conditions_filters(c1));
    } else {
        lemma_task_conditions_filters_append(c1, c2.drop_last());
        assert((c1 + c2).drop_last() =~= c1 + c2.drop_last());
        assert((c1 + c2).last() == c2.last());
        match task_condition_filter(c2.last()) {
            Some(f) => {
                assert(task_conditions_filters(c1) + task_conditions_filters(c2)
                    =~= (task_conditions_filters(c1) + task_conditions_filters(c2.drop_last())).push(f));
            },
            None => {},
        }
    }
}

/// A row of the task table, as the filters read it.
pub struct TaskRow {
    pub id: i64,
    pub uuid: u128,
    pub timestamp: Option<i64>,
    pub success: Option<bool>,
    /// The top-level keys of the JSON event type.
    pub event_type_keys: Set<Seq<char>>,
    /// The name of the scheduled job that created the task, if one did.
    pub cron_source: Option<Seq<char>>,
}

/// Whether a task row passes a filter. A comparison with a column that is
/// not set fails, as in SQL.
pub open spec fn task_filter_admits(f: TaskFilterView, r: TaskRow) -> bool {
    match f {
        TaskFilterView::IdIs(id) => r.id == id,
        TaskFilterView::UuidIs(u) => r.uuid == u,
        TaskFilterView::TimestampBetween(s, e) => r.timestamp matches Some(t) && s <= t && t <= e,
        TaskFilterView::TimestampFrom(s) => r.timestamp matches Some(t) && s <= t,
        TaskFilterView::TimestampTo(e) => r.timestamp matches Some(t) && t <= e,
        TaskFilterView::SuccessIs(b) => r.success == Some(b),
        TaskFilterView::SuccessIsNull => r.success is None,
        TaskFilterView::EventTypeHasKey(k) => r.event_type_keys.contains(k),
        TaskFilterView::CronSourceIs(n) => r.cron_source == Some(n),
    }
}

/// Whether a task row passes every filter of a list.
pub open spec fn task_filters_admit(fs: Seq<TaskFilterView>, r: TaskRow) -> bool {
    forall|i: int| 0 <= i < fs.len() ==> #[trigger] task_filter_admits(fs[i], r)
}

/// Task conditions combine by `AND`: a task passes the filters of two lists
/// of conditions put together exactly when it passes the filters of each.
pub proof fn lemma_task_conditions_combine_by_and(
    c1: Seq<TaskQueryCondition>,
    c2: Seq<TaskQueryCondition>,
    r: TaskRow,
)
    ensures
        task_filters_admit(task_conditions_filters(c1 + c2), r) <==> (task_filters_admit(
            task_conditions_filters(c1),
            r,
        ) && task_filters_admit(task_conditions_filters(c2), r)),
{
    lemma_task_conditions_filters_append(c1, c2);
    let f1 = task_conditions_filters(c1);
    let f2 = task_conditions_filters(c2);
    let f = f1 + f2;
    if task_filters_admit(f, r) {
        assert forall|i: int| 0 <= i < f1.len() implies #[trigger] task_filter_admits(f1[i], r) by {
            assert(f[i] == f1[i]);
        }
        assert forall|i: int| 0 <= i < f2.len() implies #[trigger] task_filter_admits(f2[i], r) by {
            assert(f[f1.len() + i] == f2[i]);
        }
    }
    if task_filters_admit(f1, r) && task_filters_admit(f2, r) {
        assert forall|i: int| 0 <= i < f.len() implies #[trigger] task_filter_admits(f[i], r) by {
            if i < f1.len() {
                assert(f[i] == f1[i]);
            } else {
                assert(f[i] == f2[i - f1.len()]);
            }
        }
    }
}

/// A task query that holds `Last` returns at most one task, the newest: its
/// limit is one and it sorts by id newest first.
pub proof fn lemma_task_last_yields_newest(cs: Seq<TaskQueryCondition>)
    requires
        task_conditions_want_last(cs),
    ensures
        plan_order(task_conditions_limit(cs), task_conditions_want_last(cs)) == SortOrder::Desc,
        plan_limit(task_conditions_limit(cs), task_conditions_want_last(cs)) == Some(1u64),
{
}

/// Whether a task row meets a condition of a task query, as the task docs
/// read it: each condition names a column and the value it must have, and
/// `Type(k)` asks that the event type have a top-level field `k`. `Limit`
/// and `Last` pick among the rows and let every row through.
pub open spec fn task_condition_admits(c: TaskQueryCondition, r: TaskRow) -> bool {
    match c {
        TaskQueryCondition::TaskId(id) => r.id == signed_bits(id),
        TaskQueryCondition::Uuid(u) => r.uuid == u,
        TaskQueryCondition::TimestampFromTo(s, e) => r.timestamp matches Some(t) && s <= t && t <= e,
        TaskQueryCondition::TimestampFrom(s) => r.timestamp matches Some(t) && s <= t,
        TaskQueryCondition::TimestampTo(e) => r.timestamp matches Some(t) && t <= e,
        TaskQueryCondition::IsSuccess => r.success == Some(true),
        TaskQueryCondition::IsFailure => r.success == Some(false),
        TaskQueryCondition::IsRunning => r.success is None,
        TaskQueryCondition::Type(k) => r.event_type_keys.contains(k@),
        TaskQueryCondition::CronSource(n) => r.cron_source == Some(n@),
        TaskQueryCondition::Limit(_) => true,
        TaskQueryCondition::Last => true,
    }
}

/// A task row passes the filters of a task query exactly when it meets
/// every condition of the query, on every database.
pub proof fn lemma_task_filters_mean_all_conditions(cs: Seq<TaskQueryCondition>, r: TaskRow)
    ensures
        task_filters_admit(task_conditions_filters(cs), r) <==> forall|i: int|
            0 <= i < cs.len() ==> #[trigger] task_condition_admits(cs[i], r),
    decreases cs.len(),
{
    if cs.len() == 0 {
        assert(task_conditions_filters(cs) =~= Seq::<TaskFilterView>::empty());
    } else {
        let init = cs.drop_last();
        let c = cs.last();
        lemma_task_filters_mean_all_conditions(init, r);
        let rest = task_conditions_filters(init);
        let fs = task_conditions_filters(cs);
        assert(task_condition_admits(c, r) <==> match task_condition_filter(c) {
            Some(f) => task_filter_admits(f, r),
            None => true,
        });
        match task_condition_filter(c) {
            Some(f) => {
                assert(fs == rest.push(f));
                if task_filters_admit(fs, r) {
                    assert forall|i: int| 0 <= i < rest.len() implies #[trigger] task_filter_admits(rest[i], r) by {
                        assert(fs[i] == rest[i]);
                    }
                    assert(fs[rest.len() as int] == f);
                    assert forall|i: int| 0 <= i < cs.len() implies #[trigger] task_condition_admits(cs[i], r) by {
                        if i < init.len() {
                            assert(cs[i] == init[i]);
                        }
                    }
                }
                if forall|i: int| 0 <= i < cs.len() ==> #[trigger] task_condition_admits(cs[i], r) {
                    assert forall|i: int| 0 <= i < init.len() implies #[trigger] task_condition_admits(init[i], r) by {
                        assert(init[i] == cs[i]);
                    }
                    assert(task_condition_admits(cs[cs.len() - 1], r));
                    assert forall|i: int| 0 <= i < fs.len() implies #[trigger] task_filter_admits(fs[i], r) by {
                        if i < rest.len() {
                            assert(fs[i] == rest[i]);
                        }
                    }
                }
            },
            None => {
                assert(fs == rest);
                if task_filters_admit(fs, r) {
                    assert forall|i: int| 0 <= i < cs.len() implies #[trigger] task_condition_admits(cs[i], r) by {
                        if i < init.len() {
                            assert(cs[i] == init[i]);
                        }
                    }
                }
                if forall|i: int| 0 <= i < cs.len() ==> #[trigger] task_condition_admits(cs[i], r) {
                    assert forall|i: int| 0 <= i < init.len() implies #[trigger] task_condition_admits(init[i], r) by {
                        assert(init[i] == cs[i]);
                    }
                }
            },
        }
    }
}

} // verus!
