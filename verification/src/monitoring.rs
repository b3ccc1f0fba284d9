//! Monitoring data queries: the fields a caller can ask for, the database
//! columns and JSON keys that stand for them, and the plan that a list of
//! query conditions turns into.

use vstd::prelude::*;

verus! {

/// Static monitoring data that a query can select.
#[derive(Debug, PartialEq, Eq, Structural, Clone, Copy)]
pub enum StaticDataQueryField {
    Cpu,
    System,
    Gpu,
}

/// The JSON key under which a static field is reported.
pub open spec fn static_key(f: StaticDataQueryField) -> Seq<char> {
    match f {
        StaticDataQueryField::Cpu => "cpu"@,
        StaticDataQueryField::System => "system"@,
        StaticDataQueryField::Gpu => "gpu"@,
    }
}

/// The database column that stores a static field.
pub open spec fn static_column(f: StaticDataQueryField) -> Seq<char> {
    match f {
        StaticDataQueryField::Cpu => "cpu_data"@,
        StaticDataQueryField::System => "system_data"@,
        StaticDataQueryField::Gpu => "gpu_data"@,
    }
}

impl StaticDataQueryField {
    /// Name of the database column that holds this field.
    pub fn column_name(&self) -> (res: &'static str)
        ensures
            res@ == static_column(*self),
    {
        match self {
            StaticDataQueryField::Cpu => "cpu_data",
            StaticDataQueryField::System => "system_data",
            StaticDataQueryField::Gpu => "gpu_data",
        }
    }

    /// Key of this field in a JSON response.
    pub fn json_key(&self) -> (res: &'static str)
        ensures
            res@ == static_key(*self),
    {
        match self {
            StaticDataQueryField::Cpu => "cpu",
            StaticDataQueryField::System => "system",
            StaticDataQueryField::Gpu => "gpu",
        }
    }
}

/// Dynamic monitoring data that a query can select.
#[derive(Debug, PartialEq, Eq, Structural, Clone, Copy)]
pub enum DynamicDataQueryField {
    Cpu,
    Ram,
    Load,
    System,
    Disk,
    Network,
    Gpu,
}

/// The JSON key under which a dynamic field is reported.
pub open spec fn dynamic_key(f: DynamicDataQueryField) -> Seq<char> {
    match f {
        DynamicDataQueryField::Cpu => "cpu"@,
        DynamicDataQueryField::Ram => "ram"@,
        DynamicDataQueryField::Load => "load"@,
        DynamicDataQueryField::System => "system"@,
        DynamicDataQueryField::Disk => "disk"@,
        DynamicDataQueryField::Network => "network"@,
        DynamicDataQueryField::Gpu => "gpu"@,
    }
}

/// The database column that stores a dynamic field.
pub open spec fn dynamic_column(f: DynamicDataQueryField) -> Seq<char> {
    match f {
        DynamicDataQueryField::Cpu => "cpu_data"@,
        DynamicDataQueryField::Ram => "ram_data"@,
        DynamicDataQueryField::Load => "load_data"@,
        DynamicDataQueryField::System => "system_data"@,
        DynamicDataQueryField::Disk => "disk_data"@,
        DynamicDataQueryField::Network => "network_data"@,
        DynamicDataQueryField::Gpu => "gpu_data"@,
    }
}

impl DynamicDataQueryField {
    /// Name of the database column that holds this field.
    pub fn column_name(&self) -> (res: &'static str)
        ensures
            res@ == dynamic_column(*self),
    {
        match self {
            DynamicDataQueryField::Cpu => "cpu_data",
            DynamicDataQueryField::Ram => "ram_data",
            DynamicDataQueryField::Load => "load_data",
            DynamicDataQueryField::System => "system_data",
            DynamicDataQueryField::Disk => "disk_data",
            DynamicDataQueryField::Network => "network_data",
            DynamicDataQueryField::Gpu => "gpu_data",
        }
    }

    /// Key of this field in a JSON response.
    pub fn json_key(&self) -> (res: &'static str)
        ensures
            res@ == dynamic_key(*self),
    {
        match self {
            DynamicDataQueryField::Cpu => "cpu",
            DynamicDataQueryField::Ram => "ram",
            DynamicDataQueryField::Load => "load",
            DynamicDataQueryField::System => "system",
            DynamicDataQueryField::Disk => "disk",
            DynamicDataQueryField::Network => "network",
            DynamicDataQueryField::Gpu => "gpu",
        }
    }
}

/// Every static field is stored in the column named by its JSON key
/// followed by `_data`.
pub proof fn lemma_static_column_is_key_with_suffix(f: StaticDataQueryField)
    ensures
        static_column(f) == static_key(f) + "_data"@,
{
    reveal_strlit("_data");
    match f {
        StaticDataQueryField::Cpu => {
            reveal_strlit("cpu");
            reveal_strlit("cpu_data");
            assert(static_column(f) =~= static_key(f) + "_data"@);
        },
        StaticDataQueryField::System => {
            reveal_strlit("system");
            reveal_strlit("system_data");
            assert(static_column(f) =~= static_key(f) + "_data"@);
        },
        StaticDataQueryField::Gpu => {
            reveal_strlit("gpu");
            reveal_strlit("gpu_data");
            assert(static_column(f) =~= static_key(f) + "_data"@);
        },
    }
}

/// Proof that distinct static fields are reported under distinct keys.
pub proof fn lemma_static_keys_distinct(a: StaticDataQueryField, b: StaticDataQueryField)
    requires
        a != b,
    ensures
        static_key(a) != static_key(b),
        static_column(a) != static_column(b),
{
    reveal_strlit("cpu");
    reveal_strlit("system");
    reveal_strlit("gpu");
    reveal_strlit("cpu_data");
    reveal_strlit("system_data");
    reveal_strlit("gpu_data");
    assert(static_key(a)[0] != static_key(b)[0]);
    assert(static_column(a)[0] != static_column(b)[0]);
}

/// Every dynamic field is stored in the column named by its JSON key
/// followed by `_data`.
pub proof fn lemma_dynamic_column_is_key_with_suffix(f: DynamicDataQueryField)
    ensures
        dynamic_column(f) == dynamic_key(f) + "_data"@,
{
    reveal_strlit("_data");
    reveal_strlit("cpu");
    reveal_strlit("cpu_data");
    reveal_strlit("ram");
    reveal_strlit("ram_data");
    reveal_strlit("load");
    reveal_strlit("load_data");
    reveal_strlit("system");
    reveal_strlit("system_data");
    reveal_strlit("disk");
    reveal_strlit("disk_data");
    reveal_strlit("network");
    reveal_strlit("network_data");
    reveal_strlit("gpu");
    reveal_strlit("gpu_data");
    assert(dynamic_column(f) =~= dynamic_key(f) + "_data"@);
}

/// Distinct dynamic fields are reported under distinct keys and stored in
/// distinct columns.
pub proof fn lemma_dynamic_keys_distinct(a: DynamicDataQueryField, b: DynamicDataQueryField)
    requires
        a != b,
    ensures
        dynamic_key(a) != dynamic_key(b),
        dynamic_column(a) != dynamic_column(b),
{
    reveal_strlit("_data");
    reveal_strlit("cpu");
    reveal_strlit("ram");
    reveal_strlit("load");
    reveal_strlit("system");
    reveal_strlit("disk");
    reveal_strlit("network");
    reveal_strlit("gpu");
    lemma_dynamic_column_is_key_with_suffix(a);
    lemma_dynamic_column_is_key_with_suffix(b);
    assert(dynamic_key(a)[0] != dynamic_key(b)[0] || dynamic_key(a).len() != dynamic_key(b).len()
        || dynamic_key(a)[1] != dynamic_key(b)[1]);
    if dynamic_column(a) == dynamic_column(b) {
        assert(dynamic_key(a) =~= dynamic_column(a).take(dynamic_column(a).len() - 5));
        assert(dynamic_key(b) =~= dynamic_column(b).take(dynamic_column(b).len() - 5));
    }
}

/// A filter on the rows of a monitoring table. Agents are named by the
/// 128-bit value of their UUID.
#[derive(Debug, Clone, Copy)]
pub enum RowFilter {
    /// The row belongs to this agent.
    UuidIs(u128),
    /// `start <= timestamp <= end`.
    TimestampBetween(i64, i64),
    /// `start <= timestamp`.
    TimestampFrom(i64),
    /// `timestamp <= end`.
    TimestampTo(i64),
}

/// Whether a row with the given agent and timestamp passes a filter.
pub open spec fn filter_admits(f: RowFilter, row_uuid: u128, row_timestamp: i64) -> bool {
    match f {
        RowFilter::UuidIs(u) => row_uuid == u,
        RowFilter::TimestampBetween(start, end) => start <= row_timestamp && row_timestamp <= end,
        RowFilter::TimestampFrom(start) => start <= row_timestamp,
        RowFilter::TimestampTo(end) => row_timestamp <= end,
    }
}

/// Direction in which rows are sorted by their timestamp.
#[derive(Debug, PartialEq, Eq, Structural, Clone, Copy)]
pub enum SortOrder {
    Asc,
    Desc,
}

/// A condition of a monitoring data query.
#[derive(Debug, Clone, Copy)]
pub enum QueryCondition {
    /// Only rows of this agent.
    Uuid(u128),
    /// Only rows with `start <= timestamp <= end`.
    TimestampFromTo(i64, i64),
    /// Only rows with `start <= timestamp`.
    TimestampFrom(i64),
    /// Only rows with `timestamp <= end`.
    TimestampTo(i64),
    /// At most this many rows, the newest first.
    Limit(u64),
    /// Only the newest row.
    Last,
}

/// A query for static monitoring data.
pub struct StaticDataQuery {
    pub fields: Vec<StaticDataQueryField>,
    pub condition: Vec<QueryCondition>,
}

/// A query for dynamic monitoring data.
pub struct DynamicDataQuery {
    pub fields: Vec<DynamicDataQueryField>,
    pub condition: Vec<QueryCondition>,
}

/// What a list of conditions asks of the database: the row filters, all of
/// which must hold, the direction of `ORDER BY timestamp`, and the row limit.
pub struct QueryPlan {
    pub filters: Vec<RowFilter>,
    pub order: SortOrder,
    pub limit: Option<u64>,
}

/// The row filter that a condition stands for, if it stands for one.
pub open spec fn condition_filter(c: QueryCondition) -> Option<RowFilter> {
    match c {
        QueryCondition::Uuid(u) => Some(RowFilter::UuidIs(u)),
        QueryCondition::TimestampFromTo(s, e) => Some(RowFilter::TimestampBetween(s, e)),
        QueryCondition::TimestampFrom(s) => Some(RowFilter::TimestampFrom(s)),
        QueryCondition::TimestampTo(e) => Some(RowFilter::TimestampTo(e)),
        QueryCondition::Limit(_) => None,
        QueryCondition::Last => None,
    }
}

/// The row filters of a list of conditions, in order.
pub open spec fn conditions_filters(cs: Seq<QueryCondition>) -> Seq<RowFilter>
    decreases cs.len(),
{
    if cs.len() == 0 {
        Seq::empty()
    } else {
        let rest = conditions_filters(cs.drop_last());
        match condition_filter(cs.last()) {
            Some(f) => rest.push(f),
            None => rest,
        }
    }
}

/// The limit of the last `Limit` condition of a list, if there is one.
pub open spec fn conditions_limit(cs: Seq<QueryCondition>) -> Option<u64>
    decreases cs.len(),
{
    if cs.len() == 0 {
        None
    } else {
        match cs.last() {
            QueryCondition::Limit(n) => Some(n),
            _ => conditions_limit(cs.drop_last()),
        }
    }
}

/// Whether a list of conditions holds `Last`.
pub open spec fn conditions_want_last(cs: Seq<QueryCondition>) -> bool {
    exists|i: int| 0 <= i < cs.len() && cs[i] is Last
}

/// The order that a requested limit and `Last` produce: a limit keeps the
/// newest rows and `Last` the newest one, so both sort newest first; without
/// them the rows come oldest first.
pub open spec fn plan_order(limit: Option<u64>, last: bool) -> SortOrder {
    if last || limit is Some { SortOrder::Desc } else { SortOrder::Asc }
}

/// The effective row limit: `Last` overrides any `Limit`.
pub open spec fn plan_limit(limit: Option<u64>, last: bool) -> Option<u64> {
    if last { Some(1) } else { limit }
}

/// The plan that a list of monitoring query conditions stands for.
pub open spec fn spec_query_plan(cs: Seq<QueryCondition>) -> (Seq<RowFilter>, SortOrder, Option<u64>) {
    (
        conditions_filters(cs),
        plan_order(conditions_limit(cs), conditions_want_last(cs)),
        plan_limit(conditions_limit(cs), conditions_want_last(cs)),
    )
}

/// Whether a row passes every filter of a list.
pub open spec fn filters_admit(fs: Seq<RowFilter>, row_uuid: u128, row_timestamp: i64) -> bool {
    forall|i: int| 0 <= i < fs.len() ==> #[trigger] filter_admits(fs[i], row_uuid, row_timestamp)
}

/// The sort order and the row limit that follow from the requested limit
/// and `Last`: `Last` keeps only the newest row, a limit the newest rows.
pub fn order_and_limit(limit_count: Option<u64>, is_last: bool) -> (res: (SortOrder, Option<u64>))
    ensures
        res.0 == plan_order(limit_count, is_last),
        res.1 == plan_limit(limit_count, is_last),
{
    if is_last {
        (SortOrder::Desc, Some(1))
    } else {
        match limit_count {
            Some(l) => (SortOrder::Desc, Some(l)),
            None => (SortOrder::Asc, None),
        }
    }
}

/// Turns the conditions of a monitoring query into the plan that the
/// database query is built from.
pub fn plan_monitoring_query(conditions: &Vec<QueryCondition>) -> (plan: QueryPlan)
    ensures
        (plan.filters@, plan.order, plan.limit) == spec_query_plan(conditions@),
{
    let mut filters: Vec<RowFilter> = Vec::new();
    let mut limit_count: Option<u64> = None;
    let mut is_last = false;
    let n = conditions.len();
    let mut i: usize = 0;
    while i < n
        invariant
            n == conditions@.len(),
            i <= n,
            filters@ == conditions_filters(conditions@.take(i as int)),
            limit_count == conditions_limit(conditions@.take(i as int)),
            is_last == conditions_want_last(conditions@.take(i as int)),
        decreases n - i,
    {
        let c = conditions[i];
        let ghost prefix = conditions@.take(i as int);
        let ghost next = conditions@.take(i + 1);
        assert(next.drop_last() =~= prefix);
        assert(next.last() == c);
        match c {
            QueryCondition::Uuid(u) => filters.push(RowFilter::UuidIs(u)),
            QueryCondition::TimestampFromTo(s, e) => filters.push(RowFilter::TimestampBetween(s, e)),
            QueryCondition::TimestampFrom(s) => filters.push(RowFilter::TimestampFrom(s)),
            QueryCondition::TimestampTo(e) => filters.push(RowFilter::TimestampTo(e)),
            QueryCondition::Limit(l) => {
                limit_count = Some(l);
            },
            QueryCondition::Last => {
                is_last = true;
            },
        }
        proof {
            if c is Last {
                assert(next[i as int] is Last);
            } else {
                assert forall|j: int| 0 <= j < next.len() && next[j] is Last implies prefix[j] is Last by {
                    assert(j < i);
                }
            }
            assert(is_last == conditions_want_last(next));
        }
        i = i + 1;
    }
    assert(conditions@.take(n as int) =~= conditions@);
    let (order, limit) = order_and_limit(limit_count, is_last);
    QueryPlan { filters, order, limit }
}

/// The row filters of two lists of conditions put together are those of the
/// first list followed by those of the second.
pub proof fn lemma_conditions_filters_append(c1: Seq<QueryCondition>, c2: Seq<QueryCondition>)
    ensures
        conditions_filters(c1 + c2) == conditions_filters(c1) + conditions_filters(c2),
    decreases c2.len(),
{
    if c2.len() == 0 {
        assert(c1 + c2 =~= c1);
        assert(conditions_filters(c2) =~= Seq::<RowFilter>::empty());
        assert(conditions_filters(c1) + conditions_filters(c2) =~= conditions_filters(c1));
    } else {
        lemma_conditions_filters_append(c1, c2.drop_last());
        assert((c1 + c2).drop_last() =~= c1 + c2.drop_last());
        assert((c1 + c2).last() == c2.last());
        match condition_filter(c2.last()) {
            Some(f) => {
                assert(conditions_filters(c1) + conditions_filters(c2) =~= (conditions_filters(c1)
                    + conditions_filters(c2.drop_last())).push(f));
            },
            None => {},
        }
    }
}

/// Conditions combine by `AND`: a row passes the filters of two lists of
/// conditions put together exactly when it passes the filters of each list.
pub proof fn lemma_conditions_combine_by_and(
    c1: Seq<QueryCondition>,
    c2: Seq<QueryCondition>,
    row_uuid: u128,
    row_timestamp: i64,
)
    ensures
        filters_admit(conditions_filters(c1 + c2), row_uuid, row_timestamp) <==> (filters_admit(
            conditions_filters(c1),
            row_uuid,
            row_timestamp,
        ) && filters_admit(conditions_filters(c2), row_uuid, row_timestamp)),
{
    lemma_conditions_filters_append(c1, c2);
    let f1 = conditions_filters(c1);
    let f2 = conditions_filters(c2);
    let f = f1 + f2;
    if filters_admit(f, row_uuid, row_timestamp) {
        assert forall|i: int| 0 <= i < f1.len() implies #[trigger] filter_admits(f1[i], row_uuid, row_timestamp) by {
            assert(f[i] == f1[i]);
        }
        assert forall|i: int| 0 <= i < f2.len() implies #[trigger] filter_admits(f2[i], row_uuid, row_timestamp) by {
            assert(f[f1.len() + i] == f2[i]);
        }
    }
    if filters_admit(f1, row_uuid, row_timestamp) && filters_admit(f2, row_uuid, row_timestamp) {
        assert forall|i: int| 0 <= i < f.len() implies #[trigger] filter_admits(f[i], row_uuid, row_timestamp) by {
            if i < f1.len() {
                assert(f[i] == f1[i]);
            } else {
                assert(f[i] == f2[i - f1.len()]);
            }
        }
    }
}

/// A query that holds `Last` returns at most one row, and the newest one:
/// its limit is one and it sorts newest first.
pub proof fn lemma_last_yields_newest_row(cs: Seq<QueryCondition>)
    requires
        conditions_want_last(cs),
    ensures
        spec_query_plan(cs).2 == Some(1u64),
        spec_query_plan(cs).1 == SortOrder::Desc,
{
}

/// The conditions that ask for the newest row of one agent.
pub open spec fn newest_of(agent: u128) -> Seq<QueryCondition> {
    seq![QueryCondition::Uuid(agent), QueryCondition::Last]
}

/// The plans of a query for the newest row of each of several agents: for
/// each agent, the plan of the conditions `Uuid(agent)` and `Last`.
pub fn plan_multi_last_query(uuids: &Vec<u128>) -> (plans: Vec<QueryPlan>)
    ensures
        plans@.len() == uuids@.len(),
        forall|i: int| 0 <= i < uuids@.len() ==> (#[trigger] plans@[i].filters@, plans@[i].order, plans@[i].limit)
            == spec_query_plan(newest_of(uuids@[i])),
{
    let mut plans: Vec<QueryPlan> = Vec::new();
    let n = uuids.len();
    let mut i: usize = 0;
    while i < n
        invariant
            n == uuids@.len(),
            i <= n,
            plans@.len() == i,
            forall|j: int| 0 <= j < i ==> (#[trigger] plans@[j].filters@, plans@[j].order, plans@[j].limit)
                == spec_query_plan(newest_of(uuids@[j])),
        decreases n - i,
    {
        let mut conditions: Vec<QueryCondition> = Vec::new();
        conditions.push(QueryCondition::Uuid(uuids[i]));
        conditions.push(QueryCondition::Last);
        assert(conditions@ =~= newest_of(uuids@[i as int]));
        plans.push(plan_monitoring_query(&conditions));
        i = i + 1;
    }
    plans
}

/// The plan for the newest row of one agent keeps only that agent's rows
/// and returns at most one of them, the newest.
pub proof fn lemma_newest_of_plan(agent: u128)
    ensures
        spec_query_plan(newest_of(agent)).0 == seq![RowFilter::UuidIs(agent)],
        spec_query_plan(newest_of(agent)).1 == SortOrder::Desc,
        spec_query_plan(newest_of(agent)).2 == Some(1u64),
{
    let cs = newest_of(agent);
    assert(cs[1] is Last);
    assert(cs.drop_last().drop_last().len() == 0);
    assert(conditions_filters(cs) =~= seq![RowFilter::UuidIs(agent)]) by {
        reveal_with_fuel(conditions_filters, 3);
    }
    assert(conditions_limit(cs) is None) by {
        reveal_with_fuel(conditions_limit, 3);
    }
}

/// Which fields of a static response item are filled in.
pub struct StaticFieldSelection {
    pub cpu: bool,
    pub system: bool,
    pub gpu: bool,
}

/// Which fields of a dynamic response item are filled in.
pub struct DynamicFieldSelection {
    pub cpu: bool,
    pub ram: bool,
    pub load: bool,
    pub system: bool,
    pub disk: bool,
    pub network: bool,
    pub gpu: bool,
}

/// The response fields that a static query asks for: exactly the fields it
/// names.
pub fn static_field_selection(fields: &Vec<StaticDataQueryField>) -> (sel: StaticFieldSelection)
    ensures
        sel.cpu == fields@.contains(StaticDataQueryField::Cpu),
        sel.system == fields@.contains(StaticDataQueryField::System),
        sel.gpu == fields@.contains(StaticDataQueryField::Gpu),
{
    let mut sel = StaticFieldSelection { cpu: false, system: false, gpu: false };
    let n = fields.len();
    let mut i: usize = 0;
    while i < n
        invariant
            n == fields@.len(),
            i <= n,
            sel.cpu == fields@.take(i as int).contains(StaticDataQueryField::Cpu),
            sel.system == fields@.take(i as int).contains(StaticDataQueryField::System),
            sel.gpu == fields@.take(i as int).contains(StaticDataQueryField::Gpu),
        decreases n - i,
    {
        let f = fields[i];
        match f {
            StaticDataQueryField::Cpu => sel.cpu = true,
            StaticDataQueryField::System => sel.system = true,
            StaticDataQueryField::Gpu => sel.gpu = true,
        }
        proof {
            let prefix = fields@.take(i as int);
            let next = fields@.take(i + 1);
            assert(next =~= prefix.push(f));
            assert(next[i as int] == f);
            assert forall|g: StaticDataQueryField| #[trigger] next.contains(g) == (prefix.contains(g) || g == f) by {
                if next.contains(g) {
                    let j = choose|j: int| 0 <= j < next.len() && next[j] == g;
                    if j < i {
                        assert(prefix[j] == g);
                    }
                }
                if prefix.contains(g) {
                    let j = choose|j: int| 0 <= j < prefix.len() && prefix[j] == g;
                    assert(next[j] == g);
                }
            }
        }
        i = i + 1;
    }
    assert(fields@.take(n as int) =~= fields@);
    sel
}

/// The response fields that a dynamic query asks for: exactly the fields it
/// names.
pub fn dynamic_field_selection(fields: &Vec<DynamicDataQueryField>) -> (sel: DynamicFieldSelection)
    ensures
        sel.cpu == fields@.contains(DynamicDataQueryField::Cpu),
        sel.ram == fields@.contains(DynamicDataQueryField::Ram),
        sel.load == fields@.contains(DynamicDataQueryField::Load),
        sel.system == fields@.contains(DynamicDataQueryField::System),
        sel.disk == fields@.contains(DynamicDataQueryField::Disk),
        sel.network == fields@.contains(DynamicDataQueryField::Network),
        sel.gpu == fields@.contains(DynamicDataQueryField::Gpu),
{
    let mut sel = DynamicFieldSelection {
        cpu: false,
        ram: false,
        load: false,
        system: false,
        disk: false,
        network: false,
        gpu: false,
    };
    let n = fields.len();
    let mut i: usize = 0;
    while i < n
        invariant
            n == fields@.len(),
            i <= n,
            sel.cpu == fields@.take(i as int).contains(DynamicDataQueryField::Cpu),
            sel.ram == fields@.take(i as int).contains(DynamicDataQueryField::Ram),
            sel.load == fields@.take(i as int).contains(DynamicDataQueryField::Load),
            sel.system == fields@.take(i as int).contains(DynamicDataQueryField::System),
            sel.disk == fields@.take(i as int).contains(DynamicDataQueryField::Disk),
            sel.network == fields@.take(i as int).contains(DynamicDataQueryField::Network),
            sel.gpu == fields@.take(i as int).contains(DynamicDataQueryField::Gpu),
        decreases n - i,
    {
        let f = fields[i];
        match f {
            DynamicDataQueryField::Cpu => sel.cpu = true,
            DynamicDataQueryField::Ram => sel.ram = true,
            DynamicDataQueryField::Load => sel.load = true,
            DynamicDataQueryField::System => sel.system = true,
            DynamicDataQueryField::Disk => sel.disk = true,
            DynamicDataQueryField::Network => sel.network = true,
            DynamicDataQueryField::Gpu => sel.gpu = true,
        }
        proof {
            let prefix = fields@.take(i as int);
            let next = fields@.take(i + 1);
            assert(next =~= prefix.push(f));
            assert(next[i as int] == f);
            assert forall|g: DynamicDataQueryField| #[trigger] next.contains(g) == (prefix.contains(g) || g == f) by {
                if next.contains(g) {
                    let j = choose|j: int| 0 <= j < next.len() && next[j] == g;
                    if j < i {
                        assert(prefix[j] == g);
                    }
                }
                if prefix.contains(g) {
                    let j = choose|j: int| 0 <= j < prefix.len() && prefix[j] == g;
                    assert(next[j] == g);
                }
            }
        }
        i = i + 1;
    }
    assert(fields@.take(n as int) =~= fields@);
    sel
}

} // verus!
