use nodeget::monitoring::{
    plan_monitoring_query, plan_multi_last_query, static_field_selection, dynamic_field_selection, DynamicDataQueryField,
    QueryCondition, RowFilter, SortOrder, StaticDataQueryField,
};

#[test]
fn static_fields_name_columns_and_keys() {
    assert_eq!(StaticDataQueryField::Cpu.column_name(), "cpu_data");
    assert_eq!(StaticDataQueryField::System.column_name(), "system_data");
    assert_eq!(StaticDataQueryField::Gpu.column_name(), "gpu_data");
    assert_eq!(StaticDataQueryField::Cpu.json_key(), "cpu");
    assert_eq!(StaticDataQueryField::System.json_key(), "system");
    assert_eq!(StaticDataQueryField::Gpu.json_key(), "gpu");
}

#[test]
fn dynamic_fields_name_columns_and_keys() {
    let all = [
        (DynamicDataQueryField::Cpu, "cpu_data", "cpu"),
        (DynamicDataQueryField::Ram, "ram_data", "ram"),
        (DynamicDataQueryField::Load, "load_data", "load"),
        (DynamicDataQueryField::System, "system_data", "system"),
        (DynamicDataQueryField::Disk, "disk_data", "disk"),
        (DynamicDataQueryField::Network, "network_data", "network"),
        (DynamicDataQueryField::Gpu, "gpu_data", "gpu"),
    ];
    for (field, column, key) in all {
        assert_eq!(field.column_name(), column);
        assert_eq!(field.json_key(), key);
    }
}

#[test]
fn every_column_is_its_key_with_data_suffix() {
    for f in [StaticDataQueryField::Cpu, StaticDataQueryField::System, StaticDataQueryField::Gpu] {
        assert_eq!(f.column_name(), format!("{}_data", f.json_key()));
    }
    for f in [
        DynamicDataQueryField::Cpu,
        DynamicDataQueryField::Ram,
        DynamicDataQueryField::Load,
        DynamicDataQueryField::System,
        DynamicDataQueryField::Disk,
        DynamicDataQueryField::Network,
        DynamicDataQueryField::Gpu,
    ] {
        assert_eq!(f.column_name(), format!("{}_data", f.json_key()));
    }
}

#[test]
fn no_conditions_sort_oldest_first_without_limit() {
    let plan = plan_monitoring_query(&vec![]);
    assert!(plan.filters.is_empty());
    assert_eq!(plan.order, SortOrder::Asc);
    assert_eq!(plan.limit, None);
}

#[test]
fn limit_sorts_newest_first_and_last_limit_wins() {
    let plan = plan_monitoring_query(&vec![QueryCondition::Limit(10), QueryCondition::Limit(3)]);
    assert_eq!(plan.order, SortOrder::Desc);
    assert_eq!(plan.limit, Some(3));
}

#[test]
fn last_overrides_limit() {
    let plan = plan_monitoring_query(&vec![QueryCondition::Last, QueryCondition::Limit(50)]);
    assert_eq!(plan.order, SortOrder::Desc);
    assert_eq!(plan.limit, Some(1));
    let only_last = plan_monitoring_query(&vec![QueryCondition::Last]);
    assert_eq!(only_last.order, SortOrder::Desc);
    assert_eq!(only_last.limit, Some(1));
}

#[test]
fn filters_keep_every_row_condition_in_order() {
    let agent = 0xe858_3352_39e8_5a5b_b66c_e450_6890_88fdu128;
    let plan = plan_monitoring_query(&vec![
        QueryCondition::TimestampFrom(100),
        QueryCondition::Limit(2),
        QueryCondition::Uuid(agent),
        QueryCondition::TimestampFromTo(5, 9),
        QueryCondition::TimestampTo(-7),
    ]);
    assert_eq!(plan.filters.len(), 4);
    assert!(matches!(plan.filters[0], RowFilter::TimestampFrom(100)));
    assert!(matches!(plan.filters[1], RowFilter::UuidIs(u) if u == agent));
    assert!(matches!(plan.filters[2], RowFilter::TimestampBetween(5, 9)));
    assert!(matches!(plan.filters[3], RowFilter::TimestampTo(-7)));
    assert_eq!(plan.limit, Some(2));
}

#[test]
fn filters_of_joined_conditions_are_joined() {
    let a = vec![QueryCondition::TimestampFrom(1), QueryCondition::Last];
    let b = vec![QueryCondition::TimestampTo(2)];
    let mut joined = a.clone();
    joined.extend(b.iter().copied());
    let pa = plan_monitoring_query(&a);
    let pb = plan_monitoring_query(&b);
    let pj = plan_monitoring_query(&joined);
    assert_eq!(pj.filters.len(), pa.filters.len() + pb.filters.len());
    assert!(matches!(pj.filters[0], RowFilter::TimestampFrom(1)));
    assert!(matches!(pj.filters[1], RowFilter::TimestampTo(2)));
}

#[test]
fn field_selection_is_exactly_the_named_fields() {
    let sel = static_field_selection(&vec![StaticDataQueryField::Gpu, StaticDataQueryField::Gpu]);
    assert!(!sel.cpu && !sel.system && sel.gpu);
    let none = static_field_selection(&vec![]);
    assert!(!none.cpu && !none.system && !none.gpu);
    let dsel = dynamic_field_selection(&vec![DynamicDataQueryField::Ram, DynamicDataQueryField::Network]);
    assert!(dsel.ram && dsel.network);
    assert!(!dsel.cpu && !dsel.load && !dsel.system && !dsel.disk && !dsel.gpu);
}

#[test]
fn multi_last_query_plans_newest_row_per_agent() {
    let a = 1u128;
    let b = 2u128;
    let plans = plan_multi_last_query(&vec![a, b]);
    assert_eq!(plans.len(), 2);
    for (plan, agent) in plans.iter().zip([a, b]) {
        assert_eq!(plan.filters.len(), 1);
        assert!(matches!(plan.filters[0], RowFilter::UuidIs(u) if u == agent));
        assert_eq!(plan.order, SortOrder::Desc);
        assert_eq!(plan.limit, Some(1));
    }
    assert!(plan_multi_last_query(&vec![]).is_empty());
}
