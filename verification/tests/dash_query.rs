use lucid_auth::keyed::Keyed;
use lucid_auth::service::dash_query::{
    adapter_condition_operator, equality_filter, list_operator, project, AdminListOperator, DashAdapterCondition,
    DashAdapterOperator,
};

#[test]
fn where_operators_are_read_by_name_with_eq_by_default() {
    assert_eq!(list_operator(None), Some(AdminListOperator::Eq));
    assert_eq!(list_operator(Some("not_in")), Some(AdminListOperator::NotIn));
    assert_eq!(list_operator(Some("starts_with")), Some(AdminListOperator::StartsWith));
    assert_eq!(list_operator(Some("lte")), Some(AdminListOperator::Lte));
    assert_eq!(list_operator(Some("like")), None);
    assert_eq!(adapter_condition_operator(DashAdapterOperator::Contains), AdminListOperator::Contains);
    assert_eq!(adapter_condition_operator(DashAdapterOperator::Gte), AdminListOperator::Gte);
}

fn condition(field: &str, operator: DashAdapterOperator, value: Option<&str>) -> DashAdapterCondition {
    DashAdapterCondition { field: field.to_string(), operator, string_value: value.map(str::to_string) }
}

#[test]
fn models_without_queries_need_an_equality_filter() {
    let conditions = vec![
        condition("userId", DashAdapterOperator::Ne, Some("x")),
        condition("userId", DashAdapterOperator::Eq, Some("u1")),
        condition("userId", DashAdapterOperator::Eq, Some("u2")),
    ];
    assert_eq!(equality_filter(&conditions, "userId").as_deref(), Some("u1"));
    assert_eq!(equality_filter(&conditions, "email"), None);
    let numeric = vec![condition("userId", DashAdapterOperator::Eq, None), condition("userId", DashAdapterOperator::Eq, Some("u3"))];
    assert_eq!(equality_filter(&numeric, "userId"), None);
}

#[test]
fn projection_keeps_the_selected_fields_in_order() {
    let record = vec![
        Keyed { key: "email".to_string(), value: 1 },
        Keyed { key: "id".to_string(), value: 2 },
        Keyed { key: "name".to_string(), value: 3 },
    ];
    let select = vec!["name".to_string(), "id".to_string()];
    let kept: Vec<(String, i32)> = project(record, Some(&select)).into_iter().map(|f| (f.key, f.value)).collect();
    assert_eq!(kept, vec![("id".to_string(), 2), ("name".to_string(), 3)]);
    let all = project(vec![Keyed { key: "a".to_string(), value: 0 }], None);
    assert_eq!(all.len(), 1);
}
