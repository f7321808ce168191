use composable_query_builder::{ComposableQueryBuilder, OrderDir, SQLValue};

fn shown(values: &[SQLValue]) -> String {
    format!("{:?}", values)
}

#[test]
fn table_only_assembles_to_select_star() {
    let (text, values) = ComposableQueryBuilder::new().table("users").parts();
    assert_eq!("select * from users", text);
    assert!(values.is_empty());
}

#[test]
fn new_builder_has_an_empty_table_name() {
    let (text, values) = ComposableQueryBuilder::new().parts();
    assert_eq!("select * from ", text);
    assert!(values.is_empty());
}

#[test]
fn two_where_clauses_are_joined_by_and() {
    let (text, values) = ComposableQueryBuilder::new()
        .table("users")
        .where_clause("id = ?", 1.into())
        .where_clause("status_id = ?", 2.into())
        .parts();
    assert_eq!("select * from users where id = ? and status_id = ?", text);
    assert_eq!("[I32(1), I32(2)]", shown(&values));
}

#[test]
fn joiner_belongs_to_the_earlier_condition() {
    let (text, values) = ComposableQueryBuilder::new()
        .table("t")
        .where_clause("a = ?", 1.into())
        .or_where("b = ?", 2.into())
        .where_clause("c = ?", 3.into())
        .parts();
    assert_eq!("select * from t where a = ? and b = ? or c = ?", text);
    assert_eq!("[I32(1), I32(2), I32(3)]", shown(&values));
}

#[test]
fn last_joiner_is_not_written() {
    let (text, _) = ComposableQueryBuilder::new()
        .table("t")
        .or_where("a = ?", 1.into())
        .parts();
    assert_eq!("select * from t where a = ?", text);
}

#[test]
fn multi_where_values_come_after_single_values() {
    let (text, values) = ComposableQueryBuilder::new()
        .table("users")
        .multi_where(
            "(a > ? and a < ?) or b > ?",
            vec![10.into(), 100.into(), SQLValue::F64(123.45f64.to_bits())],
        )
        .where_clause("id = ?", 7i64.into())
        .parts();
    assert_eq!(
        "select * from users where id = ?(a > ? and a < ?) or b > ?",
        text
    );
    assert_eq!(4, values.len());
    assert!(matches!(values[0], SQLValue::I64(7)));
    assert!(matches!(values[1], SQLValue::I32(10)));
    assert!(matches!(values[2], SQLValue::I32(100)));
    match values[3] {
        SQLValue::F64(bits) => assert_eq!(123.45f64, f64::from_bits(bits)),
        _ => panic!("the last value is the float"),
    }
}

#[test]
fn multi_where_order_does_not_depend_on_call_order() {
    let first = ComposableQueryBuilder::new()
        .table("users")
        .multi_where("a in (?, ?)", vec![1.into(), 2.into()])
        .or_where("b = ?", 3.into())
        .parts();
    let second = ComposableQueryBuilder::new()
        .table("users")
        .or_where("b = ?", 3.into())
        .multi_where("a in (?, ?)", vec![1.into(), 2.into()])
        .parts();
    assert_eq!(first.0, second.0);
    assert_eq!("[I32(3), I32(1), I32(2)]", shown(&first.1));
    assert_eq!(shown(&first.1), shown(&second.1));
}

#[test]
fn multi_conditions_are_joined_by_and() {
    let (text, values) = ComposableQueryBuilder::new()
        .table("t")
        .multi_where("a between ? and ?", vec![1.into(), 2.into()])
        .multi_where("b between ? and ?", vec![3.into(), 4.into()])
        .multi_where("c = ?", vec![5.into()])
        .parts();
    assert_eq!(
        "select * from t where a between ? and ? and b between ? and ? and c = ?",
        text
    );
    assert_eq!("[I32(1), I32(2), I32(3), I32(4), I32(5)]", shown(&values));
}

#[test]
fn complex_table_splices_the_child() {
    let child = ComposableQueryBuilder::new().table("t").select("1");
    let (text, values) = ComposableQueryBuilder::new()
        .complex_table("(?) as u", vec![child])
        .parts();
    assert_eq!("select * from (select 1 from t) as u", text);
    assert!(values.is_empty());
}

#[test]
fn complex_table_with_more_markers_than_children() {
    let child = ComposableQueryBuilder::new().table("t");
    let (text, _) = ComposableQueryBuilder::new()
        .complex_table("a ? b ? c", vec![child])
        .parts();
    assert_eq!("select * from a select * from t b  c", text);
}

#[test]
fn complex_table_with_more_children_than_markers() {
    let one = ComposableQueryBuilder::new()
        .table("t1")
        .where_clause("a = ?", 1.into());
    let two = ComposableQueryBuilder::new()
        .table("t2")
        .where_clause("b = ?", 2.into());
    let three = ComposableQueryBuilder::new()
        .table("t3")
        .where_clause("c = ?", 3.into());
    let (text, values) = ComposableQueryBuilder::new()
        .complex_table("x ? y", vec![one, two, three])
        .parts();
    assert_eq!(
        "select * from x select * from t1 where a = ? yselect * from t2 where b = ?select * from t3 where c = ?",
        text
    );
    assert_eq!("[I32(1), I32(2), I32(3)]", shown(&values));
}

#[test]
fn complex_table_without_children_drops_the_markers() {
    let (text, values) = ComposableQueryBuilder::new()
        .complex_table("a?b?c", vec![])
        .parts();
    assert_eq!("select * from abc", text);
    assert!(values.is_empty());
}

#[test]
fn table_replaces_a_complex_table() {
    let child = ComposableQueryBuilder::new().table("t");
    let (text, _) = ComposableQueryBuilder::new()
        .complex_table("(?) as u", vec![child])
        .table("users")
        .parts();
    assert_eq!("select * from users", text);
}

#[test]
fn three_levels_give_values_depth_first() {
    let c = ComposableQueryBuilder::new()
        .table("c")
        .where_clause("x = ?", 1.into());
    let b = ComposableQueryBuilder::new()
        .complex_table("(?) as cc", vec![c])
        .where_clause("y = ?", 2.into());
    let d = ComposableQueryBuilder::new()
        .table("d")
        .where_clause("z = ?", 3.into());
    let (text, values) = ComposableQueryBuilder::new()
        .complex_table("(?) as b join (?) as d", vec![b, d])
        .where_clause("w = ?", 4.into())
        .limit(5)
        .parts();
    assert_eq!(
        "select * from (select * from (select * from c where x = ?) as cc where y = ?) as b join (select * from d where z = ?) as d where w = ? limit ?",
        text
    );
    assert_eq!("[I32(1), I32(2), I32(3), I32(4), U64(5)]", shown(&values));
}

#[test]
fn select_columns_are_joined_by_commas() {
    let (text, _) = ComposableQueryBuilder::new()
        .table("users")
        .select("id")
        .select_many(vec!["name".to_string(), "email".to_string()])
        .parts();
    assert_eq!("select id, name, email from users", text);
}

#[test]
fn group_by_columns_are_joined_by_commas() {
    let (text, _) = ComposableQueryBuilder::new()
        .table("users")
        .group_by("a")
        .group_by_many(vec!["b".to_string(), "c".to_string()])
        .parts();
    assert_eq!("select * from users group by a, b, c", text);
}

#[test]
fn join_is_appended_behind_a_space() {
    let (text, _) = ComposableQueryBuilder::new()
        .table("users")
        .join("left join subscriptions on subscriptions.user_id = users.id")
        .join("join plans on plans.id = subscriptions.plan_id")
        .parts();
    assert_eq!(
        "select * from users left join subscriptions on subscriptions.user_id = users.id join plans on plans.id = subscriptions.plan_id",
        text
    );
}

#[test]
fn every_clause_in_its_place() {
    let (text, values) = ComposableQueryBuilder::new()
        .offset(20)
        .limit(10)
        .order_by("id", OrderDir::Asc)
        .group_by("id")
        .where_clause("a = ?", true.into())
        .join("join x on x.id = users.id")
        .select("id")
        .table("users")
        .parts();
    assert_eq!(
        "select id from users join x on x.id = users.id where a = ? group by id order by id asc  limit ? offset ?",
        text
    );
    assert_eq!("[Bool(true), U64(10), U64(20)]", shown(&values));
}

#[test]
fn later_order_by_replaces_the_earlier() {
    let (text, _) = ComposableQueryBuilder::new()
        .table("users")
        .order_by("id", OrderDir::Asc)
        .order_by("email", OrderDir::Desc)
        .parts();
    assert_eq!("select * from users order by email desc ", text);
}

#[test]
fn limit_opt_none_takes_the_limit_away() {
    let (text, values) = ComposableQueryBuilder::new()
        .table("users")
        .limit(3)
        .offset(4)
        .limit_opt(None)
        .offset_opt(None)
        .parts();
    assert_eq!("select * from users", text);
    assert!(values.is_empty());
}

#[test]
fn where_if_false_does_not_call_the_producer() {
    let calls = std::cell::Cell::new(0);
    let (text, values) = ComposableQueryBuilder::new()
        .table("users")
        .where_if(false, || {
            calls.set(calls.get() + 1);
            ("id = ?".to_string(), SQLValue::I32(1))
        })
        .parts();
    assert_eq!(0, calls.get());
    assert_eq!("select * from users", text);
    assert!(values.is_empty());
}

#[test]
fn where_if_true_adds_an_and_condition() {
    let calls = std::cell::Cell::new(0);
    let (text, values) = ComposableQueryBuilder::new()
        .table("users")
        .where_if(true, || {
            calls.set(calls.get() + 1);
            ("id = ?".to_string(), SQLValue::I32(1))
        })
        .where_clause("b = ?", 2.into())
        .parts();
    assert_eq!(1, calls.get());
    assert_eq!("select * from users where id = ? and b = ?", text);
    assert_eq!("[I32(1), I32(2)]", shown(&values));
}

#[test]
fn assembling_a_copy_gives_the_same_output() {
    let child = ComposableQueryBuilder::new()
        .table("t")
        .where_clause("a = ?", "x".to_string().into())
        .multi_where("b in (?, ?)", vec![1i16.into(), vec![1i64, 2].into()]);
    let builder = ComposableQueryBuilder::new()
        .complex_table("(?) as u", vec![child])
        .select("a")
        .join("join v on v.a = u.a")
        .group_by("a")
        .order_by("a", OrderDir::Desc)
        .limit(1)
        .offset(2);
    let copy = builder.clone();
    let first = builder.parts();
    let second = copy.parts();
    assert_eq!(first.0, second.0);
    assert_eq!(shown(&first.1), shown(&second.1));
    assert_eq!(
        "select a from (select * from t where a = ?b in (?, ?)) as u join v on v.a = u.a group by a order by a desc  limit ? offset ?",
        first.0
    );
    assert_eq!(
        "[String(\"x\"), I16(1), VecI64([1, 2]), U64(1), U64(2)]",
        shown(&first.1)
    );
}
