use composable_query_builder::statement::{render, PositionalStatement};
use composable_query_builder::{ComposableQueryBuilder, SQLValue};

fn shown(values: &[SQLValue]) -> String {
    format!("{:?}", values)
}

#[test]
fn where_clauses_render_with_positions() {
    let q = ComposableQueryBuilder::new()
        .table("users")
        .where_clause("id = ?", 1.into())
        .where_clause("status_id = ?", 2.into())
        .into_builder();
    assert_eq!(
        "select * from users where id = $1 and status_id = $2",
        q.sql()
    );
    assert_eq!("[I32(1), I32(2)]", shown(q.binds()));
}

#[test]
fn limit_is_bound_as_a_signed_integer() {
    let q = ComposableQueryBuilder::new()
        .table("users")
        .where_clause("id > ?", 5.into())
        .limit(10)
        .into_builder();
    assert_eq!("select * from users where id > $1 limit $2", q.sql());
    assert_eq!("[I32(5), I64(10)]", shown(q.binds()));
}

#[test]
fn limit_and_offset_each_have_a_position() {
    let q = ComposableQueryBuilder::new()
        .table("users")
        .limit(10)
        .offset(20)
        .into_builder();
    assert_eq!("select * from users limit $1 offset $2", q.sql());
    assert_eq!("[I64(10), I64(20)]", shown(q.binds()));
}

#[test]
fn large_unsigned_value_wraps_when_bound() {
    let q = ComposableQueryBuilder::new()
        .table("users")
        .limit(u64::MAX)
        .offset(1u64 << 63)
        .into_builder();
    assert_eq!(
        format!("[I64(-1), I64({})]", i64::MIN),
        shown(q.binds())
    );
}

#[test]
fn nested_statement_renders_positions_in_order() {
    let child = ComposableQueryBuilder::new()
        .table("orders")
        .where_clause("total > ?", 100i64.into());
    let q = ComposableQueryBuilder::new()
        .complex_table("(?) as o", vec![child])
        .where_clause("o.user_id = ?", 7.into())
        .limit(3)
        .into_builder();
    assert_eq!(
        "select * from (select * from orders where total > $1) as o where o.user_id = $2 limit $3",
        q.sql()
    );
    assert_eq!("[I64(100), I32(7), I64(3)]", shown(q.binds()));
}

#[test]
fn one_token_for_each_value() {
    let mut builder = ComposableQueryBuilder::new().table("t");
    for i in 0..12 {
        builder = builder.where_clause("c = ?", SQLValue::I32(i));
    }
    let (_, values) = builder.clone().parts();
    let stmt = builder.into_builder();
    assert_eq!(12, values.len());
    assert_eq!(values.len(), stmt.binds().len());
    let mut expected = String::from("select * from t where ");
    for i in 1..=12 {
        if i > 1 {
            expected.push_str(" and ");
        }
        expected.push_str(&format!("c = ${}", i));
    }
    assert_eq!(expected, stmt.sql());
    assert!(stmt.sql().ends_with("c = $9 and c = $10 and c = $11 and c = $12"));
}

#[test]
fn render_with_more_markers_than_values() {
    let stmt = render("a ? b ? c", vec![SQLValue::I32(1)]);
    assert_eq!("a $1 b  c", stmt.sql());
    assert_eq!("[I32(1)]", shown(stmt.binds()));
}

#[test]
fn render_with_more_values_than_markers() {
    let stmt = render("a ? b", vec![1.into(), 2.into(), 3.into()]);
    assert_eq!("a $1 b$2$3", stmt.sql());
    assert_eq!("[I32(1), I32(2), I32(3)]", shown(stmt.binds()));
}

#[test]
fn render_without_markers_or_values() {
    let stmt = render("select 1", vec![]);
    assert_eq!("select 1", stmt.sql());
    assert!(stmt.binds().is_empty());
}

#[test]
fn render_of_empty_template() {
    let stmt = render("", vec![]);
    assert_eq!("", stmt.sql());
    let stmt = render("", vec![true.into()]);
    assert_eq!("$1", stmt.sql());
}

#[test]
fn render_keeps_text_beyond_ascii() {
    let stmt = render("naïve = ? and “x” = ?", vec![1.into(), 2.into()]);
    assert_eq!("naïve = $1 and “x” = $2", stmt.sql());
}

#[test]
fn statement_grows_by_text_and_binds() {
    let mut stmt = PositionalStatement::new();
    assert_eq!("", stmt.sql());
    assert!(stmt.binds().is_empty());
    stmt.push("select * from t where a = ");
    stmt.push_bind(SQLValue::U64(9));
    stmt.push(" and b = ");
    SQLValue::Bool(false).push_bind(&mut stmt);
    assert_eq!("select * from t where a = $1 and b = $2", stmt.sql());
    assert_eq!("[I64(9), Bool(false)]", shown(stmt.binds()));
    let (sql, binds) = stmt.into_parts();
    assert_eq!("select * from t where a = $1 and b = $2", sql);
    assert_eq!(2, binds.len());
}
