use composable_query_builder::statement::{render, PositionalStatement};
use composable_query_builder::{ComposableQueryBuilder, SQLValue};
use itertools::{EitherOrBoth, Itertools};
use sqlx::{Postgres, QueryBuilder};

fn bind(value: &SQLValue, qb: &mut QueryBuilder<Postgres>) {
    match value {
        SQLValue::I16(v) => qb.push_bind(*v),
        SQLValue::I32(v) => qb.push_bind(*v),
        SQLValue::I64(v) => qb.push_bind(*v),
        SQLValue::U64(v) => qb.push_bind(*v as i64),
        SQLValue::F64(bits) => qb.push_bind(f64::from_bits(*bits)),
        SQLValue::DateTime(v) => qb.push_bind(*v),
        SQLValue::VecI64(v) => qb.push_bind(v.clone()),
        SQLValue::String(v) => qb.push_bind(v.clone()),
        SQLValue::Bool(v) => qb.push_bind(*v),
    };
}

fn driver_sql(template: &str, values: &[SQLValue]) -> String {
    let mut qb: QueryBuilder<Postgres> = QueryBuilder::new("");
    for pair in template.split('?').zip_longest(values.iter()) {
        match pair {
            EitherOrBoth::Both(part, v) => {
                qb.push(part);
                bind(v, &mut qb);
            }
            EitherOrBoth::Left(part) => {
                qb.push(part);
            }
            EitherOrBoth::Right(v) => {
                bind(v, &mut qb);
            }
        }
    }
    qb.sql().as_str().to_string()
}

#[test]
fn tokens_are_those_of_the_driver() {
    let mut qb: QueryBuilder<Postgres> = QueryBuilder::new("");
    let mut stmt = PositionalStatement::new();
    for i in 0..120 {
        qb.push(" c = ");
        qb.push_bind(i as i32);
        stmt.push(" c = ");
        stmt.push_bind(SQLValue::I32(i));
    }
    assert_eq!(qb.sql().as_str(), stmt.sql());
    assert!(stmt.sql().ends_with(" c = $119 c = $120"));
}

#[test]
fn rendering_agrees_with_the_driver() {
    let when = chrono::NaiveDate::from_ymd_opt(2024, 5, 6)
        .unwrap()
        .and_hms_opt(7, 8, 9)
        .unwrap();
    let values = vec![
        SQLValue::I16(1),
        SQLValue::I32(2),
        SQLValue::I64(3),
        SQLValue::U64(u64::MAX),
        SQLValue::F64(2.5f64.to_bits()),
        SQLValue::DateTime(when),
        SQLValue::VecI64(vec![1, 2, 3]),
        SQLValue::String("text".to_string()),
        SQLValue::Bool(true),
    ];
    let templates = [
        "a = ? and b = ? and c = ? and d = ? and e = ? and f = ? and g = any(?) and h = ? and i = ?",
        "too few markers: ? ?",
        "",
        "?????????????",
        "no marker at all",
    ];
    for template in templates.iter() {
        let stmt = render(template, values.clone());
        assert_eq!(driver_sql(template, &values), stmt.sql());
        assert_eq!(values.len(), stmt.binds().len());
    }
}

#[test]
fn builder_agrees_with_the_driver() {
    let child = ComposableQueryBuilder::new()
        .table("orders")
        .where_clause("total > ?", 100i64.into())
        .limit(5);
    let builder = ComposableQueryBuilder::new()
        .complex_table("(?) as o join (?) as p", vec![child.clone(), child])
        .or_where("o.id = ?", 1.into())
        .multi_where("p.id in (?, ?)", vec![2.into(), 3.into()])
        .limit(10)
        .offset(20);
    let (template, values) = builder.clone().parts();
    let stmt = builder.into_builder();
    assert_eq!(driver_sql(&template, &values), stmt.sql());
    assert_eq!(
        "select * from (select * from orders where total > $1 limit $2) as o join (select * from orders where total > $3 limit $4) as p where o.id = $5p.id in ($6, $7) limit $8 offset $9",
        stmt.sql()
    );
}
