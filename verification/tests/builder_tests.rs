use composable_query_builder::{ComposableQueryBuilder, OrderDir, SQLValue};

#[test]
fn or_where_works() {
    let q = ComposableQueryBuilder::new()
        .table("users")
        .or_where("status_id = ?", 1.into())
        .or_where("status_id = ?", 2.into())
        .or_where("status_id = ?", 3.into())
        .into_builder();
    let query = q.sql();

    assert_eq!(
        "select * from users where status_id = $1 or status_id = $2 or status_id = $3",
        query
    );
}

#[test]
fn limit_works() {
    let q = ComposableQueryBuilder::new()
        .table("users")
        .limit(10)
        .into_builder();
    let query = q.sql();

    assert_eq!("select * from users limit $1", query);
}

#[test]
fn limit_opt_works() {
    let q = ComposableQueryBuilder::new()
        .table("users")
        .limit_opt(Some(10))
        .into_builder();
    let query = q.sql();

    assert_eq!("select * from users limit $1", query);

    let q = ComposableQueryBuilder::new()
        .table("users")
        .limit_opt(None)
        .into_builder();
    let query = q.sql();

    assert_eq!("select * from users", query);
}

#[test]
fn offset_works() {
    let q = ComposableQueryBuilder::new()
        .table("users")
        .offset(10)
        .into_builder();
    let query = q.sql();

    assert_eq!("select * from users offset $1", query);
}

#[test]
fn offset_opt_works() {
    let q = ComposableQueryBuilder::new()
        .table("users")
        .offset_opt(Some(10))
        .into_builder();
    let query = q.sql();

    assert_eq!("select * from users offset $1", query);

    let q = ComposableQueryBuilder::new()
        .table("users")
        .offset_opt(None)
        .into_builder();
    let query = q.sql();

    assert_eq!("select * from users", query);
}

#[test]
fn order_by_works() {
    let q = ComposableQueryBuilder::new()
        .table("users")
        .order_by("email", OrderDir::Desc)
        .into_builder();
    let query = q.sql();

    assert_eq!("select * from users order by email desc ", query);

    let q = ComposableQueryBuilder::new()
        .table("users")
        .order_by("email", OrderDir::Asc)
        .into_builder();
    let query = q.sql();

    assert_eq!("select * from users order by email asc ", query);
}

#[test]
fn multi_where_works() {
    let q = ComposableQueryBuilder::new()
        .table("users")
        .multi_where(
            "(orders > ? and orders < ?) or sales > ?",
            vec![10.into(), 100.into(), SQLValue::F64(123.45f64.to_bits())],
        )
        .into_builder();
    let query = q.sql();

    assert_eq!(
        "select * from users where (orders > $1 and orders < $2) or sales > $3",
        query
    );
}
