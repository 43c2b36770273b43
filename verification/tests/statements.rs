use htap_sql::ast::{
    AnalyticExpr, AnalyticSelect, BoundStatement, CreateTable, DeleteByPrimaryKey, Insert,
    PointSelect,
};
use htap_sql::catalog::Schema;
use htap_sql::value::{ColumnDef, DataType, Row, Value};

#[test]
fn test_bound_statement_conversions() {
    let schema = Schema::new(vec![ColumnDef {
        name: "id".into(),
        data_type: DataType::Int64,
        nullable: false,
        primary_key: true,
    }])
    .unwrap();

    let create = CreateTable::new("users", schema.clone(), vec![0]);
    let bound_create: BoundStatement = create.clone().into();
    assert_eq!(bound_create, BoundStatement::CreateTable(create));

    let insert = Insert::new("users", vec![Row::new(vec![Value::Int64(1)])]);
    let bound_insert: BoundStatement = insert.clone().into();
    assert_eq!(bound_insert, BoundStatement::Insert(insert));

    let delete = DeleteByPrimaryKey::new("users", vec![Value::Int64(1)]);
    let bound_delete: BoundStatement = delete.clone().into();
    assert_eq!(bound_delete, BoundStatement::Delete(delete));

    let select = PointSelect::new("users", vec![0], vec![Value::Int64(1)]);
    let bound_select: BoundStatement = select.clone().into();
    assert_eq!(bound_select, BoundStatement::Select(select));

    let analytic = AnalyticSelect::new(
        "users",
        vec![AnalyticExpr::Column {
            index: 0,
            name: "id".into(),
            data_type: DataType::Int64,
            nullable: false,
        }],
        None,
        vec![],
        vec![],
        schema,
    );
    let bound_analytic: BoundStatement = analytic.clone().into();
    assert_eq!(bound_analytic, BoundStatement::AnalyticSelect(analytic));
}
