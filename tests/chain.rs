use ddb::repository::{sheet_insert, sheet_meta_data_insert};
use ddb::{
    build_delete_clause, ChainAction, ChainEvent, ChainRun, SqlError, SqlMultipleParameters,
    SqlSingleParameters, SqlValue,
};

fn step(sql: &str, params: Option<SqlSingleParameters>, publish: Option<&str>) -> ChainEvent {
    ChainEvent::StepReturned(Ok((sql.to_string(), params, publish.map(|p| p.to_string()))))
}

#[test]
fn insert_then_delete_with_published_key_commits() {
    let (mut run, action) = ChainRun::open(SqlSingleParameters::new(), 2);
    assert!(matches!(action, ChainAction::InvokeStep(0)));

    let insert = "INSERT INTO uploader.COLUMN_TYPE (SqlType, ViewType) OUTPUT INSERTED.pk VALUES ('a', 'b')";
    let action = run.handle(step(insert, None, Some("pk")));
    match action {
        ChainAction::ReadIdentity(q) => assert_eq!(q.text, insert),
        other => panic!("unexpected {other:?}"),
    }
    let action = run.handle(ChainEvent::IdentityReturned(Some(41)));
    assert!(matches!(action, ChainAction::InvokeStep(1)));
    assert_eq!(run.globals().get("pk"), Some(&SqlValue::Int(41)));

    let mut filter = SqlSingleParameters::new();
    filter.insert("pk".to_string(), run.globals().get("pk").unwrap().duplicate());
    let mut again = SqlSingleParameters::new();
    again.insert("pk".to_string(), SqlValue::Int(41));
    let delete = build_delete_clause("COLUMN_TYPE", Some(again));
    let action = run.handle(step(&delete, Some(filter), None));
    match action {
        ChainAction::Execute(q) => assert_eq!(q.text, "DELETE FROM uploader.[COLUMN_TYPE] WHERE [pk] = 41"),
        other => panic!("unexpected {other:?}"),
    }
    let action = run.handle(ChainEvent::RowsAffected(vec![1]));
    assert!(matches!(action, ChainAction::Commit));
    let action = run.handle(ChainEvent::Finished);
    match action {
        ChainAction::Finish(Ok(counts)) => assert_eq!(counts, vec![1]),
        other => panic!("unexpected {other:?}"),
    }
}

#[test]
fn failing_third_step_rolls_everything_back() {
    let (mut run, action) = ChainRun::open(SqlSingleParameters::new(), 4);
    assert!(matches!(action, ChainAction::InvokeStep(0)));
    let mut actions = Vec::new();
    let a = run.handle(step("INSERT INTO t VALUES (1)", None, None));
    assert!(matches!(a, ChainAction::Execute(_)));
    actions.push(run.handle(ChainEvent::RowsAffected(vec![1])));
    let a = run.handle(step("INSERT INTO t VALUES (2)", None, None));
    assert!(matches!(a, ChainAction::Execute(_)));
    actions.push(run.handle(ChainEvent::RowsAffected(vec![1])));
    let a = run.handle(step("||ERROR||", None, None));
    assert!(matches!(a, ChainAction::Execute(_)));
    let a = run.handle(ChainEvent::DriverFailed("Incorrect syntax near '|'".to_string()));
    assert!(matches!(a, ChainAction::Rollback));
    assert!(actions.iter().all(|a| !matches!(a, ChainAction::Commit)));
    let a = run.handle(ChainEvent::Finished);
    match a {
        ChainAction::Finish(Err(SqlError::DriverError(m))) => assert_eq!(m, "Incorrect syntax near '|'"),
        other => panic!("unexpected {other:?}"),
    }
}

#[test]
fn missing_identity_rolls_back() {
    let (mut run, _) = ChainRun::open(SqlSingleParameters::new(), 1);
    let a = run.handle(step("INSERT INTO t OUTPUT INSERTED.pk VALUES (1)", None, Some("pk")));
    assert!(matches!(a, ChainAction::ReadIdentity(_)));
    let a = run.handle(ChainEvent::IdentityReturned(None));
    assert!(matches!(a, ChainAction::Rollback));
    let a = run.handle(ChainEvent::DriverFailed("rollback failed".to_string()));
    assert!(matches!(a, ChainAction::Finish(Err(SqlError::NoRowsReturned))));
}

#[test]
fn failing_step_or_resolution_rolls_back() {
    let (mut run, _) = ChainRun::open(SqlSingleParameters::new(), 2);
    let a = run.handle(step("SELECT @_nope", Some(SqlSingleParameters::new()), None));
    assert!(matches!(a, ChainAction::Rollback));
    assert!(run.accepts(&ChainEvent::Finished));
    assert!(!run.accepts(&ChainEvent::RowsAffected(vec![])));
    let a = run.handle(ChainEvent::Finished);
    assert!(matches!(a, ChainAction::Finish(Err(SqlError::MissingParameter(t))) if t == "@_nope"));

    let (mut run, _) = ChainRun::open(SqlSingleParameters::new(), 1);
    let a = run.handle(ChainEvent::StepReturned(Err(SqlError::NoRowsReturned)));
    assert!(matches!(a, ChainAction::Rollback));
}

#[test]
fn empty_chain_commits_at_once() {
    let (mut run, a) = ChainRun::open(SqlSingleParameters::new(), 0);
    assert!(matches!(a, ChainAction::Commit));
    let a = run.handle(ChainEvent::Finished);
    assert!(matches!(a, ChainAction::Finish(Ok(c)) if c.is_empty()));
}

#[test]
fn sheet_steps_chain_their_keys() {
    let mut sheets = SqlMultipleParameters::new();
    sheets.add_line(vec![("Description", SqlValue::Str("d".to_string()))]).unwrap();
    let glob = SqlSingleParameters::new();
    let (sql, params, publish) = sheet_insert(Some(sheets), None, &glob).unwrap();
    assert_eq!(sql, "INSERT INTO uploader.[SHEET] (Description) VALUES (@_Description_0);");
    assert_eq!(params.unwrap().get("Description_0"), Some(&SqlValue::Str("d".to_string())));
    assert_eq!(publish, Some("pk".to_string()));

    let mut cols = SqlMultipleParameters::new();
    cols.add_line(vec![("ColumnName", SqlValue::Str("c".to_string()))]).unwrap();
    let r = sheet_meta_data_insert(Some(cols), None, &glob);
    assert!(matches!(r, Err(SqlError::MissingParameter(t)) if t == "pk"));

    let mut glob = SqlSingleParameters::new();
    glob.insert("pk".to_string(), SqlValue::Int(5));
    let mut cols = SqlMultipleParameters::new();
    cols.add_line(vec![("ColumnName", SqlValue::Str("c".to_string()))]).unwrap();
    let (sql, params, publish) = sheet_meta_data_insert(Some(cols), None, &glob).unwrap();
    assert_eq!(sql, "INSERT INTO uploader.[SHEET_META_DATA] (ColumnName, Sheet_fk) VALUES (@_ColumnName_0, @_Sheet_fk_0);");
    assert_eq!(params.unwrap().get("Sheet_fk_0"), Some(&SqlValue::Int(5)));
    assert_eq!(publish, None);
    assert!(sheet_insert(None, None, &glob).is_err());
}
