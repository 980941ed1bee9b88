use ddb::model::{NewSheetMetaDataRequest, NewSheetRequest};
use ddb::tables::{
    Board, ColumnType, CustomSqlScript, DBLoad, Group, HistGroup, HistSheet, HistSheetMetaData,
    HistUploaderPermission, ManagerPermission, Profile, ProfileGroups, Sheet, SheetMetaData, SheetUsedByBoard,
    Upload, UploaderPermission, Worker,
};
use ddb::{SqlDate, SqlDateTime, SqlTime};

fn moment() -> SqlDateTime {
    SqlDateTime::new(SqlDate::new(2025, 1, 2).unwrap(), SqlTime::new(3, 4, 5, 0).unwrap())
}

#[test]
fn rows_keep_their_fields() {
    let c = ColumnType::new(1, "INT", "Number");
    assert_eq!(c, ColumnType::db_new(1, "INT".to_string(), "Number".to_string()));
    assert_eq!(c.sql_type, "INT");
    let b = Board::db_new(2, "b".to_string(), true);
    assert_eq!((b.pk, b.name.as_str(), b.active), (2, "b", true));
    let g = Group::db_new(3, "g", false, 2, 9);
    assert_eq!(g.name, "g");
    let w = Worker::db_new(4, "Ann", "L1", "a@b.c");
    assert_eq!((w.name.as_str(), w.linde_id.as_str(), w.email.as_str()), ("Ann", "L1", "a@b.c"));
    let h = HistGroup::db_new(
        3, Some("g"), None, Some(true), None, None, None, None, None, None, None, 4, moment(), "edit", Some(false),
    );
    assert_eq!(h.name, Some("g".to_string()));
    assert_eq!(h.edit_action, "edit");
    let m = HistSheetMetaData::db_new(1, Some(2), Some("c"), None, Some(true), None, Some("d"), 3, moment(), "add");
    assert_eq!(m.column_name, Some("c".to_string()));
    assert_eq!(m.regex_constrait, None);
    let u = HistUploaderPermission::db_new(1, 2, Some("yes"), Some(1), 3, moment(), "del");
    assert_eq!(u.can_view_hist, Some("yes".to_string()));
    let up = Upload::db_new(1, vec![1, 2], moment(), 2, None);
    assert_eq!(up.file_uploaded, vec![1, 2]);
    let s = Sheet::db_new(1, "d".to_string(), "T".to_string(), 2, true, Some(7), None, None);
    assert_eq!(s.days_to_refresh, Some(7));
    let hs = HistSheet::db_new(1, None, None, None, None, None, None, None, 2, moment(), "x".to_string());
    assert_eq!(hs.edited_at, moment());
    let _ = (
        CustomSqlScript::db_new(1, true, false, false, "SELECT 1".to_string()),
        ManagerPermission::db_new(1, true, true, true, true, true, true, true, true, false),
        Profile::db_new(1, true, None, 2, false),
        ProfileGroups::db_new(1, 2),
        SheetMetaData::db_new(1, 2, "c".to_string(), 3, false, None, 4, "d".to_string()),
        SheetUsedByBoard::db_new(1, 2),
        UploaderPermission::db_new(1, 2, true, false, 3),
    );
}

#[test]
fn tables_know_their_names() {
    assert_eq!(ColumnType::tab(), "COLUMN_TYPE");
    assert_eq!(HistSheetMetaData::tab(), "HIST_SHEET_META_DATA");
    assert_eq!(Worker::COL_LINDE_ID, "LindeId");
}

#[test]
fn requests_hold_what_was_sent() {
    let r = NewSheetRequest {
        description: "d".to_string(),
        table_name: "T".to_string(),
        days_to_refresh: None,
        request_after_update: Some("x".to_string()),
    };
    assert_eq!(r.clone(), r);
    let c = NewSheetMetaDataRequest {
        name: "n".to_string(),
        column_type_fk: 1,
        optional: true,
        regex_constraint: None,
        description: "d".to_string(),
    };
    assert_eq!(c.column_type_fk, 1);
}
