//! The tables of the uploader schema: one struct per row type, with the
//! names of its table and columns.
use vstd::prelude::*;

use crate::temporal::SqlDateTime;

verus! {

/// A table with a known name.
pub trait DBLoad {
    /// The table's name.
    spec fn table_name() -> Seq<char>;

    /// The table's name.
    fn tab() -> (r: &'static str)
        ensures
            r@ == Self::table_name(),
    ;
}

/// The text of an optional string.
pub open spec fn opt_text(o: Option<String>) -> Option<Seq<char>> {
    match o {
        Some(s) => Some(s@),
        None => None,
    }
}

/// The text of an optional string slice.
pub open spec fn opt_str_text(o: Option<&str>) -> Option<Seq<char>> {
    match o {
        Some(s) => Some(s@),
        None => None,
    }
}

fn owned_opt(o: Option<&str>) -> (r: Option<String>)
    ensures
        opt_text(r) == opt_str_text(o),
{
    match o {
        Some(s) => Some(s.to_owned()),
        None => None,
    }
}

/// A board that groups sheets.
#[derive(Debug, Clone, PartialEq)]
pub struct Board {
    pub pk: i32,
    pub name: String,
    pub active: bool,
}

impl Board {
    pub const COL_PK: &'static str = "pk";
    pub const COL_NAME: &'static str = "Name";
    pub const COL_ACTIVE: &'static str = "Active";

    pub fn db_new(
        pk: i32,
        name: String,
        active: bool,
    ) -> (r: Board)
        ensures
            r.pk == pk,
            r.name == name,
            r.active == active,
    {
        Board {
            pk,
            name,
            active,
        }
    }
}

impl DBLoad for Board {
    open spec fn table_name() -> Seq<char> {
        "BOARD"@
    }

    fn tab() -> (r: &'static str) {
        "BOARD"
    }
}

/// A script run around the update of a sheet.
#[derive(Debug, Clone, PartialEq)]
pub struct CustomSqlScript {
    pub sheet_fk: i32,
    pub run_before_update: bool,
    pub run_after_update: bool,
    pub run_as_update: bool,
    pub custom_script: String,
}

impl CustomSqlScript {
    pub const COL_SHEET_FK: &'static str = "Sheet_fk";
    pub const COL_RUNBF: &'static str = "RunBeforeUpdate";
    pub const COL_RUNAF: &'static str = "RunAfterUpdate";
    pub const COL_RUNAS: &'static str = "RunAsUpdate";
    pub const COL_SCRIPT: &'static str = "CustomScript";

    pub fn db_new(
        sheet_fk: i32,
        run_before_update: bool,
        run_after_update: bool,
        run_as_update: bool,
        custom_script: String,
    ) -> (r: CustomSqlScript)
        ensures
            r.sheet_fk == sheet_fk,
            r.run_before_update == run_before_update,
            r.run_after_update == run_after_update,
            r.run_as_update == run_as_update,
            r.custom_script == custom_script,
    {
        CustomSqlScript {
            sheet_fk,
            run_before_update,
            run_after_update,
            run_as_update,
            custom_script,
        }
    }
}

impl DBLoad for CustomSqlScript {
    open spec fn table_name() -> Seq<char> {
        "CUSTOM_SQL_SCRIPT"@
    }

    fn tab() -> (r: &'static str) {
        "CUSTOM_SQL_SCRIPT"
    }
}

/// A group of profiles with shared permissions.
#[derive(Debug, Clone, PartialEq)]
pub struct Group {
    pub pk: i32,
    pub name: String,
    pub active: bool,
    pub board_id: i32,
    pub last_edited_by_fk: i32,
}

impl Group {
    pub const COL_PK: &'static str = "pk";
    pub const COL_NAME: &'static str = "Name";
    pub const COL_ACTIVE: &'static str = "Active";
    pub const COL_BOARD_ID: &'static str = "BoardId";
    pub const COL_LAST_EDITED_BY_FK: &'static str = "LastEditedBy_fk";

    pub fn db_new(
        pk: i32,
        name: &str,
        active: bool,
        board_id: i32,
        last_edited_by_fk: i32,
    ) -> (r: Group)
        ensures
            r.pk == pk,
            r.name@ == name@,
            r.active == active,
            r.board_id == board_id,
            r.last_edited_by_fk == last_edited_by_fk,
    {
        Group {
            pk,
            name: name.to_owned(),
            active,
            board_id,
            last_edited_by_fk,
        }
    }
}

impl DBLoad for Group {
    open spec fn table_name() -> Seq<char> {
        "GROUP"@
    }

    fn tab() -> (r: &'static str) {
        "GROUP"
    }
}

/// A past state of a group.
#[derive(Debug, Clone, PartialEq)]
pub struct HistGroup {
    pub group_fk: i32,
    pub name: Option<String>,
    pub active: Option<bool>,
    pub add_worker: Option<bool>,
    pub edit_worker: Option<bool>,
    pub add_profile: Option<bool>,
    pub remove_profile: Option<bool>,
    pub add_group: Option<bool>,
    pub remove_group: Option<bool>,
    pub edit_group: Option<bool>,
    pub edit_profile_groups: Option<bool>,
    pub edited_by_fk: i32,
    pub edited_at: SqlDateTime,
    pub edit_action: String,
    pub impersonate_users: Option<bool>,
}

impl HistGroup {
    pub const COL_GROUP_FK: &'static str = "Group_fk";
    pub const COL_NAME: &'static str = "Name";
    pub const COL_ACTIVE: &'static str = "Active";
    pub const COL_ADD_WORKER: &'static str = "AddWorker";
    pub const COL_EDIT_WORKER: &'static str = "EditWorker";
    pub const COL_ADD_PROFILE: &'static str = "AddProfile";
    pub const COL_REMOVE_PROFILE: &'static str = "RemoveProfile";
    pub const COL_ADD_GROUP: &'static str = "AddGroup";
    pub const COL_REMOVE_GROUP: &'static str = "RemoveGroup";
    pub const COL_EDIT_GROUP: &'static str = "EditGroup";
    pub const COL_EDIT_PROFILE_GROUPS: &'static str = "EditProfileGroups";
    pub const COL_EDITED_BY_FK: &'static str = "EditedBy_fk";
    pub const COL_EDITED_AT: &'static str = "EditedAt";
    pub const COL_EDIT_ACTION: &'static str = "EditAction";
    pub const COL_IMPERSONATE_USERS: &'static str = "ImpersonateUsers";

    pub fn db_new(
        group_fk: i32,
        name: Option<&str>,
        active: Option<bool>,
        add_worker: Option<bool>,
        edit_worker: Option<bool>,
        add_profile: Option<bool>,
        remove_profile: Option<bool>,
        add_group: Option<bool>,
        remove_group: Option<bool>,
        edit_group: Option<bool>,
        edit_profile_groups: Option<bool>,
        edited_by_fk: i32,
        edited_at: SqlDateTime,
        edit_action: &str,
        impersonate_users: Option<bool>,
    ) -> (r: HistGroup)
        ensures
            r.group_fk == group_fk,
            opt_text(r.name) == opt_str_text(name),
            r.active == active,
            r.add_worker == add_worker,
            r.edit_worker == edit_worker,
            r.add_profile == add_profile,
            r.remove_profile == remove_profile,
            r.add_group == add_group,
            r.remove_group == remove_group,
            r.edit_group == edit_group,
            r.edit_profile_groups == edit_profile_groups,
            r.edited_by_fk == edited_by_fk,
            r.edited_at == edited_at,
            r.edit_action@ == edit_action@,
            r.impersonate_users == impersonate_users,
    {
        HistGroup {
            group_fk,
            name: owned_opt(name),
            active,
            add_worker,
            edit_worker,
            add_profile,
            remove_profile,
            add_group,
            remove_group,
            edit_group,
            edit_profile_groups,
            edited_by_fk,
            edited_at,
            edit_action: edit_action.to_owned(),
            impersonate_users,
        }
    }
}

impl DBLoad for HistGroup {
    open spec fn table_name() -> Seq<char> {
        "HIST_GROUP"@
    }

    fn tab() -> (r: &'static str) {
        "HIST_GROUP"
    }
}

/// A past state of a sheet.
#[derive(Debug, Clone, PartialEq)]
pub struct HistSheet {
    pub sheet_fk: i32,
    pub description: Option<String>,
    pub table_name: Option<String>,
    pub last_edited_by_fk: Option<i32>,
    pub active: Option<bool>,
    pub days_to_refresh: Option<i32>,
    pub model: Option<Vec<u8>>,
    pub request_after_update: Option<String>,
    pub edited_by_fk: i32,
    pub edited_at: SqlDateTime,
    pub edit_action: String,
}

impl HistSheet {
    pub const COL_SHEET_FK: &'static str = "Sheet_fk";
    pub const COL_DESCRIPTION: &'static str = "Description";
    pub const COL_TABLE_NAME: &'static str = "TableName";
    pub const COL_LAST_EDITED_BY_FK: &'static str = "LastEditedBy_fk";
    pub const COL_ACTIVE: &'static str = "Active";
    pub const COL_DAYS_TO_REFRESH: &'static str = "DaysToRefresh";
    pub const COL_MODEL: &'static str = "Model";
    pub const COL_REQUEST_AFTER_UPDATE: &'static str = "RequestAfterUpdate";
    pub const COL_EDITED_BY_FK: &'static str = "EditedBy_fk";
    pub const COL_EDITED_AT: &'static str = "EditedAt";
    pub const COL_EDIT_ACTION: &'static str = "EditAction";

    pub fn db_new(
        sheet_fk: i32,
        description: Option<String>,
        table_name: Option<String>,
        last_edited_by_fk: Option<i32>,
        active: Option<bool>,
        days_to_refresh: Option<i32>,
        model: Option<Vec<u8>>,
        request_after_update: Option<String>,
        edited_by_fk: i32,
        edited_at: SqlDateTime,
        edit_action: String,
    ) -> (r: HistSheet)
        ensures
            r.sheet_fk == sheet_fk,
            r.description == description,
            r.table_name == table_name,
            r.last_edited_by_fk == last_edited_by_fk,
            r.active == active,
            r.days_to_refresh == days_to_refresh,
            r.model == model,
            r.request_after_update == request_after_update,
            r.edited_by_fk == edited_by_fk,
            r.edited_at == edited_at,
            r.edit_action == edit_action,
    {
        HistSheet {
            sheet_fk,
            description,
            table_name,
            last_edited_by_fk,
            active,
            days_to_refresh,
            model,
            request_after_update,
            edited_by_fk,
            edited_at,
            edit_action,
        }
    }
}

impl DBLoad for HistSheet {
    open spec fn table_name() -> Seq<char> {
        "HIST_SHEET"@
    }

    fn tab() -> (r: &'static str) {
        "HIST_SHEET"
    }
}

/// A past state of the description of a sheet column.
#[derive(Debug, Clone, PartialEq)]
pub struct HistSheetMetaData {
    pub sheet_meta_data_fk: i32,
    pub sheet_fk: Option<i32>,
    pub column_name: Option<String>,
    pub column_type_fk: Option<i32>,
    pub optinal: Option<bool>,
    pub regex_constrait: Option<String>,
    pub description: Option<String>,
    pub edited_by_fk: i32,
    pub edited_at: SqlDateTime,
    pub edit_action: String,
}

impl HistSheetMetaData {
    pub const COL_SHEET_META_DATA_FK: &'static str = "SheetMetaData_fk";
    pub const COL_SHEET_FK: &'static str = "Sheet_fk";
    pub const COL_COLUMN_NAME: &'static str = "ColumnName";
    pub const COL_COLUMN_TYPE_FK: &'static str = "ColumnType_fk";
    pub const COL_OPTIONAL: &'static str = "Optional";
    pub const COL_REGEX_CONSTRAINT: &'static str = "RegexConstraint";
    pub const COL_DESCRIPTION: &'static str = "Description";
    pub const COL_EDITED_BY_FK: &'static str = "EditedBy_fk";
    pub const COL_EDITED_AT: &'static str = "EditedAt";
    pub const COL_EDIT_ACTION: &'static str = "EditAction";

    pub fn db_new(
        sheet_meta_data_fk: i32,
        sheet_fk: Option<i32>,
        column_name: Option<&str>,
        column_type_fk: Option<i32>,
        optinal: Option<bool>,
        regex_constrait: Option<&str>,
        description: Option<&str>,
        edited_by_fk: i32,
        edited_at: SqlDateTime,
        edit_action: &str,
    ) -> (r: HistSheetMetaData)
        ensures
            r.sheet_meta_data_fk == sheet_meta_data_fk,
            r.sheet_fk == sheet_fk,
            opt_text(r.column_name) == opt_str_text(column_name),
            r.column_type_fk == column_type_fk,
            r.optinal == optinal,
            opt_text(r.regex_constrait) == opt_str_text(regex_constrait),
            opt_text(r.description) == opt_str_text(description),
            r.edited_by_fk == edited_by_fk,
            r.edited_at == edited_at,
            r.edit_action@ == edit_action@,
    {
        HistSheetMetaData {
            sheet_meta_data_fk,
            sheet_fk,
            column_name: owned_opt(column_name),
            column_type_fk,
            optinal,
            regex_constrait: owned_opt(regex_constrait),
            description: owned_opt(description),
            edited_by_fk,
            edited_at,
            edit_action: edit_action.to_owned(),
        }
    }
}

impl DBLoad for HistSheetMetaData {
    open spec fn table_name() -> Seq<char> {
        "HIST_SHEET_META_DATA"@
    }

    fn tab() -> (r: &'static str) {
        "HIST_SHEET_META_DATA"
    }
}

/// A past state of an uploader permission.
#[derive(Debug, Clone, PartialEq)]
pub struct HistUploaderPermission {
    pub group_fk: i32,
    pub sheet_fk: i32,
    pub can_view_hist: Option<String>,
    pub can_upload: Option<i32>,
    pub edited_by_fk: i32,
    pub edited_at: SqlDateTime,
    pub edit_action: String,
}

impl HistUploaderPermission {
    pub const COL_GROUP_FK: &'static str = "Group_fk";
    pub const COL_SHEET_FK: &'static str = "Sheet_fk";
    pub const COL_CAN_VIEW_HIST: &'static str = "CanViewHist";
    pub const COL_CAN_UPLOAD: &'static str = "CanUpload";
    pub const COL_EDITED_BY_FK: &'static str = "EditedBy_fk";
    pub const COL_EDITED_AT: &'static str = "EditedAt";
    pub const COL_EDIT_ACTION: &'static str = "EditAction";

    pub fn db_new(
        group_fk: i32,
        sheet_fk: i32,
        can_view_hist: Option<&str>,
        can_upload: Option<i32>,
        edited_by_fk: i32,
        edited_at: SqlDateTime,
        edit_action: &str,
    ) -> (r: HistUploaderPermission)
        ensures
            r.group_fk == group_fk,
            r.sheet_fk == sheet_fk,
            opt_text(r.can_view_hist) == opt_str_text(can_view_hist),
            r.can_upload == can_upload,
            r.edited_by_fk == edited_by_fk,
            r.edited_at == edited_at,
            r.edit_action@ == edit_action@,
    {
        HistUploaderPermission {
            group_fk,
            sheet_fk,
            can_view_hist: owned_opt(can_view_hist),
            can_upload,
            edited_by_fk,
            edited_at,
            edit_action: edit_action.to_owned(),
        }
    }
}

impl DBLoad for HistUploaderPermission {
    open spec fn table_name() -> Seq<char> {
        "HIST_UPLOADER_PERMISSION"@
    }

    fn tab() -> (r: &'static str) {
        "HIST_UPLOADER_PERMISSION"
    }
}

/// What the managers of a group may do.
#[derive(Debug, Clone, PartialEq)]
pub struct ManagerPermission {
    pub group_fk: i32,
    pub add_worker: bool,
    pub edit_worker: bool,
    pub add_profile: bool,
    pub remove_profile: bool,
    pub add_group: bool,
    pub remove_group: bool,
    pub edit_group: bool,
    pub edit_profile_groups: bool,
    pub impersonate_users: bool,
}

impl ManagerPermission {
    pub const COL_GROUP_FK: &'static str = "Group_fk";
    pub const COL_ADD_WORKER: &'static str = "AddWorker";
    pub const COL_EDIT_WORKER: &'static str = "EditWorker";
    pub const COL_ADD_PROFILE: &'static str = "AddProfile";
    pub const COL_REMOVE_PROFILE: &'static str = "RemoveProfile";
    pub const COL_ADD_GROUP: &'static str = "AddGroup";
    pub const COL_REMOVE_GROUP: &'static str = "RemoveGroup";
    pub const COL_EDIT_GROUP: &'static str = "EditGroup";
    pub const COL_EDIT_PROFILE_GROUPS: &'static str = "EditProfileGroups";
    pub const COL_IMPERSONATE_USERS: &'static str = "ImpersonateUsers";

    pub fn db_new(
        group_fk: i32,
        add_worker: bool,
        edit_worker: bool,
        add_profile: bool,
        remove_profile: bool,
        add_group: bool,
        remove_group: bool,
        edit_group: bool,
        edit_profile_groups: bool,
        impersonate_users: bool,
    ) -> (r: ManagerPermission)
        ensures
            r.group_fk == group_fk,
            r.add_worker == add_worker,
            r.edit_worker == edit_worker,
            r.add_profile == add_profile,
            r.remove_profile == remove_profile,
            r.add_group == add_group,
            r.remove_group == remove_group,
            r.edit_group == edit_group,
            r.edit_profile_groups == edit_profile_groups,
            r.impersonate_users == impersonate_users,
    {
        ManagerPermission {
            group_fk,
            add_worker,
            edit_worker,
            add_profile,
            remove_profile,
            add_group,
            remove_group,
            edit_group,
            edit_profile_groups,
            impersonate_users,
        }
    }
}

impl DBLoad for ManagerPermission {
    open spec fn table_name() -> Seq<char> {
        "MANAGER_PERMISSION"@
    }

    fn tab() -> (r: &'static str) {
        "MANAGER_PERMISSION"
    }
}

/// A worker's profile on a board.
#[derive(Debug, Clone, PartialEq)]
pub struct Profile {
    pub pk: i32,
    pub active: bool,
    pub board_fk: Option<i32>,
    pub worker_fk: i32,
    pub is_super_user: bool,
}

impl Profile {
    pub const COL_PK: &'static str = "pk";
    pub const COL_ACTIVE: &'static str = "Active";
    pub const COL_BOARD_FK: &'static str = "Board_fk";
    pub const COL_WORKER_FK: &'static str = "Worker_fk";
    pub const COL_IS_SUPER_USER: &'static str = "IsSuperUser";

    pub fn db_new(
        pk: i32,
        active: bool,
        board_fk: Option<i32>,
        worker_fk: i32,
        is_super_user: bool,
    ) -> (r: Profile)
        ensures
            r.pk == pk,
            r.active == active,
            r.board_fk == board_fk,
            r.worker_fk == worker_fk,
            r.is_super_user == is_super_user,
    {
        Profile {
            pk,
            active,
            board_fk,
            worker_fk,
            is_super_user,
        }
    }
}

impl DBLoad for Profile {
    open spec fn table_name() -> Seq<char> {
        "PROFILE"@
    }

    fn tab() -> (r: &'static str) {
        "PROFILE"
    }
}

/// The membership of a profile in a group.
#[derive(Debug, Clone, PartialEq)]
pub struct ProfileGroups {
    pub profile_fk: i32,
    pub group_fk: i32,
}

impl ProfileGroups {
    pub const COL_PROFILE_FK: &'static str = "Profile_fk";
    pub const COL_GROUP_FK: &'static str = "Group_fk";

    pub fn db_new(
        profile_fk: i32,
        group_fk: i32,
    ) -> (r: ProfileGroups)
        ensures
            r.profile_fk == profile_fk,
            r.group_fk == group_fk,
    {
        ProfileGroups {
            profile_fk,
            group_fk,
        }
    }
}

impl DBLoad for ProfileGroups {
    open spec fn table_name() -> Seq<char> {
        "PROFILE_GROUPS"@
    }

    fn tab() -> (r: &'static str) {
        "PROFILE_GROUPS"
    }
}

/// A sheet that users upload into a table.
#[derive(Debug, Clone, PartialEq)]
pub struct Sheet {
    pub pk: i32,
    pub description: String,
    pub table_name: String,
    pub last_edited_by_fk: i32,
    pub active: bool,
    pub days_to_refresh: Option<i32>,
    pub model: Option<Vec<u8>>,
    pub request_after_update: Option<String>,
}

impl Sheet {
    pub const COL_PK: &'static str = "pk";
    pub const COL_DESCRIPTION: &'static str = "Description";
    pub const COL_TABLE_NAME: &'static str = "TableName";
    pub const COL_LAST_EDITED_BY_FK: &'static str = "LastEditedBy_fk";
    pub const COL_ACTIVE: &'static str = "Active";
    pub const COL_DAYS_TO_REFRESH: &'static str = "DaysToRefresh";
    pub const COL_MODEL: &'static str = "Model";
    pub const COL_REQUEST_AFTER_UPDATE: &'static str = "RequestAfterUpdate";

    pub fn db_new(
        pk: i32,
        description: String,
        table_name: String,
        last_edited_by_fk: i32,
        active: bool,
        days_to_refresh: Option<i32>,
        model: Option<Vec<u8>>,
        request_after_update: Option<String>,
    ) -> (r: Sheet)
        ensures
            r.pk == pk,
            r.description == description,
            r.table_name == table_name,
            r.last_edited_by_fk == last_edited_by_fk,
            r.active == active,
            r.days_to_refresh == days_to_refresh,
            r.model == model,
            r.request_after_update == request_after_update,
    {
        Sheet {
            pk,
            description,
            table_name,
            last_edited_by_fk,
            active,
            days_to_refresh,
            model,
            request_after_update,
        }
    }
}

impl DBLoad for Sheet {
    open spec fn table_name() -> Seq<char> {
        "SHEET"@
    }

    fn tab() -> (r: &'static str) {
        "SHEET"
    }
}

/// The description of one column of a sheet.
#[derive(Debug, Clone, PartialEq)]
pub struct SheetMetaData {
    pub pk: i32,
    pub sheet_fk: i32,
    pub column_name: String,
    pub column_type_fk: i32,
    pub optinal: bool,
    pub regex_constrait: Option<String>,
    pub last_editeded_by_fk: i32,
    pub description: String,
}

impl SheetMetaData {
    pub const COL_PK: &'static str = "pk";
    pub const COL_SHEET_FK: &'static str = "Sheet_fk";
    pub const COL_COLUMN_NAME: &'static str = "ColumnName";
    pub const COL_COLUMN_TYPE_FK: &'static str = "ColumnType_fk";
    pub const COL_OPTIONAL: &'static str = "Optional";
    pub const COL_REGEX_CONSTRAINT: &'static str = "RegexConstraint";
    pub const COL_LAST_EDITED_BY_FK: &'static str = "LastEditedBy_fk";
    pub const COL_DESCRIPTION: &'static str = "Description";

    pub fn db_new(
        pk: i32,
        sheet_fk: i32,
        column_name: String,
        column_type_fk: i32,
        optinal: bool,
        regex_constrait: Option<String>,
        last_editeded_by_fk: i32,
        description: String,
    ) -> (r: SheetMetaData)
        ensures
            r.pk == pk,
            r.sheet_fk == sheet_fk,
            r.column_name == column_name,
            r.column_type_fk == column_type_fk,
            r.optinal == optinal,
            r.regex_constrait == regex_constrait,
            r.last_editeded_by_fk == last_editeded_by_fk,
            r.description == description,
    {
        SheetMetaData {
            pk,
            sheet_fk,
            column_name,
            column_type_fk,
            optinal,
            regex_constrait,
            last_editeded_by_fk,
            description,
        }
    }
}

impl DBLoad for SheetMetaData {
    open spec fn table_name() -> Seq<char> {
        "SHEET_META_DATA"@
    }

    fn tab() -> (r: &'static str) {
        "SHEET_META_DATA"
    }
}

/// The use of a sheet by a board.
#[derive(Debug, Clone, PartialEq)]
pub struct SheetUsedByBoard {
    pub sheet_fk: i32,
    pub board_fk: i32,
}

impl SheetUsedByBoard {
    pub const COL_SHEET_FK: &'static str = "Sheet_fk";
    pub const COL_BOARD_FK: &'static str = "Board_fk";

    pub fn db_new(
        sheet_fk: i32,
        board_fk: i32,
    ) -> (r: SheetUsedByBoard)
        ensures
            r.sheet_fk == sheet_fk,
            r.board_fk == board_fk,
    {
        SheetUsedByBoard {
            sheet_fk,
            board_fk,
        }
    }
}

impl DBLoad for SheetUsedByBoard {
    open spec fn table_name() -> Seq<char> {
        "SHEET_USED_BY_BOARD"@
    }

    fn tab() -> (r: &'static str) {
        "SHEET_USED_BY_BOARD"
    }
}

/// One uploaded file.
#[derive(Debug, Clone, PartialEq)]
pub struct Upload {
    pub sheet_fk: i32,
    pub file_uploaded: Vec<u8>,
    pub uploaded_at: SqlDateTime,
    pub uploaded_by_fk: i32,
    pub sheet_used: Option<String>,
}

impl Upload {
    pub const COL_SHEET_FK: &'static str = "Sheet_fk";
    pub const COL_FILE_UPLOADED: &'static str = "FileUploaded";
    pub const COL_UPLOADED_AT: &'static str = "UploadedAt";
    pub const COL_UPLOADED_BY_FK: &'static str = "UploadedBy_fk";
    pub const COL_SHEET_USED: &'static str = "SheetUsed";

    pub fn db_new(
        sheet_fk: i32,
        file_uploaded: Vec<u8>,
        uploaded_at: SqlDateTime,
        uploaded_by_fk: i32,
        sheet_used: Option<String>,
    ) -> (r: Upload)
        ensures
            r.sheet_fk == sheet_fk,
            r.file_uploaded == file_uploaded,
            r.uploaded_at == uploaded_at,
            r.uploaded_by_fk == uploaded_by_fk,
            r.sheet_used == sheet_used,
    {
        Upload {
            sheet_fk,
            file_uploaded,
            uploaded_at,
            uploaded_by_fk,
            sheet_used,
        }
    }
}

impl DBLoad for Upload {
    open spec fn table_name() -> Seq<char> {
        "UPLOAD"@
    }

    fn tab() -> (r: &'static str) {
        "UPLOAD"
    }
}

/// What a group may do with a sheet.
#[derive(Debug, Clone, PartialEq)]
pub struct UploaderPermission {
    pub group_fk: i32,
    pub sheet_fk: i32,
    pub can_view_hist: bool,
    pub can_upload: bool,
    pub last_edited_by_fk: i32,
}

impl UploaderPermission {
    pub const COL_GROUP_FK: &'static str = "Group_fk";
    pub const COL_SHEET_FK: &'static str = "Sheet_fk";
    pub const COL_CAN_VIEW_HIST: &'static str = "CanViewHist";
    pub const COL_CAN_UPLOAD: &'static str = "CanUpload";
    pub const COL_LAST_EDITED_BY_FK: &'static str = "LastEditedBy_fk";

    pub fn db_new(
        group_fk: i32,
        sheet_fk: i32,
        can_view_hist: bool,
        can_upload: bool,
        last_edited_by_fk: i32,
    ) -> (r: UploaderPermission)
        ensures
            r.group_fk == group_fk,
            r.sheet_fk == sheet_fk,
            r.can_view_hist == can_view_hist,
            r.can_upload == can_upload,
            r.last_edited_by_fk == last_edited_by_fk,
    {
        UploaderPermission {
            group_fk,
            sheet_fk,
            can_view_hist,
            can_upload,
            last_edited_by_fk,
        }
    }
}

impl DBLoad for UploaderPermission {
    open spec fn table_name() -> Seq<char> {
        "UPLOADER_PERMISSION"@
    }

    fn tab() -> (r: &'static str) {
        "UPLOADER_PERMISSION"
    }
}

/// A worker who may hold profiles.
#[derive(Debug, Clone, PartialEq)]
pub struct Worker {
    pub pk: i32,
    pub name: String,
    pub linde_id: String,
    pub email: String,
}

impl Worker {
    pub const COL_PK: &'static str = "pk";
    pub const COL_NAME: &'static str = "Name";
    pub const COL_LINDE_ID: &'static str = "LindeId";
    pub const COL_EMAIL: &'static str = "Email";

    pub fn db_new(
        pk: i32,
        name: &str,
        linde_id: &str,
        email: &str,
    ) -> (r: Worker)
        ensures
            r.pk == pk,
            r.name@ == name@,
            r.linde_id@ == linde_id@,
            r.email@ == email@,
    {
        Worker {
            pk,
            name: name.to_owned(),
            linde_id: linde_id.to_owned(),
            email: email.to_owned(),
        }
    }
}

impl DBLoad for Worker {
    open spec fn table_name() -> Seq<char> {
        "WORKER"@
    }

    fn tab() -> (r: &'static str) {
        "WORKER"
    }
}

/// A kind of column that sheets may use.
#[derive(Debug, Clone, PartialEq)]
pub struct ColumnType {
    pub pk: i32,
    pub sql_type: String,
    pub view_type: String,
}

impl ColumnType {
    pub const COL_PK: &'static str = "pk";
    pub const COL_SQL_TYPE: &'static str = "SqlType";
    pub const COL_VIEW_TYPE: &'static str = "ViewType";

    pub fn db_new(pk: i32, sql_type: String, view_type: String) -> (r: ColumnType)
        ensures
            r.pk == pk && r.sql_type == sql_type && r.view_type == view_type,
    {
        ColumnType { pk, sql_type, view_type }
    }

    pub fn new(pk: i32, sql_type: &str, view_type: &str) -> (r: ColumnType)
        ensures
            r.pk == pk && r.sql_type@ == sql_type@ && r.view_type@ == view_type@,
    {
        ColumnType { pk, sql_type: sql_type.to_owned(), view_type: view_type.to_owned() }
    }
}

impl DBLoad for ColumnType {
    open spec fn table_name() -> Seq<char> {
        "COLUMN_TYPE"@
    }

    fn tab() -> (r: &'static str) {
        "COLUMN_TYPE"
    }
}

} // verus!
