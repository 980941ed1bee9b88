//! What a client sends to create a sheet.
use vstd::prelude::*;

verus! {

/// A new sheet, as requested.
#[derive(Debug, Clone, PartialEq)]
pub struct NewSheetRequest {
    pub description: String,
    pub table_name: String,
    pub days_to_refresh: Option<i32>,
    pub request_after_update: Option<String>,
}

/// A column of a new sheet, as requested.
#[derive(Debug, Clone, PartialEq)]
pub struct NewSheetMetaDataRequest {
    pub name: String,
    pub column_type_fk: i32,
    pub optional: bool,
    pub regex_constraint: Option<String>,
    pub description: String,
}

} // verus!
