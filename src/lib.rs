//! Dynamic SQL statement building, parameter binding and transactional
//! chain execution, with every decision stated in a contract.

pub mod error;
pub mod text;
pub mod escape;
pub mod comments;
pub mod tags;
pub mod temporal;
pub mod value;
pub mod params;
pub mod builder;
pub mod binder;
pub mod insert_tags;
pub mod chain;
pub mod tables;
pub mod column_kind;
pub mod model;
pub mod repository;

pub use binder::{parse_sql, BoundQuery};
pub use builder::{
    build_delete_clause, build_generic_select_clause, build_insert_clause,
    build_known_select_clause, build_update_clause, build_where_clause,
};
pub use chain::{ChainAction, ChainEvent, ChainPhase, ChainReturn, ChainRun};
pub use comments::remove_sql_comments;
pub use error::{BatchFault, SqlError};
pub use escape::escape;
pub use params::{SqlMultipleParameters, SqlSingleParameters};
pub use tags::extract_sql_params;
pub use temporal::{SqlDate, SqlDateTime, SqlTime};
pub use value::{SqlValue, ToSqlValue};
pub use column_kind::{to_generic_column_type, GenericColumnType};
