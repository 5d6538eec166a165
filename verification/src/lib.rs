//! Verified planning core of the BicDB SQL layer.
use vstd::prelude::*;

pub mod access_laws;
pub mod aggregate_laws;
pub mod aggregates;
pub mod ast;
pub mod authority;
pub mod bounded;
pub mod caches;
pub mod carrier;
pub mod catalog;
pub mod catalog_columns;
pub mod catalog_laws;
pub mod catalog_types;
pub mod chains;
pub mod clauses;
pub mod column_types;
pub mod composite_values;
pub mod constraints;
pub mod counted;
pub mod cube_laws;
pub mod cubes;
pub mod databases;
pub mod ddl;
pub mod ddl_indexes;
pub mod ddl_session;
pub mod depth;
pub mod dispatch;
pub mod distinct_keys;
pub mod dotted;
pub mod enum_labels;
pub mod error;
pub mod execution;
pub mod execution_laws;
pub mod expression_laws;
pub mod filter_laws;
pub mod filter_reading;
pub mod filters;
pub mod foreign_keys;
pub mod function_privileges;
pub mod grant_laws;
pub mod grants;
pub mod guc;
pub mod histograms;
pub mod indexes;
pub mod information_schema;
pub mod json;
pub mod limit_clauses;
pub mod listing_laws;
pub mod memory;
pub mod memory_laws;
pub mod memory_sql;
pub mod migration;
pub mod migration_laws;
pub mod name_order;
pub mod named;
pub mod nesting;
pub mod object_laws;
pub mod oid_filters;
pub mod oid_index;
pub mod oids;
pub mod order;
pub mod order_laws;
pub mod ownership_laws;
pub mod parent_paths;
pub mod parse;
pub mod partitions;
pub mod picks;
pub mod precedence;
pub mod privileges;
pub mod projections;
pub mod pseudo_types;
pub mod reach;
pub mod read_laws;
pub mod reading;
pub mod reading_laws;
pub mod roles;
pub mod routine_calls;
pub mod routine_frame;
pub mod routine_types;
pub mod row_columns;
pub mod row_evaluation;
pub mod row_laws;
pub mod rows;
pub mod scan;
pub mod scan_laws;
pub mod schema_laws;
pub mod security;
pub mod session;
pub mod session_laws;
pub mod session_tx;
pub mod set_exprs;
pub mod set_statements;
pub mod sets;
pub mod setting_laws;
pub mod settings;
pub mod shape;
pub mod slot_rows;
pub mod split_laws;
pub mod sql_rows;
pub mod statement_kinds;
pub mod statement_transaction;
pub mod store;
pub mod sums;
pub mod syntax;
pub mod text;
pub mod transaction;
pub mod type_authority;
pub mod type_definitions;
pub mod type_laws;
pub mod type_references;
pub mod type_rule_laws;
pub mod typed_order;
pub mod user_types;
pub mod values;
pub mod virtual_tables;
pub mod window_laws;
pub mod windows;

verus! {

} // verus!
