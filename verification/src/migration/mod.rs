//! Database migrations: SQL-file migrations with a revision chain, the DDL AST
//! and its rendering, and the diff that reconciles models with a database.

pub mod checksum;
pub mod ddl;
pub mod files;
pub mod render;
pub mod runner;
pub mod schema;
pub mod store;
pub mod generate;
pub mod reading;

pub use ddl::{
    AlterAction, AlterTable, ColumnSpec, DefaultValue, ForeignKeyAction, ForeignKeySpec, IndexSpec,
    TableDef,
};
