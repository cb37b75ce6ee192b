//! Tork ORM: backend-neutral SQL generation, DDL rendering, and SQL-file
//! migrations, with the command-line helpers that drive them.

use vstd::prelude::*;

pub mod dialect;
pub mod error;
pub mod config;
pub mod cli;
pub mod migration;
pub mod text;
pub mod value;
pub mod database;
pub mod query;
pub mod model;
pub mod index;
pub mod enums;
pub mod persist;
pub mod row;
pub mod relation;
pub mod preload;

verus! {

} // verus!
