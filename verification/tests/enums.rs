//! Database-backed enumerations.

use tork_orm::dialect::{Dialect, MySqlDialect, SqlType};
use tork_orm::enums::{enum_sql_type, DbEnum};
use tork_orm::error::OrmError;

#[derive(Debug)]
enum Status {
    Active,
    Banned,
}

impl DbEnum for Status {
    const ENUM_NAME: &'static str = "status";
    const VARIANTS: &'static [&'static str] = &["active", "banned"];

    fn as_db_str(&self) -> &'static str {
        match self {
            Status::Active => "active",
            Status::Banned => "banned",
        }
    }

    fn from_db_str(value: &str) -> Result<Self, OrmError> {
        match value {
            "active" => Ok(Status::Active),
            "banned" => Ok(Status::Banned),
            _ => Err(OrmError::conversion("unknown status")),
        }
    }
}

#[test]
fn enum_column_type_carries_name_and_variants() {
    match Status::sql_type() {
        SqlType::Enum { name, variants } => {
            assert_eq!(name, "status");
            assert_eq!(variants, vec!["active".to_string(), "banned".to_string()]);
        }
        other => panic!("expected an enum type, got {other:?}"),
    }
    let mut ty = String::new();
    MySqlDialect::new().map_sql_type(Status::sql_type(), &mut ty);
    assert_eq!(ty, "ENUM('active', 'banned')");
    assert!(matches!(Status::from_db_str(Status::Banned.as_db_str()), Ok(Status::Banned)));
    assert!(Status::from_db_str("gone").is_err());
    assert!(matches!(enum_sql_type("e", &[]), SqlType::Enum { variants, .. } if variants.is_empty()));
}
