//! The backend-neutral query model: the expression and statement AST.

pub mod ast;
pub mod expr;
pub mod write;
pub mod func;
pub mod column;
