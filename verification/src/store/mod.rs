//! Store-side logic: everything the relational store computes on the rows it
//! reads or writes, kept apart from the SQL round trips themselves.

pub mod boards;
pub mod changes;
pub mod entity_tags;
pub mod error;
pub mod grants;
pub mod ids;
pub mod keyexpr;
pub mod nav_nodes;
pub mod rules;
pub mod timestamps;
