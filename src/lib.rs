use vstd::prelude::*;

pub mod access;
pub mod command;
pub mod config;
pub mod dispatcher;
pub mod error;
pub mod formatter;
pub mod metadata;
pub mod parsers;
pub mod permission;
pub mod registry;
pub mod style;
pub mod text;

verus! {

} // verus!
