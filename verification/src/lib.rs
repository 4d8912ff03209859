use vstd::prelude::*;

pub mod analysis;
pub mod config;
pub mod devices;
pub mod error;
pub mod install;
pub mod json;
pub mod listing;
pub mod live;
pub mod lom;
pub mod text;
pub mod mcp;
pub mod tools;

verus! {
}
