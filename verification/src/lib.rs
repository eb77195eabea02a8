use vstd::prelude::*;

pub mod backdrop;
pub mod backend;
pub mod chat;
pub mod gateway;
pub mod install;
pub mod json;
pub mod plugins;
pub mod store;
pub mod text;
pub mod tools;

verus! {

} // verus!
