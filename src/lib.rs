use vstd::prelude::*;

pub mod buffer;
pub mod command;
pub mod document;
pub mod history;
pub mod renderer;
pub mod text;

verus! {

} // verus!
