use vstd::prelude::*;

pub mod text;
pub mod bindings;
pub mod guardian_ui;
pub mod guardian_core;
pub mod ui;

verus! {

} // verus!
