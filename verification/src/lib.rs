use vstd::prelude::*;

pub mod state_machine;
pub mod state_machine_engine;
pub mod string;
pub mod stubs;
pub mod text;
pub mod theme;
pub mod theming;
pub mod thorvg;
pub mod time;
pub mod tools;
pub mod tween;
pub mod url_pattern;
pub mod utils;

verus! {

} // verus!
