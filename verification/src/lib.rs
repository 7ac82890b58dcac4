//! A keyboard-first RSS/Atom news reader: the verified core.
use vstd::prelude::*;

pub mod text;
pub mod html;
pub mod model;
pub mod fetch;
pub mod script;
pub mod timefmt;
pub mod app;
pub mod ui;
pub mod store;

verus! {

} // verus!
