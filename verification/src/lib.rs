//! Activity-log core of the immic desktop recorder: the rules that decide what
//! is recorded, how stored rows become log records, and how search hits are
//! grouped, checked by Verus.

pub mod paths;
pub mod text;
pub mod time;
pub mod application;
pub mod search;
pub mod db;
pub mod filelog;
pub mod browser;
pub mod screenshot;
pub mod screen;
pub mod plugins;
pub mod event;
pub mod ui;
pub mod store;

use vstd::prelude::*;

verus! {

} // verus!
