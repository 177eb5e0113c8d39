//! Verified core of a portable game launcher: text rules, shortcut
//! resolution, the persisted game list and the launcher's UI decisions.

pub mod text;
pub mod shared;
pub mod paths;
pub mod drop_resolve;
pub mod game_store;
pub mod store_laws;
pub mod settings;
pub mod launcher;
