//! Application launcher core: a deduplicated catalog of desktop entries,
//! fuzzy ranking of that catalog against a query, and the decisions behind
//! launching a chosen entry.

pub mod entry;
pub mod fields;
pub mod text;
pub mod desktop;
pub mod catalog;
pub mod matcher;
pub mod score;
pub mod rank;
pub mod plugin;
pub mod launch;
pub mod calc;

pub use launch::handler;
pub use plugin::{get_matches, info, init, Config, State};
