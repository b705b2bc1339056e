//! The logic of a keyboard driven application launcher: the configuration
//! model, the routing of a search query to the plugins that answer it, the
//! choice of the rows that the result list shows, and the keyboard navigation
//! of that list.

pub mod text;
pub mod store;
pub mod config;
pub mod plugin;
pub mod loader;
pub mod entries;
pub mod routing;
pub mod listing;
pub mod keys;
