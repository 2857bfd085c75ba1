//! GitHub: live search scopes, dashboards, previews, and the pages that a result
//! leads to.
pub mod activate;
pub mod api;
pub mod preview;
pub mod query;
pub mod readme;
pub mod render;
pub mod search;
pub mod time;
