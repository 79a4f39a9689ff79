//! The decisions behind the workspaces overview: what the sidebar lists, which
//! windows are previewed, how thumbnails are framed and how the search area looks.
pub mod model;
pub mod sidebar;
pub mod thumbnail;
pub mod previews;
pub mod overview;
pub mod surface;
