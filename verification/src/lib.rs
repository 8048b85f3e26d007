//! Verified core of own-repos-curator: the data model, the rules that keep it
//! normalized, configuration parsing, tag shortcuts, layout arithmetic and the
//! decisions of the curator's screens.
pub mod strings;
pub mod tags;
pub mod config;
pub mod model;
pub mod repo_url_cache;
pub mod github;
pub mod layout;
pub mod right_pane;
pub mod json_auto_push;
pub mod modes;
pub mod background;
pub mod self_update;
pub mod paths;
pub mod keys;
pub mod text_box;
pub mod listing;
pub mod curator;
pub mod curator_nav;
pub mod curator_tags;
pub mod curator_groups;
pub mod curator_filter;
pub mod curator_edit;
pub mod curator_sync;
pub mod curator_keys;
pub mod jobs;
pub mod curator_view;
pub mod colors;
pub mod curator_laws;
pub mod list_view;
pub mod help_text;
pub mod panel_text;
pub mod overlay_text;
