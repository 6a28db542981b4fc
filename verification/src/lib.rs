//! Verified core of a terminal client for Moodle.
use vstd::prelude::*;

pub mod text;
pub mod html;
pub mod models;
pub mod quiz_html;
pub mod text_input;
pub mod plugins;
pub mod urls;
pub mod state;
pub mod course_tree;
pub mod content_finder;
pub mod scroll;
pub mod quizzes;
pub mod shortcuts;
pub mod course_page;
pub mod quiz_fill;
pub mod settings;
pub mod worker;
pub mod login;
pub mod demo;
pub mod plugin_settings;
pub mod main_keys;
pub mod quiz_view;
pub mod shell;
pub mod settings_rows;
pub mod json;
pub mod normalize;
pub mod secret;
pub mod clock;
pub mod panes;
pub mod tree_structure;
pub mod page_cache;
pub mod events;
pub mod tree_ids;

verus! {

} // verus!
