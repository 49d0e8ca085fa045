//! A desktop quick-launcher core: search providers, the search manager that
//! owns the single active search, the file searcher with its configuration
//! rules, and the algorithm that turns matching paths into short unique labels.

pub mod filenames;
pub mod pattern;
pub mod config;
pub mod search_result_entry;
pub mod searcher;
pub mod file_searcher;
pub mod emoji_searcher;
pub mod search_manager;
pub mod searchers_provider;
pub mod user_event;
pub mod message_event;
