//! The configuration as a file describes it, and its conversion into the router
//! configuration.
pub mod config_file_definition;
pub mod config_file_provider;
