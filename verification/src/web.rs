//! What the built-in web servers report.
pub mod management_server;
pub mod public_api_server;
