//! The logic of a small S3 download client that drives the AWS command line
//! tool: profile discovery, command construction, output interpretation and
//! the state machine behind the download form.

pub mod text;
pub mod models;
pub mod profiles;
pub mod json;
pub mod cli;
pub mod app;
