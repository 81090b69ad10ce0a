//! Verified core of a proxy that turns Bitbucket pipeline listings into a CCTray feed.
pub mod json;
pub mod text;
pub mod time;
pub mod pipeline;
pub mod pipeline_parser;
pub mod pipeline_loader;
pub mod config;
pub mod cli;
pub mod proxy;
