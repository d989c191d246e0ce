use vstd::prelude::*;

pub mod app_config;
pub mod cli;
pub mod apt;
pub mod command;
pub mod directives;
pub mod file_ops;
pub mod html;
pub mod knowledge;
pub mod models;
pub mod ordered;
pub mod paths;
pub mod platform;
pub mod readme_services;
pub mod services;
pub mod systemd_ops;
pub mod task;
pub mod tasks;
pub mod text;
pub mod user_ops;

verus! {

} // verus!
