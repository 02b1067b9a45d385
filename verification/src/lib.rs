//! Build planning for declarative, multi-stage container image descriptions.

pub mod arguments;
pub mod commands;
pub mod config;
pub mod docker;
pub mod docker_environment;
pub mod docker_image;
pub mod dockerfile;
pub mod order;
pub mod planner;
pub mod resolver;
pub mod split;
pub mod tag;
pub mod text;
