//! Core decisions of the devbox service: how devcontainer features turn into
//! Dockerfile commands and container runtime options, how provider and
//! builder configuration is chosen, and the small text conventions (paths,
//! log lines, status words) the service relies on.

pub mod api;
pub mod cloud;
pub mod dockerfile;
pub mod features;
pub mod metadata;
pub mod model;
pub mod providers;
pub mod order;
pub mod task;
pub mod text;

