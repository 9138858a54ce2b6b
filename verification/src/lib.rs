//! Decisions of the local image-generation extension: which checkpoints are
//! diffusion models, which companions they need, and the command line that
//! the stable-diffusion.cpp engine receives.

pub mod text;
pub mod models;
pub mod companions;
pub mod order;
pub mod paths;
pub mod engine;
pub mod data_url;
pub mod sources;
pub mod script;
pub mod region;
pub mod headers;
pub mod diagnostics;
pub mod generation;
pub mod layout;
pub mod mcp;
pub mod catalogue;
pub mod install;
