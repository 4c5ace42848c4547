//! Decisions behind fetching composefs images from a registry and mounting them.

pub mod duration;
pub mod errno;
pub mod fetch;
pub mod layers;
pub mod manifest;
pub mod mount;
pub mod pull;
pub mod reference;
pub mod retry;
pub mod text;
pub mod transient;
