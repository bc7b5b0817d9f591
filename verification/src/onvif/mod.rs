//! Talking to the camera over ONVIF.

pub mod models;
pub mod profiles;
pub mod service;
pub mod url;
pub mod wsse;
