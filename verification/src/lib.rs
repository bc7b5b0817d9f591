//! Motion detection, pan/tilt control and ONVIF messaging for a network camera.
//!
//! The crate holds the decisions: what a frame shows, where the camera should
//! turn, when a clip starts and ends, what is said to the camera and what its
//! answers mean. Sockets, processes, clocks and floating-point arithmetic stay
//! with the program that drives it.

pub mod app_config;
pub mod axis;
pub mod bytes;
pub mod config;
pub mod controller;
pub mod detection;
pub mod detector;
pub mod env_value;
pub mod grid;
pub mod morphology;
pub mod number;
pub mod onvif;
pub mod outside;
pub mod page;
pub mod ptz;
pub mod recording;
pub mod region;
pub mod runtime;
pub mod text;
pub mod worker;
