//! Cloche: the verified core of an agent-neutral desktop capture tool.
//!
//! Everything here is plain logic over plain values: backdrop catalogs and the
//! seeded palette picker, preference resolution, the gallery HTML export, the
//! studio request parsing, and the setup planners. Capturing, painting pixels,
//! and talking to the desktop stay outside, in the application crate.

pub mod html;
pub mod strings;
pub mod pattern;
pub mod sky;
pub mod space;
pub mod terrain;
pub mod polish;
pub mod rendezvous;
pub mod config;
pub mod setup;
pub mod clipboard;
pub mod contract;
pub mod text;
pub mod studio;
pub mod cli;
pub mod json;
pub mod paths;
pub mod reel;
pub mod codex;
pub mod captures;
