//! Core logic of the riv image viewer: directory listings, selection and
//! navigation state, keyboard handling, decode planning and pixel helpers.

pub mod calendar;
pub mod config;
pub mod decode;
pub mod dir;
pub mod display;
pub mod browser;
pub mod cache;
pub mod input;
pub mod metadata;
pub mod text;
pub mod sorting;
pub mod state;
