//! The logic of Perihelion, a speech-to-text companion for VRChat: what it
//! shows, what it downloads, when it listens, what it sends.
//!
//! Every function here is pure state and values. Windows, sockets, threads,
//! files and the recogniser itself belong to the program around the library.

pub mod actions;
pub mod app;
pub mod audio;
pub mod click_laws;
pub mod config;
pub mod devices;
pub mod download;
pub mod engine;
pub mod event_laws;
pub mod events;
pub mod laws;
pub mod model;
pub mod osc;
pub mod pages;
pub mod status;
pub mod storage;
pub mod text;
pub mod text_laws;
pub mod view;
