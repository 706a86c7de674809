//! The logic of a desktop client for TVHeadend.
pub mod autorec;
pub mod downloads;
pub mod epg;
pub mod guide;
pub mod json;
pub mod loading;
pub mod logos;
pub mod numbers;
pub mod order;
pub mod outside;
pub mod panel;
pub mod paths;
pub mod playback;
pub mod player;
pub mod recording_proxy;
pub mod recordings;
pub mod servers;
pub mod session;
pub mod settings;
pub mod text;
pub mod text_map;
pub mod tv;
pub mod tvh;
pub mod ui;
pub mod update;
