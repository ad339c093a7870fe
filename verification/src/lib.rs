pub mod action;
pub mod chars;
pub mod client;
pub mod config;
pub mod control;
pub mod daemon;
pub mod device_icons;
pub mod filter;
pub mod icons;
pub mod json;
pub mod keyring;
pub mod lifecycle;
pub mod model;
pub mod number;
pub mod prefs;
pub mod projection;
pub mod protocol;
pub mod registry;
pub mod sort;
pub mod text;
pub mod url;
