//! The decision core of castoff, a casting appliance.

pub mod connection;
pub mod fcast;
pub mod idle_screen;
pub mod images;
pub mod metadata;
pub mod osd;
pub mod overlay;
pub mod paths;
pub mod player;
pub mod queue;
pub mod routing;
pub mod script;
pub mod steps;
pub mod text;
pub mod upload;
pub mod webpage;
