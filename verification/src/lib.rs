pub mod api;
pub mod cards;
pub mod clock;
pub mod command;
pub mod config;
pub mod icon;
pub mod json;
pub mod menu;
pub mod report;
pub mod request;
pub mod sni;
pub mod template;
pub mod text;
pub mod ticker;
pub mod tooltip;
pub mod trayicon;
pub mod ui;
pub mod worker;
