pub mod ai;
pub mod text;
pub mod tab_bar;
pub mod split;
pub mod terminal;
pub mod workspace;
pub mod config;
pub mod ansi;
pub mod capture;
pub mod router;
pub mod session;
pub mod minimap;
pub mod selection;
pub mod overlay;
pub mod status_bar;
pub mod tab;
pub mod cli;
pub mod ui;
