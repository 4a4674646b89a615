pub mod process;
pub mod strutil;
pub mod config;
pub mod numfmt;
pub mod textparse;
pub mod confcodec;
pub mod net;
pub mod disk;
pub mod sysapi;
pub mod cpu;
pub mod os;
pub mod style;
pub mod fetch;
pub mod app;
pub mod battery;
pub mod packages;
pub mod gpu;
pub mod color;
pub mod logos;
pub mod effects;
pub mod display;
