pub mod config;
pub mod dialog;
pub mod dispatch;
pub mod generate;
pub mod rule;
