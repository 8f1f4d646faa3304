pub mod memory;
pub mod template;
pub mod condition;
pub mod config;
pub mod run;
pub mod menu;
pub mod report;
