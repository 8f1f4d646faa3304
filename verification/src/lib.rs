pub mod args;
pub mod backtrack;
pub mod chain;
pub mod config;
pub mod conversation;
pub mod dialogue;
pub mod diff;
pub mod foreign_types;
pub mod input;
pub mod launch;
pub mod sixtydb;
pub mod stream;
pub mod strings;
pub mod text;
pub mod tooling;
pub mod unicode;
pub mod utf8_facts;
