//! The modules of crates, their files and their items.
pub mod ids;
pub mod db;
pub mod spec;
pub mod data;
pub mod queries;
pub mod items;
pub mod modules;
pub mod group;
pub mod laws;
