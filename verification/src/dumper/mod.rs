//! Dumping of messages to files.

pub mod actor;
pub mod compact_dump;
pub mod config;
pub mod dump;
pub mod dump_buffer;
pub mod dump_path;
pub mod dump_storage;
pub mod extract_name;
pub mod file_registry;
pub mod recorder;
pub mod reporter;
pub mod rule_set;
