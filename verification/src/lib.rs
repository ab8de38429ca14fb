//! Verified core of the Drop desktop client: download planning, install
//! bookkeeping, process launching, playtime accounting and the small
//! parsers and formatters that sit between them.

pub mod keymap;
pub mod models;
pub mod state;
pub mod text;
pub mod paths;
pub mod manifest;
pub mod drop_data;
pub mod buckets;
pub mod errors;
pub mod library;
pub mod download_agent;
pub mod codec;
pub mod download_logic;
pub mod process;
pub mod playtime;
pub mod update_checker;
pub mod remote;
pub mod catalog;
pub mod settings;
pub mod scheduler;
pub mod unpacker;
pub mod compat;
pub mod tools;
pub mod shell;
pub mod disks;
