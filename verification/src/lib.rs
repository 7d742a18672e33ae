//! Verified core of MorSteg, a friendly front-end for `age` and `steghide`:
//! the cloud-safe ZIP package format and its CRC-32, the handling of typed paths
//! and save locations, the commands handed to the external tools, the parsing of
//! age key files, the decisions behind the menus, and the guided flows that
//! decide which tool runs on which file, and when.
pub mod cloud;
pub mod commands;
pub mod crc;
pub mod crypto;
pub mod deps;
pub mod keys;
pub mod menu;
pub mod package;
pub mod paths;
pub mod steg;
pub mod text;
pub mod unix_path;
pub mod workflow;
pub mod zip;
