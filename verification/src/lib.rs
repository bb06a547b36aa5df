//! Modpack management: the addon model, version compatibility and selection,
//! dependency closure, migration, and the three pack formats.

pub mod text;
pub mod error;
pub mod hashing;
pub mod model;
pub mod compat;
pub mod index;
pub mod resolver;
pub mod migrate;
pub mod modrinth;
pub mod curseforge;
pub mod github;
pub mod mrpack;
pub mod cfpack;
pub mod packwiz;
pub mod update;
pub mod versions;
