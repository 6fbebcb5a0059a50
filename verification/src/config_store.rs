//! Configuration resources that are kept in a database, and how they are laid over the
//! configuration file.

pub mod laws;
pub mod overlay;
pub mod prepare;
pub mod resources;
pub mod rows;
