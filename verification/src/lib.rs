//! Discovery, selection and resolution of the backup files that a package
//! manager leaves beside configuration files.

pub mod backup;
pub mod config;
pub mod error;
pub mod listing;
pub mod locate;
pub mod natural;
pub mod resolve;
pub mod select;
pub mod session;
pub mod text;
