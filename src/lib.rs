//! Database client core: statement splitting, the result and schema entity
//! models, connection configuration, the connection registry and the
//! decisions of a backend client, each with its contract proved.

pub mod text;
pub mod error;

pub mod splitter;
pub mod statement;
pub mod tables;

pub mod result;
pub mod batch;

pub mod entity;
pub mod catalog;

pub mod config;
pub mod client;
pub mod registry;

pub mod env;
pub mod project;
