//! A small hero-registry library: a record table keyed by integer ids,
//! a multipart/form-data parser, form-field extraction with defaulting
//! rules, and the decision logic behind each route of the registry's
//! HTTP surface.

pub mod models;
pub mod store;
pub mod multipart;
pub mod form;
pub mod routes;
