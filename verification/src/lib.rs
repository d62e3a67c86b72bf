//! A federated catalog: dataspace participants' catalogs are cached by the
//! node they were crawled from, and served as one.
//!
//! - [`catalog`] holds the domain types, [`store`] what a cache of catalogs
//!   does, and [`memory`] a cache in process memory.
//! - [`dsp`] holds the documents of the Dataspace Protocol, and [`api`] what
//!   each HTTP route answers.
//! - [`dcp`] holds the connector's own identity in the Decentralized Claims
//!   Protocol, and [`verification`] the verification of a caller's token,
//!   over [`did`] documents, [`jws`] tokens and the [`claims`] in them.
//! - [`base64url`], [`clock`], [`es256`], [`ids`], [`json`] and [`text`] are
//!   what these are built on.
//! - [`properties`] states the laws of the library as a whole.

pub mod api;
pub mod base64url;
pub mod catalog;
pub mod claims;
pub mod clock;
pub mod dcp;
pub mod did;
pub mod dsp;
pub mod es256;
pub mod ids;
pub mod json;
pub mod jws;
pub mod memory;
pub mod properties;
pub mod store;
pub mod text;
pub mod verification;
