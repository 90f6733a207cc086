//! Server-side core of a collaboratively edited, versioned bibliographic
//! catalog.
//!
//! Contributors propose edits to entities (containers, creators, works,
//! releases, files, filesets, web captures). Edits are gathered in
//! editgroups and accepted as a whole; each acceptance is recorded in a
//! changelog that only grows.
//!
//! - [`fcid`], [`extids`], [`flags`]: identifiers and flag sets as text.
//! - [`model`], [`catalog`]: the rows of the tables, and what holds of the
//!   tables at all times.
//! - [`auth`], [`accounts`]: credentials, roles, editors and editgroups.
//! - [`editing`], [`batch`], [`accept`]: writing edits and accepting them.
//! - [`reading`], [`lookup`], [`expand`]: reading entities back.
//! - [`server`]: the request boundary, where errors are classified.
//! - [`laws`]: what holds across operations.
//! - [`outside`]: what is taken from other crates, unproved.
//!
//! Every executable function carries a contract that Verus proves, over the
//! mathematical value of the catalog ([`catalog::CatalogView`]).

pub mod errors;
pub mod fcid;
pub mod extids;
pub mod text;
pub mod flags;
pub mod model;
pub mod catalog;
pub mod auth;
pub mod accounts;
pub mod editing;
pub mod accept;
pub mod batch;
pub mod reading;
pub mod lookup;
pub mod expand;
pub mod laws;
pub mod outside;
pub mod server;
