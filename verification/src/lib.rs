//! Cross-stage correlation pipeline for decoded game-asset tables.
//!
//! A producer scans the base-entity table, joins every eligible base row to
//! its parameter rows by foreign key, classifies the matches into three
//! tier buckets, derives their stat blocks through the growth table, and
//! persists each bucket in batched exclusive transactions while sending
//! one name-lookup request per produced entity across a channel. A
//! consumer builds per-locale text indices once at start-up, drains the
//! requests in batches, and resolves names and descriptions into each
//! locale's store.
//!
//! The decoding of the binary containers, the relational engine and the
//! channel are external collaborators, reached through narrow trusted
//! declarations; everything else — join semantics, classification, stat
//! derivation, batching, conflict policies and the request protocol — is
//! specified and verified here.

use vstd::prelude::*;

pub mod common;
pub mod text;
pub mod characters;
pub mod channel;
pub mod errors;
pub mod db;

verus! {

} // verus!
