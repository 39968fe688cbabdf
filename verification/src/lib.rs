//! A local cache-and-aggregation layer for liked-tweet exports.
//!
//! Pages of liked tweets are persisted on disk as files named
//! `likes-<username>-<discriminator>` under a cache root. This library
//! holds the verified core of the pipeline that reloads them: locating
//! matching page files by name, joining each tweet to its author through
//! a user lookup table, classifying the "nothing cached" condition, and
//! producing one aggregate sorted by timestamp. All file reading and
//! writing stays with the caller; the functions here work on plain
//! values and carry contracts for everything they promise.

pub mod cache;
pub mod lookup;
pub mod pattern;
pub mod records;
pub mod sorting;
pub mod text;
