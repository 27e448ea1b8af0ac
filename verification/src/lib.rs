//! A queryable graph of hiking trails and their points of interest (POIs),
//! backed by a relational store.
//!
//! The crate has two layers. The store access layer ([`store`]) keeps two
//! relations, `trails` and `pois`, and offers parameterized reads and
//! inserts over them. The resolution layer ([`resolve`]) turns a requested
//! root (one trail, or the list of all trails) into one root fetch plus one
//! dependent POI fetch per root row, assembles the nested records, and
//! applies a uniform empty-result/error policy: a missing trail, or an
//! empty trail list, is a typed `NotFound` failure, never an empty success.

pub mod models;
pub mod resolve;
pub mod store;
