//! Signed attachment links: parsing, rendering, storage records and the
//! decisions that keep a cache of fresh links.
pub mod discord;
pub mod instant;
pub mod store;
pub mod text;
pub mod web;
pub mod resolve;
