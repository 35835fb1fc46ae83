//! Verified core of a live-streaming CDN node: stream bookkeeping, edge-node
//! load balancing, playlist/manifest generation, ingest helpers and config checks.

pub mod text;
pub mod outside;
pub mod tables;
pub mod domain;
pub mod cdn;
pub mod config;
pub mod streaming;
pub mod ingest;
pub mod manager;
pub mod api;
