//! Library for building and recording documentation of published packages:
//! resolving a package's version history from a mirrored registry index,
//! staging local path dependencies, driving the documentation build as an
//! explicit step machine, and idempotently upserting the resulting metadata
//! into a relational store model.

pub mod builder;
pub mod crte;
pub mod db;
pub mod deps;
pub mod ingest;
pub mod manifest;
pub mod text;
