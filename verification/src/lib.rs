//! Verified core of a laboratory automation runtime: deployment validation and
//! staging, bounded event publication, periodic scheduling and bounded diagnostics.
pub mod events;
pub mod host;
pub mod text;
pub mod configuration;
pub mod binary64;
pub mod dto;
pub mod build_identity;
pub mod deployment;
pub mod validation;
pub mod canonical;
pub mod definition;
pub mod managed;
pub mod diagnostics;
pub mod projection;
pub mod properties;
pub mod session;
pub mod turn;
pub mod facts;
