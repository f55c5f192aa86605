//! A policy broker for SSH: named servers, named command profiles, safe
//! template rendering and an audit trail for every decision.
pub mod text;
pub mod identifiers;
pub mod table;
pub mod error;
pub mod config;
pub mod render;
pub mod audit;
pub mod executor;
pub mod planner;
pub mod validate;
pub mod session;
pub mod dotenv;
pub mod client;
pub mod signer;
