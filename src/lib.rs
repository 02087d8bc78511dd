//! Token issuance, verification and realm-join decisions for a multi-tenant
//! authentication service with one global realm and per-project realms.

pub mod claims;
pub mod claims_json;
pub mod config;
pub mod error;
pub mod global;
pub mod guard;
pub mod interv;
pub mod jwt;
pub mod models;
pub mod role;
pub mod text;
pub mod token;
