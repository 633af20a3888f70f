//! keydock: the verified core of a multi-tenant key-value service.
pub mod error;
pub mod domain;
pub mod text;
pub mod access;
pub mod crypto;
pub mod encoding;
pub mod identity;
pub mod words;
pub mod credential;
pub mod policy;
pub mod values;
pub mod keys;
pub mod json;
pub mod listing;
pub mod openapi;
pub mod ratelimit;
pub mod fixtures;
pub mod claims;
pub mod tokens;
pub mod handlers;
pub mod buckets;
pub mod token_endpoint;
pub mod txn;
pub mod health;
pub mod context;
