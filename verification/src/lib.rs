//! zust_core — verified core of the ZUST academic-affairs client.

pub mod text;
pub mod json;
pub mod types;
pub mod sniper;
pub mod cookies;
pub mod error;
pub mod urls;
pub mod crypto;
pub mod patterns;
pub mod auth;
pub mod session;
pub mod client;
pub mod views;
pub mod manager;
