//! A client library for the Typesense search engine API.
//!
//! The verified core is the scoped search key encoder in [`scoped`]; the
//! client configuration lives in [`client`] and the key management request
//! and response types in [`keys`].

pub mod client;
pub mod keys;
pub mod scoped;

pub use client::{Client, ClientBuilder};
pub use keys::{
    Actions, ClientKeyCreate, ClientKeyDelete, ClientKeyRetrieve, ClientKeyRetrieveAll, ClientKeys,
};
pub use scoped::ScopedKeyError;
