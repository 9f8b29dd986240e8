//! A verified core for a small HTTP upload/delete gateway.
//!
//! The heart of the crate is [`adapter::StreamAdapter`], which turns a
//! one-shot, forward-only sequence of byte chunks into a buffered,
//! partially seekable byte source.  Around it stand the pure rules of the
//! gateway: content-length validation, object-name derivation, the key
//! guard decision, and the minting and checking of deletion capability
//! tokens.

pub mod adapter;
pub mod content_length;
pub mod guard;
pub mod helpers;
pub mod token;
