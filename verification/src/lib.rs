//! The core of a crowd-moderated quote board: salted password hashing and
//! verification, signed claims tokens carrying identity and admin status,
//! and the moderation-gated, ordered retrieval of quotes with optional
//! author attribution. Transport and schema wiring live outside; every
//! rule that governs credentials, tokens and listings is stated and
//! proved here.

pub mod credentials;
pub mod db;
pub mod error;
pub mod graphql;
