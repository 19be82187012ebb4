//! The verified core of a small blog-comment backend: signup and signin
//! with cookie-borne session tokens, nested comment threading, a
//! recent-comments feed, and an on-the-fly SVG thumbnail generator.
//!
//! Everything here is plain values and contracts. The HTTP layer, the
//! document store and the other side effects live outside; they hand
//! this library the values they read and carry out what it decides.
pub mod api;
pub mod clock;
pub mod comment;
pub mod encryption;
pub mod env;
pub mod numfmt;
pub mod oid;
pub mod signin;
pub mod signup;
pub mod strutil;
pub mod svg;
pub mod thumbnail;
pub mod token;
pub mod user;
pub mod webhook;
