//! A durable router for the webhooks of Resend: it takes each webhook in, makes sure who signed
//! it, finds the destinations that want it, and delivers it to each of them until it is taken or
//! its time is over.
//!
//! What decides anything stands here and is proved. Calls into other crates stand in small
//! functions whose contracts are taken for granted. A program around the library reads the
//! environment, listens, talks to the database and to the destinations; it hands in what it has
//! read and does what it is told.

pub mod clock;
pub mod config;
pub mod crypto;
pub mod db;
pub mod delivery;
pub mod environment;
pub mod error;
pub mod headers;
pub mod identifier;
pub mod instant;
pub mod json;
pub mod laws;
pub mod number;
pub mod resend;
pub mod router;
pub mod signing;
pub mod store;
pub mod text;
pub mod web;
