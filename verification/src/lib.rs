//! A dialect-abstracted SQL execution engine and the registry of its live
//! connections.
//!
//! The engine never talks to a database itself. A driver performs each request
//! and reports how it went; the engine decides what to request next and which
//! normalized result or error the caller receives. Every decision is stated
//! as a contract over a mathematical model and proved.

pub mod atomicity;
pub mod dao;
pub mod error;
pub mod registry;
pub mod result;
pub mod transaction;
