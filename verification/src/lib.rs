//! Client-side dispatch of Oblivious HTTP requests.
//!
//! One request is decoded into a template, encoded once in its canonical
//! binary form, and sent a configurable number of times. Every replica is
//! encapsulated on its own under the relay's key configuration, and a bounded
//! window limits how many replicas are on the network at any moment.

pub mod base16;
pub mod config;
pub mod dispatch;
pub mod encapsulation;
pub mod outcome;
pub mod template;
