//! A publish/subscribe relay: clients register for a connection token, attach
//! a live connection with it, choose topics, and receive what publishers send
//! to those topics.

pub mod token;
pub mod registry;
pub mod handlers;
pub mod laws;
