//! Cross-thread exchange of commands and data between independently owned worlds.
//!
//! Each world is bound to one worker and talks to the others only through its
//! [`channel::WorldChannel`]. A single router forwards every message to the channel of
//! its destination and stamps it with the identity of the world it came from.
//!
//! - [`identity`], [`value`], [`bundle`], [`message`]: the data that crosses between
//!   worlds.
//! - [`channel`], [`exchange`]: the queues, the registry and the router.
//! - [`world`], [`transfer`], [`worker`]: what a payload does to the world that
//!   executes it, and the worker's loop.
//! - [`laws`], [`model`]: what is guaranteed across worlds and over every run.
//! - [`physics`], [`render_pass`], [`phosphor`]: the tags and the integer bookkeeping
//!   of the worlds that the phosphor demo runs on the exchange.

pub mod bundle;
pub mod channel;
pub mod error;
pub mod exchange;
pub mod identity;
pub mod laws;
pub mod message;
pub mod model;
pub mod phosphor;
pub mod physics;
pub mod render_pass;
pub mod transfer;
pub mod value;
pub mod worker;
pub mod world;
