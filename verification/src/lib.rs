//! The decisions of a reverse-tunnel server: whom it lets in, which client a
//! connection belongs to, and what each of its parts does on an event.
//!
//! Sockets, tasks and timers stay outside. Their owner tells the library what has
//! happened and does what it answers.
//!
//! * [`server`] puts the parts together: accepting, hot reload, shutdown.
//! * [`ingress`] bounds the handshakes under way.
//! * [`handshake`] opens control channels and data channels.
//! * [`channel`] sets up and runs control channels.
//! * [`listener`] and [`pool`] take in visitors and join them to data channels.
//! * [`services`], [`maps`], [`config`], [`protocol`], [`digest`] and [`backoff`]
//!   are what these are made of.
pub mod backoff;
pub mod channel;
pub mod config;
pub mod digest;
pub mod handshake;
pub mod ingress;
pub mod listener;
pub mod maps;
pub mod pool;
pub mod protocol;
pub mod server;
pub mod services;
