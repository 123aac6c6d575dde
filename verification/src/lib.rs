//! The decision core of a censorship-circumvention proxy: the Drive wire
//! protocol, the relay and client session state machines, block-page
//! detection, and the configuration rules behind the desktop front ends.
//!
//! Everything in this crate is pure computation with proved contracts. The
//! sockets, files, TLS handshakes and widgets live in the application that
//! links it.
pub mod address;
pub mod bot_block;
pub mod camouflage;
pub mod commands;
pub mod config;
pub mod connect;
pub mod custom_params;
pub mod destination;
pub mod drive_client;
pub mod engine;
pub mod filename;
pub mod form;
pub mod frame;
pub mod fronting;
pub mod json;
pub mod lifecycle;
pub mod listing;
pub mod log_filter;
pub mod log_view;
pub mod naming;
pub mod notices;
pub mod numeral;
pub mod panel;
pub mod poll;
pub mod profiles;
pub mod replay;
pub mod schedule;
pub mod session;
pub mod sni;
pub mod text;
pub mod tunnel;
pub mod wire;
