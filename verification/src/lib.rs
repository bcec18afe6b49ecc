//! An IRC announce bot's verified core: a parser for torrent announcement
//! lines, percent-encoding and download-URL construction, command-template
//! substitution, dispatch-outcome classification, and a concurrently readable
//! configuration store whose snapshots pair a configuration with the matcher
//! compiled from exactly that configuration's pattern list.

pub mod config;
pub mod dispatch;
pub mod encode;
pub mod events;
pub mod matcher;
pub mod parser;
pub mod pipeline;
pub mod store;
