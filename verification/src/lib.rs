//! An IRC client engine: registration, capability negotiation and SASL as a
//! state machine over inbound lines, and the dispatch of messages to
//! built-in handlers and to CTCP and PRIVMSG responders.

pub mod config;
pub mod ctcp;
pub mod geoip_response;
pub mod irc_ext;
pub mod irc_handler;
pub mod irc_state;
pub mod laws;
pub mod message;
pub mod privmsg;
pub mod text;
