//! The verified core of an operator/agent remote-administration control
//! plane: the wire codec, the session registry and its proxy tables, the
//! HTTP dispatch rules, and the SOCKS5 negotiation, each with a contract.

pub mod error;
pub mod text;
pub mod types;
pub mod addr;
pub mod registry;
pub mod session;
pub mod codec;
pub mod web;
pub mod web_client;
pub mod web_server;
pub mod cli;
pub mod socks5;
pub mod command;
