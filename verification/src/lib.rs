//! Verified core of a peer-to-peer LAN file sharing tool: the packet framing,
//! the transfer payloads, the receive-side decisions and the web-share routing.

pub mod discovery;
pub mod file_receiver;
pub mod file_response_sender;
pub mod file_sender;
pub mod ids;
pub mod pages;
pub mod paths;
pub mod protocol;
pub mod receiver;
pub mod session;
pub mod text;
pub mod transport;
pub mod web_server;
