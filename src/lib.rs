//! Real-time relay core of a private family messaging backend: the session
//! authority, the chat connection registry and the call-signalling hub, with
//! the account and upload checks around them.

pub mod text;
pub mod clock;
pub mod identity;
pub mod signal;
pub mod hub;
pub mod registry;
pub mod session;
pub mod cookie;
pub mod account;
pub mod upload;
pub mod link;
