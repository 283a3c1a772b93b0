//! A peer-to-peer, end-to-end encrypted chat.
//!
//! - `identity`, `key_exchange`, `crypto` and `invite` are the core: device identities, key
//!   agreement, sealed messages, and the invites that bring two devices together.
//! - `session` is the protocol between the two devices, and `address` says where an invite leads.
//! - `socks`, `control`, `cookie` and `tor` are the protocols and rules for reaching a device
//!   through Tor.
//! - `desktop` is the state of the window.
//! - `encoding`, `json`, `digits`, `text` and `bytes` say what the formats are that all of this is
//!   written in.
//! - `primitives` holds the outside functions that the library calls, with what they are trusted
//!   to do.

pub mod address;
pub mod bytes;
pub mod control;
pub mod cookie;
pub mod crypto;
pub mod desktop;
pub mod digits;
pub mod encoding;
pub mod error;
pub mod identity;
pub mod invite;
pub mod json;
pub mod key_exchange;
pub mod language;
pub mod primitives;
pub mod session;
pub mod socks;
pub mod text;
pub mod tor;

pub use crypto::{EncryptedMessage, SessionKey};
pub use error::FaunaError;
pub use identity::{DeviceIdentity, PeerId};
pub use invite::Invite;
pub use key_exchange::ExchangeKeypair;
