//! Wake-on-LAN over HTTP.
//!
//! A machine that is switched off still listens, with its network adapter,
//! for one kind of packet: the magic packet that repeats its own hardware
//! address. This library holds everything about waking a machine that can be
//! said without touching a socket:
//!
//! - `mac`: hardware addresses, read from text and written in canonical form;
//! - `packet`: the magic packet for an address;
//! - `transport`: the datagram that carries it, from where and to where;
//! - `dispatch`: sending it again and again, within bounds;
//! - `handler`: which HTTP requests wake a machine, and what they are
//!   answered;
//! - `hex` and `fields`: digits, and text cut into fields, on which the
//!   reading of addresses rests.
//!
//! Every function states what it returns, and is proved to return it.

pub mod dispatch;
pub mod fields;
pub mod handler;
pub mod hex;
pub mod mac;
pub mod packet;
pub mod transport;

pub use mac::{MacAddr, MacAddrError};
