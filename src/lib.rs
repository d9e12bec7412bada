//! Authenticated, encrypted RPC framing in the CurveCP shape: a four-frame
//! handshake (Hello, Welcome, Initiate, Ready) followed by sealed Message
//! frames, a length-prefixed wire codec, and a server-side dispatcher.
pub mod auth;
pub mod client;
mod clock;
pub mod codec;
pub mod crypto;
pub mod engine;
pub mod errors;
pub mod frame;
pub mod handler;
pub mod message;
pub mod pairing;
pub mod route;
pub mod server;
pub mod session;
pub mod store;
pub mod system;

pub use client::Session as ClientSession;
pub use server::Session as ServerSession;
pub use system::AngelSystem;
