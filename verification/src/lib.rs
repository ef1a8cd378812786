//! A native shell runtime core: the command vocabulary and dispatch rules of a
//! window/view shell driven by a scripting host, the call/response bridge
//! multiplexed over it, the virtual-scheme asset server that injects the
//! bridge bootstrap into HTML, and the length-prefixed duplex transport used
//! when the rendering surface lives in another process.

pub mod bridge;
pub mod bus;
pub mod config;
pub mod events;
pub mod protocol;
pub mod registry;
pub mod state;
pub mod text;
pub mod transport;
pub mod utils;
pub mod webview;
