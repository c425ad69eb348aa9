//! Pipeline logic of a screen and window capture viewer: source selection,
//! the buffer pool, the capture session and frame state machines and the
//! placement of the captured image inside the viewer's window.
//!
//! The crate holds no I/O. Handlers take protocol notifications as plain
//! values, update the state and return what has to be sent.

pub mod find;
pub mod geometry;
pub mod globals;
pub mod laws;
pub mod layout;
pub mod order;
pub mod pipeline;
pub mod pool;
pub mod session;
pub mod sources;
pub mod state;
pub mod wire;
