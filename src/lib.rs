//! Local runtime core of a command-line assistant: the session store and
//! request handling of the IPC daemon, the bridge from capability
//! descriptors to function definitions, and the tool authorization gate.

pub mod frame;
pub mod session;
pub mod text;
pub mod bridge;
pub mod gate;
pub mod config;
pub mod server;
