//! A verified bridge between a message-dispatch call surface and a set of
//! filesystem and process-environment operations.
//!
//! The crate models the state those operations act on — a tree of
//! directories and files (`filesystem::FileSystem`) and the process
//! environment (`environment::ProcessEnv`) — and gives every operation an
//! exact contract: which inputs succeed, which error each failing input
//! produces, and how the state changes. The `bridge` module translates each
//! operation's outcome into the uniform success/failure shape that a
//! cross-boundary caller receives, and `registry` maps stable operation
//! names to operations. The `laws` module states and proves the library's
//! round-trip and isolation properties.

pub mod bridge;
pub mod environment;
pub mod errors;
pub mod filesystem;
pub mod laws;
pub mod path;
pub mod registry;
