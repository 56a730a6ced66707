//! Connection lifecycle and protocol adaptation for outbound data-store calls
//! made by sandboxed guests: allow-list checks, a capacity-bounded table of
//! live connections, the handle-based and address-based call surfaces, and
//! normalization of nested driver replies.

pub mod table;
pub mod types;
pub mod normalize;
pub mod allowed;
pub mod outbound;
pub mod azure;
pub mod sqlite;
pub mod command;
