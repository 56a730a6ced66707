//! Values and errors exchanged with guests and with the driver.

use vstd::prelude::*;

verus! {

/// Errors of the handle-based surface.
#[derive(Debug, Clone, PartialEq, Eq)]
pub enum Error {
    /// The address is not allowed by the policy, or cannot be read as an address.
    InvalidAddress,
    /// The connection table is full.
    TooManyConnections,
    /// The operation was applied to a key that holds a value of another kind.
    TypeError,
    /// Any other failure, with a message.
    Other(String),
    /// The handle names no live connection.
    NotFound,
}

/// The single error of the address-based legacy surface.
#[derive(Debug, Clone, Copy, PartialEq, Eq)]
pub enum LegacyError {
    Error,
}

/// An argument of a raw command.
#[derive(Debug, Clone, PartialEq, Eq)]
pub enum RedisParameter {
    Int64(i64),
    Binary(Vec<u8>),
}

/// A typed leaf value of a reply.
#[derive(Debug, Clone, PartialEq, Eq)]
pub enum RedisResult {
    Nil,
    Status(String),
    Int64(i64),
    Binary(Vec<u8>),
}

/// A reply as the driver delivers it: scalars, markers, and nested sequences.
#[derive(Debug, PartialEq, Eq)]
pub enum Reply {
    /// No value.
    Nil,
    /// An integer.
    Int(i64),
    /// Binary data.
    Data(Vec<u8>),
    /// A nested sequence of replies.
    Bulk(Vec<Reply>),
    /// A status line.
    Status(String),
    /// The acknowledgement `OK`.
    Okay,
}

/// A failed driver call, as the driver reports it: whether the server
/// refused the command because the key holds a value of another kind, and
/// the driver's message.
#[derive(Debug, Clone, PartialEq, Eq)]
pub struct DriverFailure {
    pub type_mismatch: bool,
    pub message: String,
}

} // verus!
