//! The error taxonomy: every failure a call can end in, as one closed set,
//! and the server-reported RPC error record.

use vstd::prelude::*;

use crate::json::jval_of;
use crate::json::JVal;
use crate::json::Json;

verus! {

/// A server-reported RPC error: a signed code, a message, and optional
/// further data. It is carried through unchanged so callers can branch on
/// server-defined meanings.
#[derive(Debug, PartialEq)]
pub struct RpcError {
    /// The error code the server chose.
    pub code: i32,
    /// The server's message.
    pub message: String,
    /// Additional context, when the server sent any.
    pub data: Option<Json>,
}

/// The mathematical shape of an RPC error.
pub ghost struct RpcErrorV {
    pub code: int,
    pub message: Seq<char>,
    pub data: Option<JVal>,
}

impl View for RpcError {
    type V = RpcErrorV;

    open spec fn view(&self) -> RpcErrorV {
        RpcErrorV {
            code: self.code as int,
            message: self.message@,
            data: match self.data {
                Some(d) => Some(jval_of(d)),
                None => None,
            },
        }
    }
}

impl DeepView for RpcError {
    type V = RpcErrorV;

    open spec fn deep_view(&self) -> RpcErrorV {
        self.view()
    }
}

impl RpcError {
    /// A structural copy of this error.
    pub fn deep_clone(&self) -> (r: RpcError)
        ensures
            r@ == self@,
    {
        RpcError {
            code: self.code,
            message: self.message.clone(),
            data: match &self.data {
                Some(d) => Some(d.deep_clone()),
                None => None,
            },
        }
    }
}

/// Every failure a call can end in. Each is terminal for the call that
/// produced it: this layer never retries.
#[derive(Debug, PartialEq)]
pub enum Error {
    /// A reply could not be parsed, or a field did not have the shape the
    /// protocol requires.
    Decode,
    /// The underlying send or receive failed; the text describes how.
    Transport(String),
    /// The server reply carried an error object, which is kept unchanged.
    Rpc(RpcError),
    /// The reply carried neither a result nor an error.
    NoErrorOrResult,
    /// The reply's `jsonrpc` field was present and not `"2.0"`.
    VersionMismatch,
    /// The reply's `id` did not equal the request's.
    NonceMismatch,
}

/// The mathematical shape of an error.
pub ghost enum ErrorV {
    Decode,
    Transport(Seq<char>),
    Rpc(RpcErrorV),
    NoErrorOrResult,
    VersionMismatch,
    NonceMismatch,
}

impl View for Error {
    type V = ErrorV;

    open spec fn view(&self) -> ErrorV {
        match self {
            Error::Decode => ErrorV::Decode,
            Error::Transport(s) => ErrorV::Transport(s@),
            Error::Rpc(e) => ErrorV::Rpc(e@),
            Error::NoErrorOrResult => ErrorV::NoErrorOrResult,
            Error::VersionMismatch => ErrorV::VersionMismatch,
            Error::NonceMismatch => ErrorV::NonceMismatch,
        }
    }
}

impl DeepView for Error {
    type V = ErrorV;

    open spec fn deep_view(&self) -> ErrorV {
        self.view()
    }
}

} // verus!
