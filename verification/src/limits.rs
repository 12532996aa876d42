//! The limits within which untrusted input is decoded.

use vstd::prelude::*;

use crate::text;

verus! {

/// How much of an input the tool is willing to decode.
#[derive(Debug, Clone, Copy, PartialEq, Eq, Structural)]
pub struct ResourcePolicy {
    /// XDR nesting depth of one entry.
    pub max_xdr_depth: u32,
    /// Bytes decoded of one custom section.
    pub max_xdr_len: usize,
    /// Decoded spec entries of all sections together.
    pub max_entries: usize,
    /// Depth of a walk through a type.
    pub max_walk_depth: usize,
    /// Bytes of a WASM binary.
    pub max_wasm_size: usize,
    /// Seconds that one request to an RPC endpoint may take; zero means any
    /// number of them.
    pub rpc_timeout_secs: u64,
}

/// The limits that hold where none are configured.
pub open spec fn default_policy() -> ResourcePolicy {
    ResourcePolicy {
        max_xdr_depth: 64,
        max_xdr_len: 33554432,
        max_entries: 100000,
        max_walk_depth: 128,
        max_wasm_size: 67108864,
        rpc_timeout_secs: 30,
    }
}

impl Default for ResourcePolicy {
    fn default() -> (r: Self)
        ensures
            r == default_policy(),
    {
        ResourcePolicy {
            max_xdr_depth: 64,
            max_xdr_len: 33554432,
            max_entries: 100000,
            max_walk_depth: 128,
            max_wasm_size: 67108864,
            rpc_timeout_secs: 30,
        }
    }
}

/// Why the XDR decoder gave an input up.
#[derive(Debug, Clone, Copy, PartialEq, Eq, Structural)]
pub enum XdrFault {
    /// The input is nested deeper than the decoder may follow.
    DepthLimitExceeded,
    /// The input is longer than the decoder may read.
    LengthLimitExceeded,
    /// The input is malformed.
    Malformed,
}

/// A limit that an input went over.
#[derive(Debug, Clone, Copy, PartialEq, Eq, Structural)]
pub enum LimitError {
    XdrDepthExceeded { depth: u32 },
    XdrLengthExceeded { limit: usize },
    WasmSizeExceeded { limit: usize, actual: usize },
}

/// The limit that an XDR fault tells of, where it tells of one.
pub open spec fn limit_of_fault(fault: XdrFault, policy: ResourcePolicy) -> Option<LimitError> {
    match fault {
        XdrFault::DepthLimitExceeded => Some(
            LimitError::XdrDepthExceeded { depth: policy.max_xdr_depth },
        ),
        XdrFault::LengthLimitExceeded => Some(
            LimitError::XdrLengthExceeded { limit: policy.max_xdr_len },
        ),
        XdrFault::Malformed => None,
    }
}

/// What a limit error says.
pub open spec fn limit_message(e: LimitError) -> Seq<char> {
    match e {
        LimitError::XdrDepthExceeded { depth } => "XDR nesting exceeds the limit of "@
            + text::decimal(depth as nat) + " levels. Raise max_xdr_depth to accept this input."@,
        LimitError::XdrLengthExceeded { limit } => "XDR length exceeds the limit of "@
            + text::decimal(limit as nat) + " bytes. Raise max_xdr_len to accept this input."@,
        LimitError::WasmSizeExceeded { limit, actual } => "WASM size of "@ + text::decimal(
            actual as nat,
        ) + " bytes exceeds the limit of "@ + text::decimal(limit as nat)
            + " bytes. Raise max_wasm_size to accept this input."@,
    }
}

impl LimitError {
    /// The limit that an XDR fault tells of, where it tells of one.
    pub fn from_xdr_error(fault: XdrFault, policy: &ResourcePolicy) -> (r: Option<LimitError>)
        ensures
            r == limit_of_fault(fault, *policy),
    {
        match fault {
            XdrFault::DepthLimitExceeded => Some(
                LimitError::XdrDepthExceeded { depth: policy.max_xdr_depth },
            ),
            XdrFault::LengthLimitExceeded => Some(
                LimitError::XdrLengthExceeded { limit: policy.max_xdr_len },
            ),
            XdrFault::Malformed => None,
        }
    }

    /// What this error says.
    pub fn message(&self) -> (r: String)
        ensures
            r@ == limit_message(*self),
    {
        match self {
            LimitError::XdrDepthExceeded { depth } => {
                let mut out = "XDR nesting exceeds the limit of ".to_string();
                out.append(text::decimal_text(*depth as u64).as_str());
                out.append(" levels. Raise max_xdr_depth to accept this input.");
                out
            },
            LimitError::XdrLengthExceeded { limit } => {
                let mut out = "XDR length exceeds the limit of ".to_string();
                out.append(text::decimal_text(*limit as u64).as_str());
                out.append(" bytes. Raise max_xdr_len to accept this input.");
                out
            },
            LimitError::WasmSizeExceeded { limit, actual } => {
                let mut out = "WASM size of ".to_string();
                out.append(text::decimal_text(*actual as u64).as_str());
                out.append(" bytes exceeds the limit of ");
                out.append(text::decimal_text(*limit as u64).as_str());
                out.append(" bytes. Raise max_wasm_size to accept this input.");
                out
            },
        }
    }
}

} // verus!
