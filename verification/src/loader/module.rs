//! Builds, and what makes one untrustworthy.

use vstd::prelude::*;

use wasmparser::Parser;

verus! {

/// A build with the place that it came from.
#[derive(Debug)]
pub struct WasmModule {
    pub path: String,
    pub bytes: Vec<u8>,
    /// The digest of the bytes, where it was checked against the ledger.
    pub verified_hash: Option<[u8; 32]>,
}

/// A build as plain values.
pub struct WasmModuleView {
    pub path: Seq<char>,
    pub bytes: Seq<u8>,
    pub verified_hash: Option<Seq<u8>>,
}

/// The bytes of an optional digest.
pub open spec fn hash_view(hash: Option<[u8; 32]>) -> Option<Seq<u8>> {
    match hash {
        Some(h) => Some(h@),
        None => None,
    }
}

impl View for WasmModule {
    type V = WasmModuleView;

    open spec fn view(&self) -> WasmModuleView {
        WasmModuleView {
            path: self.path@,
            bytes: self.bytes@,
            verified_hash: hash_view(self.verified_hash),
        }
    }
}

/// What an integrity check found.
#[derive(Debug, Clone, Copy, PartialEq, Eq, Structural)]
pub enum IntegrityErrorKind {
    /// The bytes do not have the digest that the ledger holds.
    HashMismatch,
    /// The ledger entry is not the one that was asked for.
    KeyMismatch,
}

/// A failed integrity check.
#[derive(Debug)]
pub struct IntegrityError {
    pub kind: IntegrityErrorKind,
    pub details: String,
}

/// What is said of a failed integrity check.
pub open spec fn integrity_message(kind: IntegrityErrorKind, details: Seq<char>) -> Seq<char> {
    match kind {
        IntegrityErrorKind::HashMismatch => "IntegrityError[HashMismatch]: "@ + details,
        IntegrityErrorKind::KeyMismatch => "IntegrityError[KeyMismatch]: "@ + details,
    }
}

impl IntegrityError {
    /// What is said of the failed check.
    pub fn message(&self) -> (r: String)
        ensures
            r@ == integrity_message(self.kind, self.details@),
    {
        let mut out = match self.kind {
            IntegrityErrorKind::HashMismatch => "IntegrityError[HashMismatch]: ".to_string(),
            IntegrityErrorKind::KeyMismatch => "IntegrityError[KeyMismatch]: ".to_string(),
        };
        out.append(self.details.as_str());
        out
    }
}

/// Whether bytes begin as a WASM binary does.
pub open spec fn has_magic(bytes: Seq<u8>) -> bool {
    bytes.len() >= 4 && bytes[0] == 0 && bytes[1] == 0x61 && bytes[2] == 0x73 && bytes[3] == 0x6d
}

pub(crate) fn check_magic(bytes: &Vec<u8>) -> (r: bool)
    ensures
        r == has_magic(bytes@),
{
    bytes.len() >= 4 && bytes[0] == 0 && bytes[1] == 0x61 && bytes[2] == 0x73 && bytes[3] == 0x6d
}

/// What is wrong with the structure of a WASM binary, if anything is.
pub uninterp spec fn structure_fault(bytes: Seq<u8>) -> Option<Seq<char>>;

/// `Parser::parse_all` of a WASM binary: the text of the first error that it
/// gives, if it gives one, which depends on the bytes alone.
#[verifier::external_body]
pub(crate) fn validate_wasm_structure(bytes: &[u8]) -> (r: Option<String>)
    ensures
        crate::diff::opt_view(r) == structure_fault(bytes@),
{
    Parser::new(0).parse_all(bytes).find_map(|payload| payload.err()).map(|e| e.to_string())
}

} // verus!
