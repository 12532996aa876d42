//! Fetching the build of a deployed contract.
//!
//! A fetch is a sequence of steps. Each step takes what the outside gave (the
//! reply of the endpoint, or what the cache holds) and says what to do next.
//! Nothing that comes from the outside is trusted before it was checked.

use stellar_strkey::Strkey;
use stellar_xdr::curr::ContractDataDurability;
use stellar_xdr::curr::ContractExecutable;
use stellar_xdr::curr::Error;
use stellar_xdr::curr::LedgerEntry;
use stellar_xdr::curr::LedgerEntryData;
use stellar_xdr::curr::LedgerKey;
use stellar_xdr::curr::LedgerKeyContractCode;
use stellar_xdr::curr::LedgerKeyContractData;
use stellar_xdr::curr::Limits;
use stellar_xdr::curr::ReadXdr;
use stellar_xdr::curr::ScAddress;
use stellar_xdr::curr::ScVal;
use stellar_xdr::curr::WriteXdr;
use vstd::prelude::*;

use crate::diff;
use crate::digest;
use crate::limits;
use crate::limits::LimitError;
use crate::limits::ResourcePolicy;
use crate::limits::XdrFault;
use crate::loader::entries;
use crate::loader::entries::EntryFault;
use crate::loader::entries::RpcEntry;
use crate::loader::entries::RpcEntryView;
use crate::loader::module;
use crate::loader::module::IntegrityErrorKind;
use crate::loader::module::WasmModule;
use crate::loader::module::WasmModuleView;
use crate::wasm_cache;
use crate::text;

verus! {

/// What a contract id stands for: the 32 bytes of a contract, or, as an error,
/// the text of the decoder's error, or nothing where it is the id of something
/// else.
pub uninterp spec fn contract_of_id(id: Seq<char>) -> Result<Seq<u8>, Option<Seq<char>>>;

/// The ledger key of a contract's instance in base64, or why it cannot be
/// written within a depth and a length.
pub uninterp spec fn instance_key(contract: Seq<u8>, depth: u32, len: usize) -> Result<
    Seq<char>,
    Seq<char>,
>;

/// The ledger key of the build with a digest in base64, or why it cannot be
/// written within a depth and a length.
pub uninterp spec fn code_key(hash: Seq<u8>, depth: u32, len: usize) -> Result<
    Seq<char>,
    Seq<char>,
>;

/// What a fetch needs of a ledger entry.
#[derive(Debug)]
pub enum LedgerOutline {
    /// A contract that runs the build with a digest.
    WasmInstance([u8; 32]),
    /// A contract that is built into the ledger.
    AssetInstance,
    /// Other data of a contract.
    OtherData,
    /// A build.
    Code(Vec<u8>),
    /// Another entry.
    Other,
}

/// An outline as plain values.
pub enum LedgerView {
    WasmInstance(Seq<u8>),
    AssetInstance,
    OtherData,
    Code(Seq<u8>),
    Other,
}

impl View for LedgerOutline {
    type V = LedgerView;

    open spec fn view(&self) -> LedgerView {
        match self {
            LedgerOutline::WasmInstance(h) => LedgerView::WasmInstance(h@),
            LedgerOutline::AssetInstance => LedgerView::AssetInstance,
            LedgerOutline::OtherData => LedgerView::OtherData,
            LedgerOutline::Code(bytes) => LedgerView::Code(bytes@),
            LedgerOutline::Other => LedgerView::Other,
        }
    }
}

/// What a fetch needs of a ledger entry in base64, or why it cannot be decoded
/// within a depth and a length.
pub uninterp spec fn ledger_entry(b64: Seq<char>, depth: u32, len: usize) -> Result<
    LedgerView,
    (XdrFault, Seq<char>),
>;

/// The values of a decoded contract id.
pub open spec fn contract_view(r: Result<[u8; 32], Option<String>>) -> Result<
    Seq<u8>,
    Option<Seq<char>>,
> {
    match r {
        Ok(b) => Ok(b@),
        Err(e) => Err(diff::opt_view(e)),
    }
}

/// The texts of a result.
pub open spec fn text_view(r: Result<String, String>) -> Result<Seq<char>, Seq<char>> {
    match r {
        Ok(s) => Ok(s@),
        Err(e) => Err(e@),
    }
}

/// The values of a decoded ledger entry.
pub open spec fn ledger_view(r: Result<LedgerOutline, (XdrFault, String)>) -> Result<
    LedgerView,
    (XdrFault, Seq<char>),
> {
    match r {
        Ok(o) => Ok(o@),
        Err((fault, reason)) => Err((fault, reason@)),
    }
}

/// `Strkey::from_string`: the bytes of a contract id; the text of the error for
/// an id that it does not take; nothing for an id of another kind. The result
/// depends on the id alone.
#[verifier::external_body]
fn decode_contract_id(id: &str) -> (r: Result<[u8; 32], Option<String>>)
    ensures
        contract_view(r) == contract_of_id(id@),
{
    match Strkey::from_string(id) {
        Ok(Strkey::Contract(c)) => Ok(c.0),
        Ok(_) => Err(None),
        Err(e) => Err(Some(e.to_string())),
    }
}

/// `LedgerKey::to_xdr_base64` of the key of a contract's instance, within the
/// given limits. The result depends on the arguments alone.
#[verifier::external_body]
fn encode_instance_key(contract: &[u8; 32], depth: u32, len: usize) -> (r: Result<String, String>)
    ensures
        text_view(r) == instance_key(contract@, depth, len),
{
    LedgerKey::ContractData(
        LedgerKeyContractData {
            contract: ScAddress::Contract(stellar_xdr::curr::Hash(*contract)),
            key: ScVal::LedgerKeyContractInstance,
            durability: ContractDataDurability::Persistent,
        },
    ).to_xdr_base64(Limits { depth, len }).map_err(|e| e.to_string())
}

/// `LedgerKey::to_xdr_base64` of the key of a build, within the given limits.
/// The result depends on the arguments alone.
#[verifier::external_body]
fn encode_code_key(hash: &[u8; 32], depth: u32, len: usize) -> (r: Result<String, String>)
    ensures
        text_view(r) == code_key(hash@, depth, len),
{
    let key = LedgerKey::ContractCode(LedgerKeyContractCode { hash: stellar_xdr::curr::Hash(*hash) });
    key.to_xdr_base64(Limits { depth, len }).map_err(|e| e.to_string())
}

/// `LedgerEntry::from_xdr_base64` within the given limits: of the entry, what a
/// fetch needs; of an error, which limit it tells of, or else its text. The
/// result depends on the arguments alone.
#[verifier::external_body]
fn decode_ledger_entry(b64: &str, depth: u32, len: usize) -> (r: Result<
    LedgerOutline,
    (XdrFault, String),
>)
    ensures
        ledger_view(r) == ledger_entry(b64@, depth, len),
{
    match LedgerEntry::from_xdr_base64(b64, Limits { depth, len }).map(|entry| entry.data) {
        Ok(LedgerEntryData::ContractData(data)) => match data.val {
            ScVal::ContractInstance(instance) => match instance.executable {
                ContractExecutable::Wasm(hash) => Ok(LedgerOutline::WasmInstance(hash.0)),
                ContractExecutable::StellarAsset => Ok(LedgerOutline::AssetInstance),
            },
            _ => Ok(LedgerOutline::OtherData),
        },
        Ok(LedgerEntryData::ContractCode(code)) => Ok(LedgerOutline::Code(code.code.to_vec())),
        Ok(_) => Ok(LedgerOutline::Other),
        Err(Error::DepthLimitExceeded) => Err((XdrFault::DepthLimitExceeded, String::new())),
        Err(Error::LengthLimitExceeded) => Err((XdrFault::LengthLimitExceeded, String::new())),
        Err(e) => Err((XdrFault::Malformed, e.to_string())),
    }
}

/// What a fetch is asking for.
#[derive(Debug, Clone, Copy, PartialEq, Eq, Structural)]
pub enum FetchStage {
    /// The contract, to learn the digest of its build.
    Instance,
    /// The build.
    Code,
}

/// Why a fetch fails.
#[derive(Debug)]
pub enum FetchError {
    /// The id is malformed.
    InvalidContractId(String),
    /// The id is of something other than a contract.
    NotAContract,
    /// The ledger key cannot be written within the limits.
    KeyOverLimits(FetchStage, String),
    /// The ledger key cannot be written at all.
    KeyEncoding(FetchStage, String),
    /// The reply has no list of entries.
    NoEntries(FetchStage),
    /// No entry is taken from the reply.
    Entry(FetchStage, EntryFault),
    /// The reply goes over a limit.
    Limit(LimitError),
    /// The entry is malformed.
    BadXdr(FetchStage, String),
    /// The entry is not of the kind that was asked for.
    UnexpectedEntry(FetchStage),
    /// The entry holds other data of the contract.
    NotAnInstance,
    /// The contract is built into the ledger and has no build.
    StellarAsset,
    /// The build does not have the digest that the ledger holds.
    HashMismatch { expected: [u8; 32], computed: [u8; 32] },
    /// The build does not begin as a WASM binary does.
    BadMagic,
    /// The build is malformed further on.
    BadStructure(String),
}

/// An error as plain values.
pub enum FetchErrorView {
    InvalidContractId(Seq<char>),
    NotAContract,
    KeyOverLimits(FetchStage, Seq<char>),
    KeyEncoding(FetchStage, Seq<char>),
    NoEntries(FetchStage),
    Entry(FetchStage, EntryFault),
    Limit(LimitError),
    BadXdr(FetchStage, Seq<char>),
    UnexpectedEntry(FetchStage),
    NotAnInstance,
    StellarAsset,
    HashMismatch(Seq<u8>, Seq<u8>),
    BadMagic,
    BadStructure(Seq<char>),
}

impl View for FetchError {
    type V = FetchErrorView;

    open spec fn view(&self) -> FetchErrorView {
        match self {
            FetchError::InvalidContractId(t) => FetchErrorView::InvalidContractId(t@),
            FetchError::NotAContract => FetchErrorView::NotAContract,
            FetchError::KeyOverLimits(s, t) => FetchErrorView::KeyOverLimits(*s, t@),
            FetchError::KeyEncoding(s, t) => FetchErrorView::KeyEncoding(*s, t@),
            FetchError::NoEntries(s) => FetchErrorView::NoEntries(*s),
            FetchError::Entry(s, f) => FetchErrorView::Entry(*s, *f),
            FetchError::Limit(e) => FetchErrorView::Limit(*e),
            FetchError::BadXdr(s, t) => FetchErrorView::BadXdr(*s, t@),
            FetchError::UnexpectedEntry(s) => FetchErrorView::UnexpectedEntry(*s),
            FetchError::NotAnInstance => FetchErrorView::NotAnInstance,
            FetchError::StellarAsset => FetchErrorView::StellarAsset,
            FetchError::HashMismatch { expected, computed } => FetchErrorView::HashMismatch(
                expected@,
                computed@,
            ),
            FetchError::BadMagic => FetchErrorView::BadMagic,
            FetchError::BadStructure(t) => FetchErrorView::BadStructure(t@),
        }
    }
}

/// What an entry is asked for at a stage.
pub open spec fn stage_label(stage: FetchStage) -> Seq<char> {
    match stage {
        FetchStage::Instance => "contract-instance lookup"@,
        FetchStage::Code => "contract-code lookup"@,
    }
}

fn label_of(stage: FetchStage) -> (r: &'static str)
    ensures
        r@ == stage_label(stage),
{
    match stage {
        FetchStage::Instance => "contract-instance lookup",
        FetchStage::Code => "contract-code lookup",
    }
}

/// What is said of a build that does not have its digest.
pub open spec fn mismatch_details(id: Seq<char>, expected: Seq<u8>, computed: Seq<u8>) -> Seq<
    char,
> {
    "WASM hash mismatch for contract '"@ + id + "': expected "@ + digest::hex_of(expected)
        + ", computed "@ + digest::hex_of(computed)
}

fn mismatch_details_of(id: &str, expected: &[u8; 32], computed: &[u8; 32]) -> (r: String)
    ensures
        r@ == mismatch_details(id@, expected@, computed@),
{
    let mut out = "WASM hash mismatch for contract '".to_string();
    out.append(id);
    out.append("': expected ");
    out.append(digest::hex_encode(expected).as_str());
    out.append(", computed ");
    out.append(digest::hex_encode(computed).as_str());
    out
}

/// What is said of a fetch that fails.
pub open spec fn fetch_message(id: Seq<char>, e: FetchErrorView) -> Seq<char> {
    match e {
        FetchErrorView::InvalidContractId(reason) => "Invalid contract ID '"@ + id + "': "@
            + reason,
        FetchErrorView::NotAContract => "Provided ID '"@ + id + "' is not a valid contract ID"@,
        FetchErrorView::KeyOverLimits(FetchStage::Instance, reason) =>
            "Failed to serialize LedgerKey to base64: "@ + reason,
        FetchErrorView::KeyOverLimits(FetchStage::Code, reason) =>
            "Failed to serialize ContractCode LedgerKey to base64: "@ + reason,
        FetchErrorView::KeyEncoding(FetchStage::Instance, reason) =>
            "Failed to serialize LedgerKey: "@ + reason,
        FetchErrorView::KeyEncoding(FetchStage::Code, reason) =>
            "Failed to serialize code key: "@ + reason,
        FetchErrorView::NoEntries(FetchStage::Instance) =>
            "RPC response did not contain 'entries' array"@,
        FetchErrorView::NoEntries(FetchStage::Code) =>
            "RPC response for contract code did not contain 'entries' array"@,
        FetchErrorView::Entry(stage, fault) => entries::entry_message(stage_label(stage), fault),
        FetchErrorView::Limit(e) => limits::limit_message(e),
        FetchErrorView::BadXdr(FetchStage::Instance, reason) =>
            "Failed to deserialize LedgerEntry XDR: "@ + reason,
        FetchErrorView::BadXdr(FetchStage::Code, reason) =>
            "Failed to deserialize ContractCode LedgerEntry XDR: "@ + reason,
        FetchErrorView::UnexpectedEntry(FetchStage::Instance) =>
            "Unexpected ledger entry type returned for contract instance"@,
        FetchErrorView::UnexpectedEntry(FetchStage::Code) =>
            "Unexpected ledger entry type returned for contract code"@,
        FetchErrorView::NotAnInstance => "Expected ScVal::ContractInstance in contract data"@,
        FetchErrorView::StellarAsset => "Contract '"@ + id
            + "' is a built-in Stellar Asset contract and does not have WASM bytecode"@,
        FetchErrorView::HashMismatch(expected, computed) => module::integrity_message(
            IntegrityErrorKind::HashMismatch,
            mismatch_details(id, expected, computed),
        ),
        FetchErrorView::BadMagic => "Fetched WASM for contract '"@ + id
            + "' has invalid magic bytes"@,
        FetchErrorView::BadStructure(reason) =>
            "WASM validation failed for fetched contract '"@ + id
            + "': Malformed WASM payload encountered: "@ + reason,
    }
}

/// The kind of integrity failure that an error is, where it is one.
pub open spec fn integrity_of(e: FetchErrorView) -> Option<IntegrityErrorKind> {
    match e {
        FetchErrorView::HashMismatch(expected, computed) => Some(IntegrityErrorKind::HashMismatch),
        FetchErrorView::Entry(stage, fault) => entries::integrity_of(fault),
        _ => None,
    }
}

impl FetchError {
    /// What is said of the fetch of a contract that fails.
    pub fn message(&self, contract_id: &str) -> (r: String)
        ensures
            r@ == fetch_message(contract_id@, self@),
    {
        match self {
            FetchError::InvalidContractId(reason) => {
                let mut out = "Invalid contract ID '".to_string();
                out.append(contract_id);
                out.append("': ");
                out.append(reason.as_str());
                out
            },
            FetchError::NotAContract => text::three(
                "Provided ID '",
                contract_id,
                "' is not a valid contract ID",
            ),
            FetchError::KeyOverLimits(FetchStage::Instance, reason) => text::two(
                "Failed to serialize LedgerKey to base64: ",
                reason.as_str(),
            ),
            FetchError::KeyOverLimits(FetchStage::Code, reason) => text::two(
                "Failed to serialize ContractCode LedgerKey to base64: ",
                reason.as_str(),
            ),
            FetchError::KeyEncoding(FetchStage::Instance, reason) => text::two(
                "Failed to serialize LedgerKey: ",
                reason.as_str(),
            ),
            FetchError::KeyEncoding(FetchStage::Code, reason) => text::two(
                "Failed to serialize code key: ",
                reason.as_str(),
            ),
            FetchError::NoEntries(FetchStage::Instance) =>
                "RPC response did not contain 'entries' array".to_string(),
            FetchError::NoEntries(FetchStage::Code) =>
                "RPC response for contract code did not contain 'entries' array".to_string(),
            FetchError::Entry(stage, fault) => {
                let e = entries::EntryError {
                    context: label_of(*stage).to_string(),
                    fault: *fault,
                };
                e.message()
            },
            FetchError::Limit(e) => e.message(),
            FetchError::BadXdr(FetchStage::Instance, reason) => text::two(
                "Failed to deserialize LedgerEntry XDR: ",
                reason.as_str(),
            ),
            FetchError::BadXdr(FetchStage::Code, reason) => text::two(
                "Failed to deserialize ContractCode LedgerEntry XDR: ",
                reason.as_str(),
            ),
            FetchError::UnexpectedEntry(FetchStage::Instance) =>
                "Unexpected ledger entry type returned for contract instance".to_string(),
            FetchError::UnexpectedEntry(FetchStage::Code) =>
                "Unexpected ledger entry type returned for contract code".to_string(),
            FetchError::NotAnInstance =>
                "Expected ScVal::ContractInstance in contract data".to_string(),
            FetchError::StellarAsset => text::three(
                "Contract '",
                contract_id,
                "' is a built-in Stellar Asset contract and does not have WASM bytecode",
            ),
            FetchError::HashMismatch { expected, computed } => text::two(
                "IntegrityError[HashMismatch]: ",
                mismatch_details_of(contract_id, expected, computed).as_str(),
            ),
            FetchError::BadMagic => text::three(
                "Fetched WASM for contract '",
                contract_id,
                "' has invalid magic bytes",
            ),
            FetchError::BadStructure(reason) => {
                let mut out = "WASM validation failed for fetched contract '".to_string();
                out.append(contract_id);
                out.append("': Malformed WASM payload encountered: ");
                out.append(reason.as_str());
                out
            },
        }
    }

    /// The kind of integrity failure that this is, where it is one.
    pub fn integrity_kind(&self) -> (r: Option<IntegrityErrorKind>)
        ensures
            r == integrity_of(self@),
    {
        match self {
            FetchError::HashMismatch { .. } => Some(IntegrityErrorKind::HashMismatch),
            FetchError::Entry(_, EntryFault::NoMatch) => Some(IntegrityErrorKind::KeyMismatch),
            _ => None,
        }
    }
}

/// Where a fetch stands.
#[derive(Debug)]
pub enum FetchState {
    /// It waits for the entry of the contract under a ledger key.
    AwaitInstance { key: String },
    /// It waits for what the cache holds under a digest.
    AwaitCache { hash: [u8; 32] },
    /// It waits for the entry of the build under a ledger key.
    AwaitCode { hash: [u8; 32], key: String },
}

/// A state as plain values.
pub enum FetchStateView {
    AwaitInstance(Seq<char>),
    AwaitCache(Seq<u8>),
    AwaitCode(Seq<u8>, Seq<char>),
}

impl View for FetchState {
    type V = FetchStateView;

    open spec fn view(&self) -> FetchStateView {
        match self {
            FetchState::AwaitInstance { key } => FetchStateView::AwaitInstance(key@),
            FetchState::AwaitCache { hash } => FetchStateView::AwaitCache(hash@),
            FetchState::AwaitCode { hash, key } => FetchStateView::AwaitCode(hash@, key@),
        }
    }
}

/// What the outside gave.
#[derive(Debug)]
pub enum FetchEvent {
    /// The entries of a reply, where it has a list of them.
    Entries(Option<Vec<RpcEntry>>),
    /// The bytes that the cache holds, where it holds any.
    Cached(Option<Vec<u8>>),
}

/// An event as plain values.
pub enum FetchEventView {
    Entries(Option<Seq<RpcEntryView>>),
    Cached(Option<Seq<u8>>),
}

/// The values of a list of entries, where there is one.
pub open spec fn list_view(list: Option<Vec<RpcEntry>>) -> Option<Seq<RpcEntryView>> {
    match list {
        Some(v) => Some(entries::entry_views(v@)),
        None => None,
    }
}

/// The values of bytes, where there are any.
pub open spec fn held_view(bytes: Option<Vec<u8>>) -> Option<Seq<u8>> {
    match bytes {
        Some(v) => Some(v@),
        None => None,
    }
}

impl View for FetchEvent {
    type V = FetchEventView;

    open spec fn view(&self) -> FetchEventView {
        match self {
            FetchEvent::Entries(list) => FetchEventView::Entries(list_view(*list)),
            FetchEvent::Cached(bytes) => FetchEventView::Cached(held_view(*bytes)),
        }
    }
}

/// Whether an event is one that a state waits for.
pub open spec fn awaited(state: FetchStateView, event: FetchEventView) -> bool {
    match state {
        FetchStateView::AwaitCache(hash) => event is Cached,
        _ => event is Entries,
    }
}

/// What to do next.
#[derive(Debug)]
pub enum FetchStep {
    /// To ask the endpoint for the entry under the key of the state.
    Query(FetchState),
    /// To look into the cache for the digest of the state.
    LookUp(FetchState),
    /// To hand the build out. One that did not come from the cache may be stored
    /// in it: it has passed every check.
    Finish { module: WasmModule, from_cache: bool },
}

/// A step as plain values.
pub enum FetchStepView {
    Query(FetchStateView),
    LookUp(FetchStateView),
    Finish(WasmModuleView, bool),
}

impl View for FetchStep {
    type V = FetchStepView;

    open spec fn view(&self) -> FetchStepView {
        match self {
            FetchStep::Query(state) => FetchStepView::Query(state@),
            FetchStep::LookUp(state) => FetchStepView::LookUp(state@),
            FetchStep::Finish { module, from_cache } => FetchStepView::Finish(module@, *from_cache),
        }
    }
}

/// The values of the outcome of a step.
pub open spec fn step_view(r: Result<FetchStep, FetchError>) -> Result<
    FetchStepView,
    FetchErrorView,
> {
    match r {
        Ok(step) => Ok(step@),
        Err(e) => Err(e@),
    }
}

/// The request for a ledger key, from what writing the key gave within the
/// limits and without.
pub open spec fn request(
    limited: Result<Seq<char>, Seq<char>>,
    free: Result<Seq<char>, Seq<char>>,
    stage: FetchStage,
    hash: Seq<u8>,
) -> Result<FetchStepView, FetchErrorView> {
    match limited {
        Err(reason) => Err(FetchErrorView::KeyOverLimits(stage, reason)),
        Ok(_) => match free {
            Err(reason) => Err(FetchErrorView::KeyEncoding(stage, reason)),
            Ok(key) => Ok(
                FetchStepView::Query(
                    match stage {
                        FetchStage::Instance => FetchStateView::AwaitInstance(key),
                        FetchStage::Code => FetchStateView::AwaitCode(hash, key),
                    },
                ),
            ),
        },
    }
}

/// The request for a ledger key, from what writing the key gave within the
/// limits and without.
fn request_key(
    limited: Result<String, String>,
    free: Result<String, String>,
    stage: FetchStage,
    hash: [u8; 32],
) -> (r: Result<FetchStep, FetchError>)
    ensures
        step_view(r) == request(text_view(limited), text_view(free), stage, hash@),
{
    match limited {
        Err(reason) => Err(FetchError::KeyOverLimits(stage, reason)),
        Ok(_) => match free {
            Err(reason) => Err(FetchError::KeyEncoding(stage, reason)),
            Ok(key) => match stage {
                FetchStage::Instance => Ok(FetchStep::Query(FetchState::AwaitInstance { key })),
                FetchStage::Code => Ok(FetchStep::Query(FetchState::AwaitCode { hash, key })),
            },
        },
    }
}

/// The first step of a fetch.
pub open spec fn first_step(id: Seq<char>, policy: ResourcePolicy) -> Result<
    FetchStepView,
    FetchErrorView,
> {
    match contract_of_id(id) {
        Err(Some(reason)) => Err(FetchErrorView::InvalidContractId(reason)),
        Err(None) => Err(FetchErrorView::NotAContract),
        Ok(contract) => request(
            instance_key(contract, policy.max_xdr_depth, policy.max_xdr_len),
            instance_key(contract, u32::MAX, usize::MAX),
            FetchStage::Instance,
            contract,
        ),
    }
}

/// The first step of a fetch: to ask for the contract.
pub fn start_fetch(contract_id: &str, policy: &ResourcePolicy) -> (r: Result<
    FetchStep,
    FetchError,
>)
    ensures
        step_view(r) == first_step(contract_id@, *policy),
{
    match decode_contract_id(contract_id) {
        Err(Some(reason)) => Err(FetchError::InvalidContractId(reason)),
        Err(None) => Err(FetchError::NotAContract),
        Ok(contract) => {
            let limited = encode_instance_key(
                &contract,
                policy.max_xdr_depth,
                policy.max_xdr_len,
            );
            let free = encode_instance_key(&contract, u32::MAX, usize::MAX);
            request_key(limited, free, FetchStage::Instance, contract)
        },
    }
}

/// The request for the build with a digest.
pub open spec fn code_request(hash: Seq<u8>, policy: ResourcePolicy) -> Result<
    FetchStepView,
    FetchErrorView,
> {
    request(
        code_key(hash, policy.max_xdr_depth, policy.max_xdr_len),
        code_key(hash, u32::MAX, usize::MAX),
        FetchStage::Code,
        hash,
    )
}

fn request_code(hash: [u8; 32], policy: &ResourcePolicy) -> (r: Result<FetchStep, FetchError>)
    ensures
        step_view(r) == code_request(hash@, *policy),
{
    let limited = encode_code_key(&hash, policy.max_xdr_depth, policy.max_xdr_len);
    let free = encode_code_key(&hash, u32::MAX, usize::MAX);
    request_key(limited, free, FetchStage::Code, hash)
}

/// The error that a ledger entry that cannot be decoded amounts to.
pub open spec fn decode_error(
    stage: FetchStage,
    fault: XdrFault,
    reason: Seq<char>,
    policy: ResourcePolicy,
) -> FetchErrorView {
    match limits::limit_of_fault(fault, policy) {
        Some(e) => FetchErrorView::Limit(e),
        None => FetchErrorView::BadXdr(stage, reason),
    }
}

fn decode_error_of(
    stage: FetchStage,
    fault: XdrFault,
    reason: String,
    policy: &ResourcePolicy,
) -> (r: FetchError)
    ensures
        r@ == decode_error(stage, fault, reason@, *policy),
{
    match LimitError::from_xdr_error(fault, policy) {
        Some(e) => FetchError::Limit(e),
        None => FetchError::BadXdr(stage, reason),
    }
}

/// The contents of the entry under a ledger key in a reply.
pub open spec fn contents(
    stage: FetchStage,
    list: Option<Seq<RpcEntryView>>,
    key: Seq<char>,
) -> Result<Seq<char>, FetchErrorView> {
    match list {
        None => Err(FetchErrorView::NoEntries(stage)),
        Some(entries) => match entries::found(entries, key) {
            Err(fault) => Err(FetchErrorView::Entry(stage, fault)),
            Ok(i) => Ok(entries[i].xdr->0),
        },
    }
}

fn contents_of(stage: FetchStage, list: Option<Vec<RpcEntry>>, key: &str) -> (r: Result<
    String,
    FetchError,
>)
    ensures
        match r {
            Ok(t) => contents(stage, list_view(list), key@) == Ok::<Seq<char>, FetchErrorView>(t@),
            Err(e) => contents(stage, list_view(list), key@) == Err::<Seq<char>, FetchErrorView>(
                e@,
            ),
        },
{
    match list {
        None => Err(FetchError::NoEntries(stage)),
        Some(all) => {
            let ghost views = entries::entry_views(all@);
            match entries::find_entry_by_key(all.as_slice(), key, label_of(stage)) {
                Err(e) => Err(FetchError::Entry(stage, e.fault)),
                Ok(entry) => {
                    proof {
                        let i = entries::found(views, key@)->Ok_0;
                        entries::a_found_entry_is_the_only_one(views, key@, i);
                        assert(views[i] == entry@);
                    }
                    match &entry.xdr {
                        Some(t) => Ok(t.clone()),
                        None => Err(FetchError::Entry(stage, EntryFault::MissingXdr)),
                    }
                },
            }
        },
    }
}

/// The digest of the build that a contract runs, from its decoded entry.
pub open spec fn instance_hash(
    decoded: Result<LedgerView, (XdrFault, Seq<char>)>,
    policy: ResourcePolicy,
) -> Result<Seq<u8>, FetchErrorView> {
    match decoded {
        Err((fault, reason)) => Err(decode_error(FetchStage::Instance, fault, reason, policy)),
        Ok(LedgerView::WasmInstance(hash)) => Ok(hash),
        Ok(LedgerView::AssetInstance) => Err(FetchErrorView::StellarAsset),
        Ok(LedgerView::OtherData) => Err(FetchErrorView::NotAnInstance),
        Ok(_) => Err(FetchErrorView::UnexpectedEntry(FetchStage::Instance)),
    }
}

/// The digest of the build that a contract runs, from its decoded entry.
pub fn resolve_instance(
    decoded: Result<LedgerOutline, (XdrFault, String)>,
    policy: &ResourcePolicy,
) -> (r: Result<[u8; 32], FetchError>)
    ensures
        match r {
            Ok(hash) => instance_hash(ledger_view(decoded), *policy) == Ok::<
                Seq<u8>,
                FetchErrorView,
            >(hash@),
            Err(e) => instance_hash(ledger_view(decoded), *policy) == Err::<
                Seq<u8>,
                FetchErrorView,
            >(e@),
        },
{
    match decoded {
        Err((fault, reason)) => Err(decode_error_of(FetchStage::Instance, fault, reason, policy)),
        Ok(LedgerOutline::WasmInstance(hash)) => Ok(hash),
        Ok(LedgerOutline::AssetInstance) => Err(FetchError::StellarAsset),
        Ok(LedgerOutline::OtherData) => Err(FetchError::NotAnInstance),
        Ok(_) => Err(FetchError::UnexpectedEntry(FetchStage::Instance)),
    }
}

/// The build that a fetched entry holds.
pub open spec fn fetched_module(id: Seq<char>, bytes: Seq<u8>, hash: Seq<u8>) -> WasmModuleView {
    WasmModuleView { path: "stellar://"@ + id, bytes, verified_hash: Some(hash) }
}

/// What is wrong with the bytes of a build, given their digest and what is wrong
/// with their structure: their size is looked at first, then the digest, then
/// how they begin, then the rest.
pub open spec fn code_fault(
    bytes: Seq<u8>,
    hash: Seq<u8>,
    computed: Seq<u8>,
    structure: Option<Seq<char>>,
    policy: ResourcePolicy,
) -> Option<FetchErrorView> {
    if bytes.len() > policy.max_wasm_size {
        Some(
            FetchErrorView::Limit(
                LimitError::WasmSizeExceeded {
                    limit: policy.max_wasm_size,
                    actual: bytes.len() as usize,
                },
            ),
        )
    } else if computed != hash {
        Some(FetchErrorView::HashMismatch(hash, computed))
    } else if !module::has_magic(bytes) {
        Some(FetchErrorView::BadMagic)
    } else {
        match structure {
            Some(reason) => Some(FetchErrorView::BadStructure(reason)),
            None => None,
        }
    }
}

/// What is wrong with the bytes of a build, given their digest and what is wrong
/// with their structure.
pub fn check_code(
    bytes: &Vec<u8>,
    hash: &[u8; 32],
    computed: &[u8; 32],
    structure: Option<String>,
    policy: &ResourcePolicy,
) -> (r: Option<FetchError>)
    ensures
        match r {
            Some(e) => code_fault(
                bytes@,
                hash@,
                computed@,
                diff::opt_view(structure),
                *policy,
            ) == Some(e@),
            None => code_fault(
                bytes@,
                hash@,
                computed@,
                diff::opt_view(structure),
                *policy,
            ) is None,
        },
{
    if bytes.len() > policy.max_wasm_size {
        return Some(
            FetchError::Limit(
                LimitError::WasmSizeExceeded {
                    limit: policy.max_wasm_size,
                    actual: bytes.len(),
                },
            ),
        );
    }
    if !digest::same_digest(computed, hash) {
        return Some(FetchError::HashMismatch { expected: *hash, computed: *computed });
    }
    if !module::check_magic(bytes) {
        return Some(FetchError::BadMagic);
    }
    match structure {
        Some(reason) => Some(FetchError::BadStructure(reason)),
        None => None,
    }
}

/// The build that a decoded entry holds, once it has passed every check.
pub open spec fn accepted_code(
    id: Seq<char>,
    decoded: Result<LedgerView, (XdrFault, Seq<char>)>,
    hash: Seq<u8>,
    policy: ResourcePolicy,
) -> Result<FetchStepView, FetchErrorView> {
    match decoded {
        Err((fault, reason)) => Err(decode_error(FetchStage::Code, fault, reason, policy)),
        Ok(LedgerView::Code(bytes)) => match code_fault(
            bytes,
            hash,
            digest::sha256(bytes),
            module::structure_fault(bytes),
            policy,
        ) {
            Some(e) => Err(e),
            None => Ok(FetchStepView::Finish(fetched_module(id, bytes, hash), false)),
        },
        Ok(_) => Err(FetchErrorView::UnexpectedEntry(FetchStage::Code)),
    }
}

fn module_of(contract_id: &str, bytes: Vec<u8>, hash: [u8; 32]) -> (r: WasmModule)
    ensures
        r@ == fetched_module(contract_id@, bytes@, hash@),
{
    WasmModule { path: text::two("stellar://", contract_id), bytes, verified_hash: Some(hash) }
}

/// The build that a decoded entry holds, once it has passed every check. A build
/// that is too large is given up before its digest is computed.
pub fn accept_code(
    contract_id: &str,
    decoded: Result<LedgerOutline, (XdrFault, String)>,
    hash: [u8; 32],
    policy: &ResourcePolicy,
) -> (r: Result<FetchStep, FetchError>)
    ensures
        step_view(r) == accepted_code(contract_id@, ledger_view(decoded), hash@, *policy),
{
    match decoded {
        Err((fault, reason)) => Err(decode_error_of(FetchStage::Code, fault, reason, policy)),
        Ok(LedgerOutline::Code(bytes)) => {
            if bytes.len() > policy.max_wasm_size {
                return Err(
                    FetchError::Limit(
                        LimitError::WasmSizeExceeded {
                            limit: policy.max_wasm_size,
                            actual: bytes.len(),
                        },
                    ),
                );
            }
            let computed = digest::sha256_digest(bytes.as_slice());
            let structure = module::validate_wasm_structure(bytes.as_slice());
            match check_code(&bytes, &hash, &computed, structure, policy) {
                Some(e) => Err(e),
                None => Ok(
                    FetchStep::Finish {
                        module: module_of(contract_id, bytes, hash),
                        from_cache: false,
                    },
                ),
            }
        },
        Ok(_) => Err(FetchError::UnexpectedEntry(FetchStage::Code)),
    }
}

/// What to do next, given what the outside gave. Without a cache the fetch goes
/// from the contract to its build; with one it looks there in between.
pub open spec fn next_step(
    id: Seq<char>,
    policy: ResourcePolicy,
    use_cache: bool,
    state: FetchStateView,
    event: FetchEventView,
) -> Result<FetchStepView, FetchErrorView> {
    match state {
        FetchStateView::AwaitInstance(key) => match contents(
            FetchStage::Instance,
            event->Entries_0,
            key,
        ) {
            Err(e) => Err(e),
            Ok(b64) => match instance_hash(
                ledger_entry(b64, policy.max_xdr_depth, policy.max_xdr_len),
                policy,
            ) {
                Err(e) => Err(e),
                Ok(hash) => if use_cache {
                    Ok(FetchStepView::LookUp(FetchStateView::AwaitCache(hash)))
                } else {
                    code_request(hash, policy)
                },
            },
        },
        FetchStateView::AwaitCache(hash) => match event->Cached_0 {
            Some(bytes) if wasm_cache::is_build(hash, bytes) => Ok(
                FetchStepView::Finish(fetched_module(id, bytes, hash), true),
            ),
            _ => code_request(hash, policy),
        },
        FetchStateView::AwaitCode(hash, key) => match contents(
            FetchStage::Code,
            event->Entries_0,
            key,
        ) {
            Err(e) => Err(e),
            Ok(b64) => accepted_code(
                id,
                ledger_entry(b64, policy.max_xdr_depth, policy.max_xdr_len),
                hash,
                policy,
            ),
        },
    }
}

/// What to do next, given what the outside gave.
pub fn continue_fetch(
    contract_id: &str,
    policy: &ResourcePolicy,
    use_cache: bool,
    state: FetchState,
    event: FetchEvent,
) -> (r: Result<FetchStep, FetchError>)
    requires
        awaited(state@, event@),
    ensures
        step_view(r) == next_step(contract_id@, *policy, use_cache, state@, event@),
{
    match state {
        FetchState::AwaitInstance { key } => {
            let list = match event {
                FetchEvent::Entries(list) => list,
                FetchEvent::Cached(_) => None,
            };
            match contents_of(FetchStage::Instance, list, key.as_str()) {
                Err(e) => Err(e),
                Ok(b64) => {
                    let decoded = decode_ledger_entry(
                        b64.as_str(),
                        policy.max_xdr_depth,
                        policy.max_xdr_len,
                    );
                    match resolve_instance(decoded, policy) {
                        Err(e) => Err(e),
                        Ok(hash) => if use_cache {
                            Ok(FetchStep::LookUp(FetchState::AwaitCache { hash }))
                        } else {
                            request_code(hash, policy)
                        },
                    }
                },
            }
        },
        FetchState::AwaitCache { hash } => {
            let held = match event {
                FetchEvent::Cached(held) => held,
                FetchEvent::Entries(_) => None,
            };
            match held {
                Some(bytes) => {
                    let computed = digest::sha256_digest(bytes.as_slice());
                    if digest::same_digest(&computed, &hash) {
                        Ok(
                            FetchStep::Finish {
                                module: module_of(contract_id, bytes, hash),
                                from_cache: true,
                            },
                        )
                    } else {
                        request_code(hash, policy)
                    }
                },
                None => request_code(hash, policy),
            }
        },
        FetchState::AwaitCode { hash, key } => {
            let list = match event {
                FetchEvent::Entries(list) => list,
                FetchEvent::Cached(_) => None,
            };
            match contents_of(FetchStage::Code, list, key.as_str()) {
                Err(e) => Err(e),
                Ok(b64) => {
                    let decoded = decode_ledger_entry(
                        b64.as_str(),
                        policy.max_xdr_depth,
                        policy.max_xdr_len,
                    );
                    accept_code(contract_id, decoded, hash, policy)
                },
            }
        },
    }
}

/// The digest that a state goes by, where it knows one.
pub open spec fn known_hash(state: FetchStateView) -> Option<Seq<u8>> {
    match state {
        FetchStateView::AwaitInstance(key) => None,
        FetchStateView::AwaitCache(hash) => Some(hash),
        FetchStateView::AwaitCode(hash, key) => Some(hash),
    }
}

/// A build is handed out only with bytes that have the digest that the contract
/// declares, wherever the bytes came from. One that came from the endpoint is
/// also within the size limit, begins as a WASM binary does and is well-formed.
pub proof fn a_fetched_build_is_verified(
    id: Seq<char>,
    policy: ResourcePolicy,
    use_cache: bool,
    state: FetchStateView,
    event: FetchEventView,
)
    requires
        next_step(id, policy, use_cache, state, event) matches Ok(FetchStepView::Finish(m, c)),
    ensures
        next_step(id, policy, use_cache, state, event) matches Ok(FetchStepView::Finish(m, c))
            && m.verified_hash == known_hash(state) && m.verified_hash == Some(
            digest::sha256(m.bytes),
        ) && (!c ==> m.bytes.len() <= policy.max_wasm_size && module::has_magic(m.bytes)
            && module::structure_fault(m.bytes) is None),
{
}

/// The cache saves the second request: where it holds the build, the fetch is
/// finished without one, and where it does not, the fetch goes on as without a
/// cache.
pub proof fn the_cache_only_saves_a_request(
    id: Seq<char>,
    policy: ResourcePolicy,
    key: Seq<char>,
    event: FetchEventView,
    held: Option<Seq<u8>>,
    hash: Seq<u8>,
)
    requires
        next_step(id, policy, true, FetchStateView::AwaitInstance(key), event) == Ok::<
            FetchStepView,
            FetchErrorView,
        >(FetchStepView::LookUp(FetchStateView::AwaitCache(hash))),
    ensures
        (held matches Some(bytes) && digest::sha256(bytes) == hash) ==> next_step(
            id,
            policy,
            true,
            FetchStateView::AwaitCache(hash),
            FetchEventView::Cached(held),
        ) == Ok::<FetchStepView, FetchErrorView>(
            FetchStepView::Finish(fetched_module(id, held->0, hash), true),
        ),
        !(held matches Some(bytes) && digest::sha256(bytes) == hash) ==> next_step(
            id,
            policy,
            true,
            FetchStateView::AwaitCache(hash),
            FetchEventView::Cached(held),
        ) == next_step(id, policy, false, FetchStateView::AwaitInstance(key), event),
{
}

} // verus!
