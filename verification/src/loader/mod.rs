//! Where builds come from, and what is checked before one is trusted.

pub mod entries;
pub mod fetch;
pub mod file;
pub mod module;
pub mod rpc;
pub mod source_laws;
pub mod url;
pub mod url_laws;

pub use entries::find_entry_by_key;
pub use entries::RpcEntry;
pub use module::IntegrityError;
pub use module::IntegrityErrorKind;
pub use module::WasmModule;
pub use url::validate_rpc_url;
