//! What is checked of a build that is read from disk.

use vstd::prelude::*;

use crate::limits::LimitError;
use crate::limits::ResourcePolicy;
use crate::loader::module;
use crate::loader::module::WasmModule;
use crate::loader::module::WasmModuleView;
use crate::text;

verus! {

/// Fails on a build that is larger than the policy allows. The size is known
/// before anything of the build is read.
pub fn check_wasm_size(size: usize, policy: &ResourcePolicy) -> (r: Result<(), LimitError>)
    ensures
        r is Ok <==> size <= policy.max_wasm_size,
        r matches Err(e) ==> e == (LimitError::WasmSizeExceeded {
            limit: policy.max_wasm_size,
            actual: size,
        }),
{
    if size > policy.max_wasm_size {
        Err(LimitError::WasmSizeExceeded { limit: policy.max_wasm_size, actual: size })
    } else {
        Ok(())
    }
}

/// Why the contents of a file are no build.
#[derive(Debug)]
pub enum FileFault {
    /// They do not begin as a WASM binary does.
    BadMagic,
    /// They are malformed further on.
    BadStructure(String),
}

/// A fault as plain text.
pub enum FileFaultView {
    BadMagic,
    BadStructure(Seq<char>),
}

impl View for FileFault {
    type V = FileFaultView;

    open spec fn view(&self) -> FileFaultView {
        match self {
            FileFault::BadMagic => FileFaultView::BadMagic,
            FileFault::BadStructure(reason) => FileFaultView::BadStructure(reason@),
        }
    }
}

/// A file that is no build.
#[derive(Debug)]
pub struct FileError {
    pub path: String,
    pub fault: FileFault,
}

/// What is said of a file that is no build.
pub open spec fn file_message(path: Seq<char>, fault: FileFaultView) -> Seq<char> {
    match fault {
        FileFaultView::BadMagic => "'"@ + path
            + "' does not appear to be a valid WASM binary (bad magic bytes)"@,
        FileFaultView::BadStructure(reason) => "WASM validation failed for '"@ + path
            + "': Malformed WASM payload encountered: "@ + reason,
    }
}

impl FileError {
    /// What is said of the file.
    pub fn message(&self) -> (r: String)
        ensures
            r@ == file_message(self.path@, self.fault@),
    {
        match &self.fault {
            FileFault::BadMagic => text::three(
                "'",
                self.path.as_str(),
                "' does not appear to be a valid WASM binary (bad magic bytes)",
            ),
            FileFault::BadStructure(reason) => {
                let mut out = "WASM validation failed for '".to_string();
                out.append(self.path.as_str());
                out.append("': Malformed WASM payload encountered: ");
                out.append(reason.as_str());
                out
            },
        }
    }
}

/// What is said of a directory in place of a file.
pub open spec fn directory_text(path: Seq<char>) -> Seq<char> {
    "'"@ + path + "' is a directory, not a WASM file"@
}

/// What is said of a directory in place of a file.
pub fn directory_message(path: &str) -> (r: String)
    ensures
        r@ == directory_text(path@),
{
    text::three("'", path, "' is a directory, not a WASM file")
}

/// What is wrong with the contents of a file, given what is wrong with their
/// structure.
pub open spec fn file_fault(bytes: Seq<u8>, structure: Option<Seq<char>>) -> Option<FileFaultView> {
    if !module::has_magic(bytes) {
        Some(FileFaultView::BadMagic)
    } else {
        match structure {
            Some(reason) => Some(FileFaultView::BadStructure(reason)),
            None => None,
        }
    }
}

/// A build from a file: its contents as they are, with no digest checked.
pub open spec fn file_module(path: Seq<char>, bytes: Seq<u8>) -> WasmModuleView {
    WasmModuleView { path, bytes, verified_hash: None }
}

/// Takes the contents of a file as a build, given what is wrong with their
/// structure.
pub fn accept_contents(path: &str, bytes: Vec<u8>, structure: Option<String>) -> (r: Result<
    WasmModule,
    FileError,
>)
    ensures
        match r {
            Ok(m) => file_fault(bytes@, crate::diff::opt_view(structure)) is None && m@
                == file_module(path@, bytes@),
            Err(e) => file_fault(bytes@, crate::diff::opt_view(structure)) == Some(e.fault@)
                && e.path@ == path@,
        },
{
    if !module::check_magic(&bytes) {
        return Err(FileError { path: path.to_string(), fault: FileFault::BadMagic });
    }
    match structure {
        Some(reason) => Err(
            FileError { path: path.to_string(), fault: FileFault::BadStructure(reason) },
        ),
        None => Ok(WasmModule { path: path.to_string(), bytes, verified_hash: None }),
    }
}

/// Takes the contents of a file as a build: they begin as a WASM binary does and
/// are well-formed to the end.
pub fn accept_file(path: &str, bytes: Vec<u8>) -> (r: Result<WasmModule, FileError>)
    ensures
        match r {
            Ok(m) => file_fault(bytes@, module::structure_fault(bytes@)) is None && m@
                == file_module(path@, bytes@),
            Err(e) => file_fault(bytes@, module::structure_fault(bytes@)) == Some(e.fault@)
                && e.path@ == path@,
        },
{
    let structure = module::validate_wasm_structure(bytes.as_slice());
    accept_contents(path, bytes, structure)
}

} // verus!
