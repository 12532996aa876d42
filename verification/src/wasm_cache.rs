//! A cache of builds on disk, by digest.
//!
//! A build never changes once its digest is known, so a build in the cache can
//! be used again as long as its bytes still have that digest.

use vstd::prelude::*;

use crate::digest;
use crate::text;

verus! {

/// A cache of builds in a directory.
#[derive(Debug)]
pub struct WasmCache {
    dir: String,
}

impl View for WasmCache {
    type V = Seq<char>;

    closed spec fn view(&self) -> Seq<char> {
        self.dir@
    }
}

/// The name of the file that holds the build with a digest.
pub open spec fn file_name(hash: Seq<u8>) -> Seq<char> {
    digest::hex_of(hash) + ".wasm"@
}

/// The name of the file that a build is written to before it takes its place.
pub open spec fn temp_name(hash: Seq<u8>) -> Seq<char> {
    digest::hex_of(hash) + ".wasm.tmp"@
}

/// Whether bytes are the build with a digest.
pub open spec fn is_build(hash: Seq<u8>, bytes: Seq<u8>) -> bool {
    digest::sha256(bytes) == hash
}

/// What a look into the cache comes to.
#[derive(Debug)]
pub struct CacheLook {
    /// The build, where the cache holds it unchanged.
    pub build: Option<Vec<u8>>,
    /// Whether the file that was looked at is to be removed.
    pub discard: bool,
}

/// The bytes of what may be there.
pub open spec fn bytes_view(b: Option<Vec<u8>>) -> Option<Seq<u8>> {
    match b {
        Some(v) => Some(v@),
        None => None,
    }
}

/// The build that is taken from what is stored under a digest.
pub open spec fn taken_build(hash: Seq<u8>, stored: Option<Seq<u8>>) -> Option<Seq<u8>> {
    match stored {
        Some(b) if is_build(hash, b) => Some(b),
        _ => None,
    }
}

/// Whether what is stored under a digest was changed, and goes.
pub open spec fn is_discarded(hash: Seq<u8>, stored: Option<Seq<u8>>) -> bool {
    stored matches Some(b) && !is_build(hash, b)
}

/// What the file of a digest holds, where the directory has one. A directory is
/// the contents of its files by name.
pub open spec fn stored_in(files: Map<Seq<char>, Seq<u8>>, hash: Seq<u8>) -> Option<Seq<u8>> {
    if files.dom().contains(file_name(hash)) {
        Some(files[file_name(hash)])
    } else {
        None
    }
}

/// The directory after a look for the build with a digest.
pub open spec fn after_get(files: Map<Seq<char>, Seq<u8>>, hash: Seq<u8>) -> Map<
    Seq<char>,
    Seq<u8>,
> {
    if is_discarded(hash, stored_in(files, hash)) {
        files.remove(file_name(hash))
    } else {
        files
    }
}

/// The directory after a build was stored: it is written beside its place, and
/// that file takes the place.
pub open spec fn after_put(
    files: Map<Seq<char>, Seq<u8>>,
    hash: Seq<u8>,
    bytes: Seq<u8>,
) -> Map<Seq<char>, Seq<u8>> {
    let written = files.insert(temp_name(hash), bytes);
    written.remove(temp_name(hash)).insert(file_name(hash), written[temp_name(hash)])
}

impl WasmCache {
    /// The cache in a directory.
    pub fn at(dir: String) -> (r: Self)
        ensures
            r@ == dir@,
    {
        WasmCache { dir }
    }

    /// The directory of the cache.
    pub fn dir(&self) -> (r: &str)
        ensures
            r@ == self@,
    {
        self.dir.as_str()
    }

    /// The name of the file that holds the build with a digest.
    pub fn entry_name(&self, code_hash: &[u8; 32]) -> (r: String)
        ensures
            r@ == file_name(code_hash@),
    {
        text::two(digest::hex_encode(code_hash).as_str(), ".wasm")
    }

    /// The name of the file that a build is written to before it takes its
    /// place, so that no reader sees half of it.
    pub fn temp_name(&self, code_hash: &[u8; 32]) -> (r: String)
        ensures
            r@ == temp_name(code_hash@),
    {
        text::two(digest::hex_encode(code_hash).as_str(), ".wasm.tmp")
    }

    /// What a look for the build with a digest comes to, where `stored` is what
    /// the file of that digest holds, if there is one. A build is taken unless it
    /// was changed; a file that was changed is to be removed.
    pub fn get(&self, code_hash: &[u8; 32], stored: Option<Vec<u8>>) -> (r: CacheLook)
        ensures
            bytes_view(r.build) == taken_build(code_hash@, bytes_view(stored)),
            r.discard == is_discarded(code_hash@, bytes_view(stored)),
    {
        match stored {
            None => CacheLook { build: None, discard: false },
            Some(bytes) => {
                let computed = digest::sha256_digest(bytes.as_slice());
                if digest::same_digest(&computed, code_hash) {
                    CacheLook { build: Some(bytes), discard: false }
                } else {
                    CacheLook { build: None, discard: true }
                }
            },
        }
    }
}

/// Builds with different digests do not get in each other's way.
pub proof fn different_digests_have_different_files(a: Seq<u8>, b: Seq<u8>)
    requires
        a != b,
    ensures
        file_name(a) != file_name(b),
{
    if file_name(a) == file_name(b) {
        let x = digest::hex_of(a);
        let y = digest::hex_of(b);
        assert(file_name(a).len() == x.len() + ".wasm"@.len());
        assert(file_name(b).len() == y.len() + ".wasm"@.len());
        assert(x =~= file_name(a).take(x.len() as int));
        assert(y =~= file_name(b).take(y.len() as int));
        digest::hex_text_determines_the_bytes(a, b);
    }
}

/// A build that is being written is never taken for one that is in its place.
pub proof fn unfinished_files_are_not_looked_at(a: Seq<u8>, b: Seq<u8>)
    ensures
        file_name(a) != temp_name(b),
{
    reveal_strlit(".wasm");
    reveal_strlit(".wasm.tmp");
    assert(file_name(a).last() == 'm');
    assert(temp_name(b).last() == 'p');
}

/// A look gives the build as it is stored where it is unchanged, and leaves the
/// directory as it was; a changed build is not given, and is gone afterwards;
/// where nothing is stored, nothing is given. Other builds stay as they are.
pub proof fn a_look_drops_nothing_but_changed_builds(
    files: Map<Seq<char>, Seq<u8>>,
    hash: Seq<u8>,
    other: Seq<u8>,
)
    ensures
        match stored_in(files, hash) {
            Some(b) if digest::sha256(b) == hash => taken_build(hash, stored_in(files, hash))
                == Some(b) && after_get(files, hash) == files,
            Some(b) => taken_build(hash, stored_in(files, hash)) is None && stored_in(
                after_get(files, hash),
                hash,
            ) is None,
            None => taken_build(hash, stored_in(files, hash)) is None && after_get(files, hash)
                == files,
        },
        other != hash ==> stored_in(after_get(files, hash), other) == stored_in(files, other),
{
    if other != hash {
        different_digests_have_different_files(hash, other);
    }
}

/// What was stored under its own digest is found again, and storing it changes
/// no other build.
pub proof fn a_stored_build_is_found(
    files: Map<Seq<char>, Seq<u8>>,
    bytes: Seq<u8>,
    other: Seq<u8>,
)
    ensures
        ({
            let hash = digest::sha256(bytes);
            let after = after_put(files, hash, bytes);
            &&& stored_in(after, hash) == Some(bytes)
            &&& taken_build(hash, stored_in(after, hash)) == Some(bytes)
            &&& other != hash ==> stored_in(after, other) == stored_in(files, other)
        }),
{
    let hash = digest::sha256(bytes);
    unfinished_files_are_not_looked_at(other, hash);
    if other != hash {
        different_digests_have_different_files(hash, other);
    }
}

/// Storing a build a second time changes nothing.
pub proof fn storing_twice_is_storing_once(
    files: Map<Seq<char>, Seq<u8>>,
    hash: Seq<u8>,
    bytes: Seq<u8>,
)
    ensures
        after_put(after_put(files, hash, bytes), hash, bytes) == after_put(files, hash, bytes),
{
    unfinished_files_are_not_looked_at(hash, hash);
    assert(after_put(after_put(files, hash, bytes), hash, bytes) =~= after_put(
        files,
        hash,
        bytes,
    ));
}

} // verus!
