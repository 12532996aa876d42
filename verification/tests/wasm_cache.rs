use std::collections::BTreeMap;

use sha2::Digest;
use soroban_upgrade_safeguard::wasm_cache::WasmCache;

fn fake_wasm(seed: u8) -> Vec<u8> {
    let mut v = vec![0x00, 0x61, 0x73, 0x6d, 0x01, 0x00, 0x00, 0x00];
    v.push(seed);
    v
}

fn hash_of(bytes: &[u8]) -> [u8; 32] {
    sha2::Sha256::digest(bytes).into()
}

fn cache() -> WasmCache {
    WasmCache::at("/cache/wasm".to_string())
}

#[test]
fn a_cache_knows_its_directory() {
    assert_eq!(cache().dir(), "/cache/wasm");
}

#[test]
fn entry_path_is_hex_hash_dot_wasm() {
    let hash = [0xdeu8; 32];
    assert_eq!(
        cache().entry_name(&hash),
        format!("{}.wasm", hex::encode(hash))
    );
    assert_eq!(
        cache().temp_name(&hash),
        format!("{}.wasm.tmp", hex::encode(hash))
    );
}

/// A directory by the names of its files.
struct Files {
    cache: WasmCache,
    files: BTreeMap<String, Vec<u8>>,
}

impl Files {
    fn empty() -> Self {
        Files { cache: cache(), files: BTreeMap::new() }
    }

    fn put(&mut self, hash: &[u8; 32], wasm: &[u8]) {
        let temp = self.cache.temp_name(hash);
        self.files.insert(temp.clone(), wasm.to_vec());
        let written = self.files.remove(&temp).unwrap();
        self.files.insert(self.cache.entry_name(hash), written);
    }

    fn get(&mut self, hash: &[u8; 32]) -> Option<Vec<u8>> {
        let name = self.cache.entry_name(hash);
        let look = self.cache.get(hash, self.files.get(&name).cloned());
        if look.discard {
            self.files.remove(&name);
        }
        look.build
    }
}

#[test]
fn get_returns_none_on_miss() {
    let hash = hash_of(b"nonexistent");
    assert!(Files::empty().get(&hash).is_none());
    let look = cache().get(&hash, None);
    assert!(look.build.is_none());
    assert!(!look.discard);
}

#[test]
fn put_then_get_returns_same_bytes() {
    let mut dir = Files::empty();
    let wasm = fake_wasm(0xAA);
    let hash = hash_of(&wasm);
    dir.put(&hash, &wasm);
    let retrieved = dir.get(&hash).expect("should be a cache hit");
    assert_eq!(retrieved, wasm);
    assert_eq!(dir.files.len(), 1);
}

#[test]
fn two_different_hashes_stored_independently() {
    let mut dir = Files::empty();
    let wasm_a = fake_wasm(0x01);
    let wasm_b = fake_wasm(0x02);
    let hash_a = hash_of(&wasm_a);
    let hash_b = hash_of(&wasm_b);
    assert_ne!(hash_a, hash_b);
    dir.put(&hash_a, &wasm_a);
    dir.put(&hash_b, &wasm_b);
    assert_eq!(dir.get(&hash_a).unwrap(), wasm_a);
    assert_eq!(dir.get(&hash_b).unwrap(), wasm_b);
}

#[test]
fn upgraded_hash_produces_cache_miss() {
    let mut dir = Files::empty();
    let old_wasm = fake_wasm(0x10);
    let new_wasm = fake_wasm(0x20);
    let old_hash = hash_of(&old_wasm);
    let new_hash = hash_of(&new_wasm);
    dir.put(&old_hash, &old_wasm);
    assert!(dir.get(&new_hash).is_none());
    assert_eq!(dir.get(&old_hash).unwrap(), old_wasm);
}

#[test]
fn tampered_cache_entry_is_rejected() {
    let mut dir = Files::empty();
    let wasm = fake_wasm(0x42);
    let hash = hash_of(&wasm);
    dir.put(&hash, &wasm);
    let path = cache().entry_name(&hash);
    dir.files.insert(path.clone(), b"corrupted data".to_vec());
    assert!(dir.get(&hash).is_none());
    assert!(
        !dir.files.contains_key(&path),
        "corrupt cache entry should be removed"
    );
    assert!(cache().get(&hash, Some(fake_wasm(0x43))).discard);
}

#[test]
fn putting_same_bytes_twice_is_idempotent() {
    let mut dir = Files::empty();
    let wasm = fake_wasm(0xBB);
    let hash = hash_of(&wasm);
    dir.put(&hash, &wasm);
    dir.put(&hash, &wasm);
    assert_eq!(dir.get(&hash).unwrap(), wasm);
    assert_eq!(dir.files.len(), 1);
}

#[test]
fn a_look_leaves_other_builds_alone() {
    let mut dir = Files::empty();
    let kept = fake_wasm(0x05);
    let changed = hash_of(&fake_wasm(0x06));
    dir.put(&hash_of(&kept), &kept);
    dir.put(&changed, b"something else");
    assert!(dir.get(&changed).is_none());
    assert_eq!(dir.get(&hash_of(&kept)), Some(kept));
    assert_eq!(dir.files.len(), 1);
}

#[test]
fn different_builds_have_different_files() {
    let a = hash_of(&fake_wasm(0x01));
    let b = hash_of(&fake_wasm(0x02));
    assert_ne!(a, b);
    assert_ne!(cache().entry_name(&a), cache().entry_name(&b));
}
