//! What is accepted from the outside, and what is said of the rest.

use vstd::prelude::*;

use crate::digest;
use crate::limits;
use crate::limits::LimitError;
use crate::limits::ResourcePolicy;
use crate::limits::XdrFault;
use crate::loader::entries;
use crate::loader::entries::EntryFault;
use crate::loader::entries::RpcEntryView;
use crate::loader::fetch;
use crate::loader::fetch::FetchErrorView;
use crate::loader::fetch::FetchEventView;
use crate::loader::fetch::FetchStage;
use crate::loader::fetch::FetchStateView;
use crate::loader::fetch::FetchStepView;
use crate::loader::fetch::LedgerView;
use crate::loader::file;
use crate::loader::file::FileFaultView;
use crate::loader::module;
use crate::loader::module::IntegrityErrorKind;
use crate::loader::rpc;
use crate::text;

verus! {

/// The entries of a reply that have a key.
pub open spec fn with_key(entries: Seq<RpcEntryView>, key: Seq<char>) -> Seq<RpcEntryView> {
    entries.filter(|e: RpcEntryView| e.key == Some(key))
}

/// Whether every entry of a reply has a key and contents.
pub open spec fn is_whole(entries: Seq<RpcEntryView>) -> bool {
    forall|j: int|
        0 <= j < entries.len() ==> (#[trigger] entries[j]).key is Some && entries[j].xdr is Some
}

proof fn lemma_matches_are_filtered(entries: Seq<RpcEntryView>, key: Seq<char>, n: int)
    requires
        0 <= n <= entries.len(),
    ensures
        entries::matches_among(entries, key, n).len() == with_key(entries.take(n), key).len(),
    decreases n,
{
    reveal(Seq::filter);
    if n > 0 {
        lemma_matches_are_filtered(entries, key, n - 1);
        assert(entries.take(n).drop_last() =~= entries.take(n - 1));
        assert(entries.take(n).last() == entries[n - 1]);
    }
}

proof fn lemma_first_fault(entries: Seq<RpcEntryView>, from: int)
    requires
        0 <= from,
    ensures
        entries::first_fault(entries, from) is None <==> forall|j: int|
            from <= j < entries.len() ==> (#[trigger] entries[j]).key is Some
                && entries[j].xdr is Some,
        entries::first_fault(entries, from) matches Some(f) ==> f == EntryFault::MissingKey || f
            == EntryFault::MissingXdr,
    decreases entries.len() - from,
{
    if from < entries.len() {
        lemma_first_fault(entries, from + 1);
        assert(entries::fault_at(entries[from]) is None <==> entries[from].key is Some
            && entries[from].xdr is Some);
    }
}

/// An entry is taken from a reply exactly where every entry is whole and exactly one
/// has the key. A reply without entries, one in which no entry has the key and one in
/// which several have it are told apart, the last with their number.
pub proof fn an_entry_is_taken_where_one_has_the_key(entries: Seq<RpcEntryView>, key: Seq<char>)
    ensures
        entries::found(entries, key) is Ok <==> is_whole(entries) && with_key(entries, key).len()
            == 1,
        entries::found(entries, key) == Err::<int, EntryFault>(EntryFault::ZeroEntries)
            <==> entries.len() == 0,
        entries::found(entries, key) == Err::<int, EntryFault>(EntryFault::NoMatch)
            <==> entries.len() > 0 && is_whole(entries) && with_key(entries, key).len() == 0,
        is_whole(entries) && 2 <= with_key(entries, key).len() <= usize::MAX ==> entries::found(
            entries,
            key,
        ) == Err::<int, EntryFault>(
            EntryFault::Ambiguous { count: with_key(entries, key).len() as usize },
        ),
        entries.len() > 0 && !is_whole(entries) ==> entries::found(entries, key) == Err::<
            int,
            EntryFault,
        >(EntryFault::MissingKey) || entries::found(entries, key) == Err::<int, EntryFault>(
            EntryFault::MissingXdr,
        ),
{
    lemma_first_fault(entries, 0);
    lemma_matches_are_filtered(entries, key, entries.len() as int);
    assert(entries.take(entries.len() as int) =~= entries);
    if entries.len() == 0 {
        reveal(Seq::filter);
    }
}

proof fn lemma_fault_at_first(entries: Seq<RpcEntryView>, from: int, k: int)
    requires
        0 <= from <= k < entries.len(),
        forall|j: int|
            from <= j < k ==> (#[trigger] entries[j]).key is Some && entries[j].xdr is Some,
        entries[k].key is None || entries[k].xdr is None,
    ensures
        entries::first_fault(entries, from) == Some(
            if entries[k].key is None {
                EntryFault::MissingKey
            } else {
                EntryFault::MissingXdr
            },
        ),
    decreases k - from,
{
    if from < k {
        assert(entries::fault_at(entries[from]) is None);
        lemma_fault_at_first(entries, from + 1, k);
    }
}

/// The first entry of a reply that is not whole decides what is said: that a key is
/// missing where it has none, and otherwise that contents are.
pub proof fn the_first_broken_entry_decides(entries: Seq<RpcEntryView>, key: Seq<char>, k: int)
    requires
        0 <= k < entries.len(),
        forall|j: int| 0 <= j < k ==> (#[trigger] entries[j]).key is Some && entries[j].xdr is Some,
    ensures
        entries[k].key is None ==> entries::found(entries, key) == Err::<int, EntryFault>(
            EntryFault::MissingKey,
        ),
        entries[k].key is Some && entries[k].xdr is None ==> entries::found(entries, key) == Err::<
            int,
            EntryFault,
        >(EntryFault::MissingXdr),
{
    if entries[k].key is None || entries[k].xdr is None {
        lemma_fault_at_first(entries, 0, k);
    }
}

/// A fetch asks for the instance of the contract that the id stands for, and fails
/// where the id stands for none or the key cannot be written.
pub proof fn a_fetch_asks_for_the_contract_first(id: Seq<char>, policy: ResourcePolicy)
    ensures
        fetch::contract_of_id(id) matches Err(Some(reason)) ==> fetch::first_step(id, policy)
            == Err::<FetchStepView, FetchErrorView>(FetchErrorView::InvalidContractId(reason)),
        fetch::contract_of_id(id) == Err::<Seq<u8>, Option<Seq<char>>>(None) ==> fetch::first_step(
            id,
            policy,
        ) == Err::<FetchStepView, FetchErrorView>(FetchErrorView::NotAContract),
        fetch::contract_of_id(id) matches Ok(contract) ==> {
            let limited = fetch::instance_key(contract, policy.max_xdr_depth, policy.max_xdr_len);
            let free = fetch::instance_key(contract, u32::MAX, usize::MAX);
            &&& limited matches Err(reason) ==> fetch::first_step(id, policy) == Err::<
                FetchStepView,
                FetchErrorView,
            >(FetchErrorView::KeyOverLimits(FetchStage::Instance, reason))
            &&& limited is Ok ==> (free matches Ok(key) ==> fetch::first_step(id, policy) == Ok::<
                FetchStepView,
                FetchErrorView,
            >(FetchStepView::Query(FetchStateView::AwaitInstance(key))))
            &&& limited is Ok ==> (free matches Err(reason) ==> fetch::first_step(id, policy)
                == Err::<FetchStepView, FetchErrorView>(
                FetchErrorView::KeyEncoding(FetchStage::Instance, reason),
            ))
        },
{
}

/// A fetch asks for a build by the digest that it is to have, and keeps that digest.
pub proof fn a_build_is_asked_for_by_its_digest(hash: Seq<u8>, policy: ResourcePolicy)
    ensures
        fetch::code_request(hash, policy) is Ok <==> fetch::code_key(
            hash,
            policy.max_xdr_depth,
            policy.max_xdr_len,
        ) is Ok && fetch::code_key(hash, u32::MAX, usize::MAX) is Ok,
        fetch::code_request(hash, policy) matches Ok(step) ==> step == FetchStepView::Query(
            FetchStateView::AwaitCode(hash, fetch::code_key(hash, u32::MAX, usize::MAX)->Ok_0),
        ),
{
}

/// The digest of the build is that of the contract's entry. An entry that goes over a
/// limit, is malformed, or is of anything but a contract with a build is refused.
pub proof fn the_contract_names_its_build(
    decoded: Result<LedgerView, (XdrFault, Seq<char>)>,
    policy: ResourcePolicy,
)
    ensures
        fetch::instance_hash(decoded, policy) matches Ok(hash) ==> decoded == Ok::<
            LedgerView,
            (XdrFault, Seq<char>),
        >(LedgerView::WasmInstance(hash)),
        decoded matches Ok(LedgerView::WasmInstance(hash)) ==> fetch::instance_hash(decoded, policy)
            == Ok::<Seq<u8>, FetchErrorView>(hash),
        decoded matches Ok(LedgerView::AssetInstance) <==> fetch::instance_hash(decoded, policy)
            == Err::<Seq<u8>, FetchErrorView>(FetchErrorView::StellarAsset),
        decoded matches Ok(LedgerView::OtherData) <==> fetch::instance_hash(decoded, policy)
            == Err::<Seq<u8>, FetchErrorView>(FetchErrorView::NotAnInstance),
        (decoded matches Ok(LedgerView::Code(b)) || decoded matches Ok(LedgerView::Other))
            <==> fetch::instance_hash(decoded, policy) == Err::<Seq<u8>, FetchErrorView>(
            FetchErrorView::UnexpectedEntry(FetchStage::Instance),
        ),
        decoded matches Err((XdrFault::Malformed, reason)) ==> fetch::instance_hash(decoded, policy)
            == Err::<Seq<u8>, FetchErrorView>(FetchErrorView::BadXdr(FetchStage::Instance, reason)),
        decoded matches Err((XdrFault::DepthLimitExceeded, reason)) ==> fetch::instance_hash(
            decoded,
            policy,
        ) == Err::<Seq<u8>, FetchErrorView>(
            FetchErrorView::Limit(LimitError::XdrDepthExceeded { depth: policy.max_xdr_depth }),
        ),
        decoded matches Err((XdrFault::LengthLimitExceeded, reason)) ==> fetch::instance_hash(
            decoded,
            policy,
        ) == Err::<Seq<u8>, FetchErrorView>(
            FetchErrorView::Limit(LimitError::XdrLengthExceeded { limit: policy.max_xdr_len }),
        ),
{
}

/// Once the contract is known, a fetch with a cache looks there for the digest of its
/// build, and one without asks for the build.
pub proof fn a_known_contract_leads_to_its_build(
    id: Seq<char>,
    policy: ResourcePolicy,
    use_cache: bool,
    key: Seq<char>,
    list: Seq<RpcEntryView>,
    i: int,
    hash: Seq<u8>,
)
    requires
        entries::found(list, key) == Ok::<int, EntryFault>(i),
        fetch::ledger_entry(list[i].xdr->0, policy.max_xdr_depth, policy.max_xdr_len) == Ok::<
            LedgerView,
            (XdrFault, Seq<char>),
        >(LedgerView::WasmInstance(hash)),
    ensures
        fetch::next_step(
            id,
            policy,
            use_cache,
            FetchStateView::AwaitInstance(key),
            FetchEventView::Entries(Some(list)),
        ) == if use_cache {
            Ok::<FetchStepView, FetchErrorView>(
                FetchStepView::LookUp(FetchStateView::AwaitCache(hash)),
            )
        } else {
            fetch::code_request(hash, policy)
        },
{
}

/// A build is accepted exactly where it is no larger than the policy allows, has the
/// digest that it is to have, begins with the four bytes of a WASM binary and is
/// well-formed. What is found first is said: size, digest, beginning, structure.
pub proof fn a_build_is_accepted_where_nothing_is_wrong(
    bytes: Seq<u8>,
    hash: Seq<u8>,
    computed: Seq<u8>,
    structure: Option<Seq<char>>,
    policy: ResourcePolicy,
)
    ensures
        ({
            let fault = fetch::code_fault(bytes, hash, computed, structure, policy);
            let small = bytes.len() <= policy.max_wasm_size;
            let wasm = bytes.len() >= 4 && bytes.take(4) == seq![0u8, 0x61u8, 0x73u8, 0x6du8];
            &&& fault is None <==> small && computed == hash && wasm && structure is None
            &&& !small && bytes.len() <= usize::MAX ==> fault == Some(
                FetchErrorView::Limit(
                    LimitError::WasmSizeExceeded {
                        limit: policy.max_wasm_size,
                        actual: bytes.len() as usize,
                    },
                ),
            )
            &&& small && computed != hash ==> fault == Some(
                FetchErrorView::HashMismatch(hash, computed),
            )
            &&& small && computed == hash && !wasm ==> fault == Some(FetchErrorView::BadMagic)
            &&& small && computed == hash && wasm ==> (structure matches Some(reason) ==> fault
                == Some(FetchErrorView::BadStructure(reason)))
        }),
{
    lemma_magic(bytes);
}

proof fn lemma_magic(bytes: Seq<u8>)
    ensures
        module::has_magic(bytes) <==> bytes.len() >= 4 && bytes.take(4) == seq![
            0u8,
            0x61u8,
            0x73u8,
            0x6du8,
        ],
{
    let magic = seq![0u8, 0x61u8, 0x73u8, 0x6du8];
    if bytes.len() >= 4 {
        if bytes.take(4) == magic {
            assert(bytes.take(4)[0] == magic[0]);
            assert(bytes.take(4)[1] == magic[1]);
            assert(bytes.take(4)[2] == magic[2]);
            assert(bytes.take(4)[3] == magic[3]);
        }
        if module::has_magic(bytes) {
            assert(bytes.take(4) =~= magic);
        }
    }
}

/// An accepted build is the one that the entry holds, under the digest that it has
/// and with the id that it was asked for.
pub proof fn an_accepted_build_is_that_of_the_entry(
    id: Seq<char>,
    bytes: Seq<u8>,
    policy: ResourcePolicy,
)
    requires
        bytes.len() <= policy.max_wasm_size,
        bytes.len() >= 4,
        bytes.take(4) == seq![0u8, 0x61u8, 0x73u8, 0x6du8],
        module::structure_fault(bytes) is None,
    ensures
        fetch::accepted_code(
            id,
            Ok::<LedgerView, (XdrFault, Seq<char>)>(LedgerView::Code(bytes)),
            digest::sha256(bytes),
            policy,
        ) matches Ok(FetchStepView::Finish(m, from_cache)) && m.bytes == bytes && m.verified_hash
            == Some(digest::sha256(bytes)) && m.path == "stellar://"@ + id && !from_cache,
{
    lemma_magic(bytes);
}

/// The contents of a file are a build exactly where they begin with the four bytes of
/// a WASM binary and are well-formed. The build holds them as they are; no digest was
/// checked.
pub proof fn a_file_is_a_build_where_nothing_is_wrong(
    path: Seq<char>,
    bytes: Seq<u8>,
    structure: Option<Seq<char>>,
)
    ensures
        ({
            let wasm = bytes.len() >= 4 && bytes.take(4) == seq![0u8, 0x61u8, 0x73u8, 0x6du8];
            &&& file::file_fault(bytes, structure) is None <==> wasm && structure is None
            &&& !wasm ==> file::file_fault(bytes, structure) == Some(FileFaultView::BadMagic)
            &&& wasm ==> (structure matches Some(reason) ==> file::file_fault(bytes, structure)
                == Some(FileFaultView::BadStructure(reason)))
        }),
        file::file_module(path, bytes).bytes == bytes,
        file::file_module(path, bytes).path == path,
        file::file_module(path, bytes).verified_hash is None,
{
    lemma_magic(bytes);
}

/// A failed integrity check is what a wrong digest and a wrong key are, and nothing
/// else.
pub proof fn integrity_is_digest_and_key(e: FetchErrorView)
    ensures
        fetch::integrity_of(e) == Some(IntegrityErrorKind::HashMismatch) <==> e is HashMismatch,
        fetch::integrity_of(e) == Some(IntegrityErrorKind::KeyMismatch) <==> (e matches
            FetchErrorView::Entry(stage, fault) && fault == EntryFault::NoMatch),
{
}

/// What is said of a wrong digest tells the contract, the digest that its build was to
/// have, and the one that it has.
pub proof fn a_wrong_digest_is_told(id: Seq<char>, expected: Seq<u8>, computed: Seq<u8>)
    ensures
        text::has_sub(
            fetch::fetch_message(id, FetchErrorView::HashMismatch(expected, computed)),
            "'"@ + id + "': expected "@ + digest::hex_of(expected) + ", computed "@
                + digest::hex_of(computed),
        ),
        text::begins_with(
            fetch::fetch_message(id, FetchErrorView::HashMismatch(expected, computed)),
            "IntegrityError[HashMismatch]: "@,
        ),
{
    broadcast use text::lemma_sub_of_joined;

    let line = "'"@ + id + "': expected "@ + digest::hex_of(expected) + ", computed "@
        + digest::hex_of(computed);
    text::lemma_sub_of_itself(line);
    reveal_strlit("WASM hash mismatch for contract '");
    reveal_strlit("WASM hash mismatch for contract ");
    reveal_strlit("'");
    assert("WASM hash mismatch for contract "@ + "'"@ =~= "WASM hash mismatch for contract '"@);
    let details = fetch::mismatch_details(id, expected, computed);
    assert(details =~= "WASM hash mismatch for contract "@ + line);
    let head = "IntegrityError[HashMismatch]: "@;
    assert((head + details).take(head.len() as int) =~= head);
}

/// A fault of the decoder is the limit of the policy that it tells of. What is said of
/// it tells the limit.
pub proof fn limits_are_those_of_the_policy(fault: XdrFault, policy: ResourcePolicy)
    ensures
        fault == XdrFault::DepthLimitExceeded <==> limits::limit_of_fault(fault, policy) == Some(
            LimitError::XdrDepthExceeded { depth: policy.max_xdr_depth },
        ),
        fault == XdrFault::LengthLimitExceeded <==> limits::limit_of_fault(fault, policy) == Some(
            LimitError::XdrLengthExceeded { limit: policy.max_xdr_len },
        ),
        fault == XdrFault::Malformed <==> limits::limit_of_fault(fault, policy) is None,
{
}

/// What is said of a limit tells its value, and of a size also that size.
pub proof fn a_limit_is_told(e: LimitError)
    ensures
        e matches LimitError::XdrDepthExceeded { depth } ==> text::has_sub(
            limits::limit_message(e),
            "limit of "@ + text::decimal(depth as nat) + " levels"@,
        ),
        e matches LimitError::XdrLengthExceeded { limit } ==> text::has_sub(
            limits::limit_message(e),
            "limit of "@ + text::decimal(limit as nat) + " bytes"@,
        ),
        e matches LimitError::WasmSizeExceeded { limit, actual } ==> text::has_sub(
            limits::limit_message(e),
            "size of "@ + text::decimal(actual as nat) + " bytes exceeds the limit of "@
                + text::decimal(limit as nat) + " bytes"@,
        ),
{
    broadcast use text::lemma_sub_of_joined;

    lemma_limit_words();
    match e {
        LimitError::XdrDepthExceeded { depth } => {
            let line = "limit of "@ + text::decimal(depth as nat) + " levels"@;
            text::lemma_sub_of_itself(line);
            assert(limits::limit_message(e) =~= "XDR nesting exceeds the "@ + line
                + ". Raise max_xdr_depth to accept this input."@);
        },
        LimitError::XdrLengthExceeded { limit } => {
            let line = "limit of "@ + text::decimal(limit as nat) + " bytes"@;
            text::lemma_sub_of_itself(line);
            assert(limits::limit_message(e) =~= "XDR length exceeds the "@ + line
                + ". Raise max_xdr_len to accept this input."@);
        },
        LimitError::WasmSizeExceeded { limit, actual } => {
            let line = "size of "@ + text::decimal(actual as nat) + " bytes exceeds the limit of "@
                + text::decimal(limit as nat) + " bytes"@;
            text::lemma_sub_of_itself(line);
            assert(limits::limit_message(e) =~= "WASM "@ + line
                + ". Raise max_wasm_size to accept this input."@);
        },
    }
}

proof fn lemma_limit_words()
    ensures
        "XDR nesting exceeds the limit of "@ == "XDR nesting exceeds the "@ + "limit of "@,
        " levels. Raise max_xdr_depth to accept this input."@ == " levels"@
            + ". Raise max_xdr_depth to accept this input."@,
        "XDR length exceeds the limit of "@ == "XDR length exceeds the "@ + "limit of "@,
        " bytes. Raise max_xdr_len to accept this input."@ == " bytes"@
            + ". Raise max_xdr_len to accept this input."@,
        "WASM size of "@ == "WASM "@ + "size of "@,
        " bytes. Raise max_wasm_size to accept this input."@ == " bytes"@
            + ". Raise max_wasm_size to accept this input."@,
{
    reveal_strlit("XDR nesting exceeds the limit of ");
    reveal_strlit("XDR nesting exceeds the ");
    reveal_strlit("limit of ");
    reveal_strlit(" levels. Raise max_xdr_depth to accept this input.");
    reveal_strlit(" levels");
    reveal_strlit(". Raise max_xdr_depth to accept this input.");
    reveal_strlit("XDR length exceeds the limit of ");
    reveal_strlit("XDR length exceeds the ");
    reveal_strlit(" bytes. Raise max_xdr_len to accept this input.");
    reveal_strlit(" bytes");
    reveal_strlit(". Raise max_xdr_len to accept this input.");
    reveal_strlit("WASM size of ");
    reveal_strlit("WASM ");
    reveal_strlit("size of ");
    reveal_strlit(" bytes. Raise max_wasm_size to accept this input.");
    reveal_strlit(". Raise max_wasm_size to accept this input.");
    assert("XDR nesting exceeds the limit of "@ =~= "XDR nesting exceeds the "@ + "limit of "@);
    assert(" levels. Raise max_xdr_depth to accept this input."@ =~= " levels"@
        + ". Raise max_xdr_depth to accept this input."@);
    assert("XDR length exceeds the limit of "@ =~= "XDR length exceeds the "@ + "limit of "@);
    assert(" bytes. Raise max_xdr_len to accept this input."@ =~= " bytes"@
        + ". Raise max_xdr_len to accept this input."@);
    assert("WASM size of "@ =~= "WASM "@ + "size of "@);
    assert(" bytes. Raise max_wasm_size to accept this input."@ =~= " bytes"@
        + ". Raise max_wasm_size to accept this input."@);
}

/// A request that failed is said to have timed out exactly where the error speaks of
/// it, and then the allowed time is told; otherwise the error is told as it is.
pub proof fn a_timeout_is_told_apart(url: Seq<char>, timeout_secs: u64, error: Seq<char>)
    ensures
        ({
            let late = text::has_sub(error, "timed out"@) || text::has_sub(error, "Timeout"@)
                || text::has_sub(error, "timeout"@);
            let out = rpc::transport_text(url, timeout_secs, error);
            &&& late ==> text::begins_with(
                out,
                "RPC request to '"@ + url + "' timed out after "@ + text::decimal(
                    timeout_secs as nat,
                ) + " second(s)"@,
            )
            &&& !late ==> out == "RPC request to '"@ + url + "' failed: "@ + error
        }),
{
    let late = text::has_sub(error, "timed out"@) || text::has_sub(error, "Timeout"@)
        || text::has_sub(error, "timeout"@);
    if late {
        let front = "RPC request to '"@ + url + "' timed out after "@ + text::decimal(
            timeout_secs as nat,
        ) + " second(s)"@;
        let rest =
            ". The endpoint may be unresponsive. Use --rpc-timeout-secs to adjust the timeout."@;
        reveal_strlit(" second(s)");
        reveal_strlit(
            ". The endpoint may be unresponsive. Use --rpc-timeout-secs to adjust the timeout.",
        );
        reveal_strlit(
            " second(s). The endpoint may be unresponsive. Use --rpc-timeout-secs to adjust the timeout.",
        );
        assert(" second(s)"@ + rest
            =~= " second(s). The endpoint may be unresponsive. Use --rpc-timeout-secs to adjust the timeout."@);
        assert(rpc::transport_text(url, timeout_secs, error) =~= front + rest);
        assert((front + rest).take(front.len() as int) =~= front);
    }
}

/// What is said of a reply from which no entry is taken tells what it was asked for;
/// of several entries with the key it tells how many they are, and only a reply in
/// which no entry has the key is called a failure of integrity.
pub proof fn a_refused_reply_is_told(context: Seq<char>, fault: EntryFault)
    ensures
        ({
            let out = entries::entry_message(context, fault);
            &&& text::has_sub(out, context + ": "@)
            &&& fault matches EntryFault::Ambiguous { count } ==> text::has_sub(
                out,
                text::decimal(count as nat) + " entries share the same ledger key"@,
            )
            &&& fault == EntryFault::NoMatch ==> text::begins_with(
                out,
                "IntegrityError[KeyMismatch]: "@,
            )
            &&& fault != EntryFault::NoMatch ==> text::begins_with(out, context + ": "@)
        }),
{
    broadcast use text::lemma_sub_of_joined;

    lemma_entry_words();
    let out = entries::entry_message(context, fault);
    let front = context + ": "@;
    text::lemma_sub_of_itself(front);
    match fault {
        EntryFault::ZeroEntries => {
            lemma_begins(out, front, "RPC returned zero entries for the ledger key"@);
        },
        EntryFault::MissingKey => {
            lemma_begins(out, front, "entry missing 'key' field"@);
        },
        EntryFault::MissingXdr => {
            lemma_begins(out, front, "entry missing 'xdr' field"@);
        },
        EntryFault::NoMatch => {
            let details = context + ": no entry matches the requested ledger key"@;
            lemma_begins(details, front, "no entry matches the requested ledger key"@);
            let head = "IntegrityError[KeyMismatch]: "@;
            assert((head + details).take(head.len() as int) =~= head);
        },
        EntryFault::Ambiguous { count } => {
            let many = text::decimal(count as nat) + " entries share the same ledger key"@;
            text::lemma_sub_of_itself(many);
            let rest = many + " — response is ambiguous"@;
            assert(out =~= front + rest);
            lemma_begins(out, front, rest);
        },
    }
}

proof fn lemma_begins(s: Seq<char>, a: Seq<char>, b: Seq<char>)
    requires
        s =~= a + b,
    ensures
        text::begins_with(s, a),
        text::has_sub(s, a),
{
    assert((a + b).take(a.len() as int) =~= a);
    text::lemma_sub_of_itself(a);
    text::lemma_sub_of_joined(a, b, a);
}

proof fn lemma_entry_words()
    ensures
        ": RPC returned zero entries for the ledger key"@ == ": "@
            + "RPC returned zero entries for the ledger key"@,
        ": entry missing 'key' field"@ == ": "@ + "entry missing 'key' field"@,
        ": entry missing 'xdr' field"@ == ": "@ + "entry missing 'xdr' field"@,
        ": no entry matches the requested ledger key"@ == ": "@
            + "no entry matches the requested ledger key"@,
        " entries share the same ledger key — response is ambiguous"@
            == " entries share the same ledger key"@ + " — response is ambiguous"@,
{
    reveal_strlit(": ");
    reveal_strlit(": RPC returned zero entries for the ledger key");
    reveal_strlit("RPC returned zero entries for the ledger key");
    reveal_strlit(": entry missing 'key' field");
    reveal_strlit("entry missing 'key' field");
    reveal_strlit(": entry missing 'xdr' field");
    reveal_strlit("entry missing 'xdr' field");
    reveal_strlit(": no entry matches the requested ledger key");
    reveal_strlit("no entry matches the requested ledger key");
    reveal_strlit(" entries share the same ledger key — response is ambiguous");
    reveal_strlit(" entries share the same ledger key");
    reveal_strlit(" — response is ambiguous");
    assert(": RPC returned zero entries for the ledger key"@ =~= ": "@
        + "RPC returned zero entries for the ledger key"@);
    assert(": entry missing 'key' field"@ =~= ": "@ + "entry missing 'key' field"@);
    assert(": entry missing 'xdr' field"@ =~= ": "@ + "entry missing 'xdr' field"@);
    assert(": no entry matches the requested ledger key"@ =~= ": "@
        + "no entry matches the requested ledger key"@);
    assert(" entries share the same ledger key — response is ambiguous"@
        =~= " entries share the same ledger key"@ + " — response is ambiguous"@);
}

} // verus!
