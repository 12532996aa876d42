//! Finding a ledger entry in the reply of an RPC endpoint.

use vstd::prelude::*;

use crate::diff;
use crate::loader::module;
use crate::loader::module::IntegrityErrorKind;
use crate::text;

verus! {

/// An entry of a reply. Either field may be missing: the endpoint is not
/// trusted.
#[derive(Debug)]
pub struct RpcEntry {
    /// The ledger key, in base64.
    pub key: Option<String>,
    /// The ledger entry, in base64.
    pub xdr: Option<String>,
}

/// An entry as plain text.
pub struct RpcEntryView {
    pub key: Option<Seq<char>>,
    pub xdr: Option<Seq<char>>,
}

impl View for RpcEntry {
    type V = RpcEntryView;

    open spec fn view(&self) -> RpcEntryView {
        RpcEntryView { key: diff::opt_view(self.key), xdr: diff::opt_view(self.xdr) }
    }
}

/// The views of a list of entries.
pub open spec fn entry_views(entries: Seq<RpcEntry>) -> Seq<RpcEntryView> {
    entries.map_values(|e: RpcEntry| e@)
}

/// Why no entry is taken from a reply.
#[derive(Debug, Clone, Copy, PartialEq, Eq, Structural)]
pub enum EntryFault {
    /// The reply has no entries.
    ZeroEntries,
    /// An entry has no key.
    MissingKey,
    /// An entry has no contents.
    MissingXdr,
    /// No entry has the right key.
    NoMatch,
    /// Several entries have the right key.
    Ambiguous { count: usize },
}

/// What is wrong with one entry, if anything is.
pub open spec fn fault_at(e: RpcEntryView) -> Option<EntryFault> {
    if e.key is None {
        Some(EntryFault::MissingKey)
    } else if e.xdr is None {
        Some(EntryFault::MissingXdr)
    } else {
        None
    }
}

/// The fault of the first entry from `from` on that has one.
pub open spec fn first_fault(entries: Seq<RpcEntryView>, from: int) -> Option<EntryFault>
    decreases entries.len() - from,
{
    if from < 0 || from >= entries.len() {
        None
    } else {
        match fault_at(entries[from]) {
            Some(f) => Some(f),
            None => first_fault(entries, from + 1),
        }
    }
}

/// The positions of the entries among the first `n` that have the right key.
pub open spec fn matches_among(entries: Seq<RpcEntryView>, key: Seq<char>, n: int) -> Seq<int>
    decreases n,
{
    if n <= 0 {
        Seq::empty()
    } else if entries[n - 1].key == Some(key) {
        matches_among(entries, key, n - 1).push(n - 1)
    } else {
        matches_among(entries, key, n - 1)
    }
}

/// The position of the one entry with the right key, or why there is none.
pub open spec fn found(entries: Seq<RpcEntryView>, key: Seq<char>) -> Result<int, EntryFault> {
    if entries.len() == 0 {
        Err(EntryFault::ZeroEntries)
    } else {
        match first_fault(entries, 0) {
            Some(f) => Err(f),
            None => {
                let at = matches_among(entries, key, entries.len() as int);
                if at.len() == 0 {
                    Err(EntryFault::NoMatch)
                } else if at.len() == 1 {
                    Ok(at[0])
                } else {
                    Err(EntryFault::Ambiguous { count: at.len() as usize })
                }
            },
        }
    }
}

proof fn lemma_matches(entries: Seq<RpcEntryView>, key: Seq<char>, n: int)
    requires
        0 <= n <= entries.len(),
    ensures
        matches_among(entries, key, n).len() <= n,
        forall|m: int|
            0 <= m < matches_among(entries, key, n).len() ==> 0 <= #[trigger] matches_among(
                entries,
                key,
                n,
            )[m] < n && entries[matches_among(entries, key, n)[m]].key == Some(key),
        forall|j: int|
            0 <= j < n && (#[trigger] entries[j]).key == Some(key) ==> matches_among(
                entries,
                key,
                n,
            ).contains(j),
        matches_among(entries, key, n).no_duplicates(),
    decreases n,
{
    if n > 0 {
        lemma_matches(entries, key, n - 1);
        let before = matches_among(entries, key, n - 1);
        let after = matches_among(entries, key, n);
        assert forall|j: int| 0 <= j < n && (#[trigger] entries[j]).key == Some(key) implies
            after.contains(j) by {
            if j < n - 1 {
                let m = choose|m: int| 0 <= m < before.len() && before[m] == j;
                assert(after[m] == j);
            } else {
                assert(after[before.len() as int] == j);
            }
        }
    }
}

proof fn lemma_no_fault(entries: Seq<RpcEntryView>, from: int)
    requires
        0 <= from,
        first_fault(entries, from) is None,
    ensures
        forall|j: int| from <= j < entries.len() ==> fault_at(#[trigger] entries[j]) is None,
    decreases entries.len() - from,
{
    if from < entries.len() {
        lemma_no_fault(entries, from + 1);
    }
}

/// An entry that is taken has the right key, every entry of the reply has a key
/// and contents, and no other entry has the right key.
pub proof fn a_found_entry_is_the_only_one(entries: Seq<RpcEntryView>, key: Seq<char>, i: int)
    requires
        found(entries, key) == Ok::<int, EntryFault>(i),
    ensures
        0 <= i < entries.len(),
        entries[i].key == Some(key),
        forall|j: int|
            0 <= j < entries.len() ==> (#[trigger] entries[j]).key is Some && entries[j].xdr is Some,
        forall|j: int|
            0 <= j < entries.len() && j != i ==> (#[trigger] entries[j]).key != Some(key),
{
    let n = entries.len() as int;
    lemma_matches(entries, key, n);
    lemma_no_fault(entries, 0);
    let at = matches_among(entries, key, n);
    assert(at[0] == i);
    assert forall|j: int| 0 <= j < n && j != i implies (#[trigger] entries[j]).key != Some(
        key,
    ) by {
        if entries[j].key == Some(key) {
            assert(at.contains(j));
        }
    }
    assert forall|j: int| 0 <= j < n implies (#[trigger] entries[j]).key is Some
        && entries[j].xdr is Some by {
        assert(fault_at(entries[j]) is None);
    }
}

/// Why no entry is taken from a reply, with what it was asked for.
#[derive(Debug)]
pub struct EntryError {
    /// What the entry was asked for.
    pub context: String,
    pub fault: EntryFault,
}

/// What is said of a reply from which no entry is taken.
pub open spec fn entry_message(context: Seq<char>, fault: EntryFault) -> Seq<char> {
    match fault {
        EntryFault::ZeroEntries => context + ": RPC returned zero entries for the ledger key"@,
        EntryFault::MissingKey => context + ": entry missing 'key' field"@,
        EntryFault::MissingXdr => context + ": entry missing 'xdr' field"@,
        EntryFault::NoMatch => module::integrity_message(
            IntegrityErrorKind::KeyMismatch,
            context + ": no entry matches the requested ledger key"@,
        ),
        EntryFault::Ambiguous { count } => context + ": "@ + text::decimal(count as nat)
            + " entries share the same ledger key — response is ambiguous"@,
    }
}

/// The kind of integrity failure that a fault is, where it is one.
pub open spec fn integrity_of(fault: EntryFault) -> Option<IntegrityErrorKind> {
    if fault == EntryFault::NoMatch {
        Some(IntegrityErrorKind::KeyMismatch)
    } else {
        None
    }
}

impl EntryError {
    /// What is said of the reply.
    pub fn message(&self) -> (r: String)
        ensures
            r@ == entry_message(self.context@, self.fault),
    {
        match self.fault {
            EntryFault::ZeroEntries => text::two(
                self.context.as_str(),
                ": RPC returned zero entries for the ledger key",
            ),
            EntryFault::MissingKey => text::two(
                self.context.as_str(),
                ": entry missing 'key' field",
            ),
            EntryFault::MissingXdr => text::two(
                self.context.as_str(),
                ": entry missing 'xdr' field",
            ),
            EntryFault::NoMatch => {
                let details = text::two(
                    self.context.as_str(),
                    ": no entry matches the requested ledger key",
                );
                text::two("IntegrityError[KeyMismatch]: ", details.as_str())
            },
            EntryFault::Ambiguous { count } => {
                let mut out = self.context.clone();
                out.append(": ");
                out.append(text::number(count).as_str());
                out.append(" entries share the same ledger key — response is ambiguous");
                out
            },
        }
    }

    /// The kind of integrity failure that this is, where it is one.
    pub fn integrity_kind(&self) -> (r: Option<IntegrityErrorKind>)
        ensures
            r == integrity_of(self.fault),
    {
        match self.fault {
            EntryFault::NoMatch => Some(IntegrityErrorKind::KeyMismatch),
            _ => None,
        }
    }
}

/// The one entry of a reply that has the ledger key `key`. A reply with an entry
/// without a key or without contents is not taken, nor is one in which no entry
/// or several have the right key.
pub fn find_entry_by_key<'a>(entries: &'a [RpcEntry], key: &str, context: &str) -> (r: Result<
    &'a RpcEntry,
    EntryError,
>)
    ensures
        match r {
            Ok(e) => found(entry_views(entries@), key@) matches Ok(i) && 0 <= i < entries@.len()
                && *e == entries@[i],
            Err(e) => found(entry_views(entries@), key@) == Err::<int, EntryFault>(e.fault)
                && e.context@ == context@,
        },
{
    let ghost views = entry_views(entries@);
    if entries.len() == 0 {
        return Err(EntryError { context: context.to_string(), fault: EntryFault::ZeroEntries });
    }
    let mut count: usize = 0;
    let mut first: usize = 0;
    let mut i: usize = 0;
    while i < entries.len()
        invariant
            i <= entries@.len(),
            entries@.len() > 0,
            views == entry_views(entries@),
            first_fault(views, 0) == first_fault(views, i as int),
            count == matches_among(views, key@, i as int).len(),
            count <= i,
            count > 0 ==> first == matches_among(views, key@, i as int)[0] && first < i,
        decreases entries@.len() - i,
    {
        assert(views[i as int] == entries@[i as int]@);
        match &entries[i].key {
            None => {
                return Err(
                    EntryError { context: context.to_string(), fault: EntryFault::MissingKey },
                );
            },
            Some(k) => {
                if entries[i].xdr.is_none() {
                    return Err(
                        EntryError { context: context.to_string(), fault: EntryFault::MissingXdr },
                    );
                }
                if text::same_text(k.as_str(), key) {
                    if count == 0 {
                        first = i;
                    }
                    count = count + 1;
                }
            },
        }
        i = i + 1;
    }
    if count == 0 {
        Err(EntryError { context: context.to_string(), fault: EntryFault::NoMatch })
    } else if count == 1 {
        Ok(&entries[first])
    } else {
        Err(EntryError { context: context.to_string(), fault: EntryFault::Ambiguous { count } })
    }
}

} // verus!
