//! The public interface of a contract, and what is wrong with how a build
//! declares it.

use stellar_xdr::curr::Limits;
use stellar_xdr::curr::ReadXdr;
use stellar_xdr::curr::ScSpecEntry;
use stellar_xdr::curr::WriteXdr;
use vstd::hash_map::StringHashMap;
use vstd::prelude::*;

use crate::limits;
use crate::limits::LimitError;
use crate::limits::ResourcePolicy;
use crate::limits::XdrFault;
use crate::text;

verus! {

/// The kind of a spec entry. Each kind has names of its own.
#[derive(Debug, Clone, Copy, PartialEq, Eq, Structural)]
pub enum SpecEntryKind {
    Function,
    Struct,
    Enum,
    Union,
    ErrorEnum,
}

/// The name of a kind.
pub open spec fn kind_label(kind: SpecEntryKind) -> Seq<char> {
    match kind {
        SpecEntryKind::Function => "function"@,
        SpecEntryKind::Struct => "struct"@,
        SpecEntryKind::Enum => "enum"@,
        SpecEntryKind::Union => "union"@,
        SpecEntryKind::ErrorEnum => "error enum"@,
    }
}

impl SpecEntryKind {
    /// The name of this kind.
    pub fn label(self) -> (r: &'static str)
        ensures
            r@ == kind_label(self),
    {
        match self {
            SpecEntryKind::Function => "function",
            SpecEntryKind::Struct => "struct",
            SpecEntryKind::Enum => "enum",
            SpecEntryKind::Union => "union",
            SpecEntryKind::ErrorEnum => "error enum",
        }
    }
}

/// A spec entry: one function or type of a contract.
#[derive(Debug)]
pub struct SpecEntry {
    pub kind: SpecEntryKind,
    pub name: String,
    pub doc: String,
    /// The whole definition, encoded as XDR.
    pub xdr: Vec<u8>,
}

/// A spec entry as plain values.
pub struct SpecEntryView {
    pub kind: SpecEntryKind,
    pub name: Seq<char>,
    pub doc: Seq<char>,
    pub xdr: Seq<u8>,
}

impl View for SpecEntry {
    type V = SpecEntryView;

    open spec fn view(&self) -> SpecEntryView {
        SpecEntryView {
            kind: self.kind,
            name: self.name@,
            doc: self.doc@,
            xdr: self.xdr@,
        }
    }
}

fn clone_bytes(bytes: &Vec<u8>) -> (r: Vec<u8>)
    ensures
        r@ == bytes@,
{
    let mut out: Vec<u8> = Vec::new();
    let mut i: usize = 0;
    while i < bytes.len()
        invariant
            i <= bytes@.len(),
            out@ == bytes@.take(i as int),
        decreases bytes@.len() - i,
    {
        out.push(bytes[i]);
        assert(bytes@.take(i + 1) =~= bytes@.take(i as int).push(bytes@[i as int]));
        i = i + 1;
    }
    assert(bytes@.take(i as int) =~= bytes@);
    out
}

impl Clone for SpecEntry {
    fn clone(&self) -> (r: Self)
        ensures
            r@ == self@,
    {
        SpecEntry {
            kind: self.kind,
            name: self.name.clone(),
            doc: self.doc.clone(),
            xdr: clone_bytes(&self.xdr),
        }
    }
}

/// What decoding an encoded spec entry and encoding it again gives, or why it
/// cannot be decoded within a depth and a length.
pub uninterp spec fn encoded_again(bytes: Seq<u8>, depth: u32, len: usize) -> Result<
    Seq<u8>,
    XdrFault,
>;

/// The kind, the name and the documentation of an encoded spec entry, where it
/// can be decoded within a depth and a length.
pub uninterp spec fn entry_outline(bytes: Seq<u8>, depth: u32, len: usize) -> Option<
    (SpecEntryKind, Seq<char>, Seq<char>),
>;

/// The bytes of a result.
pub open spec fn bytes_view(r: Result<Vec<u8>, XdrFault>) -> Result<Seq<u8>, XdrFault> {
    match r {
        Ok(v) => Ok(v@),
        Err(e) => Err(e),
    }
}

/// The texts of an outline.
pub open spec fn outline_view(r: Option<(SpecEntryKind, String, String)>) -> Option<
    (SpecEntryKind, Seq<char>, Seq<char>),
> {
    match r {
        Some((kind, name, doc)) => Some((kind, name@, doc@)),
        None => None,
    }
}

/// `ScSpecEntry::from_xdr` within the given limits, and `to_xdr` of what it
/// gives without a limit. Both depend on their arguments alone. An encoding that
/// fails counts as an empty one. Of the decoder's errors only the two limits are
/// told apart from a malformed input.
#[verifier::external_body]
fn decode_and_encode(bytes: &[u8], depth: u32, len: usize) -> (r: Result<Vec<u8>, XdrFault>)
    ensures
        bytes_view(r) == encoded_again(bytes@, depth, len),
{
    match ScSpecEntry::from_xdr(bytes, Limits { depth, len }) {
        Ok(entry) => Ok(entry.to_xdr(Limits::none()).unwrap_or_default()),
        Err(stellar_xdr::curr::Error::DepthLimitExceeded) => Err(XdrFault::DepthLimitExceeded),
        Err(stellar_xdr::curr::Error::LengthLimitExceeded) => Err(XdrFault::LengthLimitExceeded),
        Err(_) => Err(XdrFault::Malformed),
    }
}

/// `ScSpecEntry::from_xdr` within the given limits, and of what it gives the
/// variant, the name and the documentation, which depend on the arguments alone.
#[verifier::external_body]
fn decode_outline(bytes: &[u8], depth: u32, len: usize) -> (r: Option<
    (SpecEntryKind, String, String),
>)
    ensures
        outline_view(r) == entry_outline(bytes@, depth, len),
{
    let (kind, name, doc) = match ScSpecEntry::from_xdr(bytes, Limits { depth, len }).ok()? {
        ScSpecEntry::FunctionV0(e) => (SpecEntryKind::Function, e.name.to_string(), e.doc),
        ScSpecEntry::UdtStructV0(e) => (SpecEntryKind::Struct, e.name.to_string(), e.doc),
        ScSpecEntry::UdtEnumV0(e) => (SpecEntryKind::Enum, e.name.to_string(), e.doc),
        ScSpecEntry::UdtUnionV0(e) => (SpecEntryKind::Union, e.name.to_string(), e.doc),
        ScSpecEntry::UdtErrorEnumV0(e) => (SpecEntryKind::ErrorEnum, e.name.to_string(), e.doc),
    };
    Some((kind, name, doc.to_string()))
}

/// Why a spec entry cannot be had from its encoding.
#[derive(Debug, Clone, Copy, PartialEq, Eq, Structural)]
pub enum SpecError {
    /// The encoding goes over a limit.
    Limit(LimitError),
    /// The encoding is malformed.
    Malformed,
}

/// The error that an XDR fault amounts to.
pub open spec fn spec_error(fault: XdrFault, policy: ResourcePolicy) -> SpecError {
    match limits::limit_of_fault(fault, policy) {
        Some(e) => SpecError::Limit(e),
        None => SpecError::Malformed,
    }
}

/// The entry that a decoder gives, from its encoding and its outline.
pub open spec fn assembled(
    encoding: Result<Seq<u8>, XdrFault>,
    outline: Option<(SpecEntryKind, Seq<char>, Seq<char>)>,
    policy: ResourcePolicy,
) -> Result<SpecEntryView, SpecError> {
    match encoding {
        Err(fault) => Err(spec_error(fault, policy)),
        Ok(xdr) => match outline {
            None => Err(SpecError::Malformed),
            Some((kind, name, doc)) => Ok(SpecEntryView { kind, name, doc, xdr }),
        },
    }
}

/// The view of a decoded entry.
pub open spec fn decoded_view(r: Result<SpecEntry, SpecError>) -> Result<
    SpecEntryView,
    SpecError,
> {
    match r {
        Ok(e) => Ok(e@),
        Err(e) => Err(e),
    }
}

/// The entry that a decoder gives, from its encoding and its outline.
pub fn assemble_entry(
    encoding: Result<Vec<u8>, XdrFault>,
    outline: Option<(SpecEntryKind, String, String)>,
    policy: &ResourcePolicy,
) -> (r: Result<SpecEntry, SpecError>)
    ensures
        decoded_view(r) == assembled(bytes_view(encoding), outline_view(outline), *policy),
{
    match encoding {
        Err(fault) => match LimitError::from_xdr_error(fault, policy) {
            Some(e) => Err(SpecError::Limit(e)),
            None => Err(SpecError::Malformed),
        },
        Ok(xdr) => match outline {
            None => Err(SpecError::Malformed),
            Some((kind, name, doc)) => Ok(SpecEntry { kind, name, doc, xdr }),
        },
    }
}

impl SpecEntry {
    /// Decodes a spec entry within the limits of a policy.
    pub fn from_xdr(bytes: &[u8], policy: &ResourcePolicy) -> (r: Result<SpecEntry, SpecError>)
        ensures
            decoded_view(r) == assembled(
                encoded_again(bytes@, policy.max_xdr_depth, policy.max_xdr_len),
                entry_outline(bytes@, policy.max_xdr_depth, policy.max_xdr_len),
                *policy,
            ),
    {
        let encoding = decode_and_encode(bytes, policy.max_xdr_depth, policy.max_xdr_len);
        let outline = decode_outline(bytes, policy.max_xdr_depth, policy.max_xdr_len);
        assemble_entry(encoding, outline, policy)
    }
}

/// A spec entry with the section that it came from.
#[derive(Debug)]
pub struct TaggedSpecEntry {
    pub entry: SpecEntry,
    /// The position of the `contractspecv0` section in the build.
    pub section_index: usize,
}

/// A tagged spec entry as plain values.
pub struct TaggedView {
    pub entry: SpecEntryView,
    pub section: usize,
}

impl View for TaggedSpecEntry {
    type V = TaggedView;

    open spec fn view(&self) -> TaggedView {
        TaggedView { entry: self.entry@, section: self.section_index }
    }
}

impl TaggedSpecEntry {
    /// An entry of a section.
    pub fn new(entry: SpecEntry, section_index: usize) -> (r: Self)
        ensures
            r@ == (TaggedView { entry: entry@, section: section_index }),
    {
        TaggedSpecEntry { entry, section_index }
    }
}

/// A name that a build defines more than once.
#[derive(Debug)]
pub struct DuplicateEntry {
    pub kind: SpecEntryKind,
    pub name: String,
    /// The sections of the definitions, in order.
    pub sections: Vec<usize>,
    /// Whether all definitions are the same.
    pub is_identical: bool,
}

/// A duplicate as plain values.
#[verifier::ext_equal]
pub struct DuplicateView {
    pub kind: SpecEntryKind,
    pub name: Seq<char>,
    pub sections: Seq<usize>,
    pub is_identical: bool,
}

impl View for DuplicateEntry {
    type V = DuplicateView;

    open spec fn view(&self) -> DuplicateView {
        DuplicateView {
            kind: self.kind,
            name: self.name@,
            sections: self.sections@,
            is_identical: self.is_identical,
        }
    }
}

/// The views of a list of tagged entries.
pub open spec fn tagged_views(entries: Seq<TaggedSpecEntry>) -> Seq<TaggedView> {
    entries.map_values(|t: TaggedSpecEntry| t@)
}

/// The views of a list of duplicates.
pub open spec fn duplicate_views(duplicates: Seq<DuplicateEntry>) -> Seq<DuplicateView> {
    duplicates.map_values(|d: DuplicateEntry| d@)
}

/// Whether an entry defines a name of a kind.
pub open spec fn defines(e: TaggedView, kind: SpecEntryKind, name: Seq<char>) -> bool {
    e.entry.kind == kind && e.entry.name == name
}

/// The positions among the first `n` entries that define a name of a kind.
pub open spec fn places(
    entries: Seq<TaggedView>,
    kind: SpecEntryKind,
    name: Seq<char>,
    n: int,
) -> Seq<int>
    decreases n,
{
    if n <= 0 {
        Seq::empty()
    } else if defines(entries[n - 1], kind, name) {
        places(entries, kind, name, n - 1).push(n - 1)
    } else {
        places(entries, kind, name, n - 1)
    }
}

/// Whether two encodings are the same. An empty one stands for an encoding that
/// failed and is the same as no other.
pub open spec fn same_encoding(a: Seq<u8>, b: Seq<u8>) -> bool {
    a.len() > 0 && a == b
}

/// Whether all definitions at some positions are the same as the first.
pub open spec fn all_same(entries: Seq<TaggedView>, at: Seq<int>) -> bool {
    forall|m: int|
        1 <= m < at.len() ==> same_encoding(
            entries[at[0]].entry.xdr,
            entries[#[trigger] at[m]].entry.xdr,
        )
}

/// What is reported of a name that the first `n` entries define more than once.
pub open spec fn duplicate_of(
    entries: Seq<TaggedView>,
    kind: SpecEntryKind,
    name: Seq<char>,
    n: int,
) -> DuplicateView {
    let at = places(entries, kind, name, n);
    DuplicateView {
        kind,
        name,
        sections: at.map_values(|j: int| entries[j].section),
        is_identical: all_same(entries, at),
    }
}

/// The duplicates that come up among the first `i` entries, with what the first
/// `n` entries show of them: one for each name that is defined twice, in the
/// order of the second definitions.
pub open spec fn duplicates_among(entries: Seq<TaggedView>, i: int, n: int) -> Seq<DuplicateView>
    decreases i,
{
    if i <= 0 {
        Seq::empty()
    } else {
        let e = entries[i - 1].entry;
        if places(entries, e.kind, e.name, i - 1).len() == 1 {
            duplicates_among(entries, i - 1, n).push(duplicate_of(entries, e.kind, e.name, n))
        } else {
            duplicates_among(entries, i - 1, n)
        }
    }
}

/// The duplicates of a list of entries.
pub open spec fn duplicates_of(entries: Seq<TaggedView>) -> Seq<DuplicateView> {
    duplicates_among(entries, entries.len() as int, entries.len() as int)
}

/// The definitions of a kind among the first `n` entries: the first one of each
/// name.
pub open spec fn definitions(entries: Seq<TaggedView>, kind: SpecEntryKind, n: int) -> Map<
    Seq<char>,
    SpecEntryView,
>
    decreases n,
{
    if n <= 0 {
        Map::empty()
    } else {
        let e = entries[n - 1].entry;
        let before = definitions(entries, kind, n - 1);
        if e.kind == kind && !before.contains_key(e.name) {
            before.insert(e.name, e)
        } else {
            before
        }
    }
}

/// The entries of a table, by name.
pub open spec fn table_view(table: Map<Seq<char>, SpecEntry>) -> Map<Seq<char>, SpecEntryView> {
    table.map_values(|e: SpecEntry| e@)
}

/// The public interface of a contract.
pub struct ContractSpec {
    pub functions: StringHashMap<SpecEntry>,
    pub structs: StringHashMap<SpecEntry>,
    pub enums: StringHashMap<SpecEntry>,
    pub unions: StringHashMap<SpecEntry>,
    pub error_enums: StringHashMap<SpecEntry>,
}

impl ContractSpec {
    /// The entries of a kind, by name.
    pub open spec fn of_kind(&self, kind: SpecEntryKind) -> Map<Seq<char>, SpecEntryView> {
        match kind {
            SpecEntryKind::Function => table_view(self.functions@),
            SpecEntryKind::Struct => table_view(self.structs@),
            SpecEntryKind::Enum => table_view(self.enums@),
            SpecEntryKind::Union => table_view(self.unions@),
            SpecEntryKind::ErrorEnum => table_view(self.error_enums@),
        }
    }

    fn insert(&mut self, entry: SpecEntry)
        ensures
            final(self).of_kind(entry.kind) == old(self).of_kind(entry.kind).insert(
                entry.name@,
                entry@,
            ),
            forall|k: SpecEntryKind|
                k != entry.kind ==> #[trigger] final(self).of_kind(k) == old(self).of_kind(k),
    {
        let name = entry.name.clone();
        let ghost before = *old(self);
        match entry.kind {
            SpecEntryKind::Function => {
                self.functions.insert(name, entry);
            },
            SpecEntryKind::Struct => {
                self.structs.insert(name, entry);
            },
            SpecEntryKind::Enum => {
                self.enums.insert(name, entry);
            },
            SpecEntryKind::Union => {
                self.unions.insert(name, entry);
            },
            SpecEntryKind::ErrorEnum => {
                self.error_enums.insert(name, entry);
            },
        }
        assert(self.of_kind(entry.kind) =~= before.of_kind(entry.kind).insert(
            entry.name@,
            entry@,
        ));
    }
}

impl Default for ContractSpec {
    /// An interface without functions and types.
    fn default() -> (r: Self)
        ensures
            forall|k: SpecEntryKind|
                #[trigger] r.of_kind(k) == Map::<Seq<char>, SpecEntryView>::empty(),
    {
        let r = ContractSpec {
            functions: StringHashMap::new(),
            structs: StringHashMap::new(),
            enums: StringHashMap::new(),
            unions: StringHashMap::new(),
            error_enums: StringHashMap::new(),
        };
        assert forall|k: SpecEntryKind| #[trigger] r.of_kind(k) == Map::<
            Seq<char>,
            SpecEntryView,
        >::empty() by {
            assert(r.of_kind(k) =~= Map::<Seq<char>, SpecEntryView>::empty());
        }
        r
    }
}

/// Where each name was defined first, kind by kind.
struct Firsts {
    functions: StringHashMap<usize>,
    structs: StringHashMap<usize>,
    enums: StringHashMap<usize>,
    unions: StringHashMap<usize>,
    error_enums: StringHashMap<usize>,
}

impl Firsts {
    spec fn of_kind(&self, kind: SpecEntryKind) -> Map<Seq<char>, usize> {
        match kind {
            SpecEntryKind::Function => self.functions@,
            SpecEntryKind::Struct => self.structs@,
            SpecEntryKind::Enum => self.enums@,
            SpecEntryKind::Union => self.unions@,
            SpecEntryKind::ErrorEnum => self.error_enums@,
        }
    }

    /// Whether the places are those among the first `n` entries.
    spec fn covers(&self, entries: Seq<TaggedView>, n: int) -> bool {
        forall|kind: SpecEntryKind, name: Seq<char>|
            {
                let at = places(entries, kind, name, n);
                let known = #[trigger] self.of_kind(kind).contains_key(name);
                known == (at.len() > 0) && (known ==> self.of_kind(kind)[name] == at[0])
            }
    }

    fn new() -> (r: Self)
        ensures
            forall|k: SpecEntryKind| #[trigger] r.of_kind(k) == Map::<Seq<char>, usize>::empty(),
    {
        Firsts {
            functions: StringHashMap::new(),
            structs: StringHashMap::new(),
            enums: StringHashMap::new(),
            unions: StringHashMap::new(),
            error_enums: StringHashMap::new(),
        }
    }

    fn get(&self, kind: SpecEntryKind, name: &str) -> (r: Option<usize>)
        ensures
            match r {
                Some(i) => self.of_kind(kind).contains_key(name@) && self.of_kind(kind)[name@]
                    == i,
                None => !self.of_kind(kind).contains_key(name@),
            },
    {
        let found = match kind {
            SpecEntryKind::Function => self.functions.get(name),
            SpecEntryKind::Struct => self.structs.get(name),
            SpecEntryKind::Enum => self.enums.get(name),
            SpecEntryKind::Union => self.unions.get(name),
            SpecEntryKind::ErrorEnum => self.error_enums.get(name),
        };
        match found {
            Some(i) => Some(*i),
            None => None,
        }
    }

    fn put(&mut self, kind: SpecEntryKind, name: String, i: usize)
        ensures
            final(self).of_kind(kind) == old(self).of_kind(kind).insert(name@, i),
            forall|k: SpecEntryKind|
                k != kind ==> #[trigger] final(self).of_kind(k) == old(self).of_kind(k),
    {
        match kind {
            SpecEntryKind::Function => {
                self.functions.insert(name, i);
            },
            SpecEntryKind::Struct => {
                self.structs.insert(name, i);
            },
            SpecEntryKind::Enum => {
                self.enums.insert(name, i);
            },
            SpecEntryKind::Union => {
                self.unions.insert(name, i);
            },
            SpecEntryKind::ErrorEnum => {
                self.error_enums.insert(name, i);
            },
        }
    }
}

/// The places of a name are positions of entries that define it, going up.
proof fn lemma_places(entries: Seq<TaggedView>, kind: SpecEntryKind, name: Seq<char>, n: int)
    requires
        0 <= n <= entries.len(),
    ensures
        forall|m: int|
            0 <= m < places(entries, kind, name, n).len() ==> 0 <= #[trigger] places(
                entries,
                kind,
                name,
                n,
            )[m] < n && defines(entries[places(entries, kind, name, n)[m]], kind, name),
        forall|j: int|
            0 <= j < n && defines(#[trigger] entries[j], kind, name) ==> places(
                entries,
                kind,
                name,
                n,
            ).contains(j),
        forall|a: int, b: int|
            0 <= a < b < places(entries, kind, name, n).len() ==> places(
                entries,
                kind,
                name,
                n,
            )[a] < places(entries, kind, name, n)[b],
    decreases n,
{
    if n > 0 {
        lemma_places(entries, kind, name, n - 1);
        let before = places(entries, kind, name, n - 1);
        let after = places(entries, kind, name, n);
        assert forall|j: int| 0 <= j < n && defines(#[trigger] entries[j], kind, name) implies
            after.contains(j) by {
            if j < n - 1 {
                assert(before.contains(j));
                let m = choose|m: int| 0 <= m < before.len() && before[m] == j;
                assert(after[m] == j);
            } else {
                assert(after[before.len() as int] == j);
            }
        }
    }
}

/// A duplicate in the list is of a name that was defined at least twice.
proof fn lemma_listed_is_repeated(entries: Seq<TaggedView>, i: int, n: int, p: int)
    requires
        0 <= i <= entries.len(),
        0 <= p < duplicates_among(entries, i, n).len(),
    ensures
        ({
            let d = duplicates_among(entries, i, n)[p];
            places(entries, d.kind, d.name, i).len() >= 2 && d == duplicate_of(
                entries,
                d.kind,
                d.name,
                n,
            )
        }),
    decreases i,
{
    if i > 0 {
        let before = duplicates_among(entries, i - 1, n);
        if p < before.len() {
            lemma_listed_is_repeated(entries, i - 1, n, p);
            assert(duplicates_among(entries, i, n)[p] == before[p]);
        }
    }
}

/// No name is in the list twice.
proof fn lemma_listed_once(entries: Seq<TaggedView>, i: int, n: int, p: int, q: int)
    requires
        0 <= i <= entries.len(),
        0 <= p < q < duplicates_among(entries, i, n).len(),
    ensures
        ({
            let d = duplicates_among(entries, i, n)[p];
            let e = duplicates_among(entries, i, n)[q];
            d.kind != e.kind || d.name != e.name
        }),
    decreases i,
{
    if i > 0 {
        let before = duplicates_among(entries, i - 1, n);
        assert(duplicates_among(entries, i, n)[p] == before[p]);
        if q < before.len() {
            lemma_listed_once(entries, i - 1, n, p, q);
            assert(duplicates_among(entries, i, n)[q] == before[q]);
        } else {
            lemma_listed_is_repeated(entries, i - 1, n, p);
        }
    }
}

/// A name that was defined twice is in the list.
proof fn lemma_repeated_is_listed(
    entries: Seq<TaggedView>,
    i: int,
    n: int,
    kind: SpecEntryKind,
    name: Seq<char>,
) -> (p: int)
    requires
        0 <= i <= entries.len(),
        places(entries, kind, name, i).len() >= 2,
    ensures
        0 <= p < duplicates_among(entries, i, n).len(),
        duplicates_among(entries, i, n)[p].kind == kind,
        duplicates_among(entries, i, n)[p].name == name,
    decreases i,
{
    let before = duplicates_among(entries, i - 1, n);
    if places(entries, kind, name, i - 1).len() >= 2 {
        let p = lemma_repeated_is_listed(entries, i - 1, n, kind, name);
        assert(duplicates_among(entries, i, n)[p] == before[p]);
        p
    } else {
        assert(defines(entries[i - 1], kind, name));
        before.len() as int
    }
}

/// One more entry changes only the duplicate of its own name.
proof fn lemma_one_more_entry(entries: Seq<TaggedView>, i: int, n: int)
    requires
        0 <= i <= n < entries.len(),
    ensures
        duplicates_among(entries, i, n + 1).len() == duplicates_among(entries, i, n).len(),
        forall|p: int|
            0 <= p < duplicates_among(entries, i, n).len() ==> {
                let d = #[trigger] duplicates_among(entries, i, n)[p];
                duplicates_among(entries, i, n + 1)[p] == if defines(entries[n], d.kind, d.name) {
                    duplicate_of(entries, d.kind, d.name, n + 1)
                } else {
                    d
                }
            },
    decreases i,
{
    if i > 0 {
        lemma_one_more_entry(entries, i - 1, n);
        let e = entries[i - 1].entry;
        let before = duplicates_among(entries, i - 1, n);
        if places(entries, e.kind, e.name, i - 1).len() == 1 {
            assert forall|p: int| 0 <= p < duplicates_among(entries, i, n).len() implies {
                let d = #[trigger] duplicates_among(entries, i, n)[p];
                duplicates_among(entries, i, n + 1)[p] == if defines(entries[n], d.kind, d.name) {
                    duplicate_of(entries, d.kind, d.name, n + 1)
                } else {
                    d
                }
            } by {
                if p < before.len() {
                    assert(duplicates_among(entries, i, n)[p] == before[p]);
                }
            }
        }
    }
}

fn same_bytes(a: &Vec<u8>, b: &Vec<u8>) -> (r: bool)
    ensures
        r == same_encoding(a@, b@),
{
    if a.len() == 0 || a.len() != b.len() {
        return false;
    }
    let mut i: usize = 0;
    while i < a.len()
        invariant
            i <= a@.len(),
            a@.len() == b@.len(),
            forall|k: int| 0 <= k < i ==> a@[k] == b@[k],
        decreases a@.len() - i,
    {
        if a[i] != b[i] {
            return false;
        }
        i = i + 1;
    }
    assert(a@ =~= b@);
    true
}

/// The position of a duplicate in a list.
fn find_duplicate(duplicates: &Vec<DuplicateEntry>, kind: SpecEntryKind, name: &str) -> (r: Option<
    usize,
>)
    ensures
        match r {
            Some(p) => p < duplicates@.len() && duplicates@[p as int].kind == kind
                && duplicates@[p as int].name@ == name@,
            None => forall|p: int|
                0 <= p < duplicates@.len() ==> (#[trigger] duplicates@[p]).kind != kind
                    || duplicates@[p].name@ != name@,
        },
{
    let mut p: usize = 0;
    while p < duplicates.len()
        invariant
            p <= duplicates@.len(),
            forall|q: int|
                0 <= q < p ==> (#[trigger] duplicates@[q]).kind != kind || duplicates@[q].name@
                    != name@,
        decreases duplicates@.len() - p,
    {
        if duplicates[p].kind == kind && text::same_text(duplicates[p].name.as_str(), name) {
            return Some(p);
        }
        p = p + 1;
    }
    None
}

proof fn lemma_duplicate_grows(
    entries: Seq<TaggedView>,
    kind: SpecEntryKind,
    name: Seq<char>,
    n: int,
)
    requires
        0 <= n < entries.len(),
        defines(entries[n], kind, name),
        places(entries, kind, name, n).len() > 0,
    ensures
        ({
            let d = duplicate_of(entries, kind, name, n);
            let first = places(entries, kind, name, n)[0];
            duplicate_of(entries, kind, name, n + 1) == (DuplicateView {
                kind,
                name,
                sections: d.sections.push(entries[n].section),
                is_identical: d.is_identical && same_encoding(
                    entries[first].entry.xdr,
                    entries[n].entry.xdr,
                ),
            })
        }),
{
    let at = places(entries, kind, name, n);
    let now = places(entries, kind, name, n + 1);
    assert(now == at.push(n));
    let d = duplicate_of(entries, kind, name, n);
    assert(duplicate_of(entries, kind, name, n + 1).sections =~= d.sections.push(
        entries[n].section,
    ));
    let same = same_encoding(entries[at[0]].entry.xdr, entries[n].entry.xdr);
    if all_same(entries, now) {
        assert(same) by {
            assert(now[at.len() as int] == n);
        }
        assert forall|m: int| 1 <= m < at.len() implies same_encoding(
            entries[at[0]].entry.xdr,
            entries[#[trigger] at[m]].entry.xdr,
        ) by {
            assert(now[m] == at[m]);
        }
    }
    if all_same(entries, at) && same {
        assert forall|m: int| 1 <= m < now.len() implies same_encoding(
            entries[now[0]].entry.xdr,
            entries[#[trigger] now[m]].entry.xdr,
        ) by {
            if m < at.len() {
                assert(now[m] == at[m]);
            }
        }
    }
}

/// Notes the entry at position `n`: the place of a first definition, or the
/// duplicate of a name that was there before. Says whether it was the first.
fn check_and_insert(
    entries: &[TaggedSpecEntry],
    n: usize,
    firsts: &mut Firsts,
    duplicates: &mut Vec<DuplicateEntry>,
) -> (is_first: bool)
    requires
        n < entries@.len(),
        old(firsts).covers(tagged_views(entries@), n as int),
        duplicate_views(old(duplicates)@) == duplicates_among(
            tagged_views(entries@),
            n as int,
            n as int,
        ),
    ensures
        final(firsts).covers(tagged_views(entries@), n + 1),
        duplicate_views(final(duplicates)@) == duplicates_among(
            tagged_views(entries@),
            n + 1,
            n + 1,
        ),
        is_first == (places(
            tagged_views(entries@),
            entries@[n as int].entry.kind,
            entries@[n as int].entry.name@,
            n as int,
        ).len() == 0),
{
    let ghost views = tagged_views(entries@);
    let tagged = &entries[n];
    let ghost e = tagged@;
    assert(views[n as int] == e);
    let kind = tagged.entry.kind;
    let name = tagged.entry.name.as_str();
    let ghost at = places(views, kind, name@, n as int);
    let ghost list = duplicates_among(views, n as int, n as int);
    proof {
        lemma_places(views, kind, name@, n as int);
        lemma_one_more_entry(views, n as int, n as int);
    }
    match firsts.get(kind, name) {
        None => {
            firsts.put(kind, tagged.entry.name.clone(), n);
            proof {
                assert(at.len() == 0);
                assert forall|k: SpecEntryKind, m: Seq<char>| {
                    let now = places(views, k, m, n + 1);
                    let known = #[trigger] firsts.of_kind(k).contains_key(m);
                    known == (now.len() > 0) && (known ==> firsts.of_kind(k)[m] == now[0])
                } by {
                    let was = old(firsts).of_kind(k).contains_key(m);
                    assert(was == (places(views, k, m, n as int).len() > 0));
                }
                assert(duplicates_among(views, n as int, n + 1) =~= list) by {
                    assert forall|p: int| 0 <= p < list.len() implies #[trigger] duplicates_among(
                        views,
                        n as int,
                        n + 1,
                    )[p] == list[p] by {
                        lemma_listed_is_repeated(views, n as int, n as int, p);
                        assert(list[p].kind != kind || list[p].name != name@);
                    }
                }
            }
            true
        },
        Some(first) => {
            proof {
                assert(at.len() > 0 && at[0] == first);
                assert(0 <= at[0] < n);
            }
            let is_identical = same_bytes(&entries[first].entry.xdr, &tagged.entry.xdr);
            assert(is_identical == same_encoding(views[first as int].entry.xdr, e.entry.xdr));
            proof {
                lemma_duplicate_grows(views, kind, name@, n as int);
                assert forall|k: SpecEntryKind, m: Seq<char>| {
                    let now = places(views, k, m, n + 1);
                    let known = #[trigger] firsts.of_kind(k).contains_key(m);
                    known == (now.len() > 0) && (known ==> firsts.of_kind(k)[m] == now[0])
                } by {
                    let was = old(firsts).of_kind(k).contains_key(m);
                    assert(was == (places(views, k, m, n as int).len() > 0));
                }
            }
            let ghost before = duplicates@;
            match find_duplicate(duplicates, kind, name) {
                Some(p) => {
                    proof {
                        assert(list[p as int] == before[p as int]@);
                        lemma_listed_is_repeated(views, n as int, n as int, p as int);
                    }
                    duplicates[p].sections.push(tagged.section_index);
                    if !is_identical {
                        duplicates[p].is_identical = false;
                    }
                    proof {
                        let now = duplicates_among(views, n as int, n + 1);
                        assert(at.len() >= 2);
                        assert forall|q: int| 0 <= q < list.len() implies #[trigger] now[q]
                            == duplicate_views(duplicates@)[q] by {
                            let d = list[q];
                            assert(d == before[q]@);
                            if q == p {
                                assert(d == duplicate_of(views, kind, name@, n as int));
                                assert(duplicates@[q]@ =~= duplicate_of(
                                    views,
                                    kind,
                                    name@,
                                    n + 1,
                                ));
                            } else {
                                if q < p {
                                    lemma_listed_once(views, n as int, n as int, q, p as int);
                                } else {
                                    lemma_listed_once(views, n as int, n as int, p as int, q);
                                }
                                assert(list[p as int] == before[p as int]@);
                                assert(duplicates@[q] == before[q]);
                            }
                        }
                        assert(duplicate_views(duplicates@) =~= now);
                    }
                },
                None => {
                    let mut sections: Vec<usize> = Vec::new();
                    sections.push(entries[first].section_index);
                    sections.push(tagged.section_index);
                    let d = DuplicateEntry {
                        kind,
                        name: tagged.entry.name.clone(),
                        sections,
                        is_identical,
                    };
                    duplicates.push(d);
                    proof {
                        if at.len() >= 2 {
                            let p = lemma_repeated_is_listed(
                                views,
                                n as int,
                                n as int,
                                kind,
                                name@,
                            );
                            assert(list[p] == before[p]@);
                            assert(false);
                        }
                        assert(at =~= seq![first as int]);
                        assert(all_same(views, at));
                        assert(d@ =~= duplicate_of(views, kind, name@, n + 1)) by {
                            assert(duplicate_of(views, kind, name@, n as int).sections =~= seq![
                                views[first as int].section,
                            ]);
                            assert(d@.sections =~= seq![
                                views[first as int].section,
                            ].push(e.section));
                        }
                        assert(duplicates_among(views, n as int, n + 1) =~= list) by {
                            assert forall|p: int|
                                0 <= p < list.len() implies #[trigger] duplicates_among(
                                views,
                                n as int,
                                n + 1,
                            )[p] == list[p] by {
                                lemma_listed_is_repeated(views, n as int, n as int, p);
                                assert(list[p].kind != kind || list[p].name != name@);
                            }
                        }
                        assert(duplicate_views(duplicates@) =~= duplicate_views(before).push(d@));
                    }
                },
            }
            false
        },
    }
}

proof fn lemma_defined_where_placed(
    entries: Seq<TaggedView>,
    kind: SpecEntryKind,
    name: Seq<char>,
    n: int,
)
    requires
        0 <= n <= entries.len(),
    ensures
        definitions(entries, kind, n).contains_key(name) <==> places(entries, kind, name, n).len()
            > 0,
        definitions(entries, kind, n).contains_key(name) ==> definitions(entries, kind, n)[name]
            == entries[places(entries, kind, name, n)[0]].entry,
    decreases n,
{
    if n > 0 {
        lemma_defined_where_placed(entries, kind, name, n - 1);
    }
}

/// Whether an interface holds the first definitions of the first `n` entries.
pub open spec fn holds_definitions(spec: ContractSpec, entries: Seq<TaggedView>, n: int) -> bool {
    forall|kind: SpecEntryKind| #[trigger] spec.of_kind(kind) == definitions(entries, kind, n)
}

/// What is said of an interface in one line.
pub open spec fn summary_of(spec: ContractSpec) -> Seq<char> {
    "Functions: "@ + text::decimal(spec.functions@.len()) + ", Structs: "@ + text::decimal(
        spec.structs@.len(),
    ) + ", Enums: "@ + text::decimal(spec.enums@.len()) + ", Unions: "@ + text::decimal(
        spec.unions@.len(),
    ) + ", Errors: "@ + text::decimal(spec.error_enums@.len())
}

impl ContractSpec {
    /// The interface that a list of entries declares, and the names that it
    /// declares more than once. Of such a name the first definition counts.
    pub fn from_entries_checked(entries: &[TaggedSpecEntry]) -> (r: (
        ContractSpec,
        Vec<DuplicateEntry>,
    ))
        ensures
            holds_definitions(r.0, tagged_views(entries@), entries@.len() as int),
            duplicate_views(r.1@) == duplicates_of(tagged_views(entries@)),
    {
        let ghost views = tagged_views(entries@);
        let mut spec = ContractSpec::default();
        let mut duplicates: Vec<DuplicateEntry> = Vec::new();
        let mut firsts = Firsts::new();
        assert(duplicate_views(duplicates@) =~= duplicates_among(views, 0, 0));
        let mut n: usize = 0;
        while n < entries.len()
            invariant
                n <= entries@.len(),
                views == tagged_views(entries@),
                firsts.covers(views, n as int),
                duplicate_views(duplicates@) == duplicates_among(views, n as int, n as int),
                holds_definitions(spec, views, n as int),
            decreases entries@.len() - n,
        {
            let is_first = check_and_insert(entries, n, &mut firsts, &mut duplicates);
            let ghost e = entries@[n as int].entry@;
            assert(views[n as int].entry == e);
            proof {
                lemma_defined_where_placed(views, e.kind, e.name, n as int);
            }
            let ghost before = spec;
            if is_first {
                spec.insert(entries[n].entry.clone());
            }
            assert forall|kind: SpecEntryKind| #[trigger] spec.of_kind(kind) == definitions(
                views,
                kind,
                n + 1,
            ) by {
                assert(before.of_kind(kind) == definitions(views, kind, n as int));
            }
            n = n + 1;
        }
        (spec, duplicates)
    }

    /// The interface that a list of entries of one section declares. Of a name
    /// that is declared more than once the first definition counts.
    pub fn from_entries(entries: &[SpecEntry]) -> (r: ContractSpec)
        ensures
            holds_definitions(
                r,
                entries@.map_values(
                    |e: SpecEntry| TaggedView { entry: e@, section: 0 },
                ),
                entries@.len() as int,
            ),
    {
        let ghost wanted = entries@.map_values(
            |e: SpecEntry| TaggedView { entry: e@, section: 0 },
        );
        let mut tagged: Vec<TaggedSpecEntry> = Vec::new();
        let mut i: usize = 0;
        while i < entries.len()
            invariant
                i <= entries@.len(),
                wanted == entries@.map_values(
                    |e: SpecEntry| TaggedView { entry: e@, section: 0 },
                ),
                tagged@.len() == i,
                forall|k: int| 0 <= k < i ==> (#[trigger] tagged@[k])@ == wanted[k],
            decreases entries@.len() - i,
        {
            tagged.push(TaggedSpecEntry::new(entries[i].clone(), 0));
            i = i + 1;
        }
        assert(tagged_views(tagged@) =~= wanted);
        let (spec, _) = Self::from_entries_checked(tagged.as_slice());
        spec
    }

    /// What is said of the interface in one line.
    pub fn summary(&self) -> (r: String)
        ensures
            r@ == summary_of(*self),
    {
        let mut out = "Functions: ".to_string();
        out.append(text::number(self.functions.len()).as_str());
        out.append(", Structs: ");
        out.append(text::number(self.structs.len()).as_str());
        out.append(", Enums: ");
        out.append(text::number(self.enums.len()).as_str());
        out.append(", Unions: ");
        out.append(text::number(self.unions.len()).as_str());
        out.append(", Errors: ");
        out.append(text::number(self.error_enums.len()).as_str());
        out
    }
}

/// The first definition of a name is the one that counts, and a name counts
/// exactly where some entry defines it.
pub proof fn the_first_definition_counts(
    entries: Seq<TaggedView>,
    kind: SpecEntryKind,
    name: Seq<char>,
)
    ensures
        definitions(entries, kind, entries.len() as int).contains_key(name) <==> exists|i: int|
            0 <= i < entries.len() && defines(#[trigger] entries[i], kind, name),
        definitions(entries, kind, entries.len() as int).contains_key(name) ==> exists|i: int|
            0 <= i < entries.len() && defines(#[trigger] entries[i], kind, name) && definitions(
                entries,
                kind,
                entries.len() as int,
            )[name] == entries[i].entry && forall|j: int|
                0 <= j < i ==> !defines(#[trigger] entries[j], kind, name),
{
    let n = entries.len() as int;
    let at = places(entries, kind, name, n);
    lemma_defined_where_placed(entries, kind, name, n);
    lemma_places(entries, kind, name, n);
    if at.len() > 0 {
        let i = at[0];
        assert(defines(entries[i], kind, name));
        assert forall|j: int| 0 <= j < i implies !defines(#[trigger] entries[j], kind, name) by {
            if defines(entries[j], kind, name) {
                assert(at.contains(j));
                let m = choose|m: int| 0 <= m < at.len() && at[m] == j;
                if m > 0 {
                    assert(at[0] < at[m]);
                }
            }
        }
    }
}

/// No definition is dropped in silence: a name is reported as a duplicate
/// exactly where more than one entry defines it, and it is reported once. The
/// report says the section of every definition, and calls the definitions
/// identical exactly where each one is encoded like the first.
pub proof fn every_duplicate_is_reported_once(
    entries: Seq<TaggedView>,
    kind: SpecEntryKind,
    name: Seq<char>,
)
    ensures
        places(entries, kind, name, entries.len() as int).len() >= 2 <==> duplicates_of(
            entries,
        ).contains(duplicate_of(entries, kind, name, entries.len() as int)),
        forall|p: int, q: int|
            0 <= p < q < duplicates_of(entries).len() ==> {
                let d = #[trigger] duplicates_of(entries)[p];
                let e = #[trigger] duplicates_of(entries)[q];
                d.kind != e.kind || d.name != e.name
            },
{
    let n = entries.len() as int;
    let list = duplicates_of(entries);
    if places(entries, kind, name, n).len() >= 2 {
        let p = lemma_repeated_is_listed(entries, n, n, kind, name);
        lemma_listed_is_repeated(entries, n, n, p);
        assert(list[p] == duplicate_of(entries, kind, name, n));
    }
    if list.contains(duplicate_of(entries, kind, name, n)) {
        let p = choose|p: int|
            0 <= p < list.len() && list[p] == duplicate_of(entries, kind, name, n);
        lemma_listed_is_repeated(entries, n, n, p);
    }
    assert forall|p: int, q: int| 0 <= p < q < list.len() implies {
        let d = #[trigger] list[p];
        let e = #[trigger] list[q];
        d.kind != e.kind || d.name != e.name
    } by {
        lemma_listed_once(entries, n, n, p, q);
    }
}

/// Where no two entries define the same name of the same kind, there are no
/// duplicates.
pub proof fn unique_names_have_no_duplicates(entries: Seq<TaggedView>)
    requires
        forall|i: int, j: int|
            0 <= i < j < entries.len() ==> !defines(
                #[trigger] entries[j],
                (#[trigger] entries[i]).entry.kind,
                entries[i].entry.name,
            ),
    ensures
        duplicates_of(entries).len() == 0,
{
    let n = entries.len() as int;
    if duplicates_of(entries).len() > 0 {
        lemma_listed_is_repeated(entries, n, n, 0);
        let d = duplicates_of(entries)[0];
        let at = places(entries, d.kind, d.name, n);
        lemma_places(entries, d.kind, d.name, n);
        assert(at[0] < at[1]);
        assert(defines(entries[at[0]], d.kind, d.name));
        assert(defines(entries[at[1]], d.kind, d.name));
        assert(false);
    }
}

/// The definitions of a duplicate are called identical exactly where any two
/// entries of its kind and name have the same bytes, and none has an encoding
/// that failed: a conflict is never taken for a copy.
pub proof fn identical_definitions_have_equal_bytes(entries: Seq<TaggedView>, p: int)
    requires
        0 <= p < duplicates_of(entries).len(),
    ensures
        ({
            let d = duplicates_of(entries)[p];
            d.is_identical <==> forall|i: int, j: int|
                0 <= i < entries.len() && 0 <= j < entries.len() && (
                #[trigger] entries[i]).entry.kind == d.kind && entries[i].entry.name == d.name && (
                #[trigger] entries[j]).entry.kind == d.kind && entries[j].entry.name == d.name
                    ==> entries[i].entry.xdr.len() > 0 && entries[i].entry.xdr
                    == entries[j].entry.xdr
        }),
{
    let n = entries.len() as int;
    let d = duplicates_of(entries)[p];
    let at = places(entries, d.kind, d.name, n);
    lemma_listed_is_repeated(entries, n, n, p);
    lemma_places(entries, d.kind, d.name, n);
    assert(d.is_identical == all_same(entries, at));
    if d.is_identical {
        let first = entries[at[0]].entry.xdr;
        assert(same_encoding(first, entries[at[1]].entry.xdr));
        assert forall|i: int, j: int|
            0 <= i < entries.len() && 0 <= j < entries.len() && (#[trigger] entries[i]).entry.kind
                == d.kind && entries[i].entry.name == d.name && (#[trigger] entries[j]).entry.kind
                == d.kind && entries[j].entry.name == d.name implies entries[i].entry.xdr.len() > 0
            && entries[i].entry.xdr == entries[j].entry.xdr by {
            assert(defines(entries[i], d.kind, d.name));
            assert(defines(entries[j], d.kind, d.name));
            let a = choose|m: int| 0 <= m < at.len() && at[m] == i;
            let b = choose|m: int| 0 <= m < at.len() && at[m] == j;
            assert(a > 0 ==> same_encoding(first, entries[at[a]].entry.xdr));
            assert(b > 0 ==> same_encoding(first, entries[at[b]].entry.xdr));
        }
    } else {
        let m = choose|m: int|
            1 <= m < at.len() && !same_encoding(
                entries[at[0]].entry.xdr,
                entries[#[trigger] at[m]].entry.xdr,
            );
        assert(defines(entries[at[0]], d.kind, d.name));
        assert(defines(entries[at[m]], d.kind, d.name));
        assert(!(entries[at[0]].entry.xdr.len() > 0 && entries[at[0]].entry.xdr
            == entries[at[m]].entry.xdr));
    }
}

proof fn lemma_sections(entries: Seq<TaggedView>, kind: SpecEntryKind, name: Seq<char>, n: int)
    requires
        0 <= n <= entries.len(),
    ensures
        places(entries, kind, name, n).map_values(|j: int| entries[j].section) == entries.take(
            n,
        ).filter(
            |e: TaggedView| e.entry.kind == kind && e.entry.name == name,
        ).map_values(|e: TaggedView| e.section),
    decreases n,
{
    let wanted = |e: TaggedView| e.entry.kind == kind && e.entry.name == name;
    reveal(Seq::filter);
    if n > 0 {
        lemma_sections(entries, kind, name, n - 1);
        assert(entries.take(n).drop_last() =~= entries.take(n - 1));
        let before = places(entries, kind, name, n - 1);
        let kept = entries.take(n - 1).filter(wanted);
        if wanted(entries[n - 1]) {
            assert(before.push(n - 1).map_values(|j: int| entries[j].section) =~= before.map_values(
                |j: int| entries[j].section,
            ).push(entries[n - 1].section));
            assert(kept.push(entries[n - 1]).map_values(|e: TaggedView| e.section)
                =~= kept.map_values(|e: TaggedView| e.section).push(entries[n - 1].section));
        }
    } else {
        assert(entries.take(0).filter(wanted).map_values(|e: TaggedView| e.section) =~= Seq::<
            usize,
        >::empty());
        assert(places(entries, kind, name, 0).map_values(|j: int| entries[j].section) =~= Seq::<
            usize,
        >::empty());
    }
}

/// A duplicate names the section of every entry of its kind and name, in the
/// order of the entries, and of no other entry.
pub proof fn a_duplicate_names_every_section(entries: Seq<TaggedView>, p: int)
    requires
        0 <= p < duplicates_of(entries).len(),
    ensures
        ({
            let d = duplicates_of(entries)[p];
            &&& d.sections == entries.filter(
                |e: TaggedView| e.entry.kind == d.kind && e.entry.name == d.name,
            ).map_values(|e: TaggedView| e.section)
            &&& d.sections.len() >= 2
        }),
{
    let n = entries.len() as int;
    let d = duplicates_of(entries)[p];
    lemma_listed_is_repeated(entries, n, n, p);
    lemma_sections(entries, d.kind, d.name, n);
    assert(entries.take(n) =~= entries);
}

/// Two entries of one kind and one name are always told of, whatever their
/// sections are, and nothing is told of a name that one entry alone has.
pub proof fn repeated_names_are_the_duplicates(
    entries: Seq<TaggedView>,
    kind: SpecEntryKind,
    name: Seq<char>,
)
    ensures
        (exists|p: int|
            0 <= p < duplicates_of(entries).len() && (#[trigger] duplicates_of(entries)[p]).kind
                == kind && duplicates_of(entries)[p].name == name) <==> exists|i: int, j: int|
            0 <= i < j < entries.len() && (#[trigger] entries[i]).entry.kind == kind
                && entries[i].entry.name == name && (#[trigger] entries[j]).entry.kind == kind
                && entries[j].entry.name == name,
{
    let n = entries.len() as int;
    let list = duplicates_of(entries);
    let at = places(entries, kind, name, n);
    lemma_places(entries, kind, name, n);
    if exists|p: int|
        0 <= p < list.len() && (#[trigger] list[p]).kind == kind && list[p].name == name {
        let p = choose|p: int|
            0 <= p < list.len() && (#[trigger] list[p]).kind == kind && list[p].name == name;
        lemma_listed_is_repeated(entries, n, n, p);
        assert(at[0] < at[1]);
        assert(defines(entries[at[0]], kind, name) && defines(entries[at[1]], kind, name));
    }
    if exists|i: int, j: int|
        0 <= i < j < entries.len() && (#[trigger] entries[i]).entry.kind == kind
            && entries[i].entry.name == name && (#[trigger] entries[j]).entry.kind == kind
            && entries[j].entry.name == name {
        let (i, j) = choose|i: int, j: int|
            0 <= i < j < entries.len() && (#[trigger] entries[i]).entry.kind == kind
                && entries[i].entry.name == name && (#[trigger] entries[j]).entry.kind == kind
                && entries[j].entry.name == name;
        assert(defines(entries[i], kind, name) && defines(entries[j], kind, name));
        let a = choose|m: int| 0 <= m < at.len() && at[m] == i;
        let b = choose|m: int| 0 <= m < at.len() && at[m] == j;
        assert(a != b);
        let p = lemma_repeated_is_listed(entries, n, n, kind, name);
        assert(list[p].kind == kind);
    }
}

/// An entry with a name of its kind that no earlier entry has is in the
/// interface as it was declared.
pub proof fn what_is_declared_first_is_in_the_interface(entries: Seq<TaggedView>, i: int)
    requires
        0 <= i < entries.len(),
        forall|j: int|
            0 <= j < i ==> (#[trigger] entries[j]).entry.kind != entries[i].entry.kind
                || entries[j].entry.name != entries[i].entry.name,
    ensures
        ({
            let e = entries[i].entry;
            let table = definitions(entries, e.kind, entries.len() as int);
            table.contains_key(e.name) && table[e.name] == e
        }),
{
    let n = entries.len() as int;
    let e = entries[i].entry;
    let at = places(entries, e.kind, e.name, n);
    lemma_defined_where_placed(entries, e.kind, e.name, n);
    lemma_places(entries, e.kind, e.name, n);
    assert(defines(entries[i], e.kind, e.name));
    let m = choose|m: int| 0 <= m < at.len() && at[m] == i;
    if m > 0 {
        assert(at[0] < at[m]);
        assert(defines(entries[at[0]], e.kind, e.name));
    }
}

/// The interface holds nothing that no entry declares.
pub proof fn the_interface_holds_nothing_else(
    entries: Seq<TaggedView>,
    kind: SpecEntryKind,
    name: Seq<char>,
)
    requires
        definitions(entries, kind, entries.len() as int).contains_key(name),
    ensures
        exists|i: int|
            0 <= i < entries.len() && (#[trigger] entries[i]).entry.kind == kind
                && entries[i].entry.name == name,
{
    let n = entries.len() as int;
    lemma_defined_where_placed(entries, kind, name, n);
    lemma_places(entries, kind, name, n);
    let i = places(entries, kind, name, n)[0];
    assert(defines(entries[i], kind, name));
}

/// An entry is had from its encoding exactly where the decoder takes it, and is
/// then made of what the decoder gives; an input over a limit of the policy is
/// refused with that limit.
pub proof fn an_entry_is_what_the_decoder_gives(
    encoding: Result<Seq<u8>, XdrFault>,
    outline: Option<(SpecEntryKind, Seq<char>, Seq<char>)>,
    policy: ResourcePolicy,
)
    ensures
        assembled(encoding, outline, policy) is Ok <==> encoding is Ok && outline is Some,
        assembled(encoding, outline, policy) matches Ok(e) ==> encoding == Ok::<Seq<u8>, XdrFault>(
            e.xdr,
        ) && outline == Some((e.kind, e.name, e.doc)),
        encoding == Err::<Seq<u8>, XdrFault>(XdrFault::DepthLimitExceeded) <==> assembled(
            encoding,
            outline,
            policy,
        ) == Err::<SpecEntryView, SpecError>(
            SpecError::Limit(LimitError::XdrDepthExceeded { depth: policy.max_xdr_depth }),
        ),
        encoding == Err::<Seq<u8>, XdrFault>(XdrFault::LengthLimitExceeded) <==> assembled(
            encoding,
            outline,
            policy,
        ) == Err::<SpecEntryView, SpecError>(
            SpecError::Limit(LimitError::XdrLengthExceeded { limit: policy.max_xdr_len }),
        ),
{
}

/// Each kind of entry has a table of its own: what an interface declares of a
/// kind stands in the table of that kind.
pub proof fn each_kind_has_its_table(spec: ContractSpec, name: Seq<char>)
    ensures
        spec.of_kind(SpecEntryKind::Function).contains_key(name) <==> spec.functions@.contains_key(
            name,
        ),
        spec.of_kind(SpecEntryKind::Struct).contains_key(name) <==> spec.structs@.contains_key(
            name,
        ),
        spec.of_kind(SpecEntryKind::Enum).contains_key(name) <==> spec.enums@.contains_key(name),
        spec.of_kind(SpecEntryKind::Union).contains_key(name) <==> spec.unions@.contains_key(name),
        spec.of_kind(SpecEntryKind::ErrorEnum).contains_key(name)
            <==> spec.error_enums@.contains_key(name),
        spec.functions@.contains_key(name) ==> spec.of_kind(SpecEntryKind::Function)[name]
            == spec.functions@[name]@,
        spec.structs@.contains_key(name) ==> spec.of_kind(SpecEntryKind::Struct)[name]
            == spec.structs@[name]@,
        spec.enums@.contains_key(name) ==> spec.of_kind(SpecEntryKind::Enum)[name]
            == spec.enums@[name]@,
        spec.unions@.contains_key(name) ==> spec.of_kind(SpecEntryKind::Union)[name]
            == spec.unions@[name]@,
        spec.error_enums@.contains_key(name) ==> spec.of_kind(SpecEntryKind::ErrorEnum)[name]
            == spec.error_enums@[name]@,
{
}

/// The line on an interface tells how many entries of each kind there are.
pub proof fn the_summary_tells_every_number(spec: ContractSpec)
    ensures
        text::has_sub(
            summary_of(spec),
            "Functions: "@ + text::decimal(spec.functions@.len()) + ", Structs: "@ + text::decimal(
                spec.structs@.len(),
            ) + ", Enums: "@,
        ),
        text::has_sub(
            summary_of(spec),
            ", Enums: "@ + text::decimal(spec.enums@.len()) + ", Unions: "@,
        ),
        text::has_sub(
            summary_of(spec),
            ", Unions: "@ + text::decimal(spec.unions@.len()) + ", Errors: "@,
        ),
        text::has_sub(summary_of(spec), ", Errors: "@ + text::decimal(spec.error_enums@.len())),
{
    broadcast use text::lemma_sub_of_joined;

    let f = "Functions: "@ + text::decimal(spec.functions@.len()) + ", Structs: "@ + text::decimal(
        spec.structs@.len(),
    );
    let e = ", Enums: "@ + text::decimal(spec.enums@.len());
    let u = ", Unions: "@ + text::decimal(spec.unions@.len());
    let x = ", Errors: "@ + text::decimal(spec.error_enums@.len());
    text::lemma_sub_of_itself(f + ", Enums: "@);
    text::lemma_sub_of_itself(e + ", Unions: "@);
    text::lemma_sub_of_itself(u + ", Errors: "@);
    text::lemma_sub_of_itself(x);
    assert(summary_of(spec) =~= (f + ", Enums: "@) + (text::decimal(spec.enums@.len()) + u + x));
    assert(summary_of(spec) =~= f + ((e + ", Unions: "@) + (text::decimal(spec.unions@.len())
        + x)));
    assert(summary_of(spec) =~= (f + e) + ((u + ", Errors: "@) + text::decimal(
        spec.error_enums@.len(),
    )));
    assert(summary_of(spec) =~= (f + e + u) + x);
}

/// Whether the entry at `i` is the second one with its kind and name.
pub open spec fn is_second(
    entries: Seq<TaggedView>,
    i: int,
    kind: SpecEntryKind,
    name: Seq<char>,
) -> bool {
    &&& 0 <= i < entries.len()
    &&& entries[i].entry.kind == kind && entries[i].entry.name == name
    &&& exists|j: int|
        0 <= j < i && (#[trigger] entries[j]).entry.kind == kind && entries[j].entry.name == name
            && forall|k: int|
            0 <= k < i && k != j ==> !((#[trigger] entries[k]).entry.kind == kind
                && entries[k].entry.name == name)
}

/// The entry that makes a duplicate is the second one of its kind and name.
proof fn lemma_second(entries: Seq<TaggedView>, i: int)
    requires
        0 <= i < entries.len(),
        places(entries, entries[i].entry.kind, entries[i].entry.name, i).len() == 1,
    ensures
        is_second(entries, i, entries[i].entry.kind, entries[i].entry.name),
{
    let kind = entries[i].entry.kind;
    let name = entries[i].entry.name;
    lemma_places(entries, kind, name, i);
    let at = places(entries, kind, name, i);
    let j = at[0];
    assert(defines(entries[j], kind, name));
    assert forall|k: int| 0 <= k < i && k != j implies !((#[trigger] entries[k]).entry.kind == kind
        && entries[k].entry.name == name) by {
        if defines(entries[k], kind, name) {
            assert(at.contains(k));
        }
    }
}

/// The place of the second definition of the duplicate at `p`.
proof fn lemma_place_of_duplicate(entries: Seq<TaggedView>, i: int, n: int, p: int) -> (at: int)
    requires
        0 <= i <= entries.len(),
        0 <= p < duplicates_among(entries, i, n).len(),
    ensures
        0 <= at < i,
        ({
            let d = duplicates_among(entries, i, n)[p];
            is_second(entries, at, d.kind, d.name)
        }),
        duplicates_among(entries, at, n).len() == p,
    decreases i,
{
    let e = entries[i - 1].entry;
    if places(entries, e.kind, e.name, i - 1).len() == 1 && p == duplicates_among(
        entries,
        i - 1,
        n,
    ).len() {
        lemma_second(entries, i - 1);
        i - 1
    } else {
        lemma_place_of_duplicate(entries, i - 1, n, p)
    }
}

proof fn lemma_fewer_before(entries: Seq<TaggedView>, i: int, j: int, n: int)
    requires
        0 <= i <= j,
    ensures
        duplicates_among(entries, i, n).len() <= duplicates_among(entries, j, n).len(),
    decreases j,
{
    if i < j {
        lemma_fewer_before(entries, i, j - 1, n);
    }
}

/// Duplicates are told in the order in which their second definitions come.
pub proof fn duplicates_come_in_order(entries: Seq<TaggedView>, p: int, q: int)
    requires
        0 <= p < q < duplicates_of(entries).len(),
    ensures
        exists|i: int, j: int|
            i < j && #[trigger] is_second(
                entries,
                i,
                duplicates_of(entries)[p].kind,
                duplicates_of(entries)[p].name,
            ) && #[trigger] is_second(
                entries,
                j,
                duplicates_of(entries)[q].kind,
                duplicates_of(entries)[q].name,
            ),
{
    let n = entries.len() as int;
    let i = lemma_place_of_duplicate(entries, n, n, p);
    let j = lemma_place_of_duplicate(entries, n, n, q);
    if j <= i {
        lemma_fewer_before(entries, j, i, n);
    }
}

/// Every kind of entry has a label of its own.
pub proof fn kinds_have_labels_of_their_own(a: SpecEntryKind, b: SpecEntryKind)
    ensures
        kind_label(a) == kind_label(b) <==> a == b,
{
    reveal_strlit("function");
    reveal_strlit("struct");
    reveal_strlit("enum");
    reveal_strlit("union");
    reveal_strlit("error enum");
    assert("function"@.len() == 8 && "struct"@.len() == 6 && "enum"@.len() == 4);
    assert("union"@.len() == 5 && "error enum"@.len() == 10);
}

} // verus!
