use soroban_upgrade_safeguard::limits::LimitError;
use soroban_upgrade_safeguard::limits::ResourcePolicy;
use soroban_upgrade_safeguard::spec::assemble_entry;
use soroban_upgrade_safeguard::spec::ContractSpec;
use soroban_upgrade_safeguard::spec::SpecEntry;
use soroban_upgrade_safeguard::spec::SpecEntryKind;
use soroban_upgrade_safeguard::spec::SpecError;
use soroban_upgrade_safeguard::spec::TaggedSpecEntry;
use stellar_xdr::curr::Limits;
use stellar_xdr::curr::ScSpecEntry;
use stellar_xdr::curr::ScSpecFunctionV0;
use stellar_xdr::curr::ScSpecUdtEnumV0;
use stellar_xdr::curr::ScSpecUdtErrorEnumV0;
use stellar_xdr::curr::ScSpecUdtStructV0;
use stellar_xdr::curr::ScSpecUdtUnionV0;
use stellar_xdr::curr::StringM;
use stellar_xdr::curr::VecM;
use stellar_xdr::curr::WriteXdr;

fn decoded(entry: ScSpecEntry) -> SpecEntry {
    let bytes = entry.to_xdr(Limits::none()).unwrap();
    SpecEntry::from_xdr(&bytes, &ResourcePolicy::default()).unwrap()
}

fn make_fn(name: &str, doc: &str) -> SpecEntry {
    decoded(ScSpecEntry::FunctionV0(ScSpecFunctionV0 {
        doc: doc.try_into().unwrap(),
        name: name.try_into().unwrap(),
        inputs: VecM::default(),
        outputs: VecM::default(),
    }))
}

fn make_struct(name: &str, doc: &str) -> SpecEntry {
    decoded(ScSpecEntry::UdtStructV0(ScSpecUdtStructV0 {
        doc: doc.try_into().unwrap(),
        lib: StringM::default(),
        name: name.try_into().unwrap(),
        fields: VecM::default(),
    }))
}

fn make_enum(name: &str, doc: &str) -> SpecEntry {
    decoded(ScSpecEntry::UdtEnumV0(ScSpecUdtEnumV0 {
        doc: doc.try_into().unwrap(),
        lib: StringM::default(),
        name: name.try_into().unwrap(),
        cases: VecM::default(),
    }))
}

fn make_union(name: &str, doc: &str) -> SpecEntry {
    decoded(ScSpecEntry::UdtUnionV0(ScSpecUdtUnionV0 {
        doc: doc.try_into().unwrap(),
        lib: StringM::default(),
        name: name.try_into().unwrap(),
        cases: VecM::default(),
    }))
}

fn make_err(name: &str, doc: &str) -> SpecEntry {
    decoded(ScSpecEntry::UdtErrorEnumV0(ScSpecUdtErrorEnumV0 {
        doc: doc.try_into().unwrap(),
        lib: StringM::default(),
        name: name.try_into().unwrap(),
        cases: VecM::default(),
    }))
}

fn tagged(entry: SpecEntry, section: usize) -> TaggedSpecEntry {
    TaggedSpecEntry::new(entry, section)
}

#[test]
fn identical_duplicate_function_is_informational() {
    let e1 = make_fn("my_func", "same doc");
    let e2 = make_fn("my_func", "same doc"); // byte-identical
    let entries = vec![tagged(e1, 0), tagged(e2, 1)];

    let (spec, dups) = ContractSpec::from_entries_checked(&entries);
    assert_eq!(spec.functions.len(), 1, "only one entry inserted");
    assert_eq!(dups.len(), 1);
    assert!(
        dups[0].is_identical,
        "identical duplicate must be flagged as identical"
    );
    assert_eq!(dups[0].kind, SpecEntryKind::Function);
    assert_eq!(dups[0].sections, vec![0, 1]);
}

#[test]
fn identical_duplicate_struct_is_informational() {
    let e1 = make_struct("MyStruct", "same doc");
    let e2 = make_struct("MyStruct", "same doc");
    let entries = vec![tagged(e1, 0), tagged(e2, 0)]; // same section

    let (spec, dups) = ContractSpec::from_entries_checked(&entries);
    assert_eq!(spec.structs.len(), 1);
    assert_eq!(dups.len(), 1);
    assert!(dups[0].is_identical);
    assert_eq!(dups[0].kind, SpecEntryKind::Struct);
    assert_eq!(dups[0].sections, vec![0, 0]);
}

#[test]
fn identical_duplicate_enum_is_informational() {
    let e1 = make_enum("MyEnum", "doc");
    let e2 = make_enum("MyEnum", "doc");
    let entries = vec![tagged(e1, 0), tagged(e2, 1)];

    let (_, dups) = ContractSpec::from_entries_checked(&entries);
    assert_eq!(dups.len(), 1);
    assert!(dups[0].is_identical);
    assert_eq!(dups[0].kind, SpecEntryKind::Enum);
}

#[test]
fn identical_duplicate_union_is_informational() {
    let e1 = make_union("MyUnion", "doc");
    let e2 = make_union("MyUnion", "doc");
    let entries = vec![tagged(e1, 0), tagged(e2, 1)];

    let (_, dups) = ContractSpec::from_entries_checked(&entries);
    assert_eq!(dups.len(), 1);
    assert!(dups[0].is_identical);
    assert_eq!(dups[0].kind, SpecEntryKind::Union);
}

#[test]
fn identical_duplicate_error_enum_is_informational() {
    let e1 = make_err("MyErr", "doc");
    let e2 = make_err("MyErr", "doc");
    let entries = vec![tagged(e1, 0), tagged(e2, 1)];

    let (_, dups) = ContractSpec::from_entries_checked(&entries);
    assert_eq!(dups.len(), 1);
    assert!(dups[0].is_identical);
    assert_eq!(dups[0].kind, SpecEntryKind::ErrorEnum);
}

#[test]
fn conflicting_duplicate_function_is_not_identical() {
    let e1 = make_fn("transfer", "v1 doc");
    let e2 = make_fn("transfer", "v2 doc different"); // differs in doc → different XDR
    let entries = vec![tagged(e1, 0), tagged(e2, 1)];

    let (spec, dups) = ContractSpec::from_entries_checked(&entries);
    // First definition wins
    assert_eq!(
        spec.functions.get("transfer").unwrap().doc,
        "v1 doc",
        "first definition must be retained"
    );
    assert_eq!(dups.len(), 1);
    assert!(
        !dups[0].is_identical,
        "conflicting duplicate must not be identical"
    );
    assert_eq!(dups[0].kind, SpecEntryKind::Function);
    assert_eq!(dups[0].name, "transfer");
    assert_eq!(dups[0].sections, vec![0, 1]);
}

#[test]
fn conflicting_duplicate_struct_is_not_identical() {
    let e1 = make_struct("Ledger", "v1");
    let e2 = make_struct("Ledger", "v2"); // doc differs
    let entries = vec![tagged(e1, 0), tagged(e2, 1)];

    let (spec, dups) = ContractSpec::from_entries_checked(&entries);
    assert_eq!(spec.structs.get("Ledger").unwrap().doc, "v1");
    assert!(!dups[0].is_identical);
    assert_eq!(dups[0].kind, SpecEntryKind::Struct);
}

#[test]
fn conflicting_duplicate_enum_is_not_identical() {
    let e1 = make_enum("Status", "a");
    let e2 = make_enum("Status", "b");
    let entries = vec![tagged(e1, 0), tagged(e2, 1)];

    let (_, dups) = ContractSpec::from_entries_checked(&entries);
    assert!(!dups[0].is_identical);
    assert_eq!(dups[0].kind, SpecEntryKind::Enum);
}

#[test]
fn conflicting_duplicate_union_is_not_identical() {
    let e1 = make_union("Action", "a");
    let e2 = make_union("Action", "b");
    let entries = vec![tagged(e1, 0), tagged(e2, 1)];

    let (_, dups) = ContractSpec::from_entries_checked(&entries);
    assert!(!dups[0].is_identical);
    assert_eq!(dups[0].kind, SpecEntryKind::Union);
}

#[test]
fn conflicting_duplicate_error_enum_is_not_identical() {
    let e1 = make_err("ContractError", "a");
    let e2 = make_err("ContractError", "b");
    let entries = vec![tagged(e1, 0), tagged(e2, 1)];

    let (_, dups) = ContractSpec::from_entries_checked(&entries);
    assert!(!dups[0].is_identical);
    assert_eq!(dups[0].kind, SpecEntryKind::ErrorEnum);
}

#[test]
fn three_occurrences_accumulate_into_one_duplicate_entry() {
    let e1 = make_fn("foo", "v1");
    let e2 = make_fn("foo", "v1"); // identical to e1
    let e3 = make_fn("foo", "v3"); // conflicts
    let entries = vec![tagged(e1, 0), tagged(e2, 1), tagged(e3, 2)];

    let (spec, dups) = ContractSpec::from_entries_checked(&entries);
    assert_eq!(spec.functions.len(), 1);
    assert_eq!(spec.functions.get("foo").unwrap().doc, "v1", "first wins");
    assert_eq!(dups.len(), 1, "all three collapsed into one DuplicateEntry");
    assert_eq!(dups[0].sections, vec![0, 1, 2]);
    assert!(
        !dups[0].is_identical,
        "conflicting third makes the whole group conflicting"
    );
}

#[test]
fn unique_names_produce_no_duplicates() {
    let entries = vec![
        tagged(make_fn("a", ""), 0),
        tagged(make_fn("b", ""), 0),
        tagged(make_struct("S", ""), 0),
    ];
    let (spec, dups) = ContractSpec::from_entries_checked(&entries);
    assert_eq!(spec.functions.len(), 2);
    assert_eq!(spec.structs.len(), 1);
    assert!(dups.is_empty(), "no duplicates expected for unique names");
}

#[test]
fn same_name_different_kinds_is_not_a_duplicate() {
    // A function named "Token" and a struct named "Token" are distinct namespaces.
    let entries = vec![
        tagged(make_fn("Token", ""), 0),
        tagged(make_struct("Token", ""), 0),
    ];
    let (spec, dups) = ContractSpec::from_entries_checked(&entries);
    assert_eq!(spec.functions.len(), 1);
    assert_eq!(spec.structs.len(), 1);
    assert!(dups.is_empty(), "different kinds share no namespace");
}

#[test]
fn from_entries_backward_compat_accepts_duplicate_silently() {
    let entries = vec![make_fn("my_func", "doc1"), make_fn("my_func", "doc2")];
    let spec = ContractSpec::from_entries(&entries);
    assert_eq!(spec.functions.len(), 1);
    assert_eq!(spec.functions.get("my_func").unwrap().doc, "doc1");
}

#[test]
fn provenance_section_indices_are_tracked() {
    let e1 = make_struct("Foo", "a");
    let e2 = make_struct("Foo", "b");
    let entries = vec![tagged(e1, 3), tagged(e2, 7)];

    let (_, dups) = ContractSpec::from_entries_checked(&entries);
    assert_eq!(dups[0].sections, vec![3, 7]);
}

#[test]
fn doc_only_difference_is_conflicting() {
    // Two structs that differ in nothing but their documentation.
    let e1 = make_struct("Data", "documented");
    let e2 = make_struct("Data", ""); // empty doc
    let entries = vec![tagged(e1, 0), tagged(e2, 1)];

    let (_, dups) = ContractSpec::from_entries_checked(&entries);
    assert_eq!(dups.len(), 1);
    assert!(
        !dups[0].is_identical,
        "doc-only difference is still a conflict"
    );
}

#[test]
fn test_from_entries_duplicate_function_first_wins() {
    let f1 = ScSpecFunctionV0 {
        doc: "doc1".try_into().unwrap(),
        name: "my_func".try_into().unwrap(),
        inputs: VecM::default(),
        outputs: VecM::default(),
    };
    let f2 = ScSpecFunctionV0 {
        doc: "doc2".try_into().unwrap(),
        name: "my_func".try_into().unwrap(),
        inputs: VecM::default(),
        outputs: VecM::default(),
    };
    let entries = vec![
        decoded(ScSpecEntry::FunctionV0(f1)),
        decoded(ScSpecEntry::FunctionV0(f2)),
    ];
    let spec = ContractSpec::from_entries(&entries);
    assert_eq!(spec.functions.len(), 1);
    let resolved = spec.functions.get("my_func").unwrap();
    assert_eq!(resolved.doc, "doc1");
}

#[test]
fn test_from_entries_unique_names_no_warning() {
    let f1 = ScSpecFunctionV0 {
        doc: "doc1".try_into().unwrap(),
        name: "my_func1".try_into().unwrap(),
        inputs: VecM::default(),
        outputs: VecM::default(),
    };
    let f2 = ScSpecFunctionV0 {
        doc: "doc2".try_into().unwrap(),
        name: "my_func2".try_into().unwrap(),
        inputs: VecM::default(),
        outputs: VecM::default(),
    };
    let entries = vec![
        decoded(ScSpecEntry::FunctionV0(f1)),
        decoded(ScSpecEntry::FunctionV0(f2)),
    ];
    let spec = ContractSpec::from_entries(&entries);
    assert_eq!(spec.functions.len(), 2);
}

#[test]
fn from_entries_checked_section_provenance() {
    let e1 = TaggedSpecEntry::new(make_fn("foo", "v1"), 0);
    let e2 = TaggedSpecEntry::new(make_fn("foo", "v2"), 1);

    let (spec, dups) = ContractSpec::from_entries_checked(&[e1, e2]);

    assert_eq!(spec.functions.len(), 1, "only one entry in the spec");
    assert_eq!(
        spec.functions.get("foo").unwrap().doc,
        "v1",
        "first definition wins"
    );
    assert_eq!(dups.len(), 1);
    assert_eq!(dups[0].sections, vec![0, 1]);
    assert!(!dups[0].is_identical);
}

#[test]
fn an_entry_keeps_kind_name_and_documentation() {
    let e = make_err("MyErr", "doc");
    assert_eq!(e.kind, SpecEntryKind::ErrorEnum);
    assert_eq!(e.name, "MyErr");
    assert_eq!(e.doc, "doc");
    assert!(!e.xdr.is_empty());
    assert_eq!(make_fn("f", "").kind.label(), "function");
    assert_eq!(make_struct("s", "").kind.label(), "struct");
    assert_eq!(make_enum("e", "").kind.label(), "enum");
    assert_eq!(make_union("u", "").kind.label(), "union");
    assert_eq!(e.kind.label(), "error enum");
}

#[test]
fn entries_that_cannot_be_decoded_are_refused() {
    let bytes = ScSpecEntry::FunctionV0(ScSpecFunctionV0 {
        doc: "a longer text".try_into().unwrap(),
        name: "f".try_into().unwrap(),
        inputs: VecM::default(),
        outputs: VecM::default(),
    })
    .to_xdr(Limits::none())
    .unwrap();
    let policy = ResourcePolicy::default();
    assert!(SpecEntry::from_xdr(&bytes, &policy).is_ok());
    assert_eq!(
        SpecEntry::from_xdr(&bytes[..bytes.len() - 1], &policy).unwrap_err(),
        SpecError::Malformed
    );
    let short = ResourcePolicy {
        max_xdr_len: 8,
        ..ResourcePolicy::default()
    };
    assert_eq!(
        SpecEntry::from_xdr(&bytes, &short).unwrap_err(),
        SpecError::Limit(LimitError::XdrLengthExceeded { limit: 8 })
    );
    let flat = ResourcePolicy {
        max_xdr_depth: 1,
        ..ResourcePolicy::default()
    };
    assert_eq!(
        SpecEntry::from_xdr(&bytes, &flat).unwrap_err(),
        SpecError::Limit(LimitError::XdrDepthExceeded { depth: 1 })
    );
}

#[test]
fn a_definition_without_an_encoding_is_like_no_other() {
    let policy = ResourcePolicy::default();
    let blank = || {
        assemble_entry(
            Ok(vec![]),
            Some((SpecEntryKind::Function, "f".to_string(), "".to_string())),
            &policy,
        )
        .unwrap()
    };
    let entries = vec![tagged(blank(), 0), tagged(blank(), 1)];
    let (_, dups) = ContractSpec::from_entries_checked(&entries);
    assert_eq!(dups.len(), 1);
    assert!(!dups[0].is_identical);
    assert_eq!(
        assemble_entry(Ok(vec![1]), None, &policy).unwrap_err(),
        SpecError::Malformed
    );
}

#[test]
fn duplicates_come_in_the_order_in_which_they_are_found() {
    let entries = vec![
        tagged(make_fn("a", ""), 0),
        tagged(make_struct("b", ""), 0),
        tagged(make_struct("b", ""), 1),
        tagged(make_fn("a", "x"), 1),
        tagged(make_struct("b", ""), 2),
    ];
    let (_, dups) = ContractSpec::from_entries_checked(&entries);
    assert_eq!(dups.len(), 2);
    assert_eq!(dups[0].name, "b");
    assert_eq!(dups[0].sections, vec![0, 1, 2]);
    assert!(dups[0].is_identical);
    assert_eq!(dups[1].name, "a");
    assert_eq!(dups[1].sections, vec![0, 1]);
    assert!(!dups[1].is_identical);
}

#[test]
fn the_summary_counts_every_kind() {
    let entries = vec![
        make_fn("a", ""),
        make_fn("b", ""),
        make_struct("s", ""),
        make_enum("e", ""),
        make_union("u", ""),
        make_err("x", ""),
        make_err("y", ""),
        make_err("z", ""),
    ];
    assert_eq!(
        ContractSpec::from_entries(&entries).summary(),
        "Functions: 2, Structs: 1, Enums: 1, Unions: 1, Errors: 3"
    );
    assert_eq!(
        ContractSpec::from_entries(&[]).summary(),
        "Functions: 0, Structs: 0, Enums: 0, Unions: 0, Errors: 0"
    );
}
