//! What a run looked at, and what it therefore says nothing about.

use vstd::prelude::*;

use crate::text;

verus! {

/// What a verdict certifies where no storage schema was analysed.
pub const SCOPE_SUMMARY_LINE: &'static str =
    "Exported interface + environment metadata only — storage layout is NOT verified by this result.";

/// What a clean result does not say.
pub const STORAGE_NOT_VERIFIED_NOTE: &'static str =
    "Note: this result does NOT certify storage-layout compatibility. Internal value types serialized into storage and storage-key discriminants need not appear in the exported spec, so a green verdict here says nothing about whether stored data will still deserialize after the upgrade.";

/// How much of the storage layout was analysed.
#[derive(Debug, Clone, Copy, PartialEq, Eq, Structural)]
pub enum StorageScopeState {
    /// No storage schema was supplied.
    NotAnalyzed,
    /// A storage schema was supplied; only the types that it declares were
    /// compared.
    Analyzed { key_types: usize, value_types: usize },
}

/// What a run looked at.
#[derive(Debug)]
pub struct AnalysisScope {
    /// Whether the exported interface was compared.
    pub exported_interface: bool,
    /// Whether the environment metadata was compared.
    pub env_metadata: bool,
    pub storage_schema: StorageScopeState,
    /// The number of `contractspecv0` sections of the old build.
    pub old_spec_section_count: usize,
    /// The number of `contractspecv0` sections of the new build.
    pub new_spec_section_count: usize,
    /// The names that the old build defines twice.
    pub old_duplicate_names: Vec<String>,
    /// The names that the new build defines twice.
    pub new_duplicate_names: Vec<String>,
}

/// A scope as plain values.
pub struct ScopeView {
    pub exported_interface: bool,
    pub env_metadata: bool,
    pub storage_schema: StorageScopeState,
    pub old_spec_section_count: usize,
    pub new_spec_section_count: usize,
    pub old_duplicate_names: Seq<Seq<char>>,
    pub new_duplicate_names: Seq<Seq<char>>,
}

impl View for AnalysisScope {
    type V = ScopeView;

    open spec fn view(&self) -> ScopeView {
        ScopeView {
            exported_interface: self.exported_interface,
            env_metadata: self.env_metadata,
            storage_schema: self.storage_schema,
            old_spec_section_count: self.old_spec_section_count,
            new_spec_section_count: self.new_spec_section_count,
            old_duplicate_names: text::views(self.old_duplicate_names@),
            new_duplicate_names: text::views(self.new_duplicate_names@),
        }
    }
}

/// The scope of a run that says nothing about itself: only the exported
/// interface was compared.
pub open spec fn narrowest_scope() -> ScopeView {
    ScopeView {
        exported_interface: true,
        env_metadata: false,
        storage_schema: StorageScopeState::NotAnalyzed,
        old_spec_section_count: 0,
        new_spec_section_count: 0,
        old_duplicate_names: Seq::empty(),
        new_duplicate_names: Seq::empty(),
    }
}

impl Default for AnalysisScope {
    fn default() -> (r: Self)
        ensures
            r@ == narrowest_scope(),
    {
        let r = AnalysisScope {
            exported_interface: true,
            env_metadata: false,
            storage_schema: StorageScopeState::NotAnalyzed,
            old_spec_section_count: 0,
            new_spec_section_count: 0,
            old_duplicate_names: Vec::new(),
            new_duplicate_names: Vec::new(),
        };
        assert(r@.old_duplicate_names =~= Seq::empty());
        assert(r@.new_duplicate_names =~= Seq::empty());
        r
    }
}

impl Clone for AnalysisScope {
    fn clone(&self) -> (r: Self)
        ensures
            r@ == self@,
    {
        AnalysisScope {
            exported_interface: self.exported_interface,
            env_metadata: self.env_metadata,
            storage_schema: self.storage_schema,
            old_spec_section_count: self.old_spec_section_count,
            new_spec_section_count: self.new_spec_section_count,
            old_duplicate_names: text::clone_texts(&self.old_duplicate_names),
            new_duplicate_names: text::clone_texts(&self.new_duplicate_names),
        }
    }
}

/// Whether a storage schema was analysed.
pub open spec fn has_storage(scope: ScopeView) -> bool {
    scope.storage_schema is Analyzed
}

/// What a verdict of this scope certifies, in one sentence.
pub open spec fn claim(scope: ScopeView) -> Seq<char> {
    match scope.storage_schema {
        StorageScopeState::NotAnalyzed => SCOPE_SUMMARY_LINE@,
        StorageScopeState::Analyzed { key_types, value_types } =>
            "Exported interface + environment metadata, plus a declared storage schema ("@
            + text::decimal(key_types as nat) + " key type(s), "@ + text::decimal(
            value_types as nat,
        ) + " value type(s)). Storage coverage is limited to the declared types."@,
    }
}

/// How much of the storage layout was analysed, in one line.
pub open spec fn storage_claim(scope: ScopeView) -> Seq<char> {
    match scope.storage_schema {
        StorageScopeState::NotAnalyzed =>
            "Storage layout: NOT analyzed — no storage schema supplied."@,
        StorageScopeState::Analyzed { key_types, value_types } =>
            "Storage layout: analyzed against the declared schema ("@ + text::decimal(
            key_types as nat,
        ) + " key type(s), "@ + text::decimal(value_types as nat) + " value type(s))."@,
    }
}

/// The scope as a machine-readable report carries it.
#[derive(Debug)]
pub struct ScopeJson {
    pub exported_interface_analyzed: bool,
    pub env_metadata_analyzed: bool,
    pub storage_layout_analyzed: bool,
    pub storage_key_types: Option<usize>,
    pub storage_value_types: Option<usize>,
    pub old_spec_section_count: usize,
    pub new_spec_section_count: usize,
    pub old_duplicate_names: Vec<String>,
    pub new_duplicate_names: Vec<String>,
    pub summary: String,
}

/// Whether a machine-readable scope says what `scope` says.
pub open spec fn scope_json_of(scope: ScopeView, json: ScopeJson) -> bool {
    &&& json.exported_interface_analyzed == scope.exported_interface
    &&& json.env_metadata_analyzed == scope.env_metadata
    &&& json.storage_layout_analyzed == has_storage(scope)
    &&& json.storage_key_types == (match scope.storage_schema {
        StorageScopeState::NotAnalyzed => None,
        StorageScopeState::Analyzed { key_types, value_types } => Some(key_types),
    })
    &&& json.storage_value_types == (match scope.storage_schema {
        StorageScopeState::NotAnalyzed => None,
        StorageScopeState::Analyzed { key_types, value_types } => Some(value_types),
    })
    &&& json.old_spec_section_count == scope.old_spec_section_count
    &&& json.new_spec_section_count == scope.new_spec_section_count
    &&& text::views(json.old_duplicate_names@) == scope.old_duplicate_names
    &&& text::views(json.new_duplicate_names@) == scope.new_duplicate_names
    &&& json.summary@ == claim(scope)
}

impl AnalysisScope {
    /// Whether a storage schema was analysed.
    pub fn storage_analyzed(&self) -> (r: bool)
        ensures
            r == has_storage(self@),
    {
        matches!(self.storage_schema, StorageScopeState::Analyzed { .. })
    }

    /// What a verdict of this scope certifies, in one sentence.
    pub fn summary_line(&self) -> (r: String)
        ensures
            r@ == claim(self@),
    {
        match self.storage_schema {
            StorageScopeState::NotAnalyzed => SCOPE_SUMMARY_LINE.to_string(),
            StorageScopeState::Analyzed { key_types, value_types } => {
                let mut out =
                    "Exported interface + environment metadata, plus a declared storage schema (".to_string();
                out.append(text::decimal_text(key_types as u64).as_str());
                out.append(" key type(s), ");
                out.append(text::decimal_text(value_types as u64).as_str());
                out.append(
                    " value type(s)). Storage coverage is limited to the declared types.",
                );
                out
            },
        }
    }

    /// How much of the storage layout was analysed, in one line.
    pub fn storage_status_line(&self) -> (r: String)
        ensures
            r@ == storage_claim(self@),
    {
        match self.storage_schema {
            StorageScopeState::NotAnalyzed =>
                "Storage layout: NOT analyzed — no storage schema supplied.".to_string(),
            StorageScopeState::Analyzed { key_types, value_types } => {
                let mut out = "Storage layout: analyzed against the declared schema (".to_string();
                out.append(text::decimal_text(key_types as u64).as_str());
                out.append(" key type(s), ");
                out.append(text::decimal_text(value_types as u64).as_str());
                out.append(" value type(s)).");
                out
            },
        }
    }

    /// The scope as a machine-readable report carries it.
    pub fn to_json(&self) -> (r: ScopeJson)
        ensures
            scope_json_of(self@, r),
    {
        let (storage_key_types, storage_value_types) = match self.storage_schema {
            StorageScopeState::NotAnalyzed => (None, None),
            StorageScopeState::Analyzed { key_types, value_types } => (
                Some(key_types),
                Some(value_types),
            ),
        };
        ScopeJson {
            exported_interface_analyzed: self.exported_interface,
            env_metadata_analyzed: self.env_metadata,
            storage_layout_analyzed: self.storage_analyzed(),
            storage_key_types,
            storage_value_types,
            old_spec_section_count: self.old_spec_section_count,
            new_spec_section_count: self.new_spec_section_count,
            old_duplicate_names: text::clone_texts(&self.old_duplicate_names),
            new_duplicate_names: text::clone_texts(&self.new_duplicate_names),
            summary: self.summary_line(),
        }
    }
}

} // verus!
