//! The outcome of a comparison, and the formats it is written in.

pub mod actions;
pub mod category_laws;
pub mod count_laws;
pub mod data_laws;
pub mod entry_laws;
pub mod escape;
pub mod filter;
pub mod filter_laws;
pub mod filtering;
pub mod finding_laws;
pub mod findings;
pub mod format_laws;
pub mod head_laws;
pub mod html;
pub mod html_laws;
pub mod html_page;
pub mod json;
pub mod junit;
pub mod junit_laws;
pub mod laws;
pub mod log_laws;
pub mod markdown;
pub mod metrics;
pub mod metrics_laws;
pub mod order_laws;
pub mod override_laws;
pub mod part_laws;
pub mod parts;
pub mod safety;
pub mod scope;
pub mod sequence_laws;
pub mod status;
pub mod status_laws;
pub mod tags;
pub mod text_format;
pub mod text_laws;
pub mod verdict_laws;

pub use escape::escape_html;
pub use escape::escape_xml;
pub use filter::validate_categories;
pub use filter::CategoryFilter;
pub use filter::KNOWN_CATEGORIES;
pub use findings::FindingGroups;
pub use findings::ReportedFinding;
pub use html_page::html_document;
pub use json::SafetyReportJson;
pub use json::SeverityCounts;
pub use json::UnmatchedSuppressionJson;
pub use junit::junit_document;
pub use metrics::BuildMetrics;
pub use safety::get_remediation_guidance;
pub use safety::ReportSettings;
pub use safety::SafetyReport;
pub use scope::AnalysisScope;
pub use scope::ScopeJson;
pub use scope::StorageScopeState;
pub use scope::SCOPE_SUMMARY_LINE;
pub use scope::STORAGE_NOT_VERIFIED_NOTE;
