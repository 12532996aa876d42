pub mod baseline;
pub mod diff;
pub mod digest;
pub mod edit_laws;
pub mod limits;
pub mod loader;
pub mod number_laws;
pub mod order;
pub mod report;
pub mod rule_laws;
pub mod rules;
pub mod severity_laws;
pub mod severity_override;
pub mod spec;
pub mod style;
pub mod suppression;
pub mod suppression_laws;
pub mod text;
pub mod type_diff;
pub mod type_diff_laws;
pub mod wasm_cache;
