//! Validation and report rendering for semantic model documents.
//!
//! The crate has three parts: a styled-document algebra with a tabular
//! layout engine (`colored_doc`), the typed semantic-model entities
//! (`model`), and the validator plus report assembly (`validate`,
//! `report`). Rendering to a plain string is verified against a
//! character-sequence model of every document; the validator's result is
//! pinned down rule by rule, message by message.

pub mod colored_doc;
pub mod model;
pub mod report;
pub mod text;
pub mod validate;

pub use colored_doc::Color;
pub use colored_doc::ColoredDoc;
pub use colored_doc::Style;
pub use colored_doc::color_spec;
pub use colored_doc::dimmed_spec;
pub use colored_doc::heading;
pub use colored_doc::subheading;
pub use colored_doc::separator;
pub use colored_doc::Alignment;
pub use colored_doc::Cell;
pub use colored_doc::Column;
pub use colored_doc::Table as TableRenderer;
pub use text::fill_str;
pub use text::join_with;
pub use text::repeat_str;
pub use text::split_lines_vec;
pub use text::usize_to_string;
pub use model::BaseTable;
pub use model::CortexSearchService;
pub use model::Dimension;
pub use model::Fact;
pub use model::Filter;
pub use model::Metric;
pub use model::ModuleCustomInstructions;
pub use model::PrimaryKey;
pub use model::Relationship;
pub use model::RelationshipColumn;
pub use model::SemanticModel;
pub use model::Table;
pub use model::TimeDimension;
pub use model::ValidationError;
pub use model::ValidationResult;
pub use model::ValidationWarning;
pub use model::VerifiedQuery;
pub use validate::validate;
pub use report::count_aliased_columns;
pub use report::count_described_columns;
pub use report::count_table_aliased_columns;
pub use report::count_table_described_columns;
pub use report::format_error;
pub use report::format_warnings;
pub use report::percent_tenths;
pub use report::percent_whole;
pub use report::format_success;
