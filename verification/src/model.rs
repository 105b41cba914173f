//! Typed representation of a semantic model document: the model itself,
//! its tables with their column-like entities, relationships, verified
//! queries, and custom instructions, plus the validation outcome types.
//! Entities are constructed once from parsed input and read-only
//! thereafter.

use vstd::prelude::*;

verus! {

/// A semantic model: the root of a parsed document.
#[derive(Debug, Clone)]
pub struct SemanticModel {
    pub name: String,
    pub description: String,
    pub comments: Option<String>,
    pub tables: Vec<Table>,
    pub relationships: Vec<Relationship>,
    pub verified_queries: Vec<VerifiedQuery>,
    pub custom_instructions: Option<String>,
    pub module_custom_instructions: Option<ModuleCustomInstructions>,
    pub metrics: Vec<Metric>,
}

/// Structured custom instructions, superseding the legacy free-text
/// field. When present, at least one sub-field must be populated.
#[derive(Debug, Clone)]
pub struct ModuleCustomInstructions {
    pub question_categorization: Option<String>,
    pub sql_generation: Option<String>,
}

/// A logical table of the model with its physical source and its
/// column-like entities.
#[derive(Debug, Clone)]
pub struct Table {
    pub name: String,
    pub description: Option<String>,
    pub synonyms: Option<Vec<String>>,
    pub base_table: BaseTable,
    pub primary_key: Option<PrimaryKey>,
    pub dimensions: Vec<Dimension>,
    pub time_dimensions: Vec<TimeDimension>,
    pub facts: Vec<Fact>,
    pub metrics: Vec<Metric>,
    pub filters: Vec<Filter>,
}

/// The physical source of a table: database, schema, and table name.
#[derive(Debug, Clone)]
pub struct BaseTable {
    pub database: String,
    pub schema: String,
    pub table: String,
}

/// The primary key of a table, as a list of column names.
#[derive(Debug, Clone)]
pub struct PrimaryKey {
    pub columns: Vec<String>,
}

/// A categorical column used for grouping.
#[derive(Debug, Clone)]
pub struct Dimension {
    pub name: String,
    pub expr: String,
    pub data_type: String,
    pub synonyms: Option<Vec<String>>,
    pub description: Option<String>,
    pub unique: Option<bool>,
    pub sample_values: Option<Vec<String>>,
    pub is_enum: Option<bool>,
    pub cortex_search_service: Option<CortexSearchService>,
}

/// A temporal column used for time-based grouping.
#[derive(Debug, Clone)]
pub struct TimeDimension {
    pub name: String,
    pub expr: String,
    pub data_type: String,
    pub synonyms: Option<Vec<String>>,
    pub description: Option<String>,
    pub unique: Option<bool>,
    pub sample_values: Option<Vec<String>>,
}

/// A numeric column used for aggregation.
#[derive(Debug, Clone)]
pub struct Fact {
    pub name: String,
    pub expr: String,
    pub data_type: String,
    pub synonyms: Option<Vec<String>>,
    pub description: Option<String>,
    pub unique: Option<bool>,
    pub sample_values: Option<Vec<String>>,
    pub aggregation: Option<String>,
    pub access_modifier: Option<String>,
}

/// A derived calculation over a table or the whole model.
#[derive(Debug, Clone)]
pub struct Metric {
    pub name: String,
    pub expr: String,
    pub data_type: Option<String>,
    pub synonyms: Option<Vec<String>>,
    pub description: Option<String>,
    pub sample_values: Option<Vec<String>>,
    pub access_modifier: Option<String>,
}

/// A named row-restriction expression.
#[derive(Debug, Clone)]
pub struct Filter {
    pub name: String,
    pub expr: String,
    pub synonyms: Option<Vec<String>>,
    pub description: Option<String>,
    pub comments: Option<String>,
}

/// A declared join between two tables with explicit column-pair
/// equalities.
#[derive(Debug, Clone)]
pub struct Relationship {
    pub name: String,
    pub left_table: String,
    pub right_table: String,
    pub relationship_columns: Vec<RelationshipColumn>,
    pub join_type: String,
    pub relationship_type: String,
}

/// One column-pair equality of a relationship.
#[derive(Debug, Clone)]
pub struct RelationshipColumn {
    pub left_column: String,
    pub right_column: String,
}

/// A search service attached to a dimension.
#[derive(Debug, Clone)]
pub struct CortexSearchService {
    pub service: String,
    pub literal_column: Option<String>,
    pub database: Option<String>,
    pub schema: Option<String>,
}

/// A recorded natural-language question paired with its known-correct
/// query.
#[derive(Debug, Clone)]
pub struct VerifiedQuery {
    pub name: String,
    pub question: String,
    pub verified_query: Option<String>,
    pub verified_result: Option<String>,
}

/// A terminal validation failure: the message, and a flag telling a
/// parse failure apart from a structural rule violation.
#[derive(Debug, Clone)]
pub struct ValidationError {
    pub message: String,
    pub is_yaml_error: bool,
}

/// An advisory diagnostic that does not block success, with an optional
/// remediation suggestion.
#[derive(Debug, Clone)]
pub struct ValidationWarning {
    pub message: String,
    pub suggestion: Option<String>,
}

/// The outcome of a successful validation: the model and the collected
/// warnings.
#[derive(Debug, Clone)]
pub struct ValidationResult {
    pub model: SemanticModel,
    pub warnings: Vec<ValidationWarning>,
}

} // verus!
