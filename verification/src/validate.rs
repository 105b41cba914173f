//! The validator: structural rules over a parsed semantic model,
//! evaluated in order with the first failure winning, plus advisory
//! warnings for deprecated fields. Every rule, every message, and the
//! exact set of warnings are pinned down in the contract of
//! [`validate`].

use vstd::prelude::*;

use crate::model::SemanticModel;
use crate::model::Table;
use crate::model::ValidationError;
use crate::model::ValidationResult;
use crate::model::ValidationWarning;
use crate::text::dec_str;
use crate::text::join_seqs;
use crate::text::join_with;
use crate::text::split_lines;
use crate::text::split_lines_vec;
use crate::text::usize_to_string;

verus! {

/// True when the table's four entity lists are jointly empty, which is
/// a rule violation: a table must carry at least one dimension, time
/// dimension, fact, or metric.
pub open spec fn table_entities_empty(t: Table) -> bool {
    t.dimensions@.len() == 0 && t.time_dimensions@.len() == 0 && t.facts@.len() == 0
        && t.metrics@.len() == 0
}

/// True when a table passes both per-table rules.
pub open spec fn table_ok(t: Table) -> bool {
    t.name@.len() > 0 && !table_entities_empty(t)
}

/// True when the structured-instructions rule holds: a present
/// container must have at least one sub-field populated.
pub open spec fn instructions_ok(m: SemanticModel) -> bool {
    m.module_custom_instructions matches Some(mi) ==> (mi.question_categorization is Some
        || mi.sql_generation is Some)
}

/// True when the whole model passes every validation rule.
pub open spec fn model_ok(m: SemanticModel) -> bool {
    m.name@.len() > 0 && m.tables@.len() > 0 && (forall|i: int|
        0 <= i < m.tables@.len() ==> table_ok(m.tables@[i])) && instructions_ok(m)
}

/// True when only the deprecated free-text instructions field is used,
/// which earns a migration warning.
pub open spec fn legacy_instructions_only(m: SemanticModel) -> bool {
    m.custom_instructions is Some && m.module_custom_instructions is None
}

/// The error message for a model without a name.
pub open spec fn msg_empty_name() -> Seq<char> {
    "Semantic model must have a non-empty 'name' field"@
}

/// The error message for a model without tables.
pub open spec fn msg_no_tables() -> Seq<char> {
    "Semantic model must have at least one table"@
}

/// The error message for a nameless table, citing its 0-based index.
pub open spec fn msg_table_index(i: nat) -> Seq<char> {
    "Table at index "@ + dec_str(i) + " must have a non-empty 'name' field"@
}

/// The error message for a table without entities, citing its name.
pub open spec fn msg_table_empty(name: Seq<char>) -> Seq<char> {
    "Table '"@ + name + "' must have at least one dimension, time_dimension, fact, or metric"@
}

/// The error message for an empty structured-instructions container,
/// naming both allowed sub-fields.
pub open spec fn msg_instructions() -> Seq<char> {
    "'module_custom_instructions' must have at least one of 'question_categorization' or 'sql_generation' defined"@
}

/// The warning message for deprecated free-text instructions.
pub open spec fn msg_deprecated_instructions() -> Seq<char> {
    "The 'custom_instructions' field is deprecated. Consider migrating to 'module_custom_instructions'."@
}

/// The migration suggestion for deprecated free-text instructions: the
/// legacy text re-indented under the structured field's key path.
pub open spec fn suggestion_text(c: Seq<char>) -> Seq<char> {
    "Replace:\n  custom_instructions: |\n    "@ + join_seqs(split_lines(c), "\n    "@)
        + "\n\nWith:\n  module_custom_instructions:\n    sql_generation: |\n      "@ + join_seqs(
        split_lines(c),
        "\n      "@,
    )
}

/// The index of the first table violating a per-table rule, or the
/// table count when every table passes.
pub open spec fn first_bad_table(ts: Seq<Table>) -> int
    decreases ts.len(),
{
    if ts.len() == 0 {
        0
    } else if !table_ok(ts[0]) {
        0
    } else {
        1 + first_bad_table(ts.drop_first())
    }
}

/// The error message of the first failing table: its index when the
/// name is missing, else its name with the missing-entities message.
pub open spec fn table_error_message(t: Table, i: nat) -> Seq<char> {
    if t.name@.len() == 0 {
        msg_table_index(i)
    } else {
        msg_table_empty(t.name@)
    }
}

/// The message of the first rule violation, in evaluation order: model
/// name, table count, each table in document order, then the
/// structured-instructions rule.
pub open spec fn first_error_message(m: SemanticModel) -> Seq<char> {
    if m.name@.len() == 0 {
        msg_empty_name()
    } else if m.tables@.len() == 0 {
        msg_no_tables()
    } else if first_bad_table(m.tables@) < m.tables@.len() {
        table_error_message(
            m.tables@[first_bad_table(m.tables@)],
            first_bad_table(m.tables@) as nat,
        )
    } else {
        msg_instructions()
    }
}

proof fn lemma_first_bad_table_at(ts: Seq<Table>, i: int)
    requires
        0 <= i <= ts.len(),
        forall|j: int| 0 <= j < i ==> table_ok(ts[j]),
        i < ts.len() ==> !table_ok(ts[i]),
    ensures
        first_bad_table(ts) == i,
    decreases i,
{
    if i == 0 {
        if ts.len() == 0 {
        }
    } else {
        assert(table_ok(ts[0]));
        assert(forall|j: int| 0 <= j < i - 1 ==> ts.drop_first()[j] == ts[j + 1] && table_ok(
            ts[j + 1],
        ));
        if i < ts.len() {
            assert(ts.drop_first()[i - 1] == ts[i]);
        }
        lemma_first_bad_table_at(ts.drop_first(), i - 1);
    }
}

/// Validation law: when the model has a name and at least one table,
/// and the first per-table violation is a table with a name but no
/// entities, the error message cites exactly that table's name.
pub proof fn lemma_error_cites_empty_table(m: SemanticModel, i: int)
    requires
        m.name@.len() > 0,
        0 <= i < m.tables@.len(),
        forall|j: int| 0 <= j < i ==> table_ok(m.tables@[j]),
        m.tables@[i].name@.len() > 0,
        table_entities_empty(m.tables@[i]),
    ensures
        !model_ok(m),
        first_error_message(m) == msg_table_empty(m.tables@[i].name@),
{
    lemma_first_bad_table_at(m.tables@, i);
}

/// Validate a parsed semantic model.
///
/// Rules are evaluated in order and the first failure wins: the model
/// name must be non-empty, there must be at least one table, each table
/// in document order must have a non-empty name and at least one
/// entity, and a present structured-instructions container must have a
/// populated sub-field. Success returns the model unchanged together
/// with exactly one migration warning when only the deprecated
/// free-text instructions field is used, and no warning otherwise.
#[verifier::loop_isolation(false)]
pub fn validate(model: SemanticModel) -> (r: Result<ValidationResult, ValidationError>)
    ensures
        r is Ok <==> model_ok(model),
        r matches Ok(v) ==> v.model == model,
        r matches Ok(v) ==> (legacy_instructions_only(model) ==> v.warnings@.len() == 1
            && v.warnings@[0].message@ == msg_deprecated_instructions()
            && (v.warnings@[0].suggestion matches Some(s) && s@ == suggestion_text(
            model.custom_instructions.unwrap()@,
        ))),
        r matches Ok(v) ==> (!legacy_instructions_only(model) ==> v.warnings@.len() == 0),
        r matches Err(e) ==> e.message@ == first_error_message(model) && !e.is_yaml_error,
{
    if model.name.as_str().is_empty() {
        return Err(
            ValidationError {
                message: "Semantic model must have a non-empty 'name' field".to_owned(),
                is_yaml_error: false,
            },
        );
    }

    if model.tables.len() == 0 {
        return Err(
            ValidationError {
                message: "Semantic model must have at least one table".to_owned(),
                is_yaml_error: false,
            },
        );
    }

    let mut i: usize = 0;
    while i < model.tables.len()
        invariant
            i <= model.tables@.len(),
            forall|j: int| 0 <= j < i ==> table_ok(model.tables@[j]),
        decreases model.tables@.len() - i,
    {
        let table = &model.tables[i];
        if table.name.as_str().is_empty() {
            let mut msg = "Table at index ".to_owned();
            let idx = usize_to_string(i);
            msg.append(idx.as_str());
            msg.append(" must have a non-empty 'name' field");
            proof {
                lemma_first_bad_table_at(model.tables@, i as int);
            }
            return Err(ValidationError { message: msg, is_yaml_error: false });
        }

        if table.dimensions.len() == 0 && table.time_dimensions.len() == 0 && table.facts.len()
            == 0 && table.metrics.len() == 0 {
            let mut msg = "Table '".to_owned();
            msg.append(table.name.as_str());
            msg.append("' must have at least one dimension, time_dimension, fact, or metric");
            proof {
                lemma_first_bad_table_at(model.tables@, i as int);
            }
            return Err(ValidationError { message: msg, is_yaml_error: false });
        }
        i = i + 1;
    }

    let mut warnings: Vec<ValidationWarning> = Vec::new();

    if model.custom_instructions.is_some() && model.module_custom_instructions.is_none() {
        let ci: &String = match &model.custom_instructions {
            Some(c) => c,
            None => unreached(),
        };
        let lines = split_lines_vec(ci.as_str());
        let joined_replace = join_with(&lines, "\n    ");
        let joined_with = join_with(&lines, "\n      ");
        let mut suggestion = "Replace:\n  custom_instructions: |\n    ".to_owned();
        suggestion.append(joined_replace.as_str());
        suggestion.append("\n\nWith:\n  module_custom_instructions:\n    sql_generation: |\n      ");
        suggestion.append(joined_with.as_str());
        warnings.push(
            ValidationWarning {
                message: "The 'custom_instructions' field is deprecated. Consider migrating to 'module_custom_instructions'.".to_owned(),
                suggestion: Some(suggestion),
            },
        );
    }

    match &model.module_custom_instructions {
        Some(mi) => {
            if mi.question_categorization.is_none() && mi.sql_generation.is_none() {
                proof {
                    lemma_first_bad_table_at(model.tables@, model.tables@.len() as int);
                }
                return Err(
                    ValidationError {
                        message: "'module_custom_instructions' must have at least one of 'question_categorization' or 'sql_generation' defined".to_owned(),
                        is_yaml_error: false,
                    },
                );
            }
        }
        None => {}
    }

    Ok(ValidationResult { model, warnings })
}

} // verus!
