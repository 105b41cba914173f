use snowflake_semantic_view_validator::BaseTable;
use snowflake_semantic_view_validator::Dimension;
use snowflake_semantic_view_validator::Filter;
use snowflake_semantic_view_validator::ModuleCustomInstructions;
use snowflake_semantic_view_validator::SemanticModel;
use snowflake_semantic_view_validator::Table;
use snowflake_semantic_view_validator::validate;

fn dimension(name: &str) -> Dimension {
    Dimension {
        name: name.to_string(),
        expr: name.to_string(),
        data_type: "TEXT".to_string(),
        synonyms: None,
        description: None,
        unique: None,
        sample_values: None,
        is_enum: None,
        cortex_search_service: None,
    }
}

fn table(name: &str) -> Table {
    Table {
        name: name.to_string(),
        description: None,
        synonyms: None,
        base_table: BaseTable {
            database: "db".to_string(),
            schema: "sch".to_string(),
            table: name.to_string(),
        },
        primary_key: None,
        dimensions: vec![dimension("d1")],
        time_dimensions: Vec::new(),
        facts: Vec::new(),
        metrics: Vec::new(),
        filters: Vec::new(),
    }
}

fn model(name: &str, tables: Vec<Table>) -> SemanticModel {
    SemanticModel {
        name: name.to_string(),
        description: "a model".to_string(),
        comments: None,
        tables,
        relationships: Vec::new(),
        verified_queries: Vec::new(),
        custom_instructions: None,
        module_custom_instructions: None,
        metrics: Vec::new(),
    }
}

#[test]
fn minimal_valid_model_passes() {
    let r = validate(model("m", vec![table("t")]));
    let v = r.expect("minimal model should validate");
    assert_eq!(v.model.name, "m");
    assert!(v.warnings.is_empty());
}

#[test]
fn empty_name_fails_with_documented_message() {
    let r = validate(model("", vec![table("t")]));
    let e = r.expect_err("empty name must fail");
    assert_eq!(e.message, "Semantic model must have a non-empty 'name' field");
    assert!(e.message.ends_with("must have a non-empty 'name' field"));
    assert!(!e.is_yaml_error);
}

#[test]
fn no_tables_fails_with_documented_message() {
    let r = validate(model("m", Vec::new()));
    let e = r.expect_err("empty table list must fail");
    assert_eq!(e.message, "Semantic model must have at least one table");
    assert!(!e.is_yaml_error);
}

#[test]
fn nameless_table_cites_zero_based_index() {
    let mut bad = table("");
    bad.name = String::new();
    let r = validate(model("m", vec![table("first"), bad]));
    let e = r.expect_err("nameless table must fail");
    assert_eq!(e.message, "Table at index 1 must have a non-empty 'name' field");
}

#[test]
fn table_without_entities_cites_its_name() {
    let mut empty = table("orders");
    empty.dimensions = Vec::new();
    let r = validate(model("m", vec![empty]));
    let e = r.expect_err("entity-less table must fail");
    assert_eq!(
        e.message,
        "Table 'orders' must have at least one dimension, time_dimension, fact, or metric"
    );
}

#[test]
fn filters_alone_do_not_satisfy_entity_rule() {
    let mut only_filters = table("f");
    only_filters.dimensions = Vec::new();
    only_filters.filters = vec![Filter {
        name: "recent".to_string(),
        expr: "ts > 0".to_string(),
        synonyms: None,
        description: None,
        comments: None,
    }];
    let r = validate(model("m", vec![only_filters]));
    let e = r.expect_err("filters alone are not enough");
    assert_eq!(
        e.message,
        "Table 'f' must have at least one dimension, time_dimension, fact, or metric"
    );
}

#[test]
fn first_failure_wins_in_document_order() {
    let mut empty = table("early");
    empty.dimensions = Vec::new();
    let mut nameless = table("");
    nameless.name = String::new();
    let r = validate(model("m", vec![table("ok"), empty, nameless]));
    let e = r.expect_err("must fail");
    assert_eq!(
        e.message,
        "Table 'early' must have at least one dimension, time_dimension, fact, or metric"
    );
}

#[test]
fn legacy_instructions_alone_produce_one_warning() {
    let mut m = model("m", vec![table("t")]);
    m.custom_instructions = Some("Use CTEs\nAvoid SELECT *".to_string());
    let v = validate(m).expect("model is valid");
    assert_eq!(v.warnings.len(), 1);
    let w = &v.warnings[0];
    assert_eq!(
        w.message,
        "The 'custom_instructions' field is deprecated. Consider migrating to 'module_custom_instructions'."
    );
    let suggestion = w.suggestion.as_ref().expect("warning carries a suggestion");
    assert!(suggestion.contains("custom_instructions: |\n    Use CTEs\n    Avoid SELECT *"));
    assert!(suggestion.contains("sql_generation: |\n      Use CTEs\n      Avoid SELECT *"));
}

#[test]
fn structured_instructions_suppress_the_warning() {
    let mut m = model("m", vec![table("t")]);
    m.custom_instructions = Some("legacy".to_string());
    m.module_custom_instructions = Some(ModuleCustomInstructions {
        question_categorization: None,
        sql_generation: Some("generated".to_string()),
    });
    let v = validate(m).expect("model is valid");
    assert!(v.warnings.is_empty());
}

#[test]
fn valid_module_custom_instructions_pass() {
    let mut m = model("m", vec![table("t")]);
    m.module_custom_instructions = Some(ModuleCustomInstructions {
        question_categorization: Some("categorize carefully".to_string()),
        sql_generation: Some("generate carefully".to_string()),
    });
    let v = validate(m).expect("model is valid");
    assert!(v.warnings.is_empty());
}

#[test]
fn empty_module_instructions_fail_naming_both_sub_fields() {
    let mut m = model("m", vec![table("t")]);
    m.module_custom_instructions = Some(ModuleCustomInstructions {
        question_categorization: None,
        sql_generation: None,
    });
    let e = validate(m).expect_err("empty container must fail");
    assert_eq!(
        e.message,
        "'module_custom_instructions' must have at least one of 'question_categorization' or 'sql_generation' defined"
    );
}

#[test]
fn validated_model_is_returned_unchanged() {
    let m = model("keepme", vec![table("t1"), table("t2")]);
    let v = validate(m).expect("valid");
    assert_eq!(v.model.name, "keepme");
    assert_eq!(v.model.tables.len(), 2);
    assert_eq!(v.model.tables[1].name, "t2");
}
