use snowflake_semantic_view_validator::BaseTable;
use snowflake_semantic_view_validator::Dimension;
use snowflake_semantic_view_validator::Fact;
use snowflake_semantic_view_validator::Metric;
use snowflake_semantic_view_validator::ModuleCustomInstructions;
use snowflake_semantic_view_validator::Relationship;
use snowflake_semantic_view_validator::RelationshipColumn;
use snowflake_semantic_view_validator::SemanticModel;
use snowflake_semantic_view_validator::Table;
use snowflake_semantic_view_validator::ValidationError;
use snowflake_semantic_view_validator::ValidationWarning;
use snowflake_semantic_view_validator::VerifiedQuery;
use snowflake_semantic_view_validator::count_described_columns;
use snowflake_semantic_view_validator::count_table_aliased_columns;
use snowflake_semantic_view_validator::count_table_described_columns;
use snowflake_semantic_view_validator::format_error;
use snowflake_semantic_view_validator::format_success;
use snowflake_semantic_view_validator::format_warnings;
use snowflake_semantic_view_validator::Color;
use snowflake_semantic_view_validator::ColoredDoc;
use snowflake_semantic_view_validator::Style;
use snowflake_semantic_view_validator::percent_tenths;
use snowflake_semantic_view_validator::percent_whole;
use snowflake_semantic_view_validator::validate;

fn dimension(name: &str, description: Option<&str>, synonyms: Option<Vec<&str>>) -> Dimension {
    Dimension {
        name: name.to_string(),
        expr: name.to_string(),
        data_type: "TEXT".to_string(),
        synonyms: synonyms.map(|v| v.into_iter().map(|s| s.to_string()).collect()),
        description: description.map(|s| s.to_string()),
        unique: None,
        sample_values: None,
        is_enum: None,
        cortex_search_service: None,
    }
}

fn table(name: &str, dimensions: Vec<Dimension>) -> Table {
    Table {
        name: name.to_string(),
        description: None,
        synonyms: None,
        base_table: BaseTable {
            database: "d".to_string(),
            schema: "s".to_string(),
            table: "tb".to_string(),
        },
        primary_key: None,
        dimensions,
        time_dimensions: Vec::new(),
        facts: Vec::new(),
        metrics: Vec::new(),
        filters: Vec::new(),
    }
}

fn model(name: &str, tables: Vec<Table>) -> SemanticModel {
    SemanticModel {
        name: name.to_string(),
        description: String::new(),
        comments: None,
        tables,
        relationships: Vec::new(),
        verified_queries: Vec::new(),
        custom_instructions: None,
        module_custom_instructions: None,
        metrics: Vec::new(),
    }
}

#[test]
fn percent_of_zero_total_is_zero() {
    assert_eq!(percent_whole(0, 0), 0);
    assert_eq!(percent_tenths(0, 0), 0);
}

#[test]
fn percent_rounds_to_nearest() {
    assert_eq!(percent_whole(1, 2), 50);
    assert_eq!(percent_whole(1, 3), 33);
    assert_eq!(percent_whole(2, 3), 67);
    assert_eq!(percent_whole(3, 3), 100);
    assert_eq!(percent_tenths(1, 3), 333);
    assert_eq!(percent_tenths(1, 8), 125);
}

#[test]
fn counting_table_with_no_entities_gives_zero_of_zero() {
    let t = table("empty", Vec::new());
    assert_eq!(count_table_described_columns(&t), (0, 0));
    assert_eq!(count_table_aliased_columns(&t), (0, 0));
}

#[test]
fn counting_distinguishes_described_and_aliased() {
    let t = table(
        "t",
        vec![
            dimension("a", Some("described"), None),
            dimension("b", None, Some(vec!["alias"])),
            dimension("c", None, Some(vec![])),
        ],
    );
    assert_eq!(count_table_described_columns(&t), (1, 3));
    assert_eq!(count_table_aliased_columns(&t), (1, 3));
}

#[test]
fn empty_description_is_not_counted_as_described() {
    let t = table(
        "t",
        vec![dimension("a", Some(""), None), dimension("b", Some("real"), None)],
    );
    assert_eq!(count_table_described_columns(&t), (1, 2));
    let m = model("m", vec![t]);
    assert_eq!(count_described_columns(&m), (1, 2));
    let out = format_success(&m).render_plain();
    assert!(out.contains("  Described Columns: 1 / 2 (50.0%)"));
}

#[test]
fn model_counts_include_model_level_metrics() {
    let mut m = model("m", vec![table("t", vec![dimension("a", Some("x"), None)])]);
    m.metrics = vec![Metric {
        name: "mm".to_string(),
        expr: "sum(a)".to_string(),
        data_type: None,
        synonyms: None,
        description: Some("a metric".to_string()),
        sample_values: None,
        access_modifier: None,
    }];
    assert_eq!(count_described_columns(&m), (2, 2));
}

#[test]
fn error_report_shows_message_and_rule() {
    let e = ValidationError {
        message: "Semantic model must have at least one table".to_string(),
        is_yaml_error: false,
    };
    let out = format_error(&e).render_plain();
    assert!(out.contains("VALIDATION ERROR"));
    assert!(out.contains("* Semantic model must have at least one table"));
    assert!(!out.contains("TIP:"));
    assert!(out.contains(&"=".repeat(80)));
}

#[test]
fn parse_error_report_includes_yaml_tips() {
    let e = ValidationError {
        message: "Failed to parse YAML file: mapping values are not allowed".to_string(),
        is_yaml_error: true,
    };
    let out = format_error(&e).render_plain();
    assert!(out.contains("TIP:"));
    assert!(out.contains("  Check the YAML syntax at the indicated line and column."));
    assert!(out.contains("    * Incorrect indentation (use spaces, not tabs)"));
    assert!(out.contains("    * Missing colons after keys"));
    assert!(out.contains("    * Unquoted strings containing special characters"));
    assert!(out.contains("    * Missing required fields"));
}

#[test]
fn empty_warning_list_renders_empty() {
    let out = format_warnings(&Vec::new()).render_plain();
    assert_eq!(out, "");
}

#[test]
fn warnings_report_lists_messages_and_suggestions() {
    let warnings = vec![
        ValidationWarning {
            message: "first warning".to_string(),
            suggestion: Some("do this\nthen that".to_string()),
        },
        ValidationWarning { message: "second warning".to_string(), suggestion: None },
    ];
    let out = format_warnings(&warnings).render_plain();
    assert!(out.contains("WARNINGS"));
    assert!(out.contains("* first warning"));
    assert!(out.contains("  Suggestion:"));
    assert!(out.contains("  do this\n  then that"));
    assert!(out.contains("* second warning"));
    assert!(out.contains(&"-".repeat(80)));
}

#[test]
fn success_report_round_trips_through_style_stripping() {
    let m = model(
        "round",
        vec![table("t", vec![dimension("a", Some("described"), Some(vec!["alias"]))])],
    );
    let doc = format_success(&m);
    let plain = doc.render_plain();
    let stripped = doc.strip_styles().render_plain();
    assert_eq!(plain, stripped);
}

#[test]
fn minimal_valid_model_report_shows_name_and_dimension_count() {
    let m = model("m", vec![table("t", vec![dimension("d1", None, None)])]);
    let v = validate(m).expect("minimal model validates");
    let out = format_success(&v.model).render_plain();
    assert!(out.contains("Name: m\n"));
    // Tables section row: one dimension, zero of everything else, 0%
    // described and aliased.
    assert!(out.contains("TABLES (1)"));
    let row = "t    | d.s.tb   |          1 |    0 |     0 |       0 |       0 |        0% |      0%";
    assert!(out.contains(row), "missing table row in:\n{}", out);
    assert!(out.contains("No relationships defined"));
    assert!(out.contains("No verified queries defined"));
    assert!(out.contains("No custom instructions defined"));
    assert!(out.contains("Validation successful!"));
}

#[test]
fn success_report_table_section_has_aligned_columns() {
    let m = model(
        "m",
        vec![
            table("orders", vec![dimension("a", Some("x"), None), dimension("b", None, None)]),
            table("t2", vec![dimension("c", None, None)]),
        ],
    );
    let out = format_success(&m).render_plain();
    assert!(out.contains("TABLES (2)"));
    // Per-table described percentage is rounded to a whole percent.
    assert!(out.contains("50%"));
    // Aggregate data quality uses one decimal place: 1 of 3 described.
    assert!(out.contains("  Described Columns: 1 / 3 (33.3%)"));
    assert!(out.contains("  Aliased Columns: 0 / 3 (0.0%)"));
}

#[test]
fn success_report_lists_relationships_and_queries() {
    let mut m = model("m", vec![table("t", vec![dimension("d", None, None)])]);
    m.relationships = vec![Relationship {
        name: "orders_to_customers".to_string(),
        left_table: "orders".to_string(),
        right_table: "customers".to_string(),
        relationship_columns: vec![
            RelationshipColumn {
                left_column: "customer_id".to_string(),
                right_column: "id".to_string(),
            },
            RelationshipColumn {
                left_column: "region".to_string(),
                right_column: "region".to_string(),
            },
        ],
        join_type: "left_outer".to_string(),
        relationship_type: "many_to_one".to_string(),
    }];
    m.verified_queries = vec![VerifiedQuery {
        name: "q1".to_string(),
        question: "How many orders?".to_string(),
        verified_query: None,
        verified_result: None,
    }];
    let out = format_success(&m).render_plain();
    assert!(out.contains("RELATIONSHIPS (1)"));
    assert!(out.contains("orders_to_customers"));
    assert!(out.contains("customer_id = id, region = region"));
    assert!(out.contains("VERIFIED QUERIES (1)"));
    assert!(out.contains("How many orders?"));
}

#[test]
fn success_report_shows_legacy_instructions_with_migration() {
    let mut m = model("m", vec![table("t", vec![dimension("d", None, None)])]);
    m.custom_instructions = Some("line one\nline two".to_string());
    let out = format_success(&m).render_plain();
    assert!(out.contains("  [DEPRECATED] custom_instructions:"));
    assert!(out.contains("    line one\n    line two"));
    assert!(out.contains("  MIGRATION NEEDED:"));
    assert!(out.contains("    sql_generation: |\n      line one\n      line two"));
}

#[test]
fn success_report_shows_structured_instructions() {
    let mut m = model("m", vec![table("t", vec![dimension("d", None, None)])]);
    m.module_custom_instructions = Some(ModuleCustomInstructions {
        question_categorization: Some("cat text".to_string()),
        sql_generation: Some("gen text".to_string()),
    });
    let out = format_success(&m).render_plain();
    assert!(out.contains("  module_custom_instructions:"));
    assert!(out.contains("    question_categorization:\n      cat text"));
    assert!(out.contains("    sql_generation:\n      gen text"));
}

#[test]
fn table_with_facts_only_counts_them() {
    let mut t = table("facts_only", Vec::new());
    t.facts = vec![Fact {
        name: "revenue".to_string(),
        expr: "amount".to_string(),
        data_type: "NUMBER".to_string(),
        synonyms: Some(vec!["sales".to_string()]),
        description: Some("total revenue".to_string()),
        unique: None,
        sample_values: None,
        aggregation: Some("sum".to_string()),
        access_modifier: None,
    }];
    assert_eq!(count_table_described_columns(&t), (1, 1));
    assert_eq!(count_table_aliased_columns(&t), (1, 1));
    let m = model("m", vec![t]);
    let out = format_success(&m).render_plain();
    assert!(out.contains("  Described Columns: 1 / 1 (100.0%)"));
}

#[test]
fn error_report_exact_text() {
    let e = ValidationError { message: "boom".to_string(), is_yaml_error: false };
    let out = format_error(&e).render_plain();
    let rule = "=".repeat(80);
    let expected = format!("{}\n  VALIDATION ERROR\n{}\n\n* boom\n\n{}\n", rule, rule, rule);
    assert_eq!(out, expected);
}

#[test]
fn warnings_report_exact_text() {
    let warnings = vec![ValidationWarning {
        message: "deprecated".to_string(),
        suggestion: Some("fix a\nfix b".to_string()),
    }];
    let out = format_warnings(&warnings).render_plain();
    let rule = "=".repeat(80);
    let dash = "-".repeat(80);
    let expected = format!(
        "{}\n  WARNINGS\n{}\n\n* deprecated\n\n  Suggestion:\n  fix a\n  fix b\n\n{}\n\n",
        rule, rule, dash
    );
    assert_eq!(out, expected);
}

fn leaves(doc: &ColoredDoc, out: &mut Vec<(String, Option<Style>)>) {
    match doc {
        ColoredDoc::Text(s, st) => out.push((s.clone(), *st)),
        ColoredDoc::Line => out.push(("\n".to_string(), None)),
        ColoredDoc::Concat(ds) => {
            for d in ds {
                leaves(d, out);
            }
        }
    }
}

#[test]
fn error_message_leaf_is_bold_red() {
    let e = ValidationError { message: "boom".to_string(), is_yaml_error: false };
    let doc = format_error(&e);
    let mut ls = Vec::new();
    leaves(&doc, &mut ls);
    let bullet = ls.iter().find(|(text, _)| text == "* boom").expect("message leaf");
    let st = bullet.1.expect("message is styled");
    assert!(st.bold);
    assert!(matches!(st.fg, Some(Color::Red)));
}

#[test]
fn quality_percentages_carry_their_tier_colors() {
    // One of one described (100% >= 80%): green. Zero aliased: red.
    let m = model("m", vec![table("t", vec![dimension("a", Some("described"), None)])]);
    let doc = format_success(&m);
    let mut ls = Vec::new();
    leaves(&doc, &mut ls);
    let described = ls.iter().find(|(text, _)| text == "(100.0%)").expect("described pct leaf");
    let ds = described.1.expect("described pct is styled");
    assert!(ds.bold);
    assert!(matches!(ds.fg, Some(Color::Green)));
    let aliased = ls.iter().find(|(text, _)| text == "(0.0%)").expect("aliased pct leaf");
    let als = aliased.1.expect("aliased pct is styled");
    assert!(als.bold);
    assert!(matches!(als.fg, Some(Color::Red)));
}

#[test]
fn mid_tier_percentages_are_yellow() {
    // One of two described (50%): yellow tier. One of two aliased (50%
    // >= 30%, < 60%): yellow tier.
    let m = model(
        "m",
        vec![table(
            "t",
            vec![
                dimension("a", Some("described"), Some(vec!["alias"])),
                dimension("b", None, None),
            ],
        )],
    );
    let doc = format_success(&m);
    let mut ls = Vec::new();
    leaves(&doc, &mut ls);
    let pcts: Vec<&(String, Option<Style>)> =
        ls.iter().filter(|(text, _)| text == "(50.0%)").collect();
    assert_eq!(pcts.len(), 2);
    for (_, style) in pcts {
        let st = style.expect("percentage is styled");
        assert!(matches!(st.fg, Some(Color::Yellow)));
    }
}
