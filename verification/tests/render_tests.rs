use snowflake_semantic_view_validator::Alignment;
use snowflake_semantic_view_validator::Cell;
use snowflake_semantic_view_validator::Color;
use snowflake_semantic_view_validator::ColoredDoc;
use snowflake_semantic_view_validator::Style;
use snowflake_semantic_view_validator::Column;
use snowflake_semantic_view_validator::TableRenderer;
use snowflake_semantic_view_validator::color_spec;
use snowflake_semantic_view_validator::dimmed_spec;
use snowflake_semantic_view_validator::fill_str;
use snowflake_semantic_view_validator::heading;
use snowflake_semantic_view_validator::join_with;
use snowflake_semantic_view_validator::repeat_str;
use snowflake_semantic_view_validator::separator;
use snowflake_semantic_view_validator::split_lines_vec;
use snowflake_semantic_view_validator::subheading;
use snowflake_semantic_view_validator::usize_to_string;

#[test]
fn text_and_line_render_plain() {
    let d = ColoredDoc::text("hello").append(ColoredDoc::line()).append(ColoredDoc::colored_text(
        "world",
        color_spec(Color::Red, true),
    ));
    assert_eq!(d.render_plain(), "hello\nworld");
}

#[test]
fn concat_renders_in_order() {
    let d = ColoredDoc::concat(vec![
        ColoredDoc::text("a"),
        ColoredDoc::line(),
        ColoredDoc::text("b"),
    ]);
    assert_eq!(d.render_plain(), "a\nb");
}

#[test]
fn append_flattens_and_preserves_text() {
    let base = ColoredDoc::concat(vec![ColoredDoc::text("x")]);
    let d = base.append(ColoredDoc::text("y")).append(ColoredDoc::text("z"));
    assert_eq!(d.render_plain(), "xyz");
}

#[test]
fn render_plain_is_idempotent() {
    let d = ColoredDoc::text("alpha").append(ColoredDoc::line()).append(ColoredDoc::colored_text(
        "beta",
        dimmed_spec(),
    ));
    let first = d.render_plain();
    let second = d.render_plain();
    assert_eq!(first, second);
}

#[test]
fn strip_styles_keeps_plain_text() {
    let d = ColoredDoc::colored_text("styled", color_spec(Color::Green, true)).append(
        ColoredDoc::line(),
    ).append(ColoredDoc::text("plain"));
    let stripped = d.strip_styles();
    assert_eq!(stripped.render_plain(), d.render_plain());
}

#[test]
fn heading_is_framed_by_eighty_char_rules() {
    let out = heading("TITLE", Color::Blue).render_plain();
    let rule = "=".repeat(80);
    assert_eq!(out, format!("{}\n  TITLE\n{}\n", rule, rule));
}

#[test]
fn subheading_has_dash_rule() {
    let out = subheading("SUB", Color::Yellow).render_plain();
    assert_eq!(out, format!("SUB\n{}\n", "-".repeat(80)));
}

#[test]
fn separator_repeats_piece_eighty_times() {
    let out = separator("=", Color::Red).render_plain();
    assert_eq!(out, format!("{}\n", "=".repeat(80)));
}

fn pad_left(s: &str, w: usize) -> String {
    if s.len() >= w {
        s.to_string()
    } else {
        format!("{}{}", s, " ".repeat(w - s.len()))
    }
}

fn pad_right(s: &str, w: usize) -> String {
    if s.len() >= w {
        s.to_string()
    } else {
        format!("{}{}", " ".repeat(w - s.len()), s)
    }
}

#[test]
fn table_pads_every_column_to_its_width() {
    let t = TableRenderer::new().add_column(
        Column::new("Name").add_cell(Cell::text("alpha")).add_cell(Cell::text("b")),
    ).add_column(Column::new_aligned("N", Alignment::Right).add_cell(Cell::text("10")));
    // Column widths: max(header, longest cell) = 5 and 2.
    let expected = format!(
        "{} | {}\n{}-|-{}\n{} | {}\n{} | {}\n",
        pad_left("Name", 5),
        pad_right("N", 2),
        "-".repeat(5),
        "-".repeat(2),
        pad_left("alpha", 5),
        pad_right("10", 2),
        pad_left("b", 5),
        " ".repeat(2),
    );
    let out = t.render().render_plain();
    assert_eq!(out, expected);
    for line in out.lines() {
        assert_eq!(line.len(), 5 + 3 + 2);
    }
}

#[test]
fn ragged_short_column_pads_blank() {
    let t = TableRenderer::new().add_column(
        Column::new("A").add_cell(Cell::text("1")).add_cell(Cell::text("2")).add_cell(
            Cell::text("3"),
        ),
    ).add_column(Column::new("B"));
    let out = t.render().render_plain();
    assert_eq!(out, "A | B\n--|--\n1 |  \n2 |  \n3 |  \n");
}

#[test]
fn empty_table_renders_empty() {
    let out = TableRenderer::new().render().render_plain();
    assert_eq!(out, "");
}

#[test]
fn indented_table_prefixes_every_row() {
    let t = TableRenderer::new().add_column(Column::new("H").add_cell(Cell::text("v")));
    let out = t.render_indented("  ").render_plain();
    assert_eq!(out, "  H\n  -\n  v\n");
}

#[test]
fn cell_wider_than_header_sets_width() {
    let t = TableRenderer::new().add_column(
        Column::new("H").add_cell(Cell::colored("longvalue", color_spec(Color::Cyan, false))),
    );
    let out = t.render().render_plain();
    assert_eq!(out, "H        \n---------\nlongvalue\n");
}

#[test]
fn usize_to_string_renders_decimal() {
    assert_eq!(usize_to_string(0), "0");
    assert_eq!(usize_to_string(7), "7");
    assert_eq!(usize_to_string(907), "907");
    assert_eq!(usize_to_string(120034), "120034");
}

#[test]
fn fill_and_repeat_build_runs() {
    assert_eq!(fill_str("-", 4), "----");
    assert_eq!(fill_str(" ", 0), "");
    assert_eq!(repeat_str("ab", 3), "ababab");
}

#[test]
fn split_lines_matches_std_lines() {
    for text in [
        "",
        "one",
        "one\ntwo",
        "one\ntwo\n",
        "a\r\nb\n\nc\r",
        "\n\n",
        "trailing\r\n",
    ] {
        let got = split_lines_vec(text);
        let want: Vec<String> = text.lines().map(|l| l.to_string()).collect();
        assert_eq!(got, want, "split_lines_vec disagrees with str::lines on {:?}", text);
    }
}

#[test]
fn join_with_interleaves_separator() {
    let parts = vec!["a".to_string(), "b".to_string(), "c".to_string()];
    assert_eq!(join_with(&parts, ", "), "a, b, c");
    let empty: Vec<String> = Vec::new();
    assert_eq!(join_with(&empty, ", "), "");
    let one = vec!["solo".to_string()];
    assert_eq!(join_with(&one, ", "), "solo");
}

fn leaves(doc: &ColoredDoc, out: &mut Vec<(String, Option<Style>)>) {
    match doc {
        ColoredDoc::Text(s, st) => out.push((s.clone(), *st)),
        ColoredDoc::Line => out.push(("\n".to_string(), None)),
        ColoredDoc::Concat(ds) => {
            for d in ds {
                leaves(d, out);
            }
        }
    }
}

#[test]
fn append_flattens_an_existing_concatenation() {
    let base = ColoredDoc::concat(vec![ColoredDoc::text("a"), ColoredDoc::text("b")]);
    let appended = base.append(ColoredDoc::text("c"));
    match &appended {
        ColoredDoc::Concat(ds) => assert_eq!(ds.len(), 3),
        _ => panic!("append to a concatenation must stay a concatenation"),
    }
    let pair = ColoredDoc::text("x").append(ColoredDoc::line());
    match &pair {
        ColoredDoc::Concat(ds) => assert_eq!(ds.len(), 2),
        _ => panic!("append to a leaf must build a two-element concatenation"),
    }
}

#[test]
fn heading_leaves_are_bold_in_the_given_color() {
    let doc = heading("TITLE", Color::Blue);
    let mut ls = Vec::new();
    leaves(&doc, &mut ls);
    assert_eq!(ls.len(), 6);
    for idx in [0, 2, 4] {
        let (text, style) = &ls[idx];
        if idx == 2 {
            assert_eq!(text, "  TITLE");
        } else {
            assert_eq!(text, &"=".repeat(80));
        }
        let style = style.expect("heading leaves are styled");
        assert!(style.bold);
        assert!(!style.dimmed);
        assert!(matches!(style.fg, Some(Color::Blue)));
    }
}

#[test]
fn subheading_rule_is_styled_independently_of_the_title() {
    let doc = subheading("SUB", Color::Yellow);
    let mut ls = Vec::new();
    leaves(&doc, &mut ls);
    assert_eq!(ls.len(), 4);
    let title_style = ls[0].1.expect("title is styled");
    assert!(title_style.bold);
    assert!(matches!(title_style.fg, Some(Color::Yellow)));
    let rule_style = ls[2].1.expect("rule is styled");
    assert!(matches!(rule_style.fg, Some(Color::Black)));
}

#[test]
fn table_header_is_bold_white_and_cells_keep_their_style() {
    let t = TableRenderer::new().add_column(
        Column::new("H").add_cell(Cell::colored("v", color_spec(Color::Cyan, false))).add_cell(
            Cell::text("w"),
        ),
    );
    let doc = t.render();
    let mut ls = Vec::new();
    leaves(&doc, &mut ls);
    let header = ls.iter().find(|(text, _)| text == "H").expect("header leaf");
    let hs = header.1.expect("header is styled");
    assert!(hs.bold);
    assert!(matches!(hs.fg, Some(Color::White)));
    let styled_cell = ls.iter().find(|(text, _)| text == "v").expect("styled cell leaf");
    let cs = styled_cell.1.expect("cell keeps its style");
    assert!(!cs.bold);
    assert!(matches!(cs.fg, Some(Color::Cyan)));
    let plain_cell = ls.iter().find(|(text, _)| text == "w").expect("plain cell leaf");
    assert!(plain_cell.1.is_none());
}
