use klaay::markdown::{
    first_prose_line, is_ordered_list_marker, is_separator_row, render_tag_description,
    special_table_header, strip_markdown_link, Capturing,
};

#[test]
fn ordered_list_marker_rejects_ordered_list_items() {
    assert!(is_ordered_list_marker("1. Records the result"));
    assert!(is_ordered_list_marker("10. Something else"));
    assert!(is_ordered_list_marker("1) Parenthesized item"));
}

#[test]
fn ordered_list_marker_accepts_real_prose_starting_with_digits() {
    assert!(!is_ordered_list_marker("2FA is required"));
    assert!(!is_ordered_list_marker("3 parameters are accepted"));
    assert!(!is_ordered_list_marker("100.5 is a number"));
}

#[test]
fn ordered_list_marker_rejects_non_digit_leading_punctuation() {
    assert!(!is_ordered_list_marker(". Some text"));
    assert!(!is_ordered_list_marker("Records the result"));
}

#[test]
fn a_number_alone_is_no_list() {
    assert!(!is_ordered_list_marker("12"));
    assert!(!is_ordered_list_marker(""));
    assert!(!is_ordered_list_marker("1.x"));
}

#[test]
fn first_prose_line_skips_ordered_list_items() {
    let text = "1. Records the result of an audit\nThis is the real prose description.";
    assert_eq!(first_prose_line(text), "This is the real prose description.");
}

#[test]
fn first_prose_line_keeps_prose_starting_with_a_digit() {
    let text = "2FA is required for all admin accounts.";
    assert_eq!(first_prose_line(text), text);
}

#[test]
fn first_prose_line_skips_plus_marker_unordered_list_items() {
    let text = "+ Records the result of an audit\nThis is the real prose description.";
    assert_eq!(first_prose_line(text), "This is the real prose description.");
}

#[test]
fn first_prose_line_skips_horizontal_rules() {
    for rule in ["---", "===", "***", "----", "===="] {
        let text = format!("{rule}\nReal prose.");
        assert_eq!(first_prose_line(&text), "Real prose.", "failed for: {rule}");
    }
}

#[test]
fn first_prose_line_requires_at_least_three_chars_for_a_rule() {
    for text in ["--", "=="] {
        assert_eq!(first_prose_line(text), text, "wrongly skipped: {text}");
    }
}

#[test]
fn first_prose_line_skips_a_bare_single_bullet_marker() {
    for text in ["-", "*", "+"] {
        assert_eq!(first_prose_line(text), "", "wrongly kept: {text}");
    }
}

#[test]
fn first_prose_line_skips_headings_tables_fences_blockquotes_and_bullets() {
    for skipped in
        ["# Heading", "## H2", "| col1 | col2 |", "```rust", "> quote", "- item", "* item"]
    {
        let text = format!("{skipped}\nReal prose.");
        assert_eq!(first_prose_line(&text), "Real prose.", "failed for: {skipped}");
    }
}

#[test]
fn the_space_around_a_line_is_dropped() {
    assert_eq!(first_prose_line("\r\n  \t Prose here. \r\nMore."), "Prose here.");
}

#[test]
fn strip_markdown_link_unwraps_label_and_leaves_plain_text_alone() {
    assert_eq!(strip_markdown_link("[Filters](#tag/Filter)"), "Filters");
    assert_eq!(strip_markdown_link("Sortable Fields"), "Sortable Fields");
    assert_eq!(
        strip_markdown_link("see [controls](/#tag/Control) and a [vendor](/#tag/Vendor)."),
        "see controls and a vendor."
    );
    assert_eq!(strip_markdown_link("[RFC 7231] see [spec](url)"), "[RFC 7231] see spec");
    assert_eq!(strip_markdown_link("[a) b](url)"), "a) b");
    assert_eq!(strip_markdown_link("[Filters](#tag"), "[Filters](#tag");
}

#[test]
fn strip_markdown_link_keeps_scanning_past_an_orphaned_delimiter() {
    assert_eq!(strip_markdown_link("a](b) then [real](url)"), "a](b) then real");
}

#[test]
fn the_innermost_bracket_opens_a_link() {
    assert_eq!(strip_markdown_link("[a [b](c) d](e)"), "[a b d](e)");
    assert_eq!(strip_markdown_link("é[ü](ö)ß"), "éüß");
    assert_eq!(strip_markdown_link(""), "");
    assert_eq!(strip_markdown_link("]("), "](");
}

#[test]
fn separator_rows_need_a_hyphen_in_every_filled_cell() {
    assert!(is_separator_row("| --- | :---: |"));
    assert!(is_separator_row("| --- | |"));
    assert!(!is_separator_row("| ::: |"));
    assert!(!is_separator_row("|  |"));
    assert!(!is_separator_row("| --- | x |"));
}

#[test]
fn only_a_single_cell_heads_a_collected_table() {
    let one = |s: &str| vec![s.to_string()];
    assert_eq!(special_table_header(&one("FILTERS")), Some(Capturing::Filters));
    assert_eq!(special_table_header(&one("Sortable fields")), Some(Capturing::Sortable));
    assert_eq!(special_table_header(&one("Filter")), None);
    assert_eq!(special_table_header(&["filters".to_string(), "x".to_string()]), None);
    assert_eq!(special_table_header(&[]), None);
}

#[test]
fn render_tag_description_captures_filter_and_sortable_tables() {
    let text = "Some prose.\n\n\
        | [Filters](#tag/Filter) |\n| ------ |\n| search |\nstate_include |\n\n\
        | Sortable Fields |\n| ------ |\n| name |\ncreated_at |";
    let d = render_tag_description(text);
    assert_eq!(d.filters, vec!["search", "state_include"]);
    assert_eq!(d.sortable, vec!["name", "created_at"]);
    assert_eq!(d.lines, vec!["Some prose.", ""]);
}

#[test]
fn render_tag_description_handles_back_to_back_tables_without_blank_line() {
    let text = "| Filters |\n| --- |\n| search |\n| Sortable Fields |\n| --- |\n| name |";
    let d = render_tag_description(text);
    assert_eq!(d.filters, vec!["search"]);
    assert_eq!(d.sortable, vec!["name"]);
}

#[test]
fn render_tag_description_rejects_non_identifier_row_inside_a_table() {
    let text = "| Filters |\n| --- |\n| search |\nfoo: |";
    let d = render_tag_description(text);
    assert_eq!(d.filters, vec!["search"]);
    assert_eq!(d.lines, vec!["foo:", ""]);
}

#[test]
fn render_tag_description_stops_capturing_at_spacey_prose_inside_a_table() {
    let text = "| Filters |\n| --- |\n| search |\nNote: values must match |\nstate_include |";
    let d = render_tag_description(text);
    assert_eq!(d.filters, vec!["search"]);
}

#[test]
fn render_tag_description_treats_pipe_terminated_prose_as_prose() {
    let text = "See the filter table for details |";
    let d = render_tag_description(text);
    assert!(d.filters.is_empty());
    assert!(d.sortable.is_empty());
    assert_eq!(d.lines, vec!["See the filter table for details |", ""]);
}

#[test]
fn render_tag_description_prints_curated_multi_column_rows_verbatim() {
    let text = "| Filter | Type |\n| --- | --- |\n| search | string |";
    let d = render_tag_description(text);
    assert!(d.filters.is_empty());
    assert!(d.sortable.is_empty());
    assert_eq!(d.lines, vec!["Filter | Type", "search | string", ""]);
}

#[test]
fn a_description_without_lines_shows_nothing() {
    let d = render_tag_description("\n  \n");
    assert!(d.lines.is_empty());
}
