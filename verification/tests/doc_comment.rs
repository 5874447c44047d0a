use docparam::doc_comment::{
    doc_pieces, extract_doc_value, resolve_include_path, CommentAttributes, DocPiece, PathError,
    RawAnnotation,
};

/// Runs the extraction pipeline over literal-only annotations.
fn extract_literals(lines: &[&str]) -> CommentAttributes {
    let entries: Vec<RawAnnotation> = lines
        .iter()
        .map(|l| RawAnnotation::Literal(l.to_string()))
        .collect();
    let docs = doc_pieces(&entries)
        .into_iter()
        .map(|p| match p {
            DocPiece::Text(t) => t,
            DocPiece::Include(_) => panic!("no inclusion expected"),
        })
        .collect();
    CommentAttributes::from_docs(docs)
}

#[test]
fn test_basic_doc_comment() {
    let comments = extract_literals(&["Basic doc comment"]);
    assert_eq!(comments.as_formatted_string(), "Basic doc comment");
}

#[test]
fn common_indent_is_stripped_exactly() {
    let comments = extract_literals(&["  first", "    second", "  third"]);
    assert_eq!(comments.0, vec!["first", "  second", "third"]);
}

#[test]
fn empty_lines_neither_count_nor_change() {
    let comments = extract_literals(&["  a", "", "   b"]);
    assert_eq!(comments.0, vec!["a", "", " b"]);
}

#[test]
fn no_common_indent_only_trailing_trim() {
    let comments = extract_literals(&["alpha  ", " beta\t", "gamma"]);
    assert_eq!(comments.0, vec!["alpha", " beta", "gamma"]);
}

#[test]
fn formatted_string_preserves_empty_segments() {
    let comments = CommentAttributes(vec!["a".to_string(), "".to_string(), "b".to_string()]);
    assert_eq!(comments.as_formatted_string(), "a\n\nb");
}

#[test]
fn is_empty_reports_no_lines() {
    assert!(CommentAttributes(vec![]).is_empty());
    assert!(!CommentAttributes(vec!["x".to_string()]).is_empty());
}

#[test]
fn literal_value_keeps_leading_whitespace() {
    let piece = extract_doc_value(&RawAnnotation::Literal("  padded  ".to_string()));
    assert_eq!(piece, Some(DocPiece::Text("  padded".to_string())));
}

#[test]
fn include_str_macro_becomes_inclusion() {
    let entry = RawAnnotation::MacroCall {
        path: "include_str".to_string(),
        tokens: "\"docs/readme.md\"".to_string(),
    };
    assert_eq!(
        extract_doc_value(&entry),
        Some(DocPiece::Include("\"docs/readme.md\"".to_string()))
    );
}

#[test]
fn other_macros_and_unsupported_values_are_dropped() {
    let other = RawAnnotation::MacroCall {
        path: "stringify".to_string(),
        tokens: "x".to_string(),
    };
    assert_eq!(extract_doc_value(&other), None);
    assert_eq!(extract_doc_value(&RawAnnotation::Unsupported), None);

    let entries = vec![
        RawAnnotation::Literal("kept".to_string()),
        RawAnnotation::Unsupported,
        RawAnnotation::Literal("also kept".to_string()),
    ];
    assert_eq!(
        doc_pieces(&entries),
        vec![
            DocPiece::Text("kept".to_string()),
            DocPiece::Text("also kept".to_string()),
        ]
    );
}

#[test]
fn direct_path_is_unquoted_and_trimmed() {
    let r = resolve_include_path("  \"docs/readme.md\"  ", None);
    assert_eq!(r, Ok("docs/readme.md".to_string()));
}

#[test]
fn test_manifest_dir_path() {
    let expr = "concat!(env!(\"CARGO_MANIFEST_DIR\"), \"/test_doc.txt\")";
    let r = resolve_include_path(expr, Some("/tmp/doc_test"));
    assert_eq!(r, Ok("/tmp/doc_test/test_doc.txt".to_string()));
}

#[test]
fn project_root_reference_without_root_fails() {
    let expr = "concat!(env!(\"CARGO_MANIFEST_DIR\"), \"/test_doc.txt\")";
    assert_eq!(
        resolve_include_path(expr, None),
        Err(PathError::MissingProjectRoot)
    );
}

#[test]
fn root_with_trailing_separator_is_not_doubled() {
    let expr = "concat!(env!(\"CARGO_MANIFEST_DIR\"), \"/a.txt\")";
    assert_eq!(
        resolve_include_path(expr, Some("/root/")),
        Ok("/root/a.txt".to_string())
    );
}
