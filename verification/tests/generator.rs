use sqlstate_codegen::emit::{generate, MAP_PREFIX_TEXT, TYPE_TEXT};
use sqlstate_codegen::lines::{line_tokens, split_lines};
use sqlstate_codegen::parse::{parse_entries, ParseError};
use sqlstate_codegen::state::{build_lookup, from_code, SqlState};

#[test]
fn split_lines_handles_endings() {
    assert_eq!(split_lines(""), Vec::<String>::new());
    assert_eq!(split_lines("a\nb"), vec!["a".to_string(), "b".to_string()]);
    assert_eq!(split_lines("a\r\nb\n"), vec!["a".to_string(), "b".to_string()]);
    assert_eq!(split_lines("\n"), vec!["".to_string()]);
    assert_eq!(split_lines("a\rb"), vec!["a\rb".to_string()]);
}

#[test]
fn line_tokens_splits_on_whitespace_runs() {
    assert_eq!(
        line_tokens("23505 23\tERRCODE_UNIQUE_VIOLATION   M"),
        vec![
            "23505".to_string(),
            "23".to_string(),
            "ERRCODE_UNIQUE_VIOLATION".to_string(),
            "M".to_string(),
        ]
    );
    assert_eq!(line_tokens("   "), Vec::<String>::new());
}

#[test]
fn parse_collects_codes_in_first_seen_order() {
    let input = "# comment line\n\
                 Section 1 header\n\
                 \n\
                 23505 23 ERRCODE_UNIQUE_VIOLATION M\n\
                 42P01 42 ERRCODE_UNDEFINED_TABLE\n\
                 23505 23 ERRCODE_UNIQUE_ALIAS\n";
    let entries = parse_entries(input).unwrap();
    assert_eq!(
        entries,
        vec![
            (
                "23505".to_string(),
                vec!["UNIQUE_VIOLATION".to_string(), "UNIQUE_ALIAS".to_string()],
            ),
            ("42P01".to_string(), vec!["UNDEFINED_TABLE".to_string()]),
        ]
    );
}

#[test]
fn name_without_prefix_is_kept_verbatim() {
    let entries = parse_entries("01000 01 PLAIN_NAME\n").unwrap();
    assert_eq!(
        entries,
        vec![("01000".to_string(), vec!["PLAIN_NAME".to_string()])]
    );
}

#[test]
fn malformed_line_aborts_generation() {
    let input = "23505 23 ERRCODE_UNIQUE_VIOLATION\n42P01 42\n";
    assert_eq!(parse_entries(input), Err(ParseError { line: 1 }));
    assert!(generate(input).is_err());
}

#[test]
fn indented_comment_is_malformed() {
    // A comment marker is only honoured in column one; an indented one
    // leaves a two-token data line, which is fatal.
    assert_eq!(parse_entries("  # note\n"), Err(ParseError { line: 0 }));
}

#[test]
fn empty_input_generates_empty_sections() {
    let out = generate("").unwrap();
    assert!(out.starts_with(TYPE_TEXT));
    assert!(!out.contains("pub const"));
    assert!(out.ends_with(";\n"));
}

#[test]
fn unique_violation_scenario() {
    let input = "23505 23 ERRCODE_UNIQUE_VIOLATION M\n";
    let out = generate(input).unwrap();
    assert!(out.contains(
        "\n    /// 23505\n    pub const UNIQUE_VIOLATION: SqlState = SqlState(Cow::Borrowed(\"23505\"));\n"
    ));
    assert!(out.contains("(\"23505\", SqlState::UNIQUE_VIOLATION)"));
}

#[test]
fn generated_text_matches_hand_built_text() {
    let input = "23505 23 ERRCODE_UNIQUE_VIOLATION M\n42P01 42 ERRCODE_UNDEFINED_TABLE\n";
    let out = generate(input).unwrap();

    let mut expected = String::new();
    expected.push_str(TYPE_TEXT);
    expected.push_str(
        "\n    /// 23505\n    pub const UNIQUE_VIOLATION: SqlState = SqlState(Cow::Borrowed(\"23505\"));\n",
    );
    expected.push_str(
        "\n    /// 42P01\n    pub const UNDEFINED_TABLE: SqlState = SqlState(Cow::Borrowed(\"42P01\"));\n",
    );
    expected.push_str("}");
    expected.push_str(MAP_PREFIX_TEXT);
    let mut b = phf_codegen::Map::new();
    b.entry("23505".to_string(), "SqlState::UNIQUE_VIOLATION");
    b.entry("42P01".to_string(), "SqlState::UNDEFINED_TABLE");
    expected.push_str(&b.build().to_string());
    expected.push_str(";\n");

    assert_eq!(out, expected);
}

#[test]
fn shared_code_keeps_first_name_in_map() {
    let input = "42P01 42 ERRCODE_UNDEFINED_TABLE\n42P01 42 ERRCODE_UNDEFINED_OBJECT_ALT\n";
    let out = generate(input).unwrap();
    assert!(out.contains(
        "pub const UNDEFINED_TABLE: SqlState = SqlState(Cow::Borrowed(\"42P01\"));"
    ));
    assert!(out.contains(
        "pub const UNDEFINED_OBJECT_ALT: SqlState = SqlState(Cow::Borrowed(\"42P01\"));"
    ));
    assert!(out.contains("(\"42P01\", SqlState::UNDEFINED_TABLE)"));
    assert!(!out.contains("(\"42P01\", SqlState::UNDEFINED_OBJECT_ALT)"));
}

#[test]
fn lookup_has_one_entry_per_distinct_code() {
    let input = "23505 23 ERRCODE_UNIQUE_VIOLATION\n\
                 42P01 42 ERRCODE_UNDEFINED_TABLE\n\
                 42P01 42 ERRCODE_UNDEFINED_OBJECT_ALT\n";
    let entries = parse_entries(input).unwrap();
    assert_eq!(entries.len(), 2);
    let lookup = build_lookup(&entries);
    assert_eq!(lookup.len(), 2);
}

#[test]
fn generation_is_deterministic() {
    let input = "23505 23 ERRCODE_UNIQUE_VIOLATION\n\
                 42P01 42 ERRCODE_UNDEFINED_TABLE\n\
                 42703 42 ERRCODE_UNDEFINED_COLUMN\n";
    let first = generate(input).unwrap();
    let second = generate(input).unwrap();
    assert_eq!(first, second);
}

#[test]
fn from_code_round_trips_known_codes() {
    let entries = parse_entries("23505 23 ERRCODE_UNIQUE_VIOLATION\n").unwrap();
    let lookup = build_lookup(&entries);
    let state = from_code(&lookup, "23505");
    assert_eq!(state.code(), "23505");
    assert_eq!(state, SqlState::new("23505"));
}

#[test]
fn from_code_round_trips_unknown_codes() {
    let entries = parse_entries("23505 23 ERRCODE_UNIQUE_VIOLATION\n").unwrap();
    let lookup = build_lookup(&entries);
    let state = from_code(&lookup, "99999");
    assert_eq!(state.code(), "99999");
    assert_ne!(state, SqlState::new("23505"));
    assert_eq!(state, SqlState::new("99999"));
}

#[test]
fn aliased_constants_compare_equal() {
    let entries = parse_entries(
        "42P01 42 ERRCODE_UNDEFINED_TABLE\n42P01 42 ERRCODE_UNDEFINED_OBJECT_ALT\n",
    )
    .unwrap();
    let lookup = build_lookup(&entries);
    let first = SqlState::new("42P01");
    let second = SqlState::new("42P01");
    assert_eq!(first, second);
    assert_eq!(first, from_code(&lookup, "42P01"));
}
