use cromptch::error::AppError;
use cromptch::ids::parse_uuid;
use cromptch::ids::uuid_to_string;
use cromptch::text::parse_u64;
use cromptch::text::str_lex_le;
use cromptch::text::strip_bearer;

#[test]
fn bearer_prefix_is_stripped() {
    assert_eq!(strip_bearer("Bearer abc123"), "abc123");
}

#[test]
fn repeated_bearer_prefixes_are_all_stripped() {
    assert_eq!(strip_bearer("Bearer Bearer abc"), "abc");
}

#[test]
fn header_without_prefix_passes_through() {
    assert_eq!(strip_bearer("abc123"), "abc123");
    assert_eq!(strip_bearer(""), "");
    assert_eq!(strip_bearer("bearer abc"), "bearer abc");
}

#[test]
fn parse_u64_exact_values() {
    assert_eq!(parse_u64("0"), Some(0));
    assert_eq!(parse_u64("42"), Some(42));
    assert_eq!(parse_u64("18446744073709551615"), Some(u64::MAX));
}

#[test]
fn parse_u64_rejects_overflow_and_junk() {
    assert_eq!(parse_u64("18446744073709551616"), None);
    assert_eq!(parse_u64(""), None);
    assert_eq!(parse_u64("12a"), None);
    assert_eq!(parse_u64("-3"), None);
    assert_eq!(parse_u64("+3"), None);
}

#[test]
fn lexicographic_comparison_by_code_point() {
    assert!(str_lex_le("Apple Pie", "Banana Bread"));
    assert!(!str_lex_le("Carrot Cake", "Banana Bread"));
    assert!(str_lex_le("same", "same"));
    assert!(str_lex_le("ab", "abc"));
    assert!(!str_lex_le("abc", "ab"));
    assert!(str_lex_le("", "a"));
}

#[test]
fn identifier_renders_hyphenated_lowercase_hex() {
    assert_eq!(uuid_to_string(0), "00000000-0000-0000-0000-000000000000");
    assert_eq!(
        uuid_to_string(0xaaaaaaaa_bbbb_4ccc_8ddd_eeeeeeeeeeeeu128),
        "aaaaaaaa-bbbb-4ccc-8ddd-eeeeeeeeeeee"
    );
}

#[test]
fn identifier_parses_both_cases_and_round_trips() {
    let id = 0x0123_4567_89ab_cdef_0123_4567_89ab_cdefu128;
    let rendered = uuid_to_string(id);
    assert_eq!(parse_uuid(&rendered), Some(id));
    assert_eq!(
        parse_uuid("AAAAAAAA-BBBB-4CCC-8DDD-EEEEEEEEEEEE"),
        Some(0xaaaaaaaa_bbbb_4ccc_8ddd_eeeeeeeeeeeeu128)
    );
}

#[test]
fn identifier_parsing_rejects_malformed_input() {
    assert_eq!(parse_uuid("not-a-uuid"), None);
    assert_eq!(parse_uuid(""), None);
    assert_eq!(parse_uuid("aaaaaaaa-bbbb-cccc-dddd-eeeeeeeeeeeg"), None);
    assert_eq!(parse_uuid("aaaaaaaabbbbccccddddeeeeeeeeeeee"), None);
    assert_eq!(parse_uuid("aaaaaaaa.bbbb-cccc-dddd-eeeeeeeeeeee"), None);
}

#[test]
fn error_kinds_map_to_status_codes() {
    assert_eq!(AppError::bad_request("x").status_code(), 400);
    assert_eq!(AppError::unauthorized("x").status_code(), 401);
    assert_eq!(AppError::forbidden("x").status_code(), 403);
    assert_eq!(AppError::not_found("x").status_code(), 404);
    assert_eq!(AppError::internal("x").status_code(), 500);
}

#[test]
fn errors_render_with_their_kind_label() {
    assert_eq!(AppError::bad_request("no").display_string(), "Bad Request: no");
    assert_eq!(AppError::not_found("gone").display_string(), "Not Found: gone");
    assert_eq!(
        AppError::internal("oops").display_string(),
        "Internal Server Error: oops"
    );
}
