//! End-to-end tests of the transform: whole inputs against the exact text
//! that must come out.

use typestrip::parser::parser;

#[test]
fn it_works() {
    let result = parser(String::from("const A: boolean = true;"));
    assert_eq!(result, String::from("const A = true;"));
}

#[test]
fn empty_input_stays_empty() {
    assert_eq!(parser(String::from("")), String::from(""));
}

#[test]
fn annotation_is_stripped_from_declaration() {
    let result = parser(String::from("const x: number = 5;"));
    assert_eq!(result, String::from("const x = 5;"));
}

#[test]
fn cast_is_dropped_but_terminator_kept() {
    let result = parser(String::from("value as string;"));
    assert_eq!(result, String::from("value;"));
}

#[test]
fn line_comment_vanishes_with_its_line() {
    let result = parser(String::from("// comment\nconst y = 1;"));
    assert_eq!(result, String::from("const y = 1;"));
}

#[test]
fn quoted_colon_passes_through_unmodified() {
    let result = parser(String::from("\"a: b\""));
    assert_eq!(result, String::from("\"a: b\""));
}

#[test]
fn single_quoted_text_passes_through() {
    let result = parser(String::from("'a: b;'"));
    assert_eq!(result, String::from("'a: b;'"));
}

#[test]
fn type_alias_object_body_is_stripped() {
    let result = parser(String::from("type X = { a: number }; const b = 2;"));
    assert_eq!(result, String::from(";const b = 2;"));
    assert!(!result.contains("type"));
    assert!(!result.contains("X"));
    assert!(!result.contains("number"));
}

#[test]
fn type_alias_bare_identifier_is_stripped() {
    let result = parser(String::from("type X = Y; const a = 1;"));
    assert_eq!(result, String::from(";const a = 1;"));
}

#[test]
fn type_alias_array_body_is_stripped() {
    let result = parser(String::from("type N = [ number ]; let k = 4;"));
    assert_eq!(result, String::from(";let k = 4;"));
}

#[test]
fn type_alias_other_shape_resumes_at_terminator() {
    let result = parser(String::from("type S = \"lit\"; var v = 9;"));
    assert_eq!(result, String::from(";var v = 9;"));
}

#[test]
fn interface_block_tokens_never_reach_output() {
    let result = parser(String::from("interface Foo { a: string; }const z = 3;"));
    assert_eq!(result, String::from("}const z = 3;"));
    assert!(!result.contains("Foo"));
    assert!(!result.contains("string"));
}

#[test]
fn declare_block_tokens_never_reach_output() {
    let result = parser(String::from("declare { const b = 7; } x;"));
    assert_eq!(result, String::from("}x;"));
    assert!(!result.contains("7"));
}

#[test]
fn declare_without_braces_ends_at_terminator() {
    let result = parser(String::from("declare const x: T; let y = 2;"));
    assert_eq!(result, String::from(";let y = 2;"));
}

#[test]
fn unmatched_bracket_suppresses_everything_after() {
    let before = parser(String::from("ok;"));
    let result = parser(String::from("ok; declare { oops const q = 1;"));
    assert_eq!(result, before);
    assert_eq!(result, String::from("ok;"));
}

#[test]
fn output_length_stops_growing_after_unmatched_construct() {
    let shorter = parser(String::from("a; declare { b"));
    let longer = parser(String::from("a; declare { b; c; d; e;"));
    assert_eq!(shorter, longer);
    assert_eq!(shorter, String::from("a;"));
}

#[test]
fn transform_is_idempotent_on_stripped_output() {
    let inputs = [
        "const x: number = 5;",
        "value as string;",
        "type X = { a: number }; const b = 2;",
        "interface Foo { a: string; }const z = 3;",
        "// note\nlet n = 0;",
        "function f(a: number) { return a; }",
        "\"a: b\"",
    ];
    for input in inputs.iter() {
        let once = parser(String::from(*input));
        let twice = parser(once.clone());
        assert_eq!(twice, once);
    }
}

#[test]
fn function_parameter_annotation_is_stripped() {
    let result = parser(String::from("function f(a: number) {}"));
    assert_eq!(result, String::from("function f(a){}"));
}

#[test]
fn comma_separates_tokens() {
    let result = parser(String::from("f(a, b);"));
    assert_eq!(result, String::from("f(a,b);"));
}

#[test]
fn pending_token_without_boundary_is_dropped() {
    assert_eq!(parser(String::from("abc")), String::from(""));
}

#[test]
fn type_alias_after_line_comment_is_still_stripped() {
    let result = parser(String::from("// c\ntype X = Y; done;"));
    assert_eq!(result, String::from(";done;"));
}

#[test]
fn declare_block_after_line_comment_is_still_suppressed() {
    let result = parser(String::from("//\ndeclare{x}y;"));
    assert_eq!(result, String::from("}y;"));
    assert!(!result.contains("x"));
}

#[test]
fn line_comment_directly_after_line_comment_stays_absent() {
    let result = parser(String::from("// a\n// b\nx;"));
    assert_eq!(result, String::from("x;"));
}

#[test]
fn declare_block_after_bare_identifier_alias_is_still_suppressed() {
    let result = parser(String::from("type X = Y declare { z } w;"));
    assert_eq!(result, String::from("}w;"));
    assert!(!result.contains("z"));
}

#[test]
fn type_alias_after_block_comment_is_still_stripped() {
    let result = parser(String::from("/* c */ type X = Y; z;"));
    assert_eq!(result, String::from(";z;"));
}

#[test]
fn quoted_closing_bracket_does_not_end_a_declare_block() {
    let result = parser(String::from("a; declare { '}' x"));
    assert_eq!(result, String::from("a;"));
}

#[test]
fn unterminated_block_cuts_input_at_its_keyword() {
    let prefix = parser(String::from("x;"));
    let whole = parser(String::from("x;declare{ y; z ( w"));
    assert_eq!(whole, prefix);
    assert_eq!(whole, String::from("x;"));
}

#[test]
fn union_and_or_tokens_keep_their_text() {
    let result = parser(String::from("a || b;"));
    assert_eq!(result, String::from("a||b;"));
}
