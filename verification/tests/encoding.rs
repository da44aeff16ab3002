use wattbuild::to_lit;

#[test]
fn plain_string_is_quoted_verbatim() {
    assert_eq!(to_lit("demo"), "\"demo\"");
}

#[test]
fn empty_string_is_two_quotes() {
    assert_eq!(to_lit(""), "\"\"");
}

#[test]
fn ordinary_space_is_verbatim() {
    assert_eq!(to_lit("a b"), "\"a b\"");
}

#[test]
fn quote_and_backslash_are_escaped() {
    assert_eq!(to_lit("a\"b\\c"), "\"a\\\"b\\\\c\"");
}

#[test]
fn named_escapes() {
    assert_eq!(to_lit("\u{8}\u{c}\n\r\t"), "\"\\b\\f\\n\\r\\t\"");
}

#[test]
fn low_control_char_gets_padded_hex_field() {
    assert_eq!(to_lit("\u{7}"), "\"\\U7xxxxx\"");
}

#[test]
fn vertical_tab_gets_padded_hex_field() {
    assert_eq!(to_lit("\u{b}"), "\"\\Ubxxxxx\"");
}

#[test]
fn delete_char_gets_padded_hex_field() {
    assert_eq!(to_lit("\u{7f}"), "\"\\U7fxxxx\"");
}

#[test]
fn next_line_char_gets_padded_hex_field() {
    assert_eq!(to_lit("\u{85}"), "\"\\U85xxxx\"");
}

#[test]
fn no_break_space_gets_padded_hex_field() {
    assert_eq!(to_lit("\u{a0}"), "\"\\Ua0xxxx\"");
}

#[test]
fn line_separator_gets_padded_hex_field() {
    assert_eq!(to_lit("\u{2028}"), "\"\\U2028xx\"");
}

#[test]
fn medium_mathematical_space_gets_padded_hex_field() {
    assert_eq!(to_lit("\u{205f}"), "\"\\U205fxx\"");
}

#[test]
fn ideographic_space_gets_padded_hex_field() {
    assert_eq!(to_lit("\u{3000}"), "\"\\U3000xx\"");
}

#[test]
fn non_ascii_letters_are_verbatim() {
    assert_eq!(to_lit("caf\u{e9}"), "\"caf\u{e9}\"");
}

#[test]
fn mixed_string_round_trips_by_hand() {
    // The literal below decodes, under the grammar, to exactly the input:
    // each escape undone gives back the original character.
    let input = "say \"hi\"\\\n\tdone\u{7}";
    let expected = "\"say \\\"hi\\\"\\\\\\n\\tdone\\U7xxxxx\"";
    assert_eq!(to_lit(input), expected);
}
