use posthaste::json::write_json_string;

#[test]
fn json_string_literals_escape_quotes_backslashes_and_controls() {
    let mut out: Vec<char> = "x=".chars().collect();
    write_json_string(&mut out, "a\"b\\c\n\t\u{1}\u{7f}é");
    let text: String = out.into_iter().collect();
    assert_eq!(text, "x=\"a\\\"b\\\\c\\n\\t\\u0001\u{7f}é\"");
}
