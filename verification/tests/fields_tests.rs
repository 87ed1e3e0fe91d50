use psy::fields::{parse_header_items, parse_header_line, parse_header_text, parse_loose_object};

fn pair(k: &str, v: &str) -> (String, String) {
    (k.to_string(), v.to_string())
}

#[test]
fn header_lines() {
    assert_eq!(parse_header_line("Content-Type: text/html"), Some(pair("Content-Type", "text/html")));
    assert_eq!(parse_header_line("  X-Time :  12:30:00 "), Some(pair("X-Time", "12:30:00")));
    assert_eq!(parse_header_line("no colon here"), None);
    assert_eq!(parse_header_line(":"), Some(pair("", "")));
}

#[test]
fn header_text_and_items() {
    let text = "Accept: */*\r\nbroken line\nAuthorization: Bearer abc123\n";
    assert_eq!(parse_header_text(text), vec![pair("Accept", "*/*"), pair("Authorization", "Bearer abc123")]);
    assert!(parse_header_text("").is_empty());
    let items = vec!["A: 1".to_string(), "B".to_string(), "C:\n3".to_string()];
    assert_eq!(parse_header_items(&items), vec![pair("A", "1"), pair("C", "3")]);
}

#[test]
fn loose_objects() {
    assert_eq!(
        parse_loose_object("{name: Ada, age: 36, ok: true}"),
        Some(vec![pair("name", "Ada"), pair("age", "36"), pair("ok", "true")])
    );
    assert_eq!(parse_loose_object("  [a:1,,  b : x ]  "), Some(vec![pair("a", "1"), pair("b", "x")]));
    assert_eq!(parse_loose_object("{}"), Some(vec![]));
    assert_eq!(parse_loose_object("{a: 1, b}"), None);
    assert_eq!(parse_loose_object("a: 1"), None);
    assert_eq!(parse_loose_object("{a: 1]"), None);
    assert_eq!(parse_loose_object("{t: 12:30}"), Some(vec![pair("t", "12:30")]));
}
