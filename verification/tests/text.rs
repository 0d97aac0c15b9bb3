use knots::markup::{push_closing_tag, push_opening_tag};
use knots::text::{escape, push_decimal, push_escaped, push_script_escaped};

fn decimal_of(n: u64) -> String {
    let mut out = String::new();
    push_decimal(&mut out, n);
    out
}

fn script_form(text: &str) -> String {
    let mut out = String::new();
    push_script_escaped(&mut out, text);
    out
}

#[test]
fn escape_turns_a_script_tag_into_entities() {
    assert_eq!(escape("<script>"), "&lt;script&gt;");
}

#[test]
fn escape_covers_the_five_special_characters() {
    assert_eq!(escape("&"), "&amp;");
    assert_eq!(escape("<"), "&lt;");
    assert_eq!(escape(">"), "&gt;");
    assert_eq!(escape("\""), "&quot;");
    assert_eq!(escape("'"), "&#39;");
    assert_eq!(escape("a & b < c > d \"e\" 'f'"), "a &amp; b &lt; c &gt; d &quot;e&quot; &#39;f&#39;");
}

#[test]
fn escape_keeps_plain_text() {
    assert_eq!(escape("Knots, plain and simple."), "Knots, plain and simple.");
    assert_eq!(escape(""), "");
}

#[test]
fn escape_keeps_text_beyond_ascii() {
    assert_eq!(escape("é ∑ 結び <目>"), "é ∑ 結び &lt;目&gt;");
}

#[test]
fn escape_escapes_an_entity_again() {
    assert_eq!(escape("&amp;"), "&amp;amp;");
}

#[test]
fn escaped_text_holds_no_markup_character() {
    let out = escape("<a href=\"x\" onclick='y'>&</a>");
    assert!(!out.contains('<'));
    assert!(!out.contains('>'));
    assert!(!out.contains('"'));
    assert!(!out.contains('\''));
}

#[test]
fn escaping_two_texts_is_escaping_their_concatenation() {
    let a = "x < y";
    let b = " & y > z";
    assert_eq!(escape(&format!("{}{}", a, b)), format!("{}{}", escape(a), escape(b)));
}

#[test]
fn push_escaped_appends_to_what_is_there() {
    let mut out = String::from("<p>");
    push_escaped(&mut out, "1 < 2");
    assert_eq!(out, "<p>1 &lt; 2");
}

#[test]
fn script_form_escapes_latex() {
    assert_eq!(script_form("\\frac{a}{b}"), "\\\\frac{a}{b}");
}

#[test]
fn script_form_escapes_quotes_and_markup() {
    assert_eq!(script_form("\""), "\\x22");
    assert_eq!(script_form("'"), "\\x27");
    assert_eq!(script_form("<"), "\\x3C");
    assert_eq!(script_form(">"), "\\x3E");
    assert_eq!(script_form("&"), "\\x26");
    assert_eq!(script_form("</script>"), "\\x3C/script\\x3E");
}

#[test]
fn script_form_escapes_line_breaks() {
    assert_eq!(script_form("a\nb\rc"), "a\\nb\\rc");
    assert_eq!(script_form("a\u{2028}b\u{2029}c"), "a\\u2028b\\u2029c");
}

#[test]
fn script_form_keeps_plain_text() {
    assert_eq!(script_form("x^2 + y^2 = z^2"), "x^2 + y^2 = z^2");
    assert_eq!(script_form(""), "");
}

#[test]
fn script_form_appends_to_what_is_there() {
    let mut out = String::from("f(\"");
    push_script_escaped(&mut out, "a<b");
    assert_eq!(out, "f(\"a\\x3Cb");
}

#[test]
fn decimal_of_single_digits() {
    assert_eq!(decimal_of(0), "0");
    assert_eq!(decimal_of(7), "7");
    assert_eq!(decimal_of(9), "9");
}

#[test]
fn decimal_of_longer_numbers() {
    assert_eq!(decimal_of(10), "10");
    assert_eq!(decimal_of(100), "100");
    assert_eq!(decimal_of(12345), "12345");
    assert_eq!(decimal_of(1234567890), "1234567890");
    assert_eq!(decimal_of(u64::MAX), "18446744073709551615");
}

#[test]
fn decimal_appends_to_what_is_there() {
    let mut out = String::from("lvl");
    push_decimal(&mut out, 42);
    assert_eq!(out, "lvl42");
}

#[test]
fn opening_tag_without_attributes() {
    let mut out = String::new();
    push_opening_tag(&mut out, "html", &[]);
    assert_eq!(out, "<html>");
}

#[test]
fn opening_tag_with_attributes_in_order() {
    let mut out = String::new();
    push_opening_tag(&mut out, "meta", &[("name", "viewport"), ("content", "width=device-width")]);
    assert_eq!(out, "<meta name=\"viewport\" content=\"width=device-width\">");
}

#[test]
fn opening_tag_escapes_attribute_values() {
    let mut out = String::new();
    push_opening_tag(&mut out, "a", &[("href", "#\"><script>"), ("title", "R&D")]);
    assert_eq!(out, "<a href=\"#&quot;&gt;&lt;script&gt;\" title=\"R&amp;D\">");
}

#[test]
fn closing_tag_names_the_element() {
    let mut out = String::from("<div>");
    push_closing_tag(&mut out, "div");
    assert_eq!(out, "<div></div>");
}
