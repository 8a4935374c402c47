use multicode::escape::html_escape;

#[test]
fn escapes_each_special_character_once() {
    assert_eq!(html_escape("&<>\"'"), "&amp;&lt;&gt;&quot;&#39;");
}

#[test]
fn escapes_ampersand() {
    assert_eq!(html_escape("&"), "&amp;");
}

#[test]
fn escapes_less_than_without_mangling_the_entity() {
    assert_eq!(html_escape("<"), "&lt;");
}

#[test]
fn escapes_greater_than() {
    assert_eq!(html_escape(">"), "&gt;");
}

#[test]
fn escapes_double_quote() {
    assert_eq!(html_escape("\""), "&quot;");
}

#[test]
fn escapes_single_quote() {
    assert_eq!(html_escape("'"), "&#39;");
}

#[test]
fn escaping_keeps_other_characters_and_newlines() {
    assert_eq!(html_escape("fn main() {\n    x;\n}\n"), "fn main() {\n    x;\n}\n");
    assert_eq!(html_escape("a\r\n\tb é 漢"), "a\r\n\tb é 漢");
}

#[test]
fn escaping_empty_text_gives_empty_text() {
    assert_eq!(html_escape(""), "");
}

#[test]
fn escaping_substitutes_every_occurrence() {
    assert_eq!(html_escape("a<b<c && d>e"), "a&lt;b&lt;c &amp;&amp; d&gt;e");
    assert_eq!(html_escape("<<>>"), "&lt;&lt;&gt;&gt;");
}

#[test]
fn escaping_is_not_idempotent() {
    let once = html_escape("&");
    let twice = html_escape(&once);
    assert_eq!(once, "&amp;");
    assert_eq!(twice, "&amp;amp;");
    assert_ne!(once, twice);
}

#[test]
fn escaping_text_that_looks_like_an_entity_escapes_its_ampersand() {
    assert_eq!(html_escape("&lt;"), "&amp;lt;");
}

#[test]
fn escaping_agrees_with_replacing_in_turn() {
    let samples = ["", "plain", "&<>\"'", "a & b < c > d \" e ' f", "&amp;&lt;", "<<&&>>''\"\""];
    for sample in samples {
        let in_turn = sample
            .replace('&', "&amp;")
            .replace('<', "&lt;")
            .replace('>', "&gt;")
            .replace('"', "&quot;")
            .replace('\'', "&#39;");
        assert_eq!(html_escape(sample), in_turn);
    }
}

#[test]
fn escaped_concatenation_is_concatenation_of_escaped() {
    let a = "x < y";
    let b = " && y > 'z'";
    let whole = format!("{}{}", a, b);
    assert_eq!(html_escape(&whole), format!("{}{}", html_escape(a), html_escape(b)));
}
