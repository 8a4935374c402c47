use multicode::preprocessor::Multicode;

const HEADER: &str = "<script>function changeCodeExample(group, id) {}</script>";

fn render(content: &str) -> String {
    Multicode::new().unwrap().render(HEADER, content)
}

fn rust_and_cpp_markup(group: &str) -> String {
    let mut markup = String::new();
    markup.push_str(&format!(
        "<div><select onchange=\"changeCodeExample('{group}', event.target.value)\" value=\"rust\" class=\"code-example\" autocomplete=\"off\">"
    ));
    markup.push_str(&format!("<option value=\"{group}-rust\">rust</option>"));
    markup.push_str(&format!("<option value=\"{group}-cpp\">cpp</option>"));
    markup.push_str("</select></div>\n");
    markup.push_str(&format!(
        "<div id=\"{group}-rust\" class=\"{group}\"><pre><code class=\"language-rust\">"
    ));
    markup.push_str("fn id&lt;X&gt;(x: X) -&gt; X {\n    x\n}\n</code></pre></div>");
    markup.push_str(&format!(
        "<div id=\"{group}-cpp\" class=\"{group}\"><pre><code class=\"language-cpp\">"
    ));
    markup.push_str("X id&lt;X&gt;(X x) {\n    return x;\n}\n</code></pre></div>");
    markup.push_str(&format!(
        "<script>(()=>{{changeCodeExample(\"{group}\", \"{group}-rust\")}})()</script>"
    ));
    markup
}

const RUST_AND_CPP: &str = "```multicode\n>>>>> rust\nfn id<X>(x: X) -> X {\n    x\n}\n<<<<<\n>>>>> cpp\nX id<X>(X x) {\n    return x;\n}\n<<<<<\n```\n";

#[test]
fn document_without_block_is_kept_after_the_header() {
    let content = "# Title\n\nSome text.\n\n```rust\nfn main() {}\n```\n";
    assert_eq!(render(content), format!("{}\n{}", HEADER, content));
}

#[test]
fn empty_document_gives_the_header_and_a_newline() {
    assert_eq!(render(""), format!("{}\n", HEADER));
}

#[test]
fn last_line_without_newline_gets_one() {
    assert_eq!(render("one\ntwo"), format!("{}\none\ntwo\n", HEADER));
}

#[test]
fn line_endings_with_carriage_return_become_newlines() {
    assert_eq!(render("one\r\ntwo\r\n"), format!("{}\none\ntwo\n", HEADER));
}

#[test]
fn header_is_written_once() {
    let output = render(&format!("a\n{}b\n{}c\n", RUST_AND_CPP, RUST_AND_CPP));
    assert_eq!(output.matches(HEADER).count(), 1);
    assert!(output.starts_with(&format!("{}\na\n", HEADER)));
}

#[test]
fn block_of_rust_and_cpp_becomes_selector_panels_and_activation() {
    let output = render(&format!("before\n{}after\n", RUST_AND_CPP));
    let expected =
        format!("{}\nbefore\n{}\nafter\n", HEADER, rust_and_cpp_markup("code-example-tab-0"));
    assert_eq!(output, expected);
}

#[test]
fn block_of_rust_and_cpp_has_two_options_in_order_and_selects_rust() {
    let output = render(RUST_AND_CPP);
    assert_eq!(output.matches("<option ").count(), 2);
    let rust = output.find("<option value=\"code-example-tab-0-rust\">rust</option>").unwrap();
    let cpp = output.find("<option value=\"code-example-tab-0-cpp\">cpp</option>").unwrap();
    assert!(rust < cpp);
    assert!(output.contains("fn id&lt;X&gt;(x: X) -&gt; X {\n    x\n}\n"));
    assert!(output.contains("X id&lt;X&gt;(X x) {\n    return x;\n}\n"));
    assert!(!output.contains("id<X>"));
    assert!(output.contains(
        "<script>(()=>{changeCodeExample(\"code-example-tab-0\", \"code-example-tab-0-rust\")})()</script>"
    ));
}

#[test]
fn block_without_section_writes_nothing() {
    assert_eq!(render("a\n```multicode\n```\nb\n"), format!("{}\na\nb\n", HEADER));
}

#[test]
fn block_without_section_drops_its_lines() {
    assert_eq!(
        render("a\n```multicode\nloose text\n<<<<<\n```multicode\n```\nb\n"),
        format!("{}\na\nb\n", HEADER)
    );
}

#[test]
fn block_without_section_is_counted() {
    let output = render(&format!("```multicode\n```\n{}", RUST_AND_CPP));
    assert_eq!(output, format!("{}\n{}\n", HEADER, rust_and_cpp_markup("code-example-tab-1")));
}

#[test]
fn two_blocks_get_different_group_identifiers() {
    let output = render(&format!("{}between\n{}", RUST_AND_CPP, RUST_AND_CPP));
    let expected = format!(
        "{}\n{}\nbetween\n{}\n",
        HEADER,
        rust_and_cpp_markup("code-example-tab-0"),
        rust_and_cpp_markup("code-example-tab-1")
    );
    assert_eq!(output, expected);
}

#[test]
fn eleventh_block_has_a_two_digit_group_identifier() {
    let mut content = String::new();
    for _ in 0..11 {
        content.push_str(RUST_AND_CPP);
    }
    let output = render(&content);
    assert!(output.contains(&rust_and_cpp_markup("code-example-tab-9")));
    assert!(output.contains(&rust_and_cpp_markup("code-example-tab-10")));
    assert!(!output.contains("code-example-tab-11"));
}

#[test]
fn language_declared_twice_has_one_option_and_its_last_text() {
    let content = "```multicode\n>>>>> rust\nfirst\n<<<<<\n>>>>> cpp\nother\n<<<<<\n>>>>> rust\nsecond\n<<<<<\n```\n";
    let output = render(content);
    assert_eq!(output.matches("<option ").count(), 2);
    assert_eq!(output.matches("<option value=\"code-example-tab-0-rust\">rust</option>").count(), 1);
    assert_eq!(output.matches("<div id=\"code-example-tab-0-rust\"").count(), 1);
    let rust = output.find("<option value=\"code-example-tab-0-rust\">").unwrap();
    let cpp = output.find("<option value=\"code-example-tab-0-cpp\">").unwrap();
    assert!(rust < cpp);
    assert!(output.contains("<pre><code class=\"language-rust\">second\n</code></pre>"));
    assert!(output.contains("<pre><code class=\"language-cpp\">other\n</code></pre>"));
    assert!(!output.contains("first"));
}

#[test]
fn languages_of_one_block_do_not_reach_the_next() {
    let content =
        "```multicode\n>>>>> rust\na\n<<<<<\n```\n```multicode\n>>>>> cpp\nb\n<<<<<\n```\n";
    let output = render(content);
    assert_eq!(output.matches("<option ").count(), 2);
    assert!(output.contains("<option value=\"code-example-tab-0-rust\">rust</option>"));
    assert!(output.contains("<option value=\"code-example-tab-1-cpp\">cpp</option>"));
    assert!(!output.contains("code-example-tab-1-rust"));
    assert!(!output.contains("code-example-tab-0-cpp"));
}

#[test]
fn lines_of_a_block_outside_its_sections_are_dropped() {
    let content = "```multicode\nloose\n>>>>> rust\nkept\n<<<<<\nloose again\n```\n";
    let output = render(content);
    assert!(output.contains("<pre><code class=\"language-rust\">kept\n</code></pre>"));
    assert!(!output.contains("loose"));
}

#[test]
fn section_with_no_line_has_an_empty_panel() {
    let output = render("```multicode\n>>>>> rust\n<<<<<\n```\n");
    assert!(output.contains("<pre><code class=\"language-rust\"></code></pre>"));
}

#[test]
fn unterminated_block_is_given_up_silently() {
    let output = render("a\n```multicode\n>>>>> rust\nlost\n<<<<<\n");
    assert_eq!(output, format!("{}\na\n", HEADER));
}

#[test]
fn unterminated_section_is_given_up_silently() {
    let output = render("a\n```multicode\n>>>>> rust\nlost\n```\nstill lost\n");
    assert_eq!(output, format!("{}\na\n", HEADER));
}

#[test]
fn section_markers_outside_a_block_are_ordinary_text() {
    let content = ">>>>> rust\nx\n<<<<<\n```\n";
    assert_eq!(render(content), format!("{}\n{}", HEADER, content));
}

#[test]
fn markers_with_trailing_space_are_ordinary_text() {
    let content = "```multicode \n>>>>> rust\n<<<<<\n``` \n";
    assert_eq!(render(content), format!("{}\n{}", HEADER, content));
}

#[test]
fn block_close_with_trailing_space_does_not_close_the_block() {
    let output = render("```multicode\n>>>>> rust\nx\n<<<<<\n``` \nafter\n");
    assert_eq!(output, format!("{}\n", HEADER));
}

#[test]
fn block_with_carriage_return_line_endings_is_recognised() {
    let output = render("```multicode\r\n>>>>> rust\r\nx\r\n<<<<<\r\n```\r\n");
    assert!(output.contains("<pre><code class=\"language-rust\">x\n</code></pre>"));
}

#[test]
fn block_open_inside_a_block_is_dropped() {
    let output = render("```multicode\n```multicode\n>>>>> rust\nx\n<<<<<\n```\n");
    assert_eq!(output.matches("<select ").count(), 1);
    assert!(output.contains("code-example-tab-0-rust"));
}
