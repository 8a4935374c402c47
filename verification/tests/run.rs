use multicode::preprocessor::{Multicode, RunError};

const HEADER: &str = "<script></script>";

fn keys(names: &[&str]) -> Vec<String> {
    names.iter().map(|name| name.to_string()).collect()
}

#[test]
fn name_is_http_api() {
    assert_eq!(Multicode::new().unwrap().name(), "http-api");
}

#[test]
fn supports_the_html_renderer_alone() {
    let preprocessor = Multicode::new().unwrap();
    assert!(preprocessor.supports_renderer("html"));
    assert!(!preprocessor.supports_renderer("HTML"));
    assert!(!preprocessor.supports_renderer("html "));
    assert!(!preprocessor.supports_renderer("markdown"));
    assert!(!preprocessor.supports_renderer("epub"));
    assert!(!preprocessor.supports_renderer(""));
}

#[test]
fn blow_up_key_is_recognised_among_the_keys() {
    let preprocessor = Multicode::new().unwrap();
    assert!(preprocessor.asks_to_fail(&keys(&["blow-up"])));
    assert!(preprocessor.asks_to_fail(&keys(&["command", "blow-up", "after"])));
    assert!(!preprocessor.asks_to_fail(&keys(&[])));
    assert!(!preprocessor.asks_to_fail(&keys(&["command", "blow_up", "Blow-Up", "blow-up "])));
}

#[test]
fn run_fails_when_the_settings_ask_for_it() {
    let chapters = vec!["one\n".to_string(), "two\n".to_string()];
    let result = Multicode::new().unwrap().run(&keys(&["blow-up"]), HEADER, chapters);
    assert_eq!(result, Err(RunError::BlowUp));
}

#[test]
fn run_fails_with_no_chapter_at_all() {
    let result = Multicode::new().unwrap().run(&keys(&["command", "blow-up"]), HEADER, Vec::new());
    assert_eq!(result, Err(RunError::BlowUp));
}

#[test]
fn failed_run_says_blowing_up() {
    assert_eq!(RunError::BlowUp.message(), "Blowing up!");
}

#[test]
fn run_rewrites_every_chapter_in_order() {
    let chapters = vec!["one\n".to_string(), "".to_string(), "three".to_string()];
    let result = Multicode::new().unwrap().run(&keys(&["command"]), HEADER, chapters);
    assert_eq!(
        result,
        Ok(vec![
            format!("{}\none\n", HEADER),
            format!("{}\n", HEADER),
            format!("{}\nthree\n", HEADER),
        ])
    );
}

#[test]
fn run_of_no_chapter_gives_no_chapter() {
    assert_eq!(Multicode::new().unwrap().run(&keys(&[]), HEADER, Vec::new()), Ok(Vec::new()));
}

#[test]
fn sequence_numbers_start_again_in_every_chapter() {
    let block = "```multicode\n>>>>> rust\nx\n<<<<<\n```\n";
    let chapters = vec![format!("{}{}", block, block), block.to_string()];
    let rewritten = Multicode::new().unwrap().run(&keys(&[]), HEADER, chapters).unwrap();
    assert!(rewritten[0].contains("code-example-tab-0-rust"));
    assert!(rewritten[0].contains("code-example-tab-1-rust"));
    assert!(rewritten[1].contains("code-example-tab-0-rust"));
    assert!(!rewritten[1].contains("code-example-tab-1-rust"));
}

#[test]
fn run_gives_what_render_gives() {
    let preprocessor = Multicode::new().unwrap();
    let chapter = "a\n```multicode\n>>>>> rust\nx < y\n<<<<<\n```\nb\n";
    let rewritten = preprocessor.run(&keys(&[]), HEADER, vec![chapter.to_string()]).unwrap();
    assert_eq!(rewritten, vec![preprocessor.render(HEADER, chapter)]);
}

#[test]
fn main_items_are_at_the_root_of_the_crate() {
    let preprocessor = multicode::Multicode::new().unwrap();
    assert_eq!(preprocessor.name(), "http-api");
    assert_eq!(multicode::html_escape("1 < 2"), "1 &lt; 2");
    let state = multicode::ParseState::Code("rust".to_string());
    assert_ne!(state, multicode::ParseState::Nothing);
    assert_ne!(state, multicode::ParseState::Multicode);
}
