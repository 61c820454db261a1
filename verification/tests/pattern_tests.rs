use gvc::error::GvcError;
use gvc::pattern::PatternMatcher;
use gvc::text::chars_of;

#[test]
fn a_bare_pattern_matches_anywhere() {
    let matcher = PatternMatcher::new("okhttp").unwrap();
    assert!(matcher.matches("my-okhttp-client"));
    assert!(matcher.matches("okhttp"));
    assert!(matcher.matches("OkHttp-bom"));
    assert!(!matcher.matches("retrofit"));
}

#[test]
fn a_glob_matches_the_whole_name() {
    let matcher = PatternMatcher::new("ok*p").unwrap();
    assert!(matcher.matches("okhttp"));
    assert!(!matcher.matches("okay"));
    assert!(!matcher.matches("my-okhttp"));
    let one = PatternMatcher::new("lib?").unwrap();
    assert!(one.matches("libs"));
    assert!(one.matches("LIBX"));
    assert!(!one.matches("lib"));
    assert!(!one.matches("libss"));
}

#[test]
fn special_characters_stand_for_themselves() {
    let matcher = PatternMatcher::new("a.b+c*").unwrap();
    assert!(matcher.matches("a.b+c-more"));
    assert!(!matcher.matches("axb+c"));
    assert!(!matcher.matches("a.bbc"));
    let brackets = PatternMatcher::new(" [x](y){z}|^$\\ ").unwrap();
    assert!(brackets.matches("pre[x](y){z}|^$\\post"));
}

#[test]
fn an_empty_pattern_is_refused() {
    assert!(matches!(
        PatternMatcher::new("   "),
        Err(GvcError::ProjectValidation(_))
    ));
    assert!(matches!(
        PatternMatcher::new(""),
        Err(GvcError::ProjectValidation(_))
    ));
    match PatternMatcher::new(" \t") {
        Err(GvcError::ProjectValidation(message)) => {
            assert_eq!(message, "Filter pattern cannot be empty")
        }
        _ => panic!("an empty pattern was taken"),
    }
}

#[test]
fn the_regular_expression_is_anchored_and_escaped() {
    let text = gvc::pattern::compile_glob(&chars_of("a*b?.c"));
    assert_eq!(text, "(?i)^a.*b.\\.c$");
}
