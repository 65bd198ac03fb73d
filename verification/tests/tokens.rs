use chunk_transfer::tokens::extract_tokens;

fn strings(items: &[&str]) -> Vec<String> {
    items.iter().map(|s| String::from(*s)).collect()
}

#[test]
fn tokens_of_the_sample_line() {
    let html = "<div>hello          world     this          is    a    test</div>";
    assert_eq!(
        extract_tokens(html),
        strings(&["hello         ", "world     this         ", "is    a    test"])
    );
}

#[test]
fn empty_text_has_no_tokens() {
    assert_eq!(extract_tokens(""), Vec::<String>::new());
}

#[test]
fn text_without_tags_is_one_token() {
    assert_eq!(extract_tokens("plain"), strings(&["plain"]));
}

#[test]
fn a_tag_alone_has_no_tokens() {
    assert_eq!(extract_tokens("<a>"), Vec::<String>::new());
    assert_eq!(extract_tokens("<a href=\"x y\">"), Vec::<String>::new());
}

#[test]
fn a_tag_splits_the_text() {
    assert_eq!(extract_tokens("a<b>c"), strings(&["a", "c"]));
    assert_eq!(extract_tokens("<p>one</p><p>two</p>"), strings(&["one", "two"]));
}

#[test]
fn leading_spaces_are_dropped() {
    assert_eq!(extract_tokens("   lead"), strings(&["lead"]));
}

#[test]
fn trailing_spaces_stay() {
    assert_eq!(extract_tokens("tail   "), strings(&["tail   "]));
}

#[test]
fn nine_spaces_keep_the_token_together() {
    assert_eq!(extract_tokens("x         y"), strings(&["x         y"]));
}

#[test]
fn the_tenth_space_ends_the_token() {
    assert_eq!(extract_tokens("x          y"), strings(&["x         ", "y"]));
}

#[test]
fn spaces_after_the_tenth_are_skipped() {
    assert_eq!(extract_tokens("x           y"), strings(&["x         ", "y"]));
    let long = format!("x{}y", " ".repeat(500));
    assert_eq!(extract_tokens(&long), strings(&["x         ", "y"]));
}

#[test]
fn an_unclosed_tag_swallows_the_rest() {
    assert_eq!(extract_tokens("<a b"), Vec::<String>::new());
    assert_eq!(extract_tokens("x<a b"), strings(&["x"]));
}

#[test]
fn a_closing_bracket_outside_a_tag_is_dropped() {
    assert_eq!(extract_tokens("a>b"), strings(&["ab"]));
}

#[test]
fn spaces_around_tags() {
    assert_eq!(extract_tokens("a < b > c"), strings(&["a ", "c"]));
}

#[test]
fn characters_beyond_ascii_are_kept_whole() {
    assert_eq!(extract_tokens("é<ü>ß"), strings(&["é", "ß"]));
}

#[test]
fn tokens_are_never_empty_and_hold_no_bracket() {
    let texts = [
        "<div>hello          world     this          is    a    test</div>",
        "  <  > a  <b>  c          d>e<",
        "<<>>",
        "          ",
        "x<y>          z",
    ];
    for text in texts {
        for token in extract_tokens(text) {
            assert!(!token.is_empty());
            assert!(!token.contains('<'));
            assert!(!token.contains('>'));
            assert!(!token.starts_with(' '));
        }
    }
}
