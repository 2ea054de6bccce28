use lc3dbg::text::{chars_of, first_word_end, last_word_start, text_eq};

fn words(text: &str) -> (String, String) {
    let chars = chars_of(text);
    let first: String = chars[..first_word_end(&chars)].iter().collect();
    let last: String = chars[last_word_start(&chars)..].iter().collect();
    (first, last)
}

#[test]
fn characters_of_a_text() {
    assert_eq!(chars_of(""), Vec::<char>::new());
    assert_eq!(chars_of("a\u{ac00}b"), vec!['a', '\u{ac00}', 'b']);
}

#[test]
fn texts_are_compared_by_their_characters() {
    assert!(text_eq("", ""));
    assert!(text_eq("BR", "BR"));
    assert!(!text_eq("BR", "BRn"));
    assert!(!text_eq("BR", "br"));
}

#[test]
fn first_and_last_word_of_an_instruction() {
    assert_eq!(words("LD r1, #-3"), (String::from("LD"), String::from("#-3")));
    assert_eq!(words("BRnzp #5"), (String::from("BRnzp"), String::from("#5")));
}

#[test]
fn first_and_last_word_without_a_space() {
    assert_eq!(words("RTI"), (String::from("RTI"), String::from("RTI")));
    assert_eq!(words(""), (String::new(), String::new()));
}

#[test]
fn first_and_last_word_at_spaces() {
    assert_eq!(words(" BR #5"), (String::new(), String::from("#5")));
    assert_eq!(words("BR #5 "), (String::from("BR"), String::new()));
    assert_eq!(words("BR  #5"), (String::from("BR"), String::from("#5")));
    assert_eq!(words(" "), (String::new(), String::new()));
}

#[test]
fn only_the_space_separates_words() {
    assert_eq!(words("BR\t#5"), (String::from("BR\t#5"), String::from("BR\t#5")));
}
