use mangatan::ocr::text::{clean_text, is_blank, post_process_text, strip_whitespace};

#[test]
fn cjk_text_loses_its_spaces() {
    assert_eq!(post_process_text("日本 語 の テキスト".to_string()), "日本語のテキスト");
    assert_eq!(post_process_text("こん にち は".to_string()), "こんにちは");
    assert_eq!(post_process_text("カタ カナ".to_string()), "カタカナ");
}

#[test]
fn cjk_text_loses_every_kind_of_white_space() {
    assert_eq!(post_process_text(" 漢\t字\n混\u{3000}じ り ".to_string()), "漢字混じり");
}

#[test]
fn mixed_text_with_one_ideograph_is_stripped() {
    assert_eq!(post_process_text("hello 世 world".to_string()), "hello世world");
}

#[test]
fn latin_text_is_unchanged() {
    assert_eq!(post_process_text("hello  world ".to_string()), "hello  world ");
    assert_eq!(post_process_text("".to_string()), "");
    assert_eq!(post_process_text("한국어 텍스트".to_string()), "한국어 텍스트");
}

#[test]
fn clean_text_follows_the_flag() {
    assert_eq!(clean_text("a b".to_string(), true), "ab");
    assert_eq!(clean_text("a b".to_string(), false), "a b");
}

#[test]
fn strip_keeps_the_order() {
    assert_eq!(strip_whitespace(" a  b\tc\n"), "abc");
    assert_eq!(strip_whitespace("   "), "");
}

#[test]
fn blank_texts() {
    assert!(is_blank(""));
    assert!(is_blank(" \t\n\u{3000}"));
    assert!(!is_blank(" a "));
    assert!(!is_blank("語"));
}
