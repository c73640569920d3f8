use markdown_readtime::{count_english_words, count_words, is_emoji};

#[test]
fn emoji_blocks_are_recognised() {
    assert!(is_emoji('\u{1F600}'));
    assert!(is_emoji('\u{1F64F}'));
    assert!(is_emoji('\u{1F300}'));
    assert!(is_emoji('\u{1F5FF}'));
    assert!(is_emoji('\u{1F680}'));
    assert!(is_emoji('\u{1F6FF}'));
    assert!(is_emoji('\u{1F700}'));
    assert!(is_emoji('\u{1F7FF}'));
    assert!(is_emoji('\u{1F800}'));
    assert!(is_emoji('\u{1F8FF}'));
    assert!(is_emoji('\u{1F900}'));
    assert!(is_emoji('\u{1F9FF}'));
    assert!(is_emoji('\u{1FA00}'));
    assert!(is_emoji('\u{1FA6F}'));
    assert!(is_emoji('\u{1FA70}'));
    assert!(is_emoji('\u{1FAFF}'));
    assert!(is_emoji('\u{2600}'));
    assert!(is_emoji('\u{26FF}'));
    assert!(is_emoji('\u{2700}'));
    assert!(is_emoji('\u{27BF}'));
    assert!(is_emoji('\u{2B50}'));
    assert!(is_emoji('\u{2B55}'));
}

#[test]
fn characters_outside_the_blocks_are_not_emoji() {
    assert!(!is_emoji('a'));
    assert!(!is_emoji(' '));
    assert!(!is_emoji('\u{0}'));
    assert!(!is_emoji('你'));
    assert!(!is_emoji('\u{25FF}'));
    assert!(!is_emoji('\u{27C0}'));
    assert!(!is_emoji('\u{2B4F}'));
    assert!(!is_emoji('\u{2B51}'));
    assert!(!is_emoji('\u{2B54}'));
    assert!(!is_emoji('\u{2B56}'));
    assert!(!is_emoji('\u{1F2FF}'));
    assert!(!is_emoji('\u{1F650}'));
    assert!(!is_emoji('\u{1F67F}'));
    assert!(!is_emoji('\u{1FB00}'));
    assert!(!is_emoji('\u{10FFFF}'));
}

#[test]
fn character_mode_counts_every_visible_character() {
    assert_eq!(count_words("", true), 0);
    assert_eq!(count_words("", false), 0);
    assert_eq!(count_words("abc", true), 3);
    assert_eq!(count_words("a b\tc\nd", true), 4);
    assert_eq!(count_words("Hello, world!", false), 12);
    assert_eq!(count_words("你好 世界", true), 4);
}

#[test]
fn character_mode_skips_all_kinds_of_whitespace() {
    assert_eq!(count_words(" \t\r\n", true), 0);
    assert_eq!(count_words(" \t\r\n", false), 0);
    assert_eq!(count_words("中\u{3000}文", true), 2);
    assert_eq!(count_words("a\u{00A0}b", false), 2);
    assert_eq!(count_words("a\u{2003}b\u{2028}c", true), 3);
}

#[test]
fn character_mode_counts_emoji_as_one_unit_each() {
    assert_eq!(count_words("Hello 😀", true), 6);
    assert_eq!(count_words("Hello 😀", false), 6);
    assert_eq!(count_words("😀😀", true), 2);
    assert_eq!(count_words("⭐", true), 1);
}

#[test]
fn character_mode_drops_control_characters_only_with_emoji_counting() {
    assert_eq!(count_words("a\u{0007}b", true), 2);
    assert_eq!(count_words("a\u{0007}b", false), 3);
    assert_eq!(count_words("\u{0000}\u{001B}\u{007F}\u{009F}", true), 0);
    assert_eq!(count_words("\u{0000}\u{001B}\u{007F}\u{009F}", false), 4);
}

#[test]
fn word_mode_counts_tokens() {
    assert_eq!(count_english_words("", true), 0);
    assert_eq!(count_english_words("", false), 0);
    assert_eq!(count_english_words("   ", true), 0);
    assert_eq!(count_english_words("word", true), 1);
    assert_eq!(count_english_words("  two   words \n", true), 2);
    assert_eq!(count_english_words("  two   words \n", false), 2);
    assert_eq!(count_english_words("a\tb\nc\r\nd\u{3000}e", false), 5);
    assert_eq!(count_english_words("Hello world! This is a test.", false), 6);
}

#[test]
fn word_mode_takes_tokens_with_emoji_apart() {
    assert_eq!(count_english_words("😀", true), 1);
    assert_eq!(count_english_words("Hello😀 world", true), 7);
    assert_eq!(count_english_words("Hello😀 world", false), 2);
    assert_eq!(count_english_words("Hello 😀 world", true), 3);
    assert_eq!(count_english_words("Hello 😀 world", false), 3);
    assert_eq!(count_english_words("go🚀🚀 now", true), 5);
    assert_eq!(count_english_words("a⭐b c", true), 4);
}

#[test]
fn emoji_flag_changes_only_tokens_with_emoji() {
    let plain = "no emoji in this sentence";
    assert_eq!(count_english_words(plain, true), count_english_words(plain, false));
    let mixed = "party🎉time is now";
    assert_eq!(count_english_words(mixed, false), 3);
    assert_eq!(count_english_words(mixed, true), 12);
}

#[test]
fn added_content_never_lowers_the_count() {
    assert!(count_english_words("ab😀c", true) >= count_english_words("ab😀", true));
    assert!(count_english_words("one twothree", true) >= count_english_words("one three", true));
    assert!(count_english_words("a😀b c", true) >= count_english_words("ab c", true));
    assert!(count_words("你好世界", true) >= count_words("你好", true));
    assert_eq!(count_words("你好", true) + count_words("世界", true), count_words("你好世界", true));
}
