use markdown_readtime::{
    count_english_words, count_words, estimate, estimate_with_speed, formatted, ReadSpeed,
};

#[test]
fn test_estimate() {
    let md_txt = r#"
# 标题
## 子标题
### 子子标题
1. 列表1
2. 列表2
"#
    .trim();
    let read_time = estimate(md_txt);
    assert_eq!(read_time.word_count, 15);
    assert_eq!(read_time.image_count, 0);
    assert_eq!(read_time.code_block_count, 0);
    assert_eq!(read_time.total_seconds, 5);
    assert_eq!(read_time.formatted, "5秒");
}

#[test]
fn test_estimate_with_speed() {
    let md_txt = r#"
# 标题
## 子标题
### 子子标题
1. 列表1
2. 列表2
"#
    .trim();
    let speed = ReadSpeed::new(100, 10, 15, true, true);
    let read_time = estimate_with_speed(md_txt, &speed);
    assert_eq!(read_time.word_count, 15);
    assert_eq!(read_time.image_count, 0);
    assert_eq!(read_time.code_block_count, 0);
    assert_eq!(read_time.total_seconds, 9);
    assert_eq!(read_time.formatted, "9秒");

    let md_txt_english = r#"
# Title

This is a test paragraph. It contains some words.
"#
    .trim();

    let speed = ReadSpeed::new(200, 10, 15, true, false);
    let read_time = estimate_with_speed(md_txt_english, &speed);
    assert_eq!(read_time.word_count, 10);
    assert_eq!(read_time.total_seconds, 3);
    assert_eq!(read_time.formatted, "3秒");
}

#[test]
fn test_count_words() {
    let text = "你好，世界！";
    let word_count = count_words(text, true);
    assert_eq!(word_count, 6);
}

#[test]
fn test_count_english_words() {
    let text = "Hello world! This is a test.";
    let word_count = count_english_words(text, true);
    assert_eq!(word_count, 6);
}

#[test]
fn test_formatted() {
    let md_txt = r#"
# 测试标题
## 子标题
### 子子标题
- 列表项1
- 列表项2
"#
    .trim();
    let formatted_time = formatted(md_txt);
    assert_eq!(formatted_time, "6秒");
}
