use markdown_readtime::{
    count_events, estimate, estimate_events, estimate_with_speed, formatted, minutes, words,
    MarkdownEvent, ReadSpeed,
};

fn text(s: &str) -> MarkdownEvent {
    MarkdownEvent::Text(s.to_string())
}

fn code(s: &str) -> MarkdownEvent {
    MarkdownEvent::InlineCode(s.to_string())
}

#[test]
fn empty_document_takes_no_time() {
    let read_time = estimate("");
    assert_eq!(read_time.word_count, 0);
    assert_eq!(read_time.image_count, 0);
    assert_eq!(read_time.code_block_count, 0);
    assert_eq!(read_time.total_seconds, 0);
    assert_eq!(read_time.formatted, "0秒");
    assert_eq!(minutes(""), 0);
    assert_eq!(words(""), 0);
    assert_eq!(formatted(""), "0秒");
}

#[test]
fn document_without_text_images_and_code_takes_no_time() {
    let read_time = estimate("---\n\n***\n");
    assert_eq!(read_time.word_count, 0);
    assert_eq!(read_time.total_seconds, 0);
    assert_eq!(read_time.formatted, "0秒");
    let events = vec![MarkdownEvent::Other, MarkdownEvent::ImageEnd, MarkdownEvent::CodeBlockEnd];
    let read_time = estimate_events(&events, &ReadSpeed::new(1, 1000, 1000, true, false));
    assert_eq!(read_time.word_count, 0);
    assert_eq!(read_time.image_count, 0);
    assert_eq!(read_time.code_block_count, 0);
    assert_eq!(read_time.total_seconds, 0);
    assert_eq!(read_time.formatted, "0秒");
}

#[test]
fn image_and_code_block_add_their_seconds() {
    let speed = ReadSpeed::new(100, 10, 15, true, false);
    let plain = "Hello world";
    let rich = "Hello world\n\n![a picture](picture.png)\n\n```\nlet x = 1;\n```\n";
    let base = estimate_with_speed(plain, &speed);
    let full = estimate_with_speed(rich, &speed);
    assert_eq!(base.word_count, 2);
    assert_eq!(base.total_seconds, 2);
    assert_eq!(full.word_count, 2);
    assert_eq!(full.image_count, 1);
    assert_eq!(full.code_block_count, 1);
    assert_eq!(full.total_seconds, base.total_seconds + 25);
    assert_eq!(full.formatted, "27秒");
}

#[test]
fn image_and_code_block_alone_take_their_seconds() {
    let speed = ReadSpeed::new(100, 10, 15, true, true);
    let read_time = estimate_with_speed("![](picture.png)\n\n```rust\nfn main() {}\n```\n", &speed);
    assert_eq!(read_time.word_count, 0);
    assert_eq!(read_time.image_count, 1);
    assert_eq!(read_time.code_block_count, 1);
    assert_eq!(read_time.total_seconds, 25);
    assert_eq!(read_time.formatted, "25秒");
}

#[test]
fn alternative_text_of_an_image_is_not_counted() {
    let speed = ReadSpeed::default().chinese(false);
    let read_time = estimate_with_speed("![five words of alternative text](a.png)", &speed);
    assert_eq!(read_time.word_count, 0);
    assert_eq!(read_time.image_count, 1);
    assert_eq!(read_time.total_seconds, 12);
    let read_time = estimate_with_speed("before ![alt text](a.png) after", &speed);
    assert_eq!(read_time.word_count, 2);
    assert_eq!(read_time.image_count, 1);
}

#[test]
fn text_of_a_code_block_is_not_counted() {
    let speed = ReadSpeed::default().chinese(false);
    let fenced = "intro\n\n```\nmany words inside the block\n```\n\noutro";
    let read_time = estimate_with_speed(fenced, &speed);
    assert_eq!(read_time.word_count, 2);
    assert_eq!(read_time.code_block_count, 1);
    let indented = "intro\n\n    indented code here\n\noutro";
    let read_time = estimate_with_speed(indented, &speed);
    assert_eq!(read_time.word_count, 2);
    assert_eq!(read_time.code_block_count, 1);
}

#[test]
fn inline_code_is_counted() {
    let speed = ReadSpeed::default().chinese(false);
    let read_time = estimate_with_speed("Run `cargo build` now", &speed);
    assert_eq!(read_time.word_count, 4);
    assert_eq!(read_time.code_block_count, 0);
    let read_time = estimate_with_speed("`abc`", &ReadSpeed::default());
    assert_eq!(read_time.word_count, 3);
}

#[test]
fn language_mode_selects_the_counter() {
    let markdown = "Hello world! This is a test.";
    let read_time = estimate_with_speed(markdown, &ReadSpeed::default().chinese(false));
    assert_eq!(read_time.word_count, 6);
    assert_eq!(read_time.total_seconds, 2);
    let read_time = estimate_with_speed(markdown, &ReadSpeed::default());
    assert_eq!(read_time.word_count, 23);
    assert_eq!(read_time.total_seconds, 7);
    assert_eq!(words("你好，世界！"), 6);
}

#[test]
fn emoji_flag_reaches_the_counter() {
    let markdown = "party🎉time";
    let on = estimate_with_speed(markdown, &ReadSpeed::default().chinese(false).emoji(true));
    let off = estimate_with_speed(markdown, &ReadSpeed::default().chinese(false).emoji(false));
    assert_eq!(on.word_count, 10);
    assert_eq!(off.word_count, 1);
}

#[test]
fn minutes_are_rounded_up() {
    assert_eq!(minutes("word"), 1);
    let long = "字".repeat(200);
    assert_eq!(estimate(&long).total_seconds, 60);
    assert_eq!(minutes(&long), 1);
    assert_eq!(formatted(&long), "1分钟");
    let longer = "字".repeat(201);
    assert_eq!(estimate(&longer).total_seconds, 61);
    assert_eq!(minutes(&longer), 2);
    assert_eq!(formatted(&longer), "1分1秒");
}

#[test]
fn display_string_renders_the_seconds_of_the_estimate() {
    for markdown in ["", "one", "# Title\n\nSome text with ![img](a.png)", "字字字字字字字字字字"] {
        let read_time = estimate(markdown);
        assert_eq!(read_time.formatted, markdown_readtime::format_time(read_time.total_seconds));
    }
}

#[test]
fn events_are_counted_in_one_pass() {
    let events = vec![
        text("one two"),
        MarkdownEvent::ImageStart,
        text("alt text here"),
        code("inline in alt"),
        MarkdownEvent::ImageEnd,
        MarkdownEvent::Other,
        MarkdownEvent::CodeBlockStart,
        text("code body"),
        code("code in block"),
        MarkdownEvent::CodeBlockEnd,
        code("x y"),
        text("three"),
    ];
    let counts = count_events(&events, true, false);
    assert_eq!(counts.word_count, 2 + 3 + 2 + 1);
    assert_eq!(counts.image_count, 1);
    assert_eq!(counts.code_block_count, 1);
    let counts = count_events(&events, true, true);
    assert_eq!(counts.word_count, 6 + 11 + 2 + 5);
}

#[test]
fn unmatched_ends_are_ignored() {
    let events = vec![
        MarkdownEvent::CodeBlockEnd,
        MarkdownEvent::ImageEnd,
        text("still counted"),
        MarkdownEvent::CodeBlockStart,
        MarkdownEvent::CodeBlockStart,
        MarkdownEvent::CodeBlockEnd,
        text("counted again"),
        MarkdownEvent::ImageStart,
    ];
    let read_time = estimate_events(&events, &ReadSpeed::new(60, 1, 2, true, false));
    assert_eq!(read_time.word_count, 4);
    assert_eq!(read_time.image_count, 1);
    assert_eq!(read_time.code_block_count, 2);
    assert_eq!(read_time.total_seconds, 4 + 1 + 4);
    assert_eq!(read_time.formatted, "9秒");
}

#[test]
fn longer_stream_never_counts_less() {
    let mut events = vec![text("a b"), MarkdownEvent::ImageStart];
    let before = count_events(&events, true, false);
    events.push(text("hidden"));
    events.push(MarkdownEvent::ImageEnd);
    events.push(text("c"));
    let after = count_events(&events, true, false);
    assert!(after.word_count >= before.word_count);
    assert!(after.image_count >= before.image_count);
    assert!(after.code_block_count >= before.code_block_count);
    assert_eq!(after.word_count, 3);
}

#[test]
fn estimate_uses_the_default_speed() {
    let markdown = "# 标题\n\n正文内容。\n\n![图](a.png)\n";
    let by_default = estimate(markdown);
    let explicit = estimate_with_speed(markdown, &ReadSpeed::default());
    assert_eq!(by_default, explicit);
    assert_eq!(by_default.word_count, 7);
    assert_eq!(by_default.image_count, 1);
    assert_eq!(by_default.total_seconds, 15);
    assert_eq!(by_default.formatted, "15秒");
}
