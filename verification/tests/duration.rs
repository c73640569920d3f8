use markdown_readtime::{format_time, total_seconds, ReadSpeed};

#[test]
fn seconds_alone_below_one_minute() {
    assert_eq!(format_time(0), "0秒");
    assert_eq!(format_time(1), "1秒");
    assert_eq!(format_time(9), "9秒");
    assert_eq!(format_time(10), "10秒");
    assert_eq!(format_time(59), "59秒");
}

#[test]
fn minutes_alone_for_whole_minutes() {
    assert_eq!(format_time(60), "1分钟");
    assert_eq!(format_time(120), "2分钟");
    assert_eq!(format_time(600), "10分钟");
    assert_eq!(format_time(3600), "60分钟");
}

#[test]
fn minutes_and_seconds_otherwise() {
    assert_eq!(format_time(61), "1分1秒");
    assert_eq!(format_time(125), "2分5秒");
    assert_eq!(format_time(3599), "59分59秒");
    assert_eq!(format_time(6059), "100分59秒");
    assert_eq!(format_time(u64::MAX), "307445734561825860分15秒");
}

#[test]
fn different_durations_are_displayed_differently() {
    let mut seen: Vec<String> = Vec::new();
    for seconds in 0..400u64 {
        let text = format_time(seconds);
        assert!(!seen.contains(&text));
        seen.push(text);
    }
}

#[test]
fn time_is_rounded_up_to_whole_seconds() {
    let speed = ReadSpeed::default();
    assert_eq!(total_seconds(0, 0, 0, &speed), 0);
    assert_eq!(total_seconds(1, 0, 0, &speed), 1);
    assert_eq!(total_seconds(10, 0, 0, &speed), 3);
    assert_eq!(total_seconds(15, 0, 0, &speed), 5);
    assert_eq!(total_seconds(200, 0, 0, &speed), 60);
    assert_eq!(total_seconds(201, 0, 0, &speed), 61);
    assert_eq!(total_seconds(7, 0, 0, &ReadSpeed::new(420, 0, 0, true, true)), 1);
}

#[test]
fn time_is_never_below_the_exact_time_and_less_than_a_second_above() {
    for wpm in [1u64, 7, 60, 100, 200, 333] {
        for words in 0..200usize {
            let speed = ReadSpeed::new(wpm, 3, 5, true, true);
            let seconds = total_seconds(words, 2, 1, &speed);
            let exact_times_wpm = words as u64 * 60 + (2 * 3 + 5) * wpm;
            assert!(seconds * wpm >= exact_times_wpm);
            assert!((seconds - 1) * wpm < exact_times_wpm);
        }
    }
}

#[test]
fn images_and_code_blocks_add_fixed_time() {
    let speed = ReadSpeed::new(100, 10, 15, true, true);
    assert_eq!(total_seconds(0, 1, 1, &speed), 25);
    assert_eq!(total_seconds(15, 0, 0, &speed), 9);
    assert_eq!(total_seconds(15, 1, 1, &speed), 34);
    assert_eq!(total_seconds(15, 3, 2, &speed), 69);
    let default = ReadSpeed::default();
    assert_eq!(total_seconds(0, 1, 0, &default), 12);
    assert_eq!(total_seconds(0, 0, 1, &default), 20);
}

#[test]
fn time_beyond_the_largest_number_is_the_largest_number() {
    let slow = ReadSpeed::new(1, u64::MAX, u64::MAX, true, true);
    assert_eq!(total_seconds(0, 1, 0, &slow), u64::MAX);
    assert_eq!(total_seconds(0, 2, 0, &slow), u64::MAX);
    assert_eq!(total_seconds(1, 1, 1, &slow), u64::MAX);
    assert_eq!(total_seconds(usize::MAX, usize::MAX, usize::MAX, &slow), u64::MAX);
    assert_eq!(total_seconds(usize::MAX, 0, 0, &ReadSpeed::new(60, 0, 0, true, true)), usize::MAX as u64);
}

#[test]
fn default_speed_model() {
    let speed = ReadSpeed::default();
    assert_eq!(speed.words_per_minute, 200);
    assert_eq!(speed.seconds_per_image, 12);
    assert_eq!(speed.seconds_per_code_block, 20);
    assert!(speed.count_emoji);
    assert!(speed.chinese);
}

#[test]
fn speed_model_overrides_are_independent() {
    let speed = ReadSpeed::default().wpm(180);
    assert_eq!(speed.words_per_minute, 180);
    assert_eq!(speed.seconds_per_image, 12);
    let speed = speed.image_time(15);
    assert_eq!(speed.seconds_per_image, 15);
    assert_eq!(speed.words_per_minute, 180);
    let speed = speed.code_block_time(25);
    assert_eq!(speed.seconds_per_code_block, 25);
    let speed = speed.emoji(false);
    assert!(!speed.count_emoji);
    assert!(speed.chinese);
    let speed = speed.chinese(false);
    assert!(!speed.chinese);
    assert_eq!(speed.words_per_minute, 180);
    assert_eq!(speed.seconds_per_image, 15);
    assert_eq!(speed.seconds_per_code_block, 25);
    let built = ReadSpeed::new(100, 10, 15, false, true);
    assert_eq!(built.words_per_minute, 100);
    assert_eq!(built.seconds_per_image, 10);
    assert_eq!(built.seconds_per_code_block, 15);
    assert!(!built.count_emoji);
    assert!(built.chinese);
}
