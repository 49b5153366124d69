use maic_desktop::log_tail::{format_log_tail, push_log, LOG_KEEP, LOG_LIMIT};

#[test]
fn tail_keeps_last_lines() {
    let mut log = String::new();
    for i in 0..200 {
        push_log(
            &mut log,
            &format!("line {i:03} padding-padding-padding-padding"),
        );
    }
    assert!(log.len() <= 8192 + 64);
    assert!(log.contains("line 199"));
    assert!(!log.contains("line 000"));
}

#[test]
fn tail_formats_for_dialog() {
    assert_eq!(format_log_tail(""), "");
    assert_eq!(format_log_tail("   \n  "), "");
    let out = format_log_tail("Error: boom\n");
    assert!(out.contains("Server output:"));
    assert!(out.contains("Error: boom"));
}

#[test]
fn report_is_trimmed_and_introduced() {
    assert_eq!(
        format_log_tail("\n Error: boom\n"),
        ".\n\nServer output:\nError: boom"
    );
}

#[test]
fn short_log_keeps_every_line() {
    let mut log = String::new();
    push_log(&mut log, "one");
    push_log(&mut log, "");
    push_log(&mut log, "two");
    assert_eq!(log, "one\n\ntwo\n");
}

#[test]
fn cut_falls_behind_a_line_end() {
    // 8190 bytes, and one more line that exceeds the limit.
    let mut log = String::new();
    for _ in 0..819 {
        push_log(&mut log, "123456789");
    }
    assert_eq!(log.len(), 8190);
    push_log(&mut log, "ab");
    // 8193 bytes: the first line end from byte 4097 on is at 4099.
    assert_eq!(log.len(), 8193 - 4100);
    assert!(log.starts_with("123456789\n"));
    assert!(log.ends_with("123456789\nab\n"));
    assert!(log.len() <= LOG_KEEP);
}

#[test]
fn log_is_cut_only_beyond_its_limit() {
    let mut log = String::new();
    for _ in 0..128 {
        push_log(&mut log, &"x".repeat(63));
    }
    assert_eq!(log.len(), LOG_LIMIT);
    // 8193 bytes: the first line end from byte 4097 on is at 4159.
    push_log(&mut log, "");
    assert_eq!(log.len(), 8193 - 4160);
}

#[test]
fn overlong_line_leaves_its_end() {
    let mut log = String::new();
    push_log(&mut log, &"a".repeat(9000));
    assert_eq!(log, format!("{}\n", "a".repeat(LOG_KEEP - 1)));
    // What follows behind such a line is cut as usual.
    for _ in 0..500 {
        push_log(&mut log, "123456789");
    }
    assert!(log.starts_with("123456789\n"));
    // 4094 bytes and a line end leave room for no more than a line end.
    push_log(&mut log, &"x".repeat(9000));
    push_log(&mut log, &"b".repeat(LOG_KEEP - 2));
    push_log(&mut log, &"c".repeat(LOG_KEEP - 2));
    assert_eq!(log, format!("{}\n", "c".repeat(LOG_KEEP - 2)));
    push_log(&mut log, &"d".repeat(LOG_KEEP));
    push_log(&mut log, &"e".repeat(LOG_KEEP - 1));
    assert_eq!(log, format!("{}\n", "e".repeat(LOG_KEEP - 1)));
}

#[test]
fn cut_leaves_out_a_character_it_would_split() {
    // 8193 bytes: the cut falls at byte 4097, inside a two-byte character.
    let line = "é".repeat(4096);
    let mut log = String::new();
    push_log(&mut log, &line);
    assert_eq!(log, format!("{}\n", "é".repeat(2047)));
    assert!(format!("{line}\n").ends_with(&log));
    // 8102 bytes, then 8214: the cut falls at byte 4118, inside a three-byte
    // character, and a line end follows.
    let mut log = String::new();
    push_log(&mut log, &"€".repeat(2700));
    push_log(&mut log, &"x".repeat(112));
    assert_eq!(log, format!("{}\n", "x".repeat(112)));
}

#[test]
fn wide_characters_count_by_bytes() {
    let mut log = String::new();
    for _ in 0..910 {
        push_log(&mut log, "éééé");
    }
    assert_eq!(log.len(), 8190);
    // 8199 bytes; byte 4103 ends the 456th line.
    push_log(&mut log, "éééé");
    assert_eq!(log.len(), 8199 - 4104);
    assert!(log.starts_with("éééé\n"));
}

#[test]
fn log_holds_the_last_lines_of_the_output() {
    let mut log = String::new();
    let mut output = String::new();
    for i in 0..3000 {
        let line = format!("{i}{}", "x".repeat(i % 97));
        push_log(&mut log, &line);
        output.push_str(&line);
        output.push('\n');
        assert!(output.ends_with(&log));
        assert!(log.ends_with(&format!("{line}\n")));
        assert!(log.len() <= LOG_LIMIT);
        let before = output.len() - log.len();
        assert!(before == 0 || output.as_bytes()[before - 1] == b'\n');
    }
}
