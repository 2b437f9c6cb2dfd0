use brink::text::{
    append_decimal, append_signed, parse_named_u64, parse_number_or_zero, parse_trimmed_signed,
    push_decimal, same_bytes, same_text, white_space,
};

#[test]
fn white_space_is_that_of_the_standard_library() {
    for code in 0..=0x10ffffu32 {
        if let Some(c) = char::from_u32(code) {
            assert_eq!(white_space(c), c.is_whitespace(), "{:x}", code);
        }
    }
}

#[test]
fn numbers_are_written_in_decimal() {
    for n in [0u64, 1, 9, 10, 99, 100, 12345, u64::MAX] {
        let mut b = Vec::new();
        push_decimal(&mut b, n);
        assert_eq!(b, n.to_string().into_bytes());
        let mut s = String::from("x");
        append_decimal(&mut s, n);
        assert_eq!(s, format!("x{}", n));
    }
    for v in [0i32, 5, -5, i32::MAX, i32::MIN] {
        let mut s = String::new();
        append_signed(&mut s, v);
        assert_eq!(s, v.to_string());
    }
}

#[test]
fn number_files_are_read() {
    for content in [
        "123\n", " 7 ", "0", "", "abc", "-1", "+5", "+", "18446744073709551615",
        "18446744073709551616", "1 2", "\u{2003}8\u{a0}", "0007", "1_0", "\t\n42\r\n",
    ] {
        let want: u64 = content.trim().parse().unwrap_or(0);
        assert_eq!(parse_number_or_zero(content), want, "{:?}", content);
    }
}

#[test]
fn signed_numbers_are_read() {
    for content in [
        "0\n", "-1\n", "256", "+3", "-", "", "2147483647", "2147483648", "-2147483648",
        "-2147483649", "--1", "1a", " 11 ", "-0",
    ] {
        let want: Option<i32> = content.trim().parse().ok();
        assert_eq!(parse_trimmed_signed(content), want, "{:?}", content);
    }
}

fn named(content: &str, key: &str) -> u64 {
    content
        .lines()
        .find_map(|line| {
            let mut parts = line.split_ascii_whitespace();
            if parts.next() == Some(key) {
                parts.next()?.parse().ok()
            } else {
                None
            }
        })
        .unwrap_or(0)
}

#[test]
fn named_numbers_are_found() {
    let events = "low 0\nhigh 0\nmax 12\noom 3\noom_kill 2\noom_group_kill 1\n";
    assert_eq!(parse_named_u64(events, "oom_kill"), 2);
    assert_eq!(parse_named_u64(events, "oom"), 3);
    assert_eq!(parse_named_u64(events, "oom_kil"), 0);
    for content in [
        "", "oom_kill", "oom_kill x\noom_kill 4", "  oom_kill\t9 extra", "oom_kill 1\r\nx 2",
        "x oom_kill 5", "oom_kill\n7", "\n\noom_kill 3", "oom_kill +6", "oom_kill 1\noom_kill 2",
        "oom_kill\u{b}8", "oom_kill\u{c}8", "\u{2003}oom_kill 8", "a\room_kill 8", "oom_kill 8\r",
    ] {
        assert_eq!(parse_named_u64(content, "oom_kill"), named(content, "oom_kill"), "{:?}", content);
    }
}

#[test]
fn equality_of_bytes_and_text() {
    assert!(same_bytes(b"abc", b"abc"));
    assert!(!same_bytes(b"abc", b"abd"));
    assert!(!same_bytes(b"abc", b"ab"));
    assert!(same_text("", ""));
    assert!(!same_text("a", "b"));
}
