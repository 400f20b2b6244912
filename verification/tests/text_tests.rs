use devbox::order::{sorted_insert, string_lt};
use devbox::text::{
    decimal_string, join_from, last_segment, log_line, same_text, split_lines, trim_trailing_slashes,
    without_first_line,
};

fn strings(items: &[&str]) -> Vec<String> {
    items.iter().map(|s| s.to_string()).collect()
}

#[test]
fn trims_trailing_slashes_only() {
    assert_eq!(trim_trailing_slashes("/home/dev//"), "/home/dev");
    assert_eq!(trim_trailing_slashes("dev"), "dev");
    assert_eq!(trim_trailing_slashes("///"), "");
    assert_eq!(trim_trailing_slashes("a/b/c"), "a/b/c");
    let once = trim_trailing_slashes("x//");
    assert_eq!(trim_trailing_slashes(&once), once);
}

#[test]
fn last_segment_after_final_slash() {
    assert_eq!(last_segment("ghcr.io/devcontainers/features/node"), "node");
    assert_eq!(last_segment("node"), "node");
    assert_eq!(last_segment("a/b/"), "");
    assert_eq!(last_segment(""), "");
}

#[test]
fn splits_lines_like_std() {
    for text in ["a\r\nb\n\nc", "x\n", "", "\n", "one", "a\rb\n", "tail\r"] {
        let expected: Vec<String> = text.lines().map(|l| l.to_string()).collect();
        assert_eq!(split_lines(text), expected, "text {:?}", text);
    }
}

#[test]
fn drops_first_line() {
    assert_eq!(without_first_line("FROM ubuntu\nRUN a\r\nRUN b\n"), "RUN a\nRUN b");
    assert_eq!(without_first_line("FROM ubuntu"), "");
    assert_eq!(without_first_line(""), "");
    assert_eq!(without_first_line("FROM x\n\nRUN y"), "\nRUN y");
}

#[test]
fn joins_from_index() {
    let parts = strings(&["a", "b", "c"]);
    assert_eq!(join_from(&parts, 0, "\n"), "a\nb\nc");
    assert_eq!(join_from(&parts, 1, ", "), "b, c");
    assert_eq!(join_from(&parts, 3, "\n"), "");
}

#[test]
fn log_lines_end_in_one_newline() {
    assert_eq!(log_line("hello".to_string()), "hello\n");
    assert_eq!(log_line("hello\n".to_string()), "hello\n");
    assert_eq!(log_line(String::new()), "\n");
    assert_eq!(log_line(log_line("x".to_string())), "x\n");
}

#[test]
fn decimal_matches_to_string() {
    for n in [0u32, 7, 10, 22, 2375, 65535, u32::MAX] {
        assert_eq!(decimal_string(n), n.to_string());
    }
}

#[test]
fn compares_texts() {
    assert!(same_text("abc", "abc"));
    assert!(!same_text("abc", "abd"));
    assert!(!same_text("ab", "abc"));
    assert!(string_lt("CAP_NET", "CAP_SYS"));
    assert!(string_lt("ab", "abc"));
    assert!(!string_lt("abc", "abc"));
    assert!(!string_lt("b", "a"));
    assert!(string_lt("Z", "a"));
}

#[test]
fn sorted_insert_keeps_order_and_drops_repeats() {
    let mut v = Vec::new();
    for s in ["SYS_PTRACE", "NET_ADMIN", "SYS_PTRACE", "AUDIT"] {
        sorted_insert(&mut v, s.to_string());
    }
    assert_eq!(v, strings(&["AUDIT", "NET_ADMIN", "SYS_PTRACE"]));
}
