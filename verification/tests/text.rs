use transarch::path::{join, split};
use transarch::text::to_decimal;

#[test]
fn decimal_of_small_numbers() {
    assert_eq!(to_decimal(0), "0");
    assert_eq!(to_decimal(7), "7");
    assert_eq!(to_decimal(9), "9");
}

#[test]
fn decimal_of_large_numbers() {
    assert_eq!(to_decimal(10), "10");
    assert_eq!(to_decimal(1234567890), "1234567890");
    assert_eq!(to_decimal(100), "100");
    assert_eq!(to_decimal(usize::MAX), usize::MAX.to_string());
}

#[test]
fn join_puts_one_slash_between() {
    assert_eq!(join("a", "b"), "a/b");
    assert_eq!(join("/root/x", "target"), "/root/x/target");
    assert_eq!(join("a", "b/c"), "a/b/c");
    assert_eq!(join("a", "../b"), "a/../b");
}

#[test]
fn join_adds_no_slash_after_one() {
    assert_eq!(join("/", "target"), "/target");
    assert_eq!(join("a/", "b"), "a/b");
}

#[test]
fn join_onto_nothing_is_the_other_path() {
    assert_eq!(join("", "b"), "b");
    assert_eq!(join("", ""), "");
    assert_eq!(join("a", ""), "a/");
}

#[test]
fn join_keeps_characters_beyond_ascii() {
    assert_eq!(join("é", "ß"), "é/ß");
}

#[test]
fn split_cuts_at_every_slash() {
    assert_eq!(split("a/b/c"), vec!["a", "b", "c"]);
    assert_eq!(split("a"), vec!["a"]);
    assert_eq!(split("dir/file.wasm"), vec!["dir", "file.wasm"]);
}

#[test]
fn split_keeps_empty_segments() {
    assert_eq!(split(""), vec![""]);
    assert_eq!(split("/"), vec!["", ""]);
    assert_eq!(split("a/"), vec!["a", ""]);
    assert_eq!(split("/a"), vec!["", "a"]);
    assert_eq!(split("a//b"), vec!["a", "", "b"]);
}

#[test]
fn split_agrees_with_the_standard_library() {
    for path in ["", "a", "a/b", "/a/b/", "//", "x/é/ü", "a/b/c/d/e/"] {
        let expected: Vec<&str> = path.split('/').collect();
        assert_eq!(split(path), expected);
    }
}
