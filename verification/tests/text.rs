use mydocker::text::{
    absolute, chars_of, copy_texts, decimal_of, drop_text, followed_by, has_text, holds_char, join,
    join_texts,
    same_text, split, split_by, split_words, Separator,
};

fn list(items: &[&str]) -> Vec<String> {
    items.iter().map(|s| s.to_string()).collect()
}

#[test]
fn split_keeps_empty_pieces() {
    assert_eq!(split("a:b", ':'), list(&["a", "b"]));
    assert_eq!(split("", ':'), list(&[""]));
    assert_eq!(split("a:", ':'), list(&["a", ""]));
    assert_eq!(split(":a", ':'), list(&["", "a"]));
    assert_eq!(split("a::b", ':'), list(&["a", "", "b"]));
    assert_eq!(split("abc", ':'), list(&["abc"]));
}

#[test]
fn split_agrees_with_std() {
    for text in ["", ":", "a", "/a:/b", "x:y:z:", "::", "héllo:wörld"] {
        let expected: Vec<String> = text.split(':').map(|s| s.to_string()).collect();
        assert_eq!(split(text, ':'), expected);
    }
}

#[test]
fn split_by_space_keeps_empty_pieces() {
    assert_eq!(split_by("a  b", &Separator::Space), list(&["a", "", "b"]));
    assert_eq!(split_by("a\tb\nc", &Separator::Space), list(&["a", "b", "c"]));
}

#[test]
fn words_are_runs_without_white_space() {
    assert_eq!(split_words("  /bin/sh   -c\t'ls'\n"), list(&["/bin/sh", "-c", "'ls'"]));
    assert_eq!(split_words(""), list(&[]));
    assert_eq!(split_words(" \t\r\n\x0b\x0c"), list(&[]));
    assert_eq!(split_words("one"), list(&["one"]));
}

#[test]
fn join_texts_puts_separator_between() {
    assert_eq!(join_texts(&list(&["a", "b", "c"]), ' '), "a b c");
    assert_eq!(join_texts(&list(&["a"]), ' '), "a");
    assert_eq!(join_texts(&list(&[]), ' '), "");
    assert_eq!(join_texts(&list(&["", ""]), ':'), ":");
}

#[test]
fn join_undoes_split() {
    for text in ["", ":", "a", "/a:/b", "x:y:z:", "::"] {
        assert_eq!(join_texts(&split(text, ':'), ':'), text);
    }
}

#[test]
fn chars_are_taken_in_order() {
    assert_eq!(chars_of("héllo"), vec!['h', 'é', 'l', 'l', 'o']);
    assert_eq!(chars_of(""), vec![]);
}

#[test]
fn same_text_compares_characters() {
    assert!(same_text("cpu", "cpu"));
    assert!(!same_text("cpu", "cpuset"));
    assert!(!same_text("cpu", "cpx"));
    assert!(same_text("", ""));
}

#[test]
fn has_text_finds_member() {
    let names = list(&["/a", "/b/x"]);
    assert!(has_text(&names, "/b/x"));
    assert!(!has_text(&names, "/b"));
    assert!(!has_text(&list(&[]), ""));
}

#[test]
fn drop_text_removes_every_occurrence() {
    assert_eq!(drop_text(&list(&["a", "b", "a", "c"]), "a"), list(&["b", "c"]));
    assert_eq!(drop_text(&list(&["a", "b"]), "x"), list(&["a", "b"]));
    assert_eq!(copy_texts(&list(&["a", "b"])), list(&["a", "b"]));
}

#[test]
fn decimal_of_writes_numbers() {
    assert_eq!(decimal_of(0), "0");
    assert_eq!(decimal_of(7), "7");
    assert_eq!(decimal_of(10), "10");
    assert_eq!(decimal_of(1234), "1234");
    assert_eq!(decimal_of(-42), "-42");
    assert_eq!(decimal_of(i32::MAX), "2147483647");
    assert_eq!(decimal_of(i32::MIN), "-2147483648");
}

#[test]
fn join_follows_path_rules() {
    assert_eq!(join("/sys/fs/cgroup/cpu", "box"), "/sys/fs/cgroup/cpu/box");
    assert_eq!(join("/sys/fs/cgroup/cpu/", "box"), "/sys/fs/cgroup/cpu/box");
    assert_eq!(join("/a", "/b"), "/b");
    assert_eq!(join("", "x"), "x");
    assert_eq!(join("/a", ""), "/a/");
    assert_eq!(join("/mnt", "./pivot_root"), "/mnt/./pivot_root");
}

#[test]
fn join_agrees_with_std_paths() {
    for (base, rel) in [("/a", "b"), ("/a/", "b"), ("/a", "/b"), ("", "b"), ("a", "b/c"), ("/", "x")] {
        let expected = std::path::Path::new(base).join(rel);
        assert_eq!(join(base, rel), expected.to_str().unwrap());
    }
}

#[test]
fn absolute_looks_at_first_character() {
    assert!(absolute("/bin/sh"));
    assert!(!absolute("bin/sh"));
    assert!(!absolute(""));
}

#[test]
fn followed_by_appends() {
    assert_eq!(followed_by("/root/", "busybox"), "/root/busybox");
    assert_eq!(followed_by("", ""), "");
}

#[test]
fn holds_char_looks_at_every_character() {
    assert!(holds_char("a\0b", '\0'));
    assert!(holds_char("abc", 'c'));
    assert!(!holds_char("abc", 'd'));
    assert!(!holds_char("", 'a'));
}
