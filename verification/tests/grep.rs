use async_chat::grep::{contains, grep};

#[test]
fn test_grep() {
    let target = "line";
    let lines: Vec<String> = "line one\nline two\nline three\n"
        .lines()
        .map(|line| line.to_string())
        .collect();

    let got = grep(target, &lines);
    assert_eq!(got.len(), 3);
    assert_eq!(got[0], "line one");
    assert_eq!(got[1], "line two");
    assert_eq!(got[2], "line three");
}

#[test]
fn grep_keeps_only_matching_lines_in_order() {
    let lines: Vec<String> = ["alpha", "beta", "gamma", "", "alphabet"]
        .iter()
        .map(|line| line.to_string())
        .collect();
    assert_eq!(grep("alpha", &lines), vec!["alpha", "alphabet"]);
    assert_eq!(grep("a", &lines), vec!["alpha", "beta", "gamma", "alphabet"]);
    assert_eq!(grep("zeta", &lines), Vec::<String>::new());
    assert_eq!(grep("", &lines), lines);
    assert_eq!(grep("x", &Vec::new()), Vec::<String>::new());
}

#[test]
fn contains_finds_a_text_anywhere() {
    assert!(contains("hello", "hello"));
    assert!(contains("hello", "ell"));
    assert!(contains("hello", "o"));
    assert!(contains("hello", ""));
    assert!(contains("", ""));
    assert!(contains("aab", "ab"));
    assert!(contains("日本語", "本"));
    assert!(!contains("hello", "hello!"));
    assert!(!contains("hello", "lo "));
    assert!(!contains("", "a"));
    assert!(!contains("abab", "ba b"));
}
