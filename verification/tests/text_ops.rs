use cmdloader::text::{
    contains_ci_sub, contains_sub, count_char_in, replace_all, str_eq, tail_after_sep,
};

#[test]
fn replace_substitutes_every_occurrence() {
    assert_eq!(replace_all("x$1y$1z", "$1", "P"), "xPyPz");
    assert_eq!(replace_all("$1", "$1", "/tmp/a"), "/tmp/a");
    assert_eq!(replace_all("abc", "$1", "P"), "abc");
}

#[test]
fn replace_scans_left_to_right_without_overlap() {
    assert_eq!(replace_all("aaa", "aa", "b"), "ba");
    assert_eq!(replace_all("aaaa", "aa", "b"), "bb");
}

#[test]
fn replace_does_not_rescan_replacements() {
    // The replacement text may hold the pattern without being replaced again.
    assert_eq!(replace_all("x$1", "$1", "$1$1"), "x$1$1");
}

#[test]
fn contains_finds_substrings() {
    assert!(contains_sub("--out=$2", "$2"));
    assert!(!contains_sub("--out", "$2"));
    assert!(contains_sub("abc", ""));
}

#[test]
fn case_insensitive_contains_matches_ascii_case() {
    assert!(contains_ci_sub("C:\\Program Files\\PowerShell\\7\\", "powershell\\7\\"));
    assert!(contains_ci_sub("POWERSHELL\\7\\", "powershell\\7\\"));
    assert!(!contains_ci_sub("C:\\Program Files\\PowerShell\\6\\", "powershell\\7\\"));
}

#[test]
fn tail_after_takes_the_last_segment() {
    assert_eq!(tail_after_sep("/usr/bin/zsh", '/'), "zsh");
    assert_eq!(tail_after_sep("zsh", '/'), "zsh");
    assert_eq!(tail_after_sep("/bin/", '/'), "");
    assert_eq!(tail_after_sep("", '/'), "");
}

#[test]
fn counting_characters() {
    assert_eq!(count_char_in("a;b;c", ';'), 2);
    assert_eq!(count_char_in("abc", ';'), 0);
}

#[test]
fn string_equality_by_characters() {
    assert!(str_eq("windows", "windows"));
    assert!(!str_eq("windows", "linux"));
    assert!(!str_eq("ab", "abc"));
}
