use fsprompt::paths::{extension, file_name, relative_path};
use fsprompt::text::{char_is_whitespace, join_strings, push_decimal, split_comma_list, without_repeats};

#[test]
fn comma_list_is_trimmed_without_empty_entries() {
    let v = split_comma_list(" *.rs , ,target/**,  ");
    assert_eq!(v, vec!["*.rs".to_string(), "target/**".to_string()]);
    assert!(split_comma_list("").is_empty());
}

#[test]
fn join_puts_separator_between() {
    let v = vec!["a".to_string(), "b".to_string(), "c".to_string()];
    assert_eq!(join_strings(&v, ", "), "a, b, c");
    assert_eq!(join_strings(&Vec::new(), ","), "");
}

#[test]
fn decimal_printing() {
    let mut s = String::from("n=");
    push_decimal(&mut s, 0);
    push_decimal(&mut s, 1207);
    assert_eq!(s, "n=01207");
}

#[test]
fn file_names_and_extensions() {
    assert_eq!(file_name("/home/u/src/main.rs"), Some("main.rs".to_string()));
    assert_eq!(file_name("/"), None);
    assert_eq!(file_name("/a/.."), None);
    assert_eq!(extension("/a/b/lib.tar.gz"), Some("gz".to_string()));
    assert_eq!(extension("/a/.bashrc"), None);
    assert_eq!(extension("/a/Makefile"), None);
}

#[test]
fn relative_paths() {
    assert_eq!(relative_path("/p/src/main.rs", "/p"), "src/main.rs");
    assert_eq!(relative_path("/q/x.rs", "/p"), "/q/x.rs");
}

#[test]
fn white_space_is_the_unicode_set() {
    for c in ['\t', '\n', '\u{b}', '\u{c}', '\r', ' ', '\u{85}', '\u{a0}', '\u{1680}', '\u{2000}', '\u{200a}', '\u{2028}', '\u{2029}', '\u{202f}', '\u{205f}', '\u{3000}'] {
        assert!(char_is_whitespace(c), "{c:?}");
        assert_eq!(char_is_whitespace(c), c.is_whitespace());
    }
    for c in ['a', '\u{8}', '\u{e}', '\u{200b}', '\u{180e}', '\u{feff}', '_'] {
        assert!(!char_is_whitespace(c), "{c:?}");
        assert_eq!(char_is_whitespace(c), c.is_whitespace());
    }
    assert_eq!(split_comma_list("\u{3000}a ,\u{a0}b"), vec!["a", "b"]);
}

#[test]
fn repeats_are_left_out_in_first_order() {
    let v = vec!["b".to_string(), "a".to_string(), "b".to_string(), "c".to_string(), "a".to_string()];
    assert_eq!(without_repeats(v), vec!["b", "a", "c"]);
    assert!(without_repeats(Vec::new()).is_empty());
}
