use record_query::text::{chars_of, join, same_text, split_whitespace, string_of_range};

#[test]
fn chars_and_back() {
    let chars = chars_of("héllo");
    assert_eq!(chars, vec!['h', 'é', 'l', 'l', 'o']);
    assert_eq!(string_of_range(&chars, 0, 5), "héllo");
    assert_eq!(string_of_range(&chars, 1, 4), "éll");
    assert_eq!(string_of_range(&chars, 2, 2), "");
    assert_eq!(chars_of(""), Vec::<char>::new());
}

#[test]
fn same_text_compares_character_by_character() {
    assert!(same_text("volume", "volume"));
    assert!(same_text("", ""));
    assert!(!same_text("volume", "volumes"));
    assert!(!same_text("volume", "Volume"));
    assert!(!same_text("a", ""));
}

#[test]
fn split_whitespace_yields_the_runs_between_white_space() {
    assert_eq!(split_whitespace("alpha ?beta -gamma"), vec!["alpha", "?beta", "-gamma"]);
    assert_eq!(split_whitespace("  a \t b\n\nc  "), vec!["a", "b", "c"]);
    assert_eq!(split_whitespace("one"), vec!["one"]);
}

#[test]
fn split_whitespace_of_white_space_is_empty() {
    assert_eq!(split_whitespace(""), Vec::<String>::new());
    assert_eq!(split_whitespace(" \t\r\n"), Vec::<String>::new());
}

#[test]
fn split_whitespace_agrees_with_std() {
    let samples = ["", " ", "a", " a", "a ", "a b", "a\u{a0}b", "x\u{3000}y  z", "\u{2003}q", "tab\tsep"];
    for sample in samples {
        let expected: Vec<String> = sample.split_whitespace().map(String::from).collect();
        assert_eq!(split_whitespace(sample), expected, "for {:?}", sample);
    }
}

#[test]
fn join_puts_the_separator_between_neighbours() {
    let parts = vec![String::from("x"), String::from("y"), String::from("z")];
    assert_eq!(join(&parts, " "), "x y z");
    assert_eq!(join(&parts, ", "), "x, y, z");
    assert_eq!(join(&parts[..1].to_vec(), " "), "x");
    assert_eq!(join(&Vec::new(), " "), "");
    assert_eq!(join(&vec![String::new(), String::new()], "-"), "-");
}
