use bitfield::minigrep::search;

#[test]
fn one_result() {
    let query = "duct";
    let content = "\
Rust:
safe, fast, productive.
Pick three.";

    assert_eq!(vec!["safe, fast, productive."], search(query, content));
}

#[test]
fn several_results_in_order() {
    let content = "one two\nthree\r\ntwo-two\r\n\nend two";
    assert_eq!(search("two", content), vec!["one two", "two-two", "end two"]);
}

#[test]
fn no_result_and_empty_input() {
    assert!(search("x", "abc\ndef\n").is_empty());
    assert!(search("x", "").is_empty());
    assert!(search("", "").is_empty());
}

#[test]
fn empty_query_matches_every_line() {
    assert_eq!(search("", "a\n\nb\r\n"), vec!["a", "", "b"]);
}

#[test]
fn non_ascii_text() {
    assert_eq!(search("é", "café\nthé\ntea\nnaïve é"), vec!["café", "thé", "naïve é"]);
}
