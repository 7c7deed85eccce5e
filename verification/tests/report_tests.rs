use caliptra_bitstream_downloader::lexical::str_lt;
use caliptra_bitstream_downloader::report::{
    classify_test, contains_name, list_json_test_names, parse_list_json, insert_name, listed_test_names, qualified_test_name,
    status_icon, status_rank, tests_not_executed, validate_result_list, SuiteListing, TestStatus,
};
use caliptra_bitstream_downloader::text::{chars_of, decimal_string};

fn names(v: &[&str]) -> Vec<String> {
    v.iter().map(|s| s.to_string()).collect()
}

#[test]
fn classification() {
    assert_eq!(classify_test(true, 2), TestStatus::Failed);
    assert_eq!(classify_test(false, 1), TestStatus::Retried);
    assert_eq!(classify_test(false, 0), TestStatus::Passed);
    assert_eq!(status_icon(TestStatus::Passed), "✅");
    assert_eq!(status_icon(TestStatus::Failed), "❌");
    assert_eq!(status_icon(TestStatus::Retried), "🔁");
}

#[test]
fn law_failures_listed_first_example() {
    assert!(status_rank(TestStatus::Failed) < status_rank(TestStatus::Retried));
    assert!(status_rank(TestStatus::Retried) < status_rank(TestStatus::Passed));
}

#[test]
fn qualified_names_and_sets() {
    assert_eq!(qualified_test_name("suite", "case"), "suite::case");
    let mut set = Vec::new();
    insert_name(&mut set, "a".to_string());
    insert_name(&mut set, "b".to_string());
    insert_name(&mut set, "a".to_string());
    assert_eq!(set, names(&["a", "b"]));
    assert!(contains_name(&set, "b"));
    assert!(!contains_name(&set, "c"));
}

#[test]
fn listing_names() {
    let listing = vec![
        SuiteListing { suite: "s1".to_string(), testcases: names(&["t1", "t2"]) },
        SuiteListing { suite: "s2".to_string(), testcases: names(&["t1"]) },
        SuiteListing { suite: "s1".to_string(), testcases: names(&["t1"]) },
        SuiteListing { suite: "empty".to_string(), testcases: Vec::new() },
    ];
    assert_eq!(listed_test_names(&listing), names(&["s1::t1", "s1::t2", "s2::t1"]));
}

#[test]
fn missing_tests_sorted() {
    let list = names(&["z::b", "a::c", "m::x", "a::b"]);
    let run = names(&["m::x"]);
    assert_eq!(tests_not_executed(&list, &run), names(&["a::b", "a::c", "z::b"]));
    assert!(tests_not_executed(&list, &list).is_empty());
}

#[test]
fn validation_messages() {
    let list = names(&["a::1", "a::2", "b::1"]);
    let run = names(&["a::1"]);
    assert_eq!(validate_result_list(&list, &run), Err("tests not executed = 2".to_string()));
    assert_eq!(validate_result_list(&list, &list), Ok(()));
    assert_eq!(validate_result_list(&Vec::new(), &run), Ok(()));
    let many: Vec<String> = (0..12).map(|i| format!("s::{}", i)).collect();
    assert_eq!(validate_result_list(&many, &Vec::new()), Err("tests not executed = 12".to_string()));
}

#[test]
fn law_validation_passes_iff_all_listed_ran_example() {
    let list = names(&["a::1", "b::1"]);
    let run = names(&["b::1", "a::1", "c::1"]);
    assert!(validate_result_list(&list, &run).is_ok());
    let run = names(&["b::1"]);
    assert!(validate_result_list(&list, &run).is_err());
}

#[test]
fn decimal_text() {
    assert_eq!(decimal_string(0), "0");
    assert_eq!(decimal_string(9), "9");
    assert_eq!(decimal_string(10), "10");
    assert_eq!(decimal_string(12345), "12345");
    assert_eq!(decimal_string(usize::MAX), usize::MAX.to_string());
}

#[test]
fn string_order() {
    assert!(str_lt("a", "b"));
    assert!(str_lt("a", "ab"));
    assert!(!str_lt("ab", "a"));
    assert!(!str_lt("a", "a"));
    assert!(str_lt("", "a"));
    assert!(str_lt("Z", "a"));
    assert!(str_lt("é", "😀"));
    assert_eq!(chars_of("añ😀"), vec!['a', 'ñ', '😀']);
}

#[test]
fn list_json_names() {
    let text = r#"{"rust-suites": {"s2": {"testcases": {"b": {}, "a": {}}}, "s1": {"testcases": {"t": 1}}, "s3": {"other": {}}}, "x": 1}"#;
    let mut got = list_json_test_names(text).unwrap();
    got.sort();
    assert_eq!(got, names(&["s1::t", "s2::a", "s2::b"]));
    assert_eq!(list_json_test_names(r#"{"suites": {}}"#).unwrap(), Vec::<String>::new());
    assert_eq!(list_json_test_names(r#"{"rust-suites": []}"#).unwrap(), Vec::<String>::new());
    assert!(list_json_test_names("not json").is_none());
}

#[test]
fn insert_name_keeps_set() {
    let mut set = names(&["x"]);
    insert_name(&mut set, "x".to_string());
    insert_name(&mut set, "y".to_string());
    assert_eq!(set, names(&["x", "y"]));
}

#[test]
fn list_json_listing_shape() {
    let text = r#"{"rust-suites": {"b": {"testcases": {"y": 0, "x": 0}}, "a": {"testcases": 3}}}"#;
    let listing = parse_list_json(text).unwrap();
    assert_eq!(listing.len(), 2);
    assert_eq!(listing[0].suite, "a");
    assert!(listing[0].testcases.is_empty());
    assert_eq!(listing[1].suite, "b");
    assert_eq!(listing[1].testcases, names(&["x", "y"]));
    assert!(parse_list_json(r#"{"rust-suites": "no"}"#).unwrap().is_empty());
    assert!(parse_list_json("{").is_none());
}
