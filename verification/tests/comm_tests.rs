use commr::column::{format_column, Column};
use commr::config::Config;
use commr::lines::normalize_line;
use commr::merge::{classify, run_compare};

fn s(x: &str) -> String {
    x.to_string()
}

fn strings(xs: &[&str]) -> Vec<String> {
    xs.iter().map(|x| x.to_string()).collect()
}

fn default_config() -> Config {
    Config::new(s("a.txt"), s("b.txt"), true, true, true, false, s("\t")).unwrap()
}

#[test]
fn both_stdin_rejected() {
    let r = Config::new(s("-"), s("-"), true, true, true, false, s("\t"));
    assert!(r.is_err());
    assert_eq!(r.err().unwrap(), "Both input files cannot be STDIN (\"-\")");
}

#[test]
fn one_stdin_accepted() {
    let r = Config::new(s("-"), s("b.txt"), true, false, true, true, s(","));
    assert!(r.is_ok());
    let c = r.unwrap();
    assert_eq!(c.file1, "-");
    assert_eq!(c.file2, "b.txt");
    assert!(c.show_col1);
    assert!(!c.show_col2);
    assert!(c.show_col3);
    assert!(c.insensitive);
    assert_eq!(c.delimiter, ",");
}

#[test]
fn default_scenario() {
    let a = strings(&["apple", "banana", "cherry"]);
    let b = strings(&["banana", "cherry", "date"]);
    let out = run_compare(&a, &b, &default_config());
    assert_eq!(out, strings(&["apple", "\t\tbanana", "\t\tcherry", "date"]));
}

#[test]
fn suppressed_columns_scenario() {
    // Same inputs with columns 1 and 2 suppressed: "apple" is classified
    // as unique-to-A while B still has lines pending, so suppressing
    // column 1 removes it entirely; the common lines collapse to bare
    // text; "date" is past A's exhaustion and is raw-emitted regardless.
    let a = strings(&["apple", "banana", "cherry"]);
    let b = strings(&["banana", "cherry", "date"]);
    let cfg = Config::new(s("a.txt"), s("b.txt"), false, false, true, false, s("\t")).unwrap();
    let out = run_compare(&a, &b, &cfg);
    assert_eq!(out, strings(&["banana", "cherry", "date"]));
}

#[test]
fn self_comparison_all_common() {
    let a = strings(&["x", "y", "z"]);
    let out = run_compare(&a, &a, &default_config());
    assert_eq!(out, strings(&["\t\tx", "\t\ty", "\t\tz"]));
}

#[test]
fn empty_a_raw_emits_b_unaffected_by_flags() {
    let a: Vec<String> = Vec::new();
    let b = strings(&["one", "two"]);
    // Columns 2 and 3 suppressed and a loud delimiter: raw emission
    // ignores all of it.
    let cfg = Config::new(s("a.txt"), s("b.txt"), true, false, false, false, s("<->")).unwrap();
    let out = run_compare(&a, &b, &cfg);
    assert_eq!(out, strings(&["one", "two"]));
}

#[test]
fn case_insensitive_common_shows_folded_text() {
    let a = strings(&["BANANA"]);
    let b = strings(&["banana"]);
    let cfg = Config::new(s("a.txt"), s("b.txt"), true, true, true, true, s("\t")).unwrap();
    let out = run_compare(&a, &b, &cfg);
    assert_eq!(out, strings(&["\t\tbanana"]));
}

#[test]
fn case_sensitive_keeps_case_distinct() {
    let a = strings(&["BANANA"]);
    let b = strings(&["banana"]);
    let out = run_compare(&a, &b, &default_config());
    // "BANANA" sorts before "banana" and is unique to A; by then A is
    // exhausted, so "banana" leaves through the raw path, without the
    // column-2 placeholder.
    assert_eq!(out, strings(&["BANANA", "banana"]));
}

#[test]
fn custom_delimiter() {
    let a = strings(&["common"]);
    let b = strings(&["common"]);
    let cfg = Config::new(s("a.txt"), s("b.txt"), true, true, true, false, s("=")).unwrap();
    let out = run_compare(&a, &b, &cfg);
    assert_eq!(out, strings(&["==common"]));
}

#[test]
fn classify_orders_lines() {
    match classify(&s("apple"), &s("banana")) {
        Column::Col1(t) => assert_eq!(t, "apple"),
        _ => panic!("expected unique-to-A"),
    }
    match classify(&s("banana"), &s("apple")) {
        Column::Col2(t) => assert_eq!(t, "apple"),
        _ => panic!("expected unique-to-B"),
    }
    match classify(&s("same"), &s("same")) {
        Column::Col3(t) => assert_eq!(t, "same"),
        _ => panic!("expected common"),
    }
}

#[test]
fn formatter_placeholders() {
    let cfg = default_config();
    assert_eq!(format_column(&Column::Col1(s("a")), &cfg), Some(s("a")));
    assert_eq!(format_column(&Column::Col2(s("b")), &cfg), Some(s("\tb")));
    assert_eq!(format_column(&Column::Col3(s("c")), &cfg), Some(s("\t\tc")));
    let only3 = Config::new(s("x"), s("y"), false, false, true, false, s("\t")).unwrap();
    assert_eq!(format_column(&Column::Col1(s("a")), &only3), None);
    assert_eq!(format_column(&Column::Col2(s("b")), &only3), None);
    assert_eq!(format_column(&Column::Col3(s("c")), &only3), Some(s("c")));
    let no2 = Config::new(s("x"), s("y"), true, false, true, false, s("|")).unwrap();
    assert_eq!(format_column(&Column::Col3(s("c")), &no2), Some(s("|c")));
}

#[test]
fn normalization_folds_case() {
    assert_eq!(normalize_line(&s("MiXeD Case"), true), "mixed case");
    assert_eq!(normalize_line(&s("MiXeD Case"), false), "MiXeD Case");
}
