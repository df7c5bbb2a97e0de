use mcfilter::config::{parse_config, Notice};
use mcfilter::dataset::Dataset;
use mcfilter::filter::{filter_files, ExactLine, MatchRule};
use mcfilter::line::RawLine;

fn load(path: &str, lines: &[&str]) -> Dataset {
    let raw: Vec<RawLine> = lines.iter().map(|l| RawLine::Text(l.to_string())).collect();
    Dataset::from_lines(path.to_string(), &raw)
}

fn strs(v: &Vec<String>) -> Vec<&str> {
    v.iter().map(|s| s.as_str()).collect()
}

fn args(v: &[&str]) -> Vec<String> {
    v.iter().map(|s| s.to_string()).collect()
}

#[test]
fn exact_line_rule() {
    let crit = vec!["a".to_string(), "b".to_string()];
    assert!(ExactLine.matches(&"b".to_string(), &crit));
    assert!(!ExactLine.matches(&"c".to_string(), &crit));
    assert!(!ExactLine.matches(&"a".to_string(), &Vec::new()));
}

#[test]
fn filter_keeps_matching_records_in_order() {
    let src = load("src.txt", &["# meta", "k3", "k1", "# note", "k2", "k1"]);
    let spec = load("filt.txt", &["# keys", "k1", "k2"]);
    let out = filter_files(&src, &spec, &ExactLine);
    assert_eq!(strs(out.body()), vec!["k1", "k2", "k1"]);
    assert_eq!(strs(out.header()), vec!["# meta"]);
    assert_eq!(out.path(), "src.txt");
    assert_eq!(strs(src.body()), vec!["k3", "k1", "k2", "k1"]);
}

#[test]
fn filter_with_empty_spec_keeps_nothing() {
    let src = load("src.txt", &["a", "b"]);
    let spec = load("filt.txt", &[]);
    assert!(filter_files(&src, &spec, &ExactLine).body().is_empty());
}

#[test]
fn config_takes_first_two_names() {
    let c = parse_config(&args(&["mcfilter", "-d", "src.txt", "-v", "filt.txt", "more.txt"]));
    let (source, filter) = c.paths.unwrap();
    assert_eq!(source, "src.txt");
    assert_eq!(filter, "filt.txt");
    assert!(c.debug);
    assert_eq!(c.notices, vec![Notice::Version]);
}

#[test]
fn config_notices_in_order_without_debug() {
    let c = parse_config(&args(&["p", "-h", "a", "-v", "b", "-h"]));
    assert!(!c.debug);
    assert_eq!(c.notices, vec![Notice::Help, Notice::Version, Notice::Help]);
    assert_eq!(c.paths, Some(("a".to_string(), "b".to_string())));
}

#[test]
fn config_needs_two_names() {
    let c = parse_config(&args(&["p", "only.txt", "-d"]));
    assert!(c.paths.is_none());
    assert!(c.debug);
    assert!(parse_config(&args(&["p"])).paths.is_none());
    assert!(parse_config(&args(&[])).paths.is_none());
    let c = parse_config(&args(&["p", "-v", "-h"]));
    assert!(c.paths.is_none());
    assert_eq!(c.notices, vec![Notice::Version, Notice::Help]);
}

#[test]
fn config_unknown_dash_words_are_names() {
    let c = parse_config(&args(&["p", "-x", "--d"]));
    assert_eq!(c.paths, Some(("-x".to_string(), "--d".to_string())));
}
