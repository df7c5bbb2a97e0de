use mcfilter::dataset::{Dataset, Loader, OpenCause};
use mcfilter::line::{classify, is_comment, LineKind, RawLine};

fn raw(lines: &[&str]) -> Vec<RawLine> {
    lines.iter().map(|l| RawLine::Text(l.to_string())).collect()
}

fn strs(v: &Vec<String>) -> Vec<&str> {
    v.iter().map(|s| s.as_str()).collect()
}

#[test]
fn comment_prefix_is_hash_and_space() {
    assert!(is_comment("# meta"));
    assert!(is_comment("# "));
    assert!(!is_comment("#meta"));
    assert!(!is_comment("#"));
    assert!(!is_comment(""));
    assert!(!is_comment(" # meta"));
    assert!(!is_comment("row1"));
}

#[test]
fn classify_three_ways() {
    assert!(matches!(classify(RawLine::Text("# a".to_string())), LineKind::Comment(t) if t == "# a"));
    assert!(matches!(classify(RawLine::Text("a".to_string())), LineKind::Data(t) if t == "a"));
    assert!(matches!(classify(RawLine::Unreadable), LineKind::Malformed));
}

#[test]
fn header_then_body_with_inline_comment_dropped() {
    let d = Dataset::from_lines(
        "a.txt".to_string(),
        &raw(&["# meta v1", "# meta v2", "row1", "# inline note", "row2"]),
    );
    assert_eq!(strs(d.header()), vec!["# meta v1", "# meta v2"]);
    assert_eq!(strs(d.body()), vec!["row1", "row2"]);
    assert_eq!(d.path(), "a.txt");
    assert!(!d.had_unreadable_lines());
}

#[test]
fn no_header() {
    let d = Dataset::from_lines("b.txt".to_string(), &raw(&["row_only"]));
    assert!(d.header().is_empty());
    assert_eq!(strs(d.body()), vec!["row_only"]);
}

#[test]
fn empty_file_is_not_an_error() {
    let r = Dataset::build("empty.txt".to_string(), Ok(Vec::new()));
    let d = r.ok().unwrap();
    assert!(d.header().is_empty());
    assert!(d.body().is_empty());
    assert!(!d.had_unreadable_lines());
}

#[test]
fn only_comments_is_all_header() {
    let d = Dataset::from_lines("c.txt".to_string(), &raw(&["# x", "# y"]));
    assert_eq!(strs(d.header()), vec!["# x", "# y"]);
    assert!(d.body().is_empty());
}

#[test]
fn missing_file_error_carries_path() {
    let r = Dataset::build("nope.txt".to_string(), Err(OpenCause::NotFound));
    match r {
        Err(e) => {
            assert_eq!(e.path, "nope.txt");
            assert!(matches!(e.cause, OpenCause::NotFound));
        }
        Ok(_) => panic!("expected an open error"),
    }
}

#[test]
fn permission_and_other_errors_are_kept() {
    let r = Dataset::build("locked.txt".to_string(), Err(OpenCause::PermissionDenied));
    assert!(matches!(r, Err(ref e) if e.path == "locked.txt" && matches!(e.cause, OpenCause::PermissionDenied)));
    let r = Dataset::build("odd.txt".to_string(), Err(OpenCause::Other("disk".to_string())));
    assert!(matches!(r, Err(ref e) if matches!(e.cause, OpenCause::Other(ref m) if m == "disk")));
}

#[test]
fn unreadable_line_ends_header_and_is_flagged() {
    let lines = vec![
        RawLine::Text("# h1".to_string()),
        RawLine::Unreadable,
        RawLine::Text("# late".to_string()),
        RawLine::Text("row".to_string()),
    ];
    let d = Dataset::from_lines("u.txt".to_string(), &lines);
    assert_eq!(strs(d.header()), vec!["# h1"]);
    assert_eq!(strs(d.body()), vec!["row"]);
    assert!(d.had_unreadable_lines());
}

#[test]
fn body_keeps_file_order() {
    let d = Dataset::from_lines(
        "o.txt".to_string(),
        &raw(&["# h", "z", "# c1", "a", "#nospace", "m", "# c2"]),
    );
    assert_eq!(strs(d.header()), vec!["# h"]);
    assert_eq!(strs(d.body()), vec!["z", "a", "#nospace", "m"]);
}

#[test]
fn two_datasets_are_independent() {
    let a = Dataset::from_lines("a.txt".to_string(), &raw(&["# meta", "row1"]));
    let b = Dataset::from_lines("b.txt".to_string(), &raw(&["row_only"]));
    let mut body_a = a.body().clone();
    body_a.push("extra".to_string());
    assert_eq!(strs(a.body()), vec!["row1"]);
    assert_eq!(strs(b.body()), vec!["row_only"]);
    assert_eq!(strs(a.header()), vec!["# meta"]);
    assert!(b.header().is_empty());
    assert_eq!(a.path(), "a.txt");
    assert_eq!(b.path(), "b.txt");
}

#[test]
fn loading_twice_gives_the_same_dataset() {
    let lines = raw(&["# meta v1", "row1", "# note", "row2"]);
    let d1 = Dataset::from_lines("a.txt".to_string(), &lines);
    let d2 = Dataset::from_lines("a.txt".to_string(), &lines);
    assert_eq!(d1.header(), d2.header());
    assert_eq!(d1.body(), d2.body());
}

#[test]
fn loader_fed_line_by_line() {
    let mut l = Loader::new("s.txt".to_string());
    for r in raw(&["# a", "x", "# b", "y"]).iter() {
        l.feed(r);
    }
    let d = l.finish();
    assert_eq!(strs(d.header()), vec!["# a"]);
    assert_eq!(strs(d.body()), vec!["x", "y"]);
}
