//! Classification of single lines: header comment, data, or unreadable.
use vstd::prelude::*;

verus! {

broadcast use vstd::string::axiom_spec_iter;

/// A line is a comment exactly when its first two characters are `'#'` and `' '`.
pub open spec fn is_comment_text(t: Seq<char>) -> bool {
    t.len() >= 2 && t[0] == '#' && t[1] == ' '
}

/// Tests whether `s` starts with the comment prefix `"# "`.
pub fn is_comment(s: &str) -> (r: bool)
    ensures
        r == is_comment_text(s@),
{
    let mut it = s.chars();
    let first = it.next();
    let second = it.next();
    match (first, second) {
        (Some(a), Some(b)) => a == '#' && b == ' ',
        _ => false,
    }
}


/// One line as it came from the reader: its text, or the fact that it
/// could not be decoded.
pub enum RawLine {
    Text(String),
    Unreadable,
}

impl View for RawLine {
    /// `Some(text)` for a readable line, `None` for an unreadable one.
    type V = Option<Seq<char>>;

    open spec fn view(&self) -> Option<Seq<char>> {
        match self {
            RawLine::Text(t) => Some(t@),
            RawLine::Unreadable => None,
        }
    }
}

/// A line after classification.
pub enum LineKind {
    Comment(String),
    Data(String),
    Malformed,
}

/// The mathematical form of a classified line.
pub enum LineClass {
    Comment(Seq<char>),
    Data(Seq<char>),
    Malformed,
}

impl View for LineKind {
    type V = LineClass;

    open spec fn view(&self) -> LineClass {
        match self {
            LineKind::Comment(t) => LineClass::Comment(t@),
            LineKind::Data(t) => LineClass::Data(t@),
            LineKind::Malformed => LineClass::Malformed,
        }
    }
}

/// The class of a raw line: by the comment prefix if it could be read.
pub open spec fn class_of(l: Option<Seq<char>>) -> LineClass {
    match l {
        Some(t) => if is_comment_text(t) {
            LineClass::Comment(t)
        } else {
            LineClass::Data(t)
        },
        None => LineClass::Malformed,
    }
}

pub open spec fn is_comment_line(l: Option<Seq<char>>) -> bool {
    class_of(l) is Comment
}

pub open spec fn is_data_line(l: Option<Seq<char>>) -> bool {
    class_of(l) is Data
}

/// Classifies one raw line.
pub fn classify(raw: RawLine) -> (r: LineKind)
    ensures
        r@ == class_of(raw@),
{
    match raw {
        RawLine::Text(t) => if is_comment(t.as_str()) {
            LineKind::Comment(t)
        } else {
            LineKind::Data(t)
        },
        RawLine::Unreadable => LineKind::Malformed,
    }
}

} // verus!
