//! Reading the command line: two file paths, in the order given, among
//! the flags `-v`, `-h` and `-d`.
use vstd::prelude::*;

use crate::dataset::texts;

verus! {

broadcast use vstd::string::axiom_spec_iter;

/// Something to show the user, in the order its flag came.
#[derive(Clone, Copy, Debug, PartialEq, Eq, Structural)]
pub enum Notice {
    Version,
    Help,
}

/// What the command line asks for.
pub struct Config {
    /// The source and filter paths, when both are given.
    pub paths: Option<(String, String)>,
    pub debug: bool,
    pub notices: Vec<Notice>,
}

/// The letter of a two-character argument that starts with `'-'`.
pub open spec fn flag_letter(s: Seq<char>) -> Option<char> {
    if s.len() == 2 && s[0] == '-' {
        Some(s[1])
    } else {
        None
    }
}

pub open spec fn is_flag(s: Seq<char>) -> bool {
    flag_letter(s) == Some('v') || flag_letter(s) == Some('h') || flag_letter(s) == Some('d')
}

/// The arguments that are not flags, in order.
pub open spec fn positionals(args: Seq<Seq<char>>) -> Seq<Seq<char>>
    decreases args.len(),
{
    if args.len() == 0 {
        Seq::empty()
    } else {
        let p = positionals(args.drop_last());
        if is_flag(args.last()) {
            p
        } else {
            p.push(args.last())
        }
    }
}

/// The notices that `-v` and `-h` ask for, in order.
pub open spec fn notices_of(args: Seq<Seq<char>>) -> Seq<Notice>
    decreases args.len(),
{
    if args.len() == 0 {
        Seq::empty()
    } else {
        let n = notices_of(args.drop_last());
        if flag_letter(args.last()) == Some('v') {
            n.push(Notice::Version)
        } else if flag_letter(args.last()) == Some('h') {
            n.push(Notice::Help)
        } else {
            n
        }
    }
}

/// Whether `-d` is among the arguments.
pub open spec fn asks_debug(args: Seq<Seq<char>>) -> bool {
    exists|i: int| 0 <= i < args.len() && flag_letter(#[trigger] args[i]) == Some('d')
}

/// The arguments after the program's name.
pub open spec fn after_name(args: Seq<String>) -> Seq<Seq<char>> {
    if args.len() == 0 {
        Seq::empty()
    } else {
        texts(args).skip(1)
    }
}

/// The letter of `s` if it is `'-'` and one more character.
pub fn flag_of(s: &str) -> (r: Option<char>)
    ensures
        r == flag_letter(s@),
{
    let mut it = s.chars();
    let first = it.next();
    let second = it.next();
    let third = it.next();
    match (first, second, third) {
        (Some(a), Some(b), None) => if a == '-' {
            Some(b)
        } else {
            None
        },
        _ => None,
    }
}

/// Reads the command line `args`, whose first item is the program's name.
/// The first two arguments that are not flags are the source and filter
/// paths; `-d` asks for debug output; each `-v` and `-h` asks for a notice.
/// The paths are there only when both are given.
pub fn parse_config(args: &Vec<String>) -> (r: Config)
    ensures
        r.paths is Some <==> positionals(after_name(args@)).len() >= 2,
        r.paths is Some ==> r.paths->Some_0.0@ == positionals(after_name(args@))[0]
            && r.paths->Some_0.1@ == positionals(after_name(args@))[1],
        r.debug == asks_debug(after_name(args@)),
        r.notices@ == notices_of(after_name(args@)),
{
    let ghost rest = after_name(args@);
    let mut names: Vec<usize> = Vec::new();
    let mut debug = false;
    let mut notices: Vec<Notice> = Vec::new();
    let mut i: usize = 1;
    while i < args.len()
        invariant
            1 <= i <= args.len() || (args.len() == 0 && i == 1),
            rest == after_name(args@),
            names@.len() == if positionals(rest.take(i - 1)).len() < 2 {
                positionals(rest.take(i - 1)).len()
            } else {
                2
            },
            forall|k: int|
                0 <= k < names@.len() ==> 1 <= #[trigger] names@[k] < args.len()
                    && args@[names@[k] as int]@ == positionals(rest.take(i - 1))[k],
            debug == asks_debug(rest.take(i - 1)),
            notices@ == notices_of(rest.take(i - 1)),
        decreases args.len() - i,
    {
        let ghost pre = rest.take(i - 1);
        let ghost next = rest.take(i as int);
        assert(next.drop_last() =~= pre);
        assert(next.last() == args@[i as int]@);
        let letter = flag_of(args[i].as_str());
        match letter {
            Some('v') => {
                notices.push(Notice::Version);
            },
            Some('h') => {
                notices.push(Notice::Help);
            },
            Some('d') => {
                debug = true;
            },
            _ => {
                if names.len() < 2 {
                    names.push(i);
                }
            },
        }
        proof {
            assert(positionals(next) == if is_flag(next.last()) {
                positionals(pre)
            } else {
                positionals(pre).push(next.last())
            });
            if asks_debug(next) && flag_letter(next.last()) != Some('d') {
                let k = choose|k: int| 0 <= k < next.len() && flag_letter(#[trigger] next[k]) == Some('d');
                assert(pre[k] == next[k]);
            }
            if asks_debug(pre) {
                let k = choose|k: int| 0 <= k < pre.len() && flag_letter(#[trigger] pre[k]) == Some('d');
                assert(pre[k] == next[k]);
            }
            if flag_letter(next.last()) == Some('d') {
                assert(next[next.len() - 1] == next.last());
            }
        }
        i = i + 1;
    }
    assert(rest.take(i - 1) =~= rest);
    let paths = if names.len() < 2 {
        None
    } else {
        Some((args[names[0]].clone(), args[names[1]].clone()))
    };
    Config { paths, debug, notices }
}

} // verus!
