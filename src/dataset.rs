//! Loading one file's lines into a dataset: its leading header comments
//! and its data lines.
use vstd::prelude::*;

use crate::line::{
    class_of, classify, is_comment_line, is_comment_text, is_data_line, LineKind, RawLine,
};

verus! {

/// The texts of a sequence of strings.
pub open spec fn texts(v: Seq<String>) -> Seq<Seq<char>> {
    v.map_values(|s: String| s@)
}

/// What a sequence of raw lines holds, line by line.
pub open spec fn raw_views(v: Seq<RawLine>) -> Seq<Option<Seq<char>>> {
    v.map_values(|l: RawLine| l@)
}

/// The header: the leading run of comment lines.
pub open spec fn header_of(ls: Seq<Option<Seq<char>>>) -> Seq<Seq<char>>
    decreases ls.len(),
{
    if ls.len() == 0 {
        Seq::empty()
    } else {
        let h = header_of(ls.drop_last());
        if h.len() == ls.len() - 1 && is_comment_line(ls.last()) {
            h.push(ls.last()->0)
        } else {
            h
        }
    }
}

/// The header is never longer than the file.
pub proof fn lemma_header_len_bound(ls: Seq<Option<Seq<char>>>)
    ensures
        header_of(ls).len() <= ls.len(),
    decreases ls.len(),
{
    if ls.len() > 0 {
        lemma_header_len_bound(ls.drop_last());
    }
}

/// The body: every data line, in file order.
pub open spec fn body_of(ls: Seq<Option<Seq<char>>>) -> Seq<Seq<char>>
    decreases ls.len(),
{
    if ls.len() == 0 {
        Seq::empty()
    } else {
        let b = body_of(ls.drop_last());
        if is_data_line(ls.last()) {
            b.push(ls.last()->0)
        } else {
            b
        }
    }
}

/// Whether some line could not be read.
pub open spec fn has_unreadable(ls: Seq<Option<Seq<char>>>) -> bool {
    exists|i: int| 0 <= i < ls.len() && (#[trigger] ls[i]) is None
}

/// The mathematical form of a dataset.
pub struct DatasetView {
    pub path: Seq<char>,
    pub header: Seq<Seq<char>>,
    pub body: Seq<Seq<char>>,
    pub lossy: bool,
}

/// The dataset that the file at `path` with lines `ls` loads to.
pub open spec fn loaded(path: Seq<char>, ls: Seq<Option<Seq<char>>>) -> DatasetView {
    DatasetView {
        path,
        header: header_of(ls),
        body: body_of(ls),
        lossy: has_unreadable(ls),
    }
}

/// A loaded file: where it came from, its header comments and its data lines.
/// It is not changed after loading.
pub struct Dataset {
    path: String,
    header: Vec<String>,
    body: Vec<String>,
    lossy: bool,
}

impl View for Dataset {
    type V = DatasetView;

    closed spec fn view(&self) -> DatasetView {
        DatasetView {
            path: self.path@,
            header: texts(self.header@),
            body: texts(self.body@),
            lossy: self.lossy,
        }
    }
}

/// Loads a file line by line: header comments until the first line that is
/// not one, then the data lines. Comments after the header are dropped.
pub struct Loader {
    path: String,
    header: Vec<String>,
    body: Vec<String>,
    in_header: bool,
    lossy: bool,
    seen: Ghost<Seq<Option<Seq<char>>>>,
}

impl Loader {
    /// The lines fed so far.
    pub closed spec fn lines(&self) -> Seq<Option<Seq<char>>> {
        self.seen@
    }

    pub closed spec fn path_view(&self) -> Seq<char> {
        self.path@
    }

    pub closed spec fn wf(&self) -> bool {
        &&& texts(self.header@) == header_of(self.seen@)
        &&& texts(self.body@) == body_of(self.seen@)
        &&& self.in_header == (header_of(self.seen@).len() == self.seen@.len())
        &&& self.lossy == has_unreadable(self.seen@)
    }

    /// A loader for the file at `path` that has seen no line.
    pub fn new(path: String) -> (r: Loader)
        ensures
            r.wf(),
            r.lines() == Seq::<Option<Seq<char>>>::empty(),
            r.path_view() == path@,
    {
        let r = Loader {
            path,
            header: Vec::new(),
            body: Vec::new(),
            in_header: true,
            lossy: false,
            seen: Ghost(Seq::empty()),
        };
        assert(texts(r.header@) =~= Seq::empty());
        assert(texts(r.body@) =~= Seq::empty());
        r
    }

    /// Takes the next line of the file.
    pub fn feed(&mut self, raw: &RawLine)
        requires
            old(self).wf(),
        ensures
            final(self).wf(),
            final(self).lines() == old(self).lines().push(raw@),
            final(self).path_view() == old(self).path_view(),
    {
        let ghost prev = self.seen@;
        let ghost ls = prev.push(raw@);
        let ghost old_header = self.header@;
        let ghost old_body = self.body@;
        assert(ls.drop_last() =~= prev);
        proof {
            lemma_header_len_bound(prev);
        }
        let owned = match raw {
            RawLine::Text(t) => RawLine::Text(t.clone()),
            RawLine::Unreadable => RawLine::Unreadable,
        };
        let kind = classify(owned);
        assert(kind@ == class_of(raw@));
        match kind {
            LineKind::Comment(t) => {
                if self.in_header {
                    self.header.push(t);
                    assert(texts(self.header@) =~= texts(old_header).push(raw@->0));
                }
            },
            LineKind::Data(t) => {
                self.in_header = false;
                self.body.push(t);
                assert(texts(self.body@) =~= texts(old_body).push(raw@->0));
            },
            LineKind::Malformed => {
                self.in_header = false;
                self.lossy = true;
                assert(ls[prev.len() as int] is None);
            },
        }
        self.seen = Ghost(ls);
        proof {
            if has_unreadable(prev) {
                let k = choose|i: int| 0 <= i < prev.len() && (#[trigger] prev[i]) is None;
                assert(ls[k] is None);
            }
            if has_unreadable(ls) && !(raw@ is None) {
                let k = choose|i: int| 0 <= i < ls.len() && (#[trigger] ls[i]) is None;
                assert(prev[k] is None);
            }
        }
    }

    /// The dataset made of the lines fed.
    pub fn finish(self) -> (r: Dataset)
        requires
            self.wf(),
        ensures
            r@ == loaded(self.path_view(), self.lines()),
    {
        Dataset { path: self.path, header: self.header, body: self.body, lossy: self.lossy }
    }
}


/// The header of a loaded file is the longest run of comment lines that the
/// file opens with: each header line is the file's line at the same place and
/// is a comment, and the line right after the header, if there is one, is not
/// a comment.
pub proof fn header_is_maximal_comment_prefix(path: Seq<char>, ls: Seq<Option<Seq<char>>>)
    ensures
        loaded(path, ls).header.len() <= ls.len(),
        forall|i: int|
            0 <= i < loaded(path, ls).header.len() ==> ls[i] == Some(
                #[trigger] loaded(path, ls).header[i],
            ) && is_comment_text(loaded(path, ls).header[i]),
        loaded(path, ls).header.len() < ls.len() ==> !is_comment_line(
            ls[loaded(path, ls).header.len() as int],
        ),
    decreases ls.len(),
{
    if ls.len() > 0 {
        let p = ls.drop_last();
        header_is_maximal_comment_prefix(path, p);
        assert forall|i: int| 0 <= i < p.len() implies p[i] == ls[i] by {}
    }
}

/// The body of lines `a` followed by lines `b` is the body of `a` followed by
/// the body of `b`.
pub proof fn lemma_body_concat(a: Seq<Option<Seq<char>>>, b: Seq<Option<Seq<char>>>)
    ensures
        body_of(a + b) == body_of(a) + body_of(b),
    decreases b.len(),
{
    if b.len() == 0 {
        assert(a + b =~= a);
        assert(body_of(a) + body_of(b) =~= body_of(a));
    } else {
        lemma_body_concat(a, b.drop_last());
        assert((a + b).drop_last() =~= a + b.drop_last());
        assert((a + b).last() == b.last());
        if is_data_line(b.last()) {
            assert(body_of(a) + body_of(b.drop_last()).push(b.last()->0) =~= (body_of(a)
                + body_of(b.drop_last())).push(b.last()->0));
        }
    }
}

/// Every body line is a data line, so none is a comment.
pub proof fn lemma_body_has_no_comments(ls: Seq<Option<Seq<char>>>)
    ensures
        forall|j: int|
            0 <= j < body_of(ls).len() ==> !is_comment_text(#[trigger] body_of(ls)[j]),
    decreases ls.len(),
{
    if ls.len() > 0 {
        let b = body_of(ls.drop_last());
        lemma_body_has_no_comments(ls.drop_last());
        assert forall|j: int| 0 <= j < body_of(ls).len() implies !is_comment_text(
            #[trigger] body_of(ls)[j],
        ) by {
            if j < b.len() {
                assert(body_of(ls)[j] == b[j]);
            }
        }
    }
}

/// The body keeps the data lines in file order: the body of a file split at
/// any point is the body of the first part followed by that of the second,
/// and a single line gives its own text if it is data and nothing otherwise.
/// A comment that comes after a data line is in neither the header nor the
/// body: the header ends before that data line, and no body line is a comment.
pub proof fn body_keeps_data_in_order(path: Seq<char>, ls: Seq<Option<Seq<char>>>)
    ensures
        forall|n: int|
            0 <= n <= ls.len() ==> loaded(path, ls).body == #[trigger] body_of(ls.take(n))
                + body_of(ls.skip(n)),
        forall|i: int|
            0 <= i < ls.len() ==> #[trigger] body_of(seq![ls[i]]) == if is_data_line(ls[i]) {
                seq![ls[i]->0]
            } else {
                Seq::empty()
            },
        forall|i: int, j: int|
            0 <= j < i < ls.len() && #[trigger] is_data_line(ls[j]) && #[trigger] is_comment_line(ls[i])
                ==> loaded(path, ls).header.len() <= j && !loaded(path, ls).body.contains(
                ls[i]->0,
            ),
{
    assert forall|n: int| 0 <= n <= ls.len() implies loaded(path, ls).body == #[trigger] body_of(
        ls.take(n),
    ) + body_of(ls.skip(n)) by {
        lemma_body_concat(ls.take(n), ls.skip(n));
        assert(ls.take(n) + ls.skip(n) =~= ls);
    }
    assert forall|i: int| 0 <= i < ls.len() implies #[trigger] body_of(seq![ls[i]]) == if is_data_line(
        ls[i],
    ) {
        seq![ls[i]->0]
    } else {
        Seq::empty()
    } by {
        let one = seq![ls[i]];
        assert(one.drop_last() =~= Seq::<Option<Seq<char>>>::empty());
        assert(body_of(one.drop_last()) == Seq::<Seq<char>>::empty());
        assert(one.last() == ls[i]);
        if is_data_line(ls[i]) {
            assert(Seq::<Seq<char>>::empty().push(ls[i]->0) =~= seq![ls[i]->0]);
        }
    }
    header_is_maximal_comment_prefix(path, ls);
    lemma_body_has_no_comments(ls);
    assert forall|i: int, j: int|
        0 <= j < i < ls.len() && #[trigger] is_data_line(ls[j]) && #[trigger] is_comment_line(ls[i])
            implies loaded(path, ls).header.len() <= j && !loaded(path, ls).body.contains(
        ls[i]->0,
    ) by {
        let h = loaded(path, ls).header;
        if j < h.len() {
            assert(ls[j] == Some(h[j]));
        }
        if loaded(path, ls).body.contains(ls[i]->0) {
            let k = choose|k: int| 0 <= k < body_of(ls).len() && body_of(ls)[k] == ls[i]->0;
            assert(!is_comment_text(body_of(ls)[k]));
        }
    }
}

/// An empty file loads to an empty header and an empty body.
pub proof fn empty_file_loads_empty(path: Seq<char>)
    ensures
        loaded(path, Seq::empty()).header.len() == 0,
        loaded(path, Seq::empty()).body.len() == 0,
        !loaded(path, Seq::empty()).lossy,
{
}

/// Loading the same lines twice gives the same header and body.
pub proof fn loading_is_deterministic(path: Seq<char>, lines: Seq<RawLine>, d1: Dataset, d2: Dataset)
    requires
        d1@ == loaded(path, raw_views(lines)),
        d2@ == loaded(path, raw_views(lines)),
    ensures
        d1@.header == d2@.header,
        d1@.body == d2@.body,
{
}

/// Why a file could not be opened.
pub enum OpenCause {
    NotFound,
    PermissionDenied,
    /// Any other failure, with the reader's description of it.
    Other(String),
}

/// A file could not be opened: which one, and why.
pub struct LoadError {
    pub path: String,
    pub cause: OpenCause,
}

impl Dataset {
    /// Loads the lines of the file at `path`, in file order.
    pub fn from_lines(path: String, lines: &Vec<RawLine>) -> (r: Dataset)
        ensures
            r@ == loaded(path@, raw_views(lines@)),
    {
        let mut loader = Loader::new(path);
        let mut i: usize = 0;
        while i < lines.len()
            invariant
                0 <= i <= lines.len(),
                loader.wf(),
                loader.path_view() == path@,
                loader.lines() == raw_views(lines@).subrange(0, i as int),
            decreases lines.len() - i,
        {
            loader.feed(&lines[i]);
            assert(raw_views(lines@).subrange(0, i as int + 1) =~= raw_views(lines@).subrange(
                0,
                i as int,
            ).push(lines@[i as int]@));
            i = i + 1;
        }
        assert(raw_views(lines@).subrange(0, i as int) =~= raw_views(lines@));
        loader.finish()
    }

    /// Builds the dataset of the file at `path` from the outcome of opening
    /// and reading it: its lines, or why it could not be opened. A failure to
    /// open is returned with the path attached.
    pub fn build(path: String, opened: Result<Vec<RawLine>, OpenCause>) -> (r: Result<
        Dataset,
        LoadError,
    >)
        ensures
            opened is Ok <==> r is Ok,
            opened is Ok ==> r->Ok_0@ == loaded(path@, raw_views(opened->Ok_0@)),
            opened is Err ==> r->Err_0.path@ == path@ && r->Err_0.cause == opened->Err_0,
    {
        match opened {
            Ok(lines) => Ok(Dataset::from_lines(path, &lines)),
            Err(cause) => Err(LoadError { path, cause }),
        }
    }

    /// A dataset with the same path, header and flag as this one, and the
    /// given body.
    pub(crate) fn with_body(&self, body: Vec<String>) -> (r: Dataset)
        ensures
            r@ == (DatasetView { body: texts(body@), ..self@ }),
    {
        Dataset {
            path: self.path.clone(),
            header: self.header.clone(),
            body,
            lossy: self.lossy,
        }
    }

    /// The path the dataset was loaded from.
    pub fn path(&self) -> (r: &String)
        ensures
            r@ == self@.path,
    {
        &self.path
    }

    /// The header comment lines, in file order.
    pub fn header(&self) -> (r: &Vec<String>)
        ensures
            texts(r@) == self@.header,
    {
        &self.header
    }

    /// The data lines, in file order.
    pub fn body(&self) -> (r: &Vec<String>)
        ensures
            texts(r@) == self@.body,
    {
        &self.body
    }

    /// Whether some line of the file could not be read.
    pub fn had_unreadable_lines(&self) -> (r: bool)
        ensures
            r == self@.lossy,
    {
        self.lossy
    }
}

} // verus!
