//! Filtering the records of one dataset by criteria taken from another.
use vstd::prelude::*;

use crate::dataset::{texts, Dataset};

verus! {

/// A rule that decides whether a record is kept, given the criteria lines.
pub trait MatchRule {
    /// Whether the rule keeps `record` under `criteria`.
    spec fn accepts(&self, record: Seq<char>, criteria: Seq<Seq<char>>) -> bool;

    fn matches(&self, record: &String, criteria: &Vec<String>) -> (r: bool)
        ensures
            r == self.accepts(record@, texts(criteria@)),
    ;
}

/// Keeps a record exactly when it is equal to one of the criteria lines.
pub struct ExactLine;

impl MatchRule for ExactLine {
    open spec fn accepts(&self, record: Seq<char>, criteria: Seq<Seq<char>>) -> bool {
        criteria.contains(record)
    }

    fn matches(&self, record: &String, criteria: &Vec<String>) -> (r: bool) {
        let mut i: usize = 0;
        while i < criteria.len()
            invariant
                0 <= i <= criteria.len(),
                forall|k: int| 0 <= k < i ==> criteria@[k]@ != record@,
            decreases criteria.len() - i,
        {
            if criteria[i] == *record {
                assert(texts(criteria@)[i as int] == record@);
                return true;
            }
            i = i + 1;
        }
        proof {
            if texts(criteria@).contains(record@) {
                let k = choose|k: int|
                    0 <= k < texts(criteria@).len() && texts(criteria@)[k] == record@;
                assert(criteria@[k]@ == record@);
            }
        }
        false
    }
}

/// The records that `rule` keeps under `criteria`, in their order.
pub open spec fn kept<R: MatchRule>(rule: R, records: Seq<Seq<char>>, criteria: Seq<Seq<char>>) -> Seq<
    Seq<char>,
>
    decreases records.len(),
{
    if records.len() == 0 {
        Seq::empty()
    } else {
        let k = kept(rule, records.drop_last(), criteria);
        if rule.accepts(records.last(), criteria) {
            k.push(records.last())
        } else {
            k
        }
    }
}

/// Filtering keeps order and keeps only accepted records: the records kept
/// from `a` followed by `b` are those kept from `a` followed by those kept
/// from `b`, and each record kept is one of the records and is accepted.
pub proof fn kept_is_ordered_selection<R: MatchRule>(
    rule: R,
    a: Seq<Seq<char>>,
    b: Seq<Seq<char>>,
    criteria: Seq<Seq<char>>,
)
    ensures
        kept(rule, a + b, criteria) == kept(rule, a, criteria) + kept(rule, b, criteria),
        forall|j: int|
            0 <= j < kept(rule, a, criteria).len() ==> a.contains(
                #[trigger] kept(rule, a, criteria)[j],
            ) && rule.accepts(kept(rule, a, criteria)[j], criteria),
    decreases a.len() + b.len(),
{
    if b.len() == 0 {
        assert(a + b =~= a);
        assert(kept(rule, a, criteria) + kept(rule, b, criteria) =~= kept(rule, a, criteria));
    } else {
        kept_is_ordered_selection(rule, a, b.drop_last(), criteria);
        assert((a + b).drop_last() =~= a + b.drop_last());
        assert((a + b).last() == b.last());
        let k = kept(rule, b.drop_last(), criteria);
        if rule.accepts(b.last(), criteria) {
            assert(kept(rule, a, criteria) + k.push(b.last()) =~= (kept(rule, a, criteria) + k).push(
                b.last(),
            ));
        }
    }
    if a.len() > 0 {
        let p = a.drop_last();
        kept_is_ordered_selection(rule, p, Seq::empty(), criteria);
        let k = kept(rule, p, criteria);
        assert forall|j: int| 0 <= j < kept(rule, a, criteria).len() implies a.contains(
            #[trigger] kept(rule, a, criteria)[j],
        ) && rule.accepts(kept(rule, a, criteria)[j], criteria) by {
            if j < k.len() {
                assert(kept(rule, a, criteria)[j] == k[j]);
                let i = choose|i: int| 0 <= i < p.len() && p[i] == k[j];
                assert(a[i] == p[i]);
            } else {
                assert(a[a.len() - 1] == a.last());
            }
        }
    }
}

/// Filters `source` against `spec`: the result has the body lines of
/// `source` that `rule` keeps under the body lines of `spec`, in their order,
/// and the path, header and flag of `source`.
pub fn filter_files<R: MatchRule>(source: &Dataset, spec: &Dataset, rule: &R) -> (r: Dataset)
    ensures
        r@.path == source@.path,
        r@.header == source@.header,
        r@.lossy == source@.lossy,
        r@.body == kept(*rule, source@.body, spec@.body),
{
    let records = source.body();
    let criteria = spec.body();
    let mut out: Vec<String> = Vec::new();
    let mut i: usize = 0;
    while i < records.len()
        invariant
            0 <= i <= records.len(),
            texts(records@) == source@.body,
            texts(criteria@) == spec@.body,
            texts(out@) == kept(*rule, source@.body.subrange(0, i as int), spec@.body),
        decreases records.len() - i,
    {
        let ghost pre = source@.body.subrange(0, i as int);
        let ghost next = source@.body.subrange(0, i as int + 1);
        assert(next.drop_last() =~= pre);
        assert(next.last() == records@[i as int]@);
        let ghost before = out@;
        if rule.matches(&records[i], criteria) {
            out.push(records[i].clone());
            assert(texts(out@) =~= texts(before).push(records@[i as int]@));
        }
        i = i + 1;
    }
    assert(source@.body.subrange(0, i as int) =~= source@.body);
    source.with_body(out)
}

} // verus!
