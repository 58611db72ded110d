//! Listings by time: the kept rows, latest stamp first.  Rows with equal
//! stamps keep their table order.
use vstd::prelude::*;
use crate::model::{InboxItem, NoteItem, ProjectItem, TaskItem};
use crate::text::{lemma_text_lt_irreflexive, lemma_text_lt_transitive, text_less, text_lt};

verus! {

broadcast use vstd::seq_lib::group_to_multiset_ensures;

/// A record that carries the time stamp its listing is ordered by.
pub trait Stamped: Sized {
    spec fn stamp(&self) -> Seq<char>;

    fn stamp_str(&self) -> (r: &str)
        ensures
            r@ == self.stamp(),
    ;

    fn duplicate_row(&self) -> (r: Self)
        ensures
            r == *self,
    ;
}

impl Stamped for ProjectItem {
    open spec fn stamp(&self) -> Seq<char> {
        self.created_at@
    }

    fn stamp_str(&self) -> (r: &str) {
        self.created_at.as_str()
    }

    fn duplicate_row(&self) -> (r: Self) {
        self.duplicate()
    }
}

impl Stamped for TaskItem {
    open spec fn stamp(&self) -> Seq<char> {
        self.created_at@
    }

    fn stamp_str(&self) -> (r: &str) {
        self.created_at.as_str()
    }

    fn duplicate_row(&self) -> (r: Self) {
        self.duplicate()
    }
}

impl Stamped for InboxItem {
    open spec fn stamp(&self) -> Seq<char> {
        self.created_at@
    }

    fn stamp_str(&self) -> (r: &str) {
        self.created_at.as_str()
    }

    fn duplicate_row(&self) -> (r: Self) {
        self.duplicate()
    }
}

/// Notes are listed by the time of their last write.
impl Stamped for NoteItem {
    open spec fn stamp(&self) -> Seq<char> {
        self.updated_at@
    }

    fn stamp_str(&self) -> (r: &str) {
        self.updated_at.as_str()
    }

    fn duplicate_row(&self) -> (r: Self) {
        self.duplicate()
    }
}

/// Where `x` goes in `s`: before the first row stamped strictly earlier.
pub open spec fn stamp_slot<T: Stamped>(s: Seq<T>, x: T) -> nat
    decreases s.len(),
{
    if s.len() == 0 {
        0
    } else if text_lt(s[0].stamp(), x.stamp()) {
        0
    } else {
        1 + stamp_slot(s.drop_first(), x)
    }
}

/// The rows of `rows` that satisfy `keep`, latest stamp first; rows with
/// equal stamps keep table order.
pub open spec fn latest_first<T: Stamped>(rows: Seq<T>, keep: spec_fn(T) -> bool) -> Seq<T>
    decreases rows.len(),
{
    if rows.len() == 0 {
        Seq::empty()
    } else {
        let s = latest_first(rows.drop_last(), keep);
        let x = rows.last();
        if keep(x) {
            s.insert(stamp_slot(s, x) as int, x)
        } else {
            s
        }
    }
}

/// No row of `s` is stamped earlier than a row after it.
pub open spec fn stamps_descending<T: Stamped>(s: Seq<T>) -> bool {
    forall|i: int, j: int| 0 <= i < j < s.len() ==> !text_lt(#[trigger] s[i].stamp(), #[trigger] s[j].stamp())
}

proof fn lemma_stamp_slot<T: Stamped>(s: Seq<T>, x: T)
    ensures
        stamp_slot(s, x) <= s.len(),
        forall|k: int| 0 <= k < stamp_slot(s, x) ==> !text_lt(#[trigger] s[k].stamp(), x.stamp()),
        stamp_slot(s, x) < s.len() ==> text_lt(s[stamp_slot(s, x) as int].stamp(), x.stamp()),
    decreases s.len(),
{
    if s.len() > 0 && !text_lt(s[0].stamp(), x.stamp()) {
        let t = s.drop_first();
        lemma_stamp_slot(t, x);
        assert forall|k: int| 0 <= k < stamp_slot(s, x) implies !text_lt(#[trigger] s[k].stamp(), x.stamp()) by {
            if k > 0 {
                assert(s[k] == t[k - 1]);
            }
        }
        if stamp_slot(s, x) < s.len() {
            assert(s[stamp_slot(s, x) as int] == t[stamp_slot(t, x) as int]);
        }
    }
}

proof fn lemma_insert_descending<T: Stamped>(s: Seq<T>, x: T)
    requires
        stamps_descending(s),
    ensures
        stamps_descending(s.insert(stamp_slot(s, x) as int, x)),
{
    lemma_stamp_slot(s, x);
    let p = stamp_slot(s, x) as int;
    let u = s.insert(p, x);
    assert forall|i: int, j: int| 0 <= i < j < u.len() implies !text_lt(#[trigger] u[i].stamp(), #[trigger] u[j].stamp()) by {
        if i == p {
            assert(u[j] == s[j - 1]);
            if text_lt(x.stamp(), s[j - 1].stamp()) {
                lemma_text_lt_transitive(s[p].stamp(), x.stamp(), s[j - 1].stamp());
                if p < j - 1 {
                    assert(!text_lt(s[p].stamp(), s[j - 1].stamp()));
                } else {
                    lemma_text_lt_irreflexive(s[p].stamp());
                }
            }
        } else if j == p {
            assert(u[i] == s[i]);
        } else {
            let i2 = if i < p { i } else { i - 1 };
            let j2 = if j < p { j } else { j - 1 };
            assert(u[i] == s[i2] && u[j] == s[j2]);
        }
    }
}

/// A listing by time is ordered latest stamp first.
pub proof fn lemma_latest_first_descending<T: Stamped>(rows: Seq<T>, keep: spec_fn(T) -> bool)
    ensures
        stamps_descending(latest_first(rows, keep)),
    decreases rows.len(),
{
    if rows.len() > 0 {
        lemma_latest_first_descending(rows.drop_last(), keep);
        if keep(rows.last()) {
            lemma_insert_descending(latest_first(rows.drop_last(), keep), rows.last());
        }
    }
}

/// Inserting an element anywhere adds it once to the multiset.
pub proof fn lemma_insert_multiset<T>(s: Seq<T>, p: int, x: T)
    requires
        0 <= p <= s.len(),
    ensures
        s.insert(p, x).to_multiset() =~= s.to_multiset().insert(x),
{
    let u = s.insert(p, x);
    assert(u.remove(p) =~= s);
    assert(u[p] == x);
    assert(u.contains(x));
}

/// A listing by time holds exactly the kept rows, each once.
pub proof fn lemma_latest_first_permutes<T: Stamped>(rows: Seq<T>, keep: spec_fn(T) -> bool)
    ensures
        latest_first(rows, keep).to_multiset() == rows.filter(keep).to_multiset(),
    decreases rows.len(),
{
    reveal(Seq::filter);
    if rows.len() > 0 {
        lemma_latest_first_permutes(rows.drop_last(), keep);
        let s = latest_first(rows.drop_last(), keep);
        if keep(rows.last()) {
            lemma_stamp_slot(s, rows.last());
            lemma_insert_multiset(s, stamp_slot(s, rows.last()) as int, rows.last());
        }
    }
}

/// The rows whose `mask` entry is set, latest stamp first.
pub fn latest_first_of<T: Stamped>(rows: &Vec<T>, mask: &Vec<bool>, keep: Ghost<spec_fn(T) -> bool>) -> (r: Vec<T>)
    requires
        mask@.len() == rows@.len(),
        forall|k: int| 0 <= k < rows@.len() ==> mask@[k] == keep@(#[trigger] rows@[k]),
    ensures
        r@ == latest_first(rows@, keep@),
        stamps_descending(r@),
        r@.to_multiset() == rows@.filter(keep@).to_multiset(),
{
    let n = rows.len();
    let mut out: Vec<T> = Vec::new();
    let mut i: usize = 0;
    while i < n
        invariant
            i <= n,
            n == rows@.len(),
            mask@.len() == n,
            forall|k: int| 0 <= k < rows@.len() ==> mask@[k] == keep@(#[trigger] rows@[k]),
            out@ == latest_first(rows@.subrange(0, i as int), keep@),
        decreases n - i,
    {
        proof {
            assert(rows@.subrange(0, i + 1).drop_last() =~= rows@.subrange(0, i as int));
        }
        if mask[i] {
            let x = &rows[i];
            let mut j: usize = 0;
            assert(out@.subrange(0, out@.len() as int) =~= out@);
            while j < out.len() && !text_less(out[j].stamp_str(), x.stamp_str())
                invariant
                    j <= out@.len(),
                    stamp_slot(out@, *x) == j + stamp_slot(out@.subrange(j as int, out@.len() as int), *x),
                decreases out@.len() - j,
            {
                proof {
                    assert(out@.subrange(j as int, out@.len() as int).drop_first() =~= out@.subrange(
                        j + 1,
                        out@.len() as int,
                    ));
                }
                j = j + 1;
            }
            out.insert(j, x.duplicate_row());
        }
        i = i + 1;
    }
    assert(rows@.subrange(0, n as int) =~= rows@);
    proof {
        lemma_latest_first_descending(rows@, keep@);
        lemma_latest_first_permutes(rows@, keep@);
    }
    out
}

} // verus!
