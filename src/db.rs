//! The store: one table per entity, rows in the order they were written.
use vstd::prelude::*;
use crate::error::Entity;
use crate::model::{AreaItem, InboxItem, NoteItem, ProjectItem, TaskItem};
use crate::text::same_text;

verus! {

/// A stored record with a text key.
pub trait Row {
    spec fn key(&self) -> Seq<char>;

    fn id_str(&self) -> (r: &str)
        ensures
            r@ == self.key(),
    ;
}

impl Row for AreaItem {
    open spec fn key(&self) -> Seq<char> {
        self.id@
    }

    fn id_str(&self) -> (r: &str) {
        self.id.as_str()
    }
}

impl Row for ProjectItem {
    open spec fn key(&self) -> Seq<char> {
        self.id@
    }

    fn id_str(&self) -> (r: &str) {
        self.id.as_str()
    }
}

impl Row for TaskItem {
    open spec fn key(&self) -> Seq<char> {
        self.id@
    }

    fn id_str(&self) -> (r: &str) {
        self.id.as_str()
    }
}

impl Row for NoteItem {
    open spec fn key(&self) -> Seq<char> {
        self.id@
    }

    fn id_str(&self) -> (r: &str) {
        self.id.as_str()
    }
}

impl Row for InboxItem {
    open spec fn key(&self) -> Seq<char> {
        self.id@
    }

    fn id_str(&self) -> (r: &str) {
        self.id.as_str()
    }
}

/// Position of the first row keyed `id`; the table's length when there is none.
pub open spec fn first_pos<T: Row>(rows: Seq<T>, id: Seq<char>) -> nat
    decreases rows.len(),
{
    if rows.len() == 0 {
        0
    } else if rows[0].key() == id {
        0
    } else {
        1 + first_pos(rows.drop_first(), id)
    }
}

/// No two rows share a key.
pub open spec fn keys_unique<T: Row>(rows: Seq<T>) -> bool {
    forall|i: int, j: int|
        0 <= i < rows.len() && 0 <= j < rows.len() && i != j ==> rows[i].key() != rows[j].key()
}

pub open spec fn has_key<T: Row>(rows: Seq<T>, id: Seq<char>) -> bool {
    exists|i: int| 0 <= i < rows.len() && #[trigger] rows[i].key() == id
}

pub proof fn lemma_first_pos<T: Row>(rows: Seq<T>, id: Seq<char>, i: int)
    requires
        0 <= i <= rows.len(),
        forall|k: int| 0 <= k < i ==> #[trigger] rows[k].key() != id,
        i == rows.len() || rows[i].key() == id,
    ensures
        first_pos(rows, id) == i,
    decreases i,
{
    if i > 0 {
        let t = rows.drop_first();
        assert forall|k: int| 0 <= k < i - 1 implies #[trigger] t[k].key() != id by {
            assert(t[k] == rows[k + 1]);
        }
        if i < rows.len() {
            assert(t[i - 1] == rows[i]);
        }
        lemma_first_pos(t, id, i - 1);
    }
}

/// The first row keyed `id` sits at `first_pos`, and there is one exactly
/// when `first_pos` falls inside the table.
pub proof fn lemma_first_pos_found<T: Row>(rows: Seq<T>, id: Seq<char>)
    ensures
        first_pos(rows, id) <= rows.len(),
        first_pos(rows, id) < rows.len() ==> rows[first_pos(rows, id) as int].key() == id,
        forall|k: int| 0 <= k < first_pos(rows, id) ==> #[trigger] rows[k].key() != id,
        has_key(rows, id) <==> first_pos(rows, id) < rows.len(),
    decreases rows.len(),
{
    if rows.len() > 0 && rows[0].key() != id {
        let t = rows.drop_first();
        lemma_first_pos_found(t, id);
        assert forall|k: int| 0 <= k < first_pos(rows, id) implies #[trigger] rows[k].key() != id by {
            if k > 0 {
                assert(rows[k] == t[k - 1]);
            }
        }
        if has_key(rows, id) {
            let w = choose|w: int| 0 <= w < rows.len() && #[trigger] rows[w].key() == id;
            assert(t[w - 1] == rows[w]);
        }
        if first_pos(rows, id) < rows.len() {
            assert(rows[first_pos(rows, id) as int] == t[first_pos(t, id) as int]);
        }
    }
}

/// Finds the first row keyed `id`.
pub fn find_row<T: Row>(rows: &Vec<T>, id: &str) -> (r: Option<usize>)
    ensures
        match r {
            Some(i) => i == first_pos(rows@, id@) && i < rows@.len() && rows@[i as int].key() == id@
                && has_key(rows@, id@),
            None => first_pos(rows@, id@) == rows@.len() && !has_key(rows@, id@),
        },
{
    let mut i: usize = 0;
    while i < rows.len()
        invariant
            i <= rows@.len(),
            forall|k: int| 0 <= k < i ==> #[trigger] rows@[k].key() != id@,
        decreases rows@.len() - i,
    {
        if same_text(rows[i].id_str(), id) {
            proof {
                lemma_first_pos(rows@, id@, i as int);
            }
            return Some(i);
        }
        i = i + 1;
    }
    proof {
        lemma_first_pos(rows@, id@, i as int);
    }
    None
}

/// The whole store, one table per entity.
pub struct Db {
    pub areas: Vec<AreaItem>,
    pub projects: Vec<ProjectItem>,
    pub tasks: Vec<TaskItem>,
    pub notes: Vec<NoteItem>,
    pub inbox: Vec<InboxItem>,
}

impl Db {
    /// Every table but the one for `e` is the same in `a` and `b`.
    pub open spec fn others_same(a: Db, b: Db, e: Entity) -> bool {
        &&& (e != Entity::Area ==> b.areas@ == a.areas@)
        &&& (e != Entity::Project ==> b.projects@ == a.projects@)
        &&& (e != Entity::Task ==> b.tasks@ == a.tasks@)
        &&& (e != Entity::Note ==> b.notes@ == a.notes@)
        &&& (e != Entity::InboxItem ==> b.inbox@ == a.inbox@)
    }

    /// `a` and `b` hold the same rows in every table.
    pub open spec fn same_rows(a: Db, b: Db) -> bool {
        &&& b.areas@ == a.areas@
        &&& b.projects@ == a.projects@
        &&& b.tasks@ == a.tasks@
        &&& b.notes@ == a.notes@
        &&& b.inbox@ == a.inbox@
    }

    /// Every table holds each id at most once.
    pub open spec fn wf(&self) -> bool {
        &&& keys_unique(self.areas@)
        &&& keys_unique(self.projects@)
        &&& keys_unique(self.tasks@)
        &&& keys_unique(self.notes@)
        &&& keys_unique(self.inbox@)
    }

    /// An empty store.
    pub fn new() -> (r: Db)
        ensures
            r.wf(),
            r.areas@.len() == 0,
            r.projects@.len() == 0,
            r.tasks@.len() == 0,
            r.notes@.len() == 0,
            r.inbox@.len() == 0,
    {
        Db {
            areas: Vec::new(),
            projects: Vec::new(),
            tasks: Vec::new(),
            notes: Vec::new(),
            inbox: Vec::new(),
        }
    }
}

/// Appending a row whose key is new keeps the keys unique.
pub proof fn lemma_push_unique<T: Row>(rows: Seq<T>, row: T)
    requires
        keys_unique(rows),
        !has_key(rows, row.key()),
    ensures
        keys_unique(rows.push(row)),
{
    let s = rows.push(row);
    assert forall|i: int, j: int|
        0 <= i < s.len() && 0 <= j < s.len() && i != j implies s[i].key() != s[j].key() by {
        if i == rows.len() {
            assert(s[j] == rows[j]);
        } else if j == rows.len() {
            assert(s[i] == rows[i]);
        } else {
            assert(s[i] == rows[i] && s[j] == rows[j]);
        }
    }
}

/// Replacing a row by one with the same key keeps the keys unique.
pub proof fn lemma_update_unique<T: Row>(rows: Seq<T>, i: int, row: T)
    requires
        keys_unique(rows),
        0 <= i < rows.len(),
        row.key() == rows[i].key(),
    ensures
        keys_unique(rows.update(i, row)),
{
    let s = rows.update(i, row);
    assert forall|a: int, b: int|
        0 <= a < s.len() && 0 <= b < s.len() && a != b implies s[a].key() != s[b].key() by {
        assert(s[a].key() == rows[a].key());
        assert(s[b].key() == rows[b].key());
    }
}

} // verus!
