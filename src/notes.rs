//! Notes: the one entity that can be rewritten in full and deleted.  A
//! rewritten note moves to the end of its table, as the latest written.
use vstd::prelude::*;
use vstd::string::StringExecFns;
use crate::db::{find_row, first_pos, has_key, keys_unique, lemma_push_unique, Db, Row};
use crate::order::{latest_first, latest_first_of, stamps_descending};
use crate::error::{CommandError, Entity, Problem};
use crate::ids::new_id;
use crate::model::NoteItem;
use crate::text::{is_blank, same_text, trim_spec, trim_text};

verus! {

/// Which check, if any, rejects a note with this title and content.
pub open spec fn note_problem(title: Seq<char>, content: Seq<char>) -> Option<Problem> {
    if is_blank(title) {
        Some(Problem::EmptyTitle)
    } else if is_blank(content) {
        Some(Problem::EmptyContent)
    } else {
        None
    }
}

/// `row` holds the given fields, written at `now`.
pub open spec fn note_fields(
    row: NoteItem,
    title: Seq<char>,
    content: Seq<char>,
    area_id: Option<String>,
    project_id: Option<String>,
    now: Seq<char>,
) -> bool {
    &&& row.title@ == trim_spec(title)
    &&& row.content@ == trim_spec(content)
    &&& row.area_id == area_id
    &&& row.project_id == project_id
    &&& row.updated_at@ == now
}

/// Outcome of adding a note under the id `id`.
pub open spec fn note_add_post(
    before: Db,
    after: Db,
    id: Seq<char>,
    title: Seq<char>,
    content: Seq<char>,
    area_id: Option<String>,
    project_id: Option<String>,
    now: Seq<char>,
    r: Result<String, CommandError>,
) -> bool {
    if note_problem(title, content) is Some {
        r == Err::<String, CommandError>(CommandError::Validation(note_problem(title, content)->Some_0))
            && Db::same_rows(before, after)
    } else if has_key(before.notes@, id) {
        r == Err::<String, CommandError>(CommandError::DuplicateId(Entity::Note))
            && Db::same_rows(before, after)
    } else {
        &&& r is Ok
        &&& r->Ok_0@ == id
        &&& after.notes@.len() == before.notes@.len() + 1
        &&& after.notes@.drop_last() == before.notes@
        &&& after.notes@.last().id@ == id
        &&& after.notes@.last().created_at@ == now
        &&& note_fields(after.notes@.last(), title, content, area_id, project_id, now)
        &&& Db::others_same(before, after, Entity::Note)
    }
}

/// Outcome of rewriting the note keyed `id`: the rewritten note moves to
/// the end of the table, as the latest written.
pub open spec fn note_update_post(
    before: Db,
    after: Db,
    id: Seq<char>,
    title: Seq<char>,
    content: Seq<char>,
    area_id: Option<String>,
    project_id: Option<String>,
    now: Seq<char>,
    r: Result<(), CommandError>,
) -> bool {
    let i = first_pos(before.notes@, id) as int;
    if note_problem(title, content) is Some {
        r == Err::<(), CommandError>(CommandError::Validation(note_problem(title, content)->Some_0))
            && Db::same_rows(before, after)
    } else if i == before.notes@.len() {
        r == Err::<(), CommandError>(CommandError::NotFound(Entity::Note)) && Db::same_rows(before, after)
    } else {
        let new = after.notes@.last();
        &&& r == Ok::<(), CommandError>(())
        &&& after.notes@.len() == before.notes@.len()
        &&& after.notes@.drop_last() == before.notes@.remove(i)
        &&& new.id == before.notes@[i].id
        &&& new.created_at == before.notes@[i].created_at
        &&& note_fields(new, title, content, area_id, project_id, now)
        &&& Db::others_same(before, after, Entity::Note)
    }
}

/// Outcome of deleting the note keyed `id`.
pub open spec fn note_delete_post(before: Db, after: Db, id: Seq<char>, r: Result<(), CommandError>) -> bool {
    let i = first_pos(before.notes@, id) as int;
    if i == before.notes@.len() {
        r == Err::<(), CommandError>(CommandError::NotFound(Entity::Note)) && Db::same_rows(before, after)
    } else {
        &&& r == Ok::<(), CommandError>(())
        &&& after.notes@ == before.notes@.remove(i)
        &&& Db::others_same(before, after, Entity::Note)
    }
}

/// Which notes a listing keeps: with a project id, the notes of that
/// project; else, with an area id, the notes of that area; else all.
pub open spec fn note_keep(area_id: Option<String>, project_id: Option<String>) -> spec_fn(NoteItem) -> bool {
    |n: NoteItem|
        match project_id {
            Some(p) => n.project_id is Some && n.project_id->Some_0@ == p@,
            None => match area_id {
                Some(a) => n.area_id is Some && n.area_id->Some_0@ == a@,
                None => true,
            },
        }
}

/// Removing a row keeps the keys unique and leaves no row with its key.
pub proof fn lemma_remove_unique<T: Row>(rows: Seq<T>, i: int)
    requires
        keys_unique(rows),
        0 <= i < rows.len(),
    ensures
        keys_unique(rows.remove(i)),
        !has_key(rows.remove(i), rows[i].key()),
{
    let s = rows.remove(i);
    assert forall|a: int, b: int|
        0 <= a < s.len() && 0 <= b < s.len() && a != b implies s[a].key() != s[b].key() by {
        let a2 = if a < i { a } else { a + 1 };
        let b2 = if b < i { b } else { b + 1 };
        assert(s[a] == rows[a2] && s[b] == rows[b2]);
    }
    if has_key(s, rows[i].key()) {
        let w = choose|w: int| 0 <= w < s.len() && #[trigger] s[w].key() == rows[i].key();
        let w2 = if w < i { w } else { w + 1 };
        assert(s[w] == rows[w2]);
    }
}

/// Whether an optional id equals `id`.
fn opt_is(o: &Option<String>, id: &str) -> (r: bool)
    ensures
        r == (o is Some && o->Some_0@ == id@),
{
    match o {
        Some(s) => same_text(s.as_str(), id),
        None => false,
    }
}

impl Db {
    /// Adds a note under the given id.
    pub fn add_note(
        &mut self,
        id: String,
        title: &str,
        content: &str,
        area_id: Option<String>,
        project_id: Option<String>,
        now: &str,
    ) -> (r: Result<String, CommandError>)
        ensures
            note_add_post(*old(self), *final(self), id@, title@, content@, area_id, project_id, now@, r),
            old(self).wf() ==> final(self).wf(),
    {
        let t = trim_text(title);
        let c = trim_text(content);
        if t.as_str().is_empty() {
            return Err(CommandError::Validation(Problem::EmptyTitle));
        }
        if c.as_str().is_empty() {
            return Err(CommandError::Validation(Problem::EmptyContent));
        }
        if find_row(&self.notes, id.as_str()).is_some() {
            return Err(CommandError::DuplicateId(Entity::Note));
        }
        let row = NoteItem {
            id: id.clone(),
            title: t,
            content: c,
            area_id,
            project_id,
            created_at: String::from_str(now),
            updated_at: String::from_str(now),
        };
        let ghost g = row;
        self.notes.push(row);
        proof {
            if old(self).wf() {
                lemma_push_unique(old(self).notes@, g);
            }
            assert(self.notes@.drop_last() =~= old(self).notes@);
        }
        Ok(id)
    }
}

/// Adds a note with `title` and `content` (both trimmed) and returns its new id.
pub fn note_add(
    db: &mut Db,
    title: String,
    content: String,
    area_id: Option<String>,
    project_id: Option<String>,
    now: &str,
) -> (r: Result<String, CommandError>)
    ensures
        exists|id: Seq<char>|
            id.len() == 41 && id.subrange(0, 5) == "note_"@ && note_add_post(
                *old(db),
                *final(db),
                id,
                title@,
                content@,
                area_id,
                project_id,
                now@,
                r,
            ),
        old(db).wf() ==> final(db).wf(),
{
    let id = new_id("note_");
    proof {
        reveal_strlit("note_");
    }
    let ghost gid = id@;
    let r = db.add_note(id, title.as_str(), content.as_str(), area_id, project_id, now);
    assert(note_add_post(*old(db), *db, gid, title@, content@, area_id, project_id, now@, r));
    r
}

/// Lists notes, latest updated first, filtered by project when a project
/// id is given, else by area when an area id is given.
pub fn note_list(db: &Db, area_id: Option<String>, project_id: Option<String>) -> (r: Vec<NoteItem>)
    ensures
        r@ == latest_first(db.notes@, note_keep(area_id, project_id)),
        stamps_descending(r@),
        r@.to_multiset() == db.notes@.filter(note_keep(area_id, project_id)).to_multiset(),
{
    let n = db.notes.len();
    let mut mask: Vec<bool> = Vec::new();
    let mut i: usize = 0;
    while i < n
        invariant
            i <= n,
            n == db.notes@.len(),
            mask@.len() == i,
            forall|k: int| 0 <= k < i ==> mask@[k] == note_keep(area_id, project_id)(#[trigger] db.notes@[k]),
        decreases n - i,
    {
        let row = &db.notes[i];
        let keep = match &project_id {
            Some(p) => opt_is(&row.project_id, p.as_str()),
            None => match &area_id {
                Some(a) => opt_is(&row.area_id, a.as_str()),
                None => true,
            },
        };
        mask.push(keep);
        i = i + 1;
    }
    latest_first_of(&db.notes, &mask, Ghost(note_keep(area_id, project_id)))
}

/// Rewrites the title, content, area and project of the note keyed `id`.
pub fn note_update(
    db: &mut Db,
    id: String,
    title: String,
    content: String,
    area_id: Option<String>,
    project_id: Option<String>,
    now: &str,
) -> (r: Result<(), CommandError>)
    ensures
        note_update_post(*old(db), *final(db), id@, title@, content@, area_id, project_id, now@, r),
        old(db).wf() ==> final(db).wf(),
{
    let t = trim_text(title.as_str());
    let c = trim_text(content.as_str());
    if t.as_str().is_empty() {
        return Err(CommandError::Validation(Problem::EmptyTitle));
    }
    if c.as_str().is_empty() {
        return Err(CommandError::Validation(Problem::EmptyContent));
    }
    match find_row(&db.notes, id.as_str()) {
        None => Err(CommandError::NotFound(Entity::Note)),
        Some(i) => {
            let cur = db.notes.remove(i);
            let row = NoteItem {
                id: cur.id,
                title: t,
                content: c,
                area_id,
                project_id,
                created_at: cur.created_at,
                updated_at: String::from_str(now),
            };
            let ghost g = row;
            proof {
                if old(db).wf() {
                    lemma_remove_unique(old(db).notes@, i as int);
                }
            }
            db.notes.push(row);
            proof {
                if old(db).wf() {
                    lemma_push_unique(old(db).notes@.remove(i as int), g);
                }
                assert(db.notes@.drop_last() =~= old(db).notes@.remove(i as int));
            }
            Ok(())
        },
    }
}

/// Deletes the note keyed `id`.
pub fn note_delete(db: &mut Db, id: String) -> (r: Result<(), CommandError>)
    ensures
        note_delete_post(*old(db), *final(db), id@, r),
        old(db).wf() ==> final(db).wf(),
{
    match find_row(&db.notes, id.as_str()) {
        None => Err(CommandError::NotFound(Entity::Note)),
        Some(i) => {
            let _ = db.notes.remove(i);
            proof {
                if old(db).wf() {
                    lemma_remove_unique(old(db).notes@, i as int);
                }
            }
            Ok(())
        },
    }
}

/// The note keyed `id`.
pub fn note_get(db: &Db, id: String) -> (r: Result<NoteItem, CommandError>)
    ensures
        ({
            let i = first_pos(db.notes@, id@) as int;
            if i == db.notes@.len() {
                r == Err::<NoteItem, CommandError>(CommandError::NotFound(Entity::Note))
            } else {
                r == Ok::<NoteItem, CommandError>(db.notes@[i])
            }
        }),
{
    match find_row(&db.notes, id.as_str()) {
        None => Err(CommandError::NotFound(Entity::Note)),
        Some(i) => Ok(db.notes[i].duplicate()),
    }
}

} // verus!
