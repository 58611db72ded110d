//! Tasks: creation, listing, and the status lifecycle with its completion time.
use vstd::prelude::*;
use vstd::string::StringExecFns;
use crate::db::{find_row, first_pos, has_key, lemma_push_unique, lemma_update_unique, Db};
use crate::order::{latest_first, latest_first_of, stamps_descending};
use crate::error::{CommandError, Entity, Problem};
use crate::ids::new_id;
use crate::model::{copy_opt, task_status_of, Priority, TaskItem, TaskStatus};
use crate::text::{is_blank, same_text, trim_spec, trim_text};

verus! {

/// Id of the pre-seeded area that owns tasks and projects given none.
pub open spec fn fallback_area() -> Seq<char> {
    "area_admin_life"@
}

pub fn fallback_area_id() -> (r: String)
    ensures
        r@ == fallback_area(),
{
    String::from_str("area_admin_life")
}

pub open spec fn area_or_fallback(area_id: Option<String>) -> Seq<char> {
    match area_id {
        Some(a) => a@,
        None => fallback_area(),
    }
}

/// `row` is a task as `add` writes it.
pub open spec fn is_new_task(
    row: TaskItem,
    id: Seq<char>,
    title: Seq<char>,
    area: Seq<char>,
    project_id: Option<String>,
    now: Seq<char>,
) -> bool {
    &&& row.id@ == id
    &&& row.title@ == title
    &&& row.area_id@ == area
    &&& row.project_id == project_id
    &&& row.status == TaskStatus::Todo
    &&& row.priority == Priority::Normal
    &&& row.due_at is None
    &&& row.scheduled_at is None
    &&& row.created_at@ == now
    &&& row.completed_at is None
}

/// Outcome of adding a task under the id `id`.
pub open spec fn task_add_post(
    before: Db,
    after: Db,
    id: Seq<char>,
    title: Seq<char>,
    area_id: Option<String>,
    project_id: Option<String>,
    now: Seq<char>,
    r: Result<String, CommandError>,
) -> bool {
    if is_blank(title) {
        r == Err::<String, CommandError>(CommandError::Validation(Problem::EmptyTitle))
            && Db::same_rows(before, after)
    } else if has_key(before.tasks@, id) {
        r == Err::<String, CommandError>(CommandError::DuplicateId(Entity::Task))
            && Db::same_rows(before, after)
    } else {
        &&& r is Ok
        &&& r->Ok_0@ == id
        &&& after.tasks@.len() == before.tasks@.len() + 1
        &&& after.tasks@.drop_last() == before.tasks@
        &&& is_new_task(after.tasks@.last(), id, trim_spec(title), area_or_fallback(area_id), project_id, now)
        &&& Db::others_same(before, after, Entity::Task)
    }
}

/// `new` is `old` with its status set to `status` at time `now`: the
/// completion time is `now` for `Done` and absent for any other status.
pub open spec fn status_applied(old: TaskItem, new: TaskItem, status: TaskStatus, now: Seq<char>) -> bool {
    &&& new.id == old.id
    &&& new.area_id == old.area_id
    &&& new.project_id == old.project_id
    &&& new.title == old.title
    &&& new.status == status
    &&& new.priority == old.priority
    &&& new.due_at == old.due_at
    &&& new.scheduled_at == old.scheduled_at
    &&& new.created_at == old.created_at
    &&& if status == TaskStatus::Done {
        new.completed_at is Some && new.completed_at->Some_0@ == now
    } else {
        new.completed_at is None
    }
}

/// Outcome of setting the status of the task keyed `id`.
pub open spec fn task_status_post(
    before: Db,
    after: Db,
    id: Seq<char>,
    status: TaskStatus,
    now: Seq<char>,
    r: Result<(), CommandError>,
) -> bool {
    let i = first_pos(before.tasks@, id) as int;
    if i == before.tasks@.len() {
        r == Err::<(), CommandError>(CommandError::NotFound(Entity::Task)) && Db::same_rows(before, after)
    } else {
        &&& r == Ok::<(), CommandError>(())
        &&& after.tasks@ == before.tasks@.update(i, after.tasks@[i])
        &&& status_applied(before.tasks@[i], after.tasks@[i], status, now)
        &&& Db::others_same(before, after, Entity::Task)
    }
}

/// Which tasks a listing keeps: all, or those whose status token is `status`.
pub open spec fn task_keep(status: Option<String>) -> spec_fn(TaskItem) -> bool {
    |t: TaskItem|
        match status {
            Some(s) => t.status.token() == s@,
            None => true,
        }
}

impl Db {
    /// Adds a task under the given id.
    pub fn add_task(
        &mut self,
        id: String,
        title: &str,
        area_id: Option<String>,
        project_id: Option<String>,
        now: &str,
    ) -> (r: Result<String, CommandError>)
        ensures
            task_add_post(*old(self), *final(self), id@, title@, area_id, project_id, now@, r),
            old(self).wf() ==> final(self).wf(),
    {
        let t = trim_text(title);
        if t.as_str().is_empty() {
            return Err(CommandError::Validation(Problem::EmptyTitle));
        }
        if find_row(&self.tasks, id.as_str()).is_some() {
            return Err(CommandError::DuplicateId(Entity::Task));
        }
        let area = match area_id {
            Some(a) => a,
            None => fallback_area_id(),
        };
        let row = TaskItem {
            id: id.clone(),
            area_id: area,
            project_id,
            title: t,
            status: TaskStatus::Todo,
            priority: Priority::Normal,
            due_at: None,
            scheduled_at: None,
            created_at: String::from_str(now),
            completed_at: None,
        };
        let ghost g = row;
        self.tasks.push(row);
        proof {
            if old(self).wf() {
                lemma_push_unique(old(self).tasks@, g);
            }
            assert(self.tasks@.drop_last() =~= old(self).tasks@);
        }
        Ok(id)
    }

    /// Sets the status of the task keyed `id`, stamping or clearing its
    /// completion time.
    pub fn set_task_status(&mut self, id: &str, status: TaskStatus, now: &str) -> (r: Result<(), CommandError>)
        ensures
            task_status_post(*old(self), *final(self), id@, status, now@, r),
            old(self).wf() ==> final(self).wf(),
    {
        match find_row(&self.tasks, id) {
            None => Err(CommandError::NotFound(Entity::Task)),
            Some(i) => {
                let cur = &self.tasks[i];
                let completed_at = if status == TaskStatus::Done {
                    Some(String::from_str(now))
                } else {
                    None
                };
                let row = TaskItem {
                    id: cur.id.clone(),
                    area_id: cur.area_id.clone(),
                    project_id: copy_opt(&cur.project_id),
                    title: cur.title.clone(),
                    status,
                    priority: cur.priority,
                    due_at: copy_opt(&cur.due_at),
                    scheduled_at: copy_opt(&cur.scheduled_at),
                    created_at: cur.created_at.clone(),
                    completed_at,
                };
                let ghost g = row;
                self.tasks.set(i, row);
                proof {
                    if old(self).wf() {
                        lemma_update_unique(old(self).tasks@, i as int, g);
                    }
                }
                Ok(())
            },
        }
    }
}

/// Adds a task titled `title` (trimmed) with status `todo` and priority
/// `normal`, under `area_id` or the fallback area, and returns its new id.
pub fn task_add(
    db: &mut Db,
    title: String,
    area_id: Option<String>,
    project_id: Option<String>,
    now: &str,
) -> (r: Result<String, CommandError>)
    ensures
        exists|id: Seq<char>|
            id.len() == 41 && id.subrange(0, 5) == "task_"@ && task_add_post(
                *old(db),
                *final(db),
                id,
                title@,
                area_id,
                project_id,
                now@,
                r,
            ),
        old(db).wf() ==> final(db).wf(),
{
    let id = new_id("task_");
    proof {
        reveal_strlit("task_");
    }
    let ghost gid = id@;
    let r = db.add_task(id, title.as_str(), area_id, project_id, now);
    assert(task_add_post(*old(db), *db, gid, title@, area_id, project_id, now@, r));
    r
}

/// Lists the tasks, latest created first; with `status`, only those whose
/// status token it is.
pub fn task_list(db: &Db, status: Option<String>) -> (r: Vec<TaskItem>)
    ensures
        r@ == latest_first(db.tasks@, task_keep(status)),
        stamps_descending(r@),
        r@.to_multiset() == db.tasks@.filter(task_keep(status)).to_multiset(),
{
    let n = db.tasks.len();
    let mut mask: Vec<bool> = Vec::new();
    let mut i: usize = 0;
    while i < n
        invariant
            i <= n,
            n == db.tasks@.len(),
            mask@.len() == i,
            forall|k: int| 0 <= k < i ==> mask@[k] == task_keep(status)(#[trigger] db.tasks@[k]),
        decreases n - i,
    {
        let row = &db.tasks[i];
        let keep = match &status {
            Some(s) => same_text(row.status.as_str(), s.as_str()),
            None => true,
        };
        mask.push(keep);
        i = i + 1;
    }
    latest_first_of(&db.tasks, &mask, Ghost(task_keep(status)))
}

/// Sets a task's status from its token; `done` stamps the completion time
/// `now`, any other status clears it.
pub fn task_set_status(db: &mut Db, id: String, status: String, now: &str) -> (r: Result<(), CommandError>)
    ensures
        match task_status_of(status@) {
            None => r == Err::<(), CommandError>(CommandError::Validation(Problem::InvalidStatus))
                && Db::same_rows(*old(db), *final(db)),
            Some(st) => task_status_post(*old(db), *final(db), id@, st, now@, r),
        },
        old(db).wf() ==> final(db).wf(),
{
    match TaskStatus::parse(status.as_str()) {
        None => Err(CommandError::Validation(Problem::InvalidStatus)),
        Some(st) => db.set_task_status(id.as_str(), st, now),
    }
}

} // verus!
