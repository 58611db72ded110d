//! Projects: creation under an area, listing, and the status lifecycle.
use vstd::prelude::*;
use vstd::string::StringExecFns;
use crate::db::{find_row, first_pos, has_key, lemma_push_unique, lemma_update_unique, Db};
use crate::order::{latest_first, latest_first_of, stamps_descending};
use crate::error::{CommandError, Entity, Problem};
use crate::ids::new_id;
use crate::model::{project_status_of, ProjectItem, ProjectStatus};
use crate::tasks::{area_or_fallback, fallback_area_id};
use crate::text::{is_blank, same_text, trim_spec, trim_text};

verus! {

/// Outcome of adding a project under the id `id`.
pub open spec fn project_add_post(
    before: Db,
    after: Db,
    id: Seq<char>,
    name: Seq<char>,
    area_id: Option<String>,
    now: Seq<char>,
    r: Result<String, CommandError>,
) -> bool {
    if is_blank(name) {
        r == Err::<String, CommandError>(CommandError::Validation(Problem::EmptyName))
            && Db::same_rows(before, after)
    } else if has_key(before.projects@, id) {
        r == Err::<String, CommandError>(CommandError::DuplicateId(Entity::Project))
            && Db::same_rows(before, after)
    } else {
        let row = after.projects@.last();
        &&& r is Ok
        &&& r->Ok_0@ == id
        &&& after.projects@.len() == before.projects@.len() + 1
        &&& after.projects@.drop_last() == before.projects@
        &&& row.id@ == id
        &&& row.name@ == trim_spec(name)
        &&& row.area_id@ == area_or_fallback(area_id)
        &&& row.status == ProjectStatus::Paused
        &&& row.created_at@ == now
        &&& Db::others_same(before, after, Entity::Project)
    }
}

/// Outcome of setting the status of the project keyed `id`.
pub open spec fn project_status_post(
    before: Db,
    after: Db,
    id: Seq<char>,
    status: ProjectStatus,
    r: Result<(), CommandError>,
) -> bool {
    let i = first_pos(before.projects@, id) as int;
    if i == before.projects@.len() {
        r == Err::<(), CommandError>(CommandError::NotFound(Entity::Project)) && Db::same_rows(before, after)
    } else {
        let (old, new) = (before.projects@[i], after.projects@[i]);
        &&& r == Ok::<(), CommandError>(())
        &&& after.projects@ == before.projects@.update(i, new)
        &&& new.id == old.id && new.area_id == old.area_id && new.name == old.name
        &&& new.created_at == old.created_at
        &&& new.status == status
        &&& Db::others_same(before, after, Entity::Project)
    }
}

/// Which projects a listing keeps: all, or those whose status token is `status`.
pub open spec fn project_keep(status: Option<String>) -> spec_fn(ProjectItem) -> bool {
    |p: ProjectItem|
        match status {
            Some(s) => p.status.token() == s@,
            None => true,
        }
}

impl Db {
    /// Adds a project under the given id.
    pub fn add_project(&mut self, id: String, name: &str, area_id: Option<String>, now: &str) -> (r: Result<
        String,
        CommandError,
    >)
        ensures
            project_add_post(*old(self), *final(self), id@, name@, area_id, now@, r),
            old(self).wf() ==> final(self).wf(),
    {
        let n = trim_text(name);
        if n.as_str().is_empty() {
            return Err(CommandError::Validation(Problem::EmptyName));
        }
        if find_row(&self.projects, id.as_str()).is_some() {
            return Err(CommandError::DuplicateId(Entity::Project));
        }
        let area = match area_id {
            Some(a) => a,
            None => fallback_area_id(),
        };
        let row = ProjectItem {
            id: id.clone(),
            area_id: area,
            name: n,
            status: ProjectStatus::Paused,
            created_at: String::from_str(now),
        };
        let ghost g = row;
        self.projects.push(row);
        proof {
            if old(self).wf() {
                lemma_push_unique(old(self).projects@, g);
            }
            assert(self.projects@.drop_last() =~= old(self).projects@);
        }
        Ok(id)
    }

    /// Sets the status of the project keyed `id`.
    pub fn set_project_status(&mut self, id: &str, status: ProjectStatus) -> (r: Result<(), CommandError>)
        ensures
            project_status_post(*old(self), *final(self), id@, status, r),
            old(self).wf() ==> final(self).wf(),
    {
        match find_row(&self.projects, id) {
            None => Err(CommandError::NotFound(Entity::Project)),
            Some(i) => {
                let cur = &self.projects[i];
                let row = ProjectItem {
                    id: cur.id.clone(),
                    area_id: cur.area_id.clone(),
                    name: cur.name.clone(),
                    status,
                    created_at: cur.created_at.clone(),
                };
                let ghost g = row;
                self.projects.set(i, row);
                proof {
                    if old(self).wf() {
                        lemma_update_unique(old(self).projects@, i as int, g);
                    }
                }
                Ok(())
            },
        }
    }
}

/// Adds a project named `name` (trimmed), `paused`, under `area_id` or the
/// fallback area, and returns its new id.
pub fn project_add(db: &mut Db, name: String, area_id: Option<String>, now: &str) -> (r: Result<
    String,
    CommandError,
>)
    ensures
        exists|id: Seq<char>|
            id.len() == 44 && id.subrange(0, 8) == "project_"@ && project_add_post(
                *old(db),
                *final(db),
                id,
                name@,
                area_id,
                now@,
                r,
            ),
        old(db).wf() ==> final(db).wf(),
{
    let id = new_id("project_");
    proof {
        reveal_strlit("project_");
    }
    let ghost gid = id@;
    let r = db.add_project(id, name.as_str(), area_id, now);
    assert(project_add_post(*old(db), *db, gid, name@, area_id, now@, r));
    r
}

/// Lists the projects, latest created first; with `status`, only those
/// whose status token it is.
pub fn project_list(db: &Db, status: Option<String>) -> (r: Vec<ProjectItem>)
    ensures
        r@ == latest_first(db.projects@, project_keep(status)),
        stamps_descending(r@),
        r@.to_multiset() == db.projects@.filter(project_keep(status)).to_multiset(),
{
    let n = db.projects.len();
    let mut mask: Vec<bool> = Vec::new();
    let mut i: usize = 0;
    while i < n
        invariant
            i <= n,
            n == db.projects@.len(),
            mask@.len() == i,
            forall|k: int| 0 <= k < i ==> mask@[k] == project_keep(status)(#[trigger] db.projects@[k]),
        decreases n - i,
    {
        let row = &db.projects[i];
        let keep = match &status {
            Some(s) => same_text(row.status.as_str(), s.as_str()),
            None => true,
        };
        mask.push(keep);
        i = i + 1;
    }
    latest_first_of(&db.projects, &mask, Ghost(project_keep(status)))
}

/// Sets a project's status from its token.
pub fn project_set_status(db: &mut Db, id: String, status: String) -> (r: Result<(), CommandError>)
    ensures
        match project_status_of(status@) {
            None => r == Err::<(), CommandError>(CommandError::Validation(Problem::InvalidStatus))
                && Db::same_rows(*old(db), *final(db)),
            Some(st) => project_status_post(*old(db), *final(db), id@, st, r),
        },
        old(db).wf() ==> final(db).wf(),
{
    match ProjectStatus::parse(status.as_str()) {
        None => Err(CommandError::Validation(Problem::InvalidStatus)),
        Some(st) => db.set_project_status(id.as_str(), st),
    }
}

} // verus!
