//! Properties that relate several operations, or hold of every input.
use vstd::prelude::*;
use crate::areas::area_active_post;
use crate::db::{first_pos, has_key, lemma_first_pos, lemma_first_pos_found, Db, Row};
use crate::error::{CommandError, Entity};
use crate::inbox::{convert_post, inbox_state_post, task_title, MAX_TITLE_BYTES};
use crate::model::{InboxState, ProjectStatus, TaskStatus};
use crate::notes::note_keep;
use crate::order::latest_first;
use crate::projects::project_status_post;
use crate::tasks::task_status_post;
use crate::text::{all_ascii, first_filled_line_spec, lemma_clamp_ascii};

verus! {

/// Converting an inbox item succeeds at most once: after a successful
/// conversion, converting the same item again fails with `InvalidState` and
/// writes nothing, so exactly one task came of the two calls.
pub proof fn law_convert_once(
    db0: Db,
    db1: Db,
    db2: Db,
    inbox_id: Seq<char>,
    task1: Seq<char>,
    task2: Seq<char>,
    now1: Seq<char>,
    now2: Seq<char>,
    r1: Result<String, CommandError>,
    r2: Result<String, CommandError>,
)
    requires
        convert_post(db0, db1, inbox_id, task1, now1, r1),
        r1 is Ok,
        convert_post(db1, db2, inbox_id, task2, now2, r2),
    ensures
        r2 == Err::<String, CommandError>(CommandError::InvalidState),
        Db::same_rows(db1, db2),
        db2.tasks@.len() == db0.tasks@.len() + 1,
{
    let i = first_pos(db0.inbox@, inbox_id) as int;
    lemma_first_pos_found(db0.inbox@, inbox_id);
    assert forall|k: int| 0 <= k < i implies #[trigger] db1.inbox@[k].key() != inbox_id by {
        assert(db1.inbox@[k] == db0.inbox@[k]);
    }
    lemma_first_pos(db1.inbox@, inbox_id, i);
}

/// Setting the status of a task that does not exist fails with `NotFound`
/// and leaves the store as it was.
pub proof fn law_task_status_missing(
    before: Db,
    after: Db,
    id: Seq<char>,
    status: TaskStatus,
    now: Seq<char>,
    r: Result<(), CommandError>,
)
    requires
        !has_key(before.tasks@, id),
        task_status_post(before, after, id, status, now, r),
    ensures
        r == Err::<(), CommandError>(CommandError::NotFound(Entity::Task)),
        Db::same_rows(before, after),
{
    lemma_first_pos_found(before.tasks@, id);
}

/// Setting the status of a project that does not exist fails with
/// `NotFound` and leaves the store as it was.
pub proof fn law_project_status_missing(
    before: Db,
    after: Db,
    id: Seq<char>,
    status: ProjectStatus,
    r: Result<(), CommandError>,
)
    requires
        !has_key(before.projects@, id),
        project_status_post(before, after, id, status, r),
    ensures
        r == Err::<(), CommandError>(CommandError::NotFound(Entity::Project)),
        Db::same_rows(before, after),
{
    lemma_first_pos_found(before.projects@, id);
}

/// Setting the state of an inbox item that does not exist fails with
/// `NotFound` and leaves the store as it was.
pub proof fn law_inbox_state_missing(
    before: Db,
    after: Db,
    id: Seq<char>,
    state: InboxState,
    r: Result<(), CommandError>,
)
    requires
        !has_key(before.inbox@, id),
        inbox_state_post(before, after, id, state, r),
    ensures
        r == Err::<(), CommandError>(CommandError::NotFound(Entity::InboxItem)),
        Db::same_rows(before, after),
{
    lemma_first_pos_found(before.inbox@, id);
}

/// Setting the active flag of an area that does not exist fails with
/// `NotFound` and leaves the store as it was.
pub proof fn law_area_active_missing(before: Db, after: Db, id: Seq<char>, active: bool, r: Result<(), CommandError>)
    requires
        !has_key(before.areas@, id),
        area_active_post(before, after, id, active, r),
    ensures
        r == Err::<(), CommandError>(CommandError::NotFound(Entity::Area)),
        Db::same_rows(before, after),
{
    lemma_first_pos_found(before.areas@, id);
}

/// A first non-blank line (trimmed) longer than the title limit, made of
/// ASCII characters, becomes a title of exactly its first `MAX_TITLE_BYTES`
/// characters.
pub proof fn law_title_truncation(content: Seq<char>)
    requires
        first_filled_line_spec(content).len() > MAX_TITLE_BYTES,
        all_ascii(first_filled_line_spec(content)),
    ensures
        task_title(content) == first_filled_line_spec(content).subrange(0, MAX_TITLE_BYTES as int),
{
    lemma_clamp_ascii(first_filled_line_spec(content), MAX_TITLE_BYTES as nat);
}

/// When a note listing is given both an area and a project, the project
/// filter decides and the area is ignored.
pub proof fn law_note_project_filter_wins(db: Db, area_id: String, project_id: String)
    ensures
        latest_first(db.notes@, note_keep(Some(area_id), Some(project_id))) == latest_first(
            db.notes@,
            note_keep(None, Some(project_id)),
        ),
{
    assert(note_keep(Some(area_id), Some(project_id)) =~= note_keep(None, Some(project_id)));
}

} // verus!
