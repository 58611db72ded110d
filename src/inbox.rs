//! Inbox items: capture, listing, state changes, and conversion into a task.
use vstd::prelude::*;
use vstd::string::StringExecFns;
use crate::db::{find_row, first_pos, has_key, lemma_push_unique, lemma_update_unique, Db};
use crate::order::{latest_first, latest_first_of, stamps_descending};
use crate::error::{CommandError, Entity, Problem};
use crate::ids::new_id;
use crate::model::{inbox_source_of, inbox_state_of, InboxItem, InboxSource, InboxState, Priority, TaskItem, TaskStatus};
use crate::tasks::{fallback_area, fallback_area_id, is_new_task};
use crate::text::{clamp_spec, clamp_utf8, first_filled_line, first_filled_line_spec, is_blank, same_text, trim_spec, trim_text};

verus! {

/// Largest UTF-8 length of a task title made from an inbox item.
pub const MAX_TITLE_BYTES: usize = 120;

/// Title of the task that an inbox item with `content` converts into: its
/// first non-blank line trimmed, or "Inbox item" when there is none,
/// clamped to `MAX_TITLE_BYTES` bytes.
pub open spec fn task_title(content: Seq<char>) -> Seq<char> {
    let line = first_filled_line_spec(content);
    let t = if line.len() == 0 {
        "Inbox item"@
    } else {
        line
    };
    clamp_spec(t, MAX_TITLE_BYTES as nat)
}

/// `row` is an inbox item as `add` writes it.
pub open spec fn is_new_inbox_item(
    row: InboxItem,
    id: Seq<char>,
    content: Seq<char>,
    source: InboxSource,
    now: Seq<char>,
) -> bool {
    &&& row.id@ == id
    &&& row.content@ == content
    &&& row.source == source
    &&& row.state == InboxState::Unprocessed
    &&& row.created_at@ == now
}

/// Outcome of capturing an inbox item under the id `id`.
pub open spec fn inbox_add_post(
    before: Db,
    after: Db,
    id: Seq<char>,
    content: Seq<char>,
    source: Seq<char>,
    now: Seq<char>,
    r: Result<String, CommandError>,
) -> bool {
    if is_blank(content) {
        r == Err::<String, CommandError>(CommandError::Validation(Problem::EmptyContent))
            && Db::same_rows(before, after)
    } else if inbox_source_of(source) is None {
        r == Err::<String, CommandError>(CommandError::Validation(Problem::InvalidSource))
            && Db::same_rows(before, after)
    } else if has_key(before.inbox@, id) {
        r == Err::<String, CommandError>(CommandError::DuplicateId(Entity::InboxItem))
            && Db::same_rows(before, after)
    } else {
        &&& r is Ok
        &&& r->Ok_0@ == id
        &&& after.inbox@.len() == before.inbox@.len() + 1
        &&& after.inbox@.drop_last() == before.inbox@
        &&& is_new_inbox_item(after.inbox@.last(), id, trim_spec(content), inbox_source_of(source)->Some_0, now)
        &&& Db::others_same(before, after, Entity::InboxItem)
    }
}

/// `new` is `old` with its state set to `state`.
pub open spec fn state_applied(old: InboxItem, new: InboxItem, state: InboxState) -> bool {
    &&& new.id == old.id
    &&& new.content == old.content
    &&& new.source == old.source
    &&& new.state == state
    &&& new.created_at == old.created_at
}

/// Outcome of setting the state of the inbox item keyed `id`.
pub open spec fn inbox_state_post(
    before: Db,
    after: Db,
    id: Seq<char>,
    state: InboxState,
    r: Result<(), CommandError>,
) -> bool {
    let i = first_pos(before.inbox@, id) as int;
    if i == before.inbox@.len() {
        r == Err::<(), CommandError>(CommandError::NotFound(Entity::InboxItem)) && Db::same_rows(before, after)
    } else {
        &&& r == Ok::<(), CommandError>(())
        &&& after.inbox@ == before.inbox@.update(i, after.inbox@[i])
        &&& state_applied(before.inbox@[i], after.inbox@[i], state)
        &&& Db::others_same(before, after, Entity::InboxItem)
    }
}

/// Outcome of converting the inbox item keyed `inbox_id` into a task keyed
/// `task_id`: both writes happen, or neither does.
pub open spec fn convert_post(
    before: Db,
    after: Db,
    inbox_id: Seq<char>,
    task_id: Seq<char>,
    now: Seq<char>,
    r: Result<String, CommandError>,
) -> bool {
    let i = first_pos(before.inbox@, inbox_id) as int;
    if i == before.inbox@.len() {
        r == Err::<String, CommandError>(CommandError::NotFound(Entity::InboxItem))
            && Db::same_rows(before, after)
    } else if before.inbox@[i].state != InboxState::Unprocessed {
        r == Err::<String, CommandError>(CommandError::InvalidState) && Db::same_rows(before, after)
    } else if has_key(before.tasks@, task_id) {
        r == Err::<String, CommandError>(CommandError::DuplicateId(Entity::Task))
            && Db::same_rows(before, after)
    } else {
        &&& r is Ok
        &&& r->Ok_0@ == task_id
        &&& after.tasks@.len() == before.tasks@.len() + 1
        &&& after.tasks@.drop_last() == before.tasks@
        &&& is_new_task(after.tasks@.last(), task_id, task_title(before.inbox@[i].content@), fallback_area(), None, now)
        &&& after.inbox@ == before.inbox@.update(i, after.inbox@[i])
        &&& state_applied(before.inbox@[i], after.inbox@[i], InboxState::Processed)
        &&& after.areas@ == before.areas@
        &&& after.projects@ == before.projects@
        &&& after.notes@ == before.notes@
    }
}

/// Which inbox items a listing keeps: all, or those whose state token is `state`.
pub open spec fn inbox_keep(state: Option<String>) -> spec_fn(InboxItem) -> bool {
    |t: InboxItem|
        match state {
            Some(s) => t.state.token() == s@,
            None => true,
        }
}

/// The title that an inbox item with `content` converts into.
pub fn derive_task_title(content: &str) -> (r: String)
    ensures
        r@ == task_title(content@),
{
    let t = first_filled_line(content);
    let t = if t.as_str().is_empty() {
        String::from_str("Inbox item")
    } else {
        t
    };
    clamp_utf8(t.as_str(), MAX_TITLE_BYTES)
}

impl Db {
    /// Captures an inbox item under the given id.
    pub fn add_inbox_item(&mut self, id: String, content: &str, source: &str, now: &str) -> (r: Result<
        String,
        CommandError,
    >)
        ensures
            inbox_add_post(*old(self), *final(self), id@, content@, source@, now@, r),
            old(self).wf() ==> final(self).wf(),
    {
        let c = trim_text(content);
        if c.as_str().is_empty() {
            return Err(CommandError::Validation(Problem::EmptyContent));
        }
        let src = match InboxSource::parse(source) {
            Some(s) => s,
            None => {
                return Err(CommandError::Validation(Problem::InvalidSource));
            },
        };
        if find_row(&self.inbox, id.as_str()).is_some() {
            return Err(CommandError::DuplicateId(Entity::InboxItem));
        }
        let row = InboxItem {
            id: id.clone(),
            content: c,
            source: src,
            state: InboxState::Unprocessed,
            created_at: String::from_str(now),
        };
        let ghost g = row;
        self.inbox.push(row);
        proof {
            if old(self).wf() {
                lemma_push_unique(old(self).inbox@, g);
            }
            assert(self.inbox@.drop_last() =~= old(self).inbox@);
        }
        Ok(id)
    }

    /// Sets the state of the inbox item keyed `id`.
    pub fn set_inbox_state(&mut self, id: &str, state: InboxState) -> (r: Result<(), CommandError>)
        ensures
            inbox_state_post(*old(self), *final(self), id@, state, r),
            old(self).wf() ==> final(self).wf(),
    {
        match find_row(&self.inbox, id) {
            None => Err(CommandError::NotFound(Entity::InboxItem)),
            Some(i) => {
                let cur = &self.inbox[i];
                let row = InboxItem {
                    id: cur.id.clone(),
                    content: cur.content.clone(),
                    source: cur.source,
                    state,
                    created_at: cur.created_at.clone(),
                };
                let ghost g = row;
                self.inbox.set(i, row);
                proof {
                    if old(self).wf() {
                        lemma_update_unique(old(self).inbox@, i as int, g);
                    }
                }
                Ok(())
            },
        }
    }

    /// Converts an unprocessed inbox item into a new task keyed `task_id`
    /// and marks the item processed.  Every check runs before the first
    /// write, so a failure leaves the store as it was.
    pub fn convert_inbox_item(&mut self, inbox_id: &str, task_id: String, now: &str) -> (r: Result<
        String,
        CommandError,
    >)
        ensures
            convert_post(*old(self), *final(self), inbox_id@, task_id@, now@, r),
            old(self).wf() ==> final(self).wf(),
    {
        let i = match find_row(&self.inbox, inbox_id) {
            None => {
                return Err(CommandError::NotFound(Entity::InboxItem));
            },
            Some(i) => i,
        };
        if self.inbox[i].state != InboxState::Unprocessed {
            return Err(CommandError::InvalidState);
        }
        if find_row(&self.tasks, task_id.as_str()).is_some() {
            return Err(CommandError::DuplicateId(Entity::Task));
        }
        let title = derive_task_title(self.inbox[i].content.as_str());
        let task = TaskItem {
            id: task_id.clone(),
            area_id: fallback_area_id(),
            project_id: None,
            title,
            status: TaskStatus::Todo,
            priority: Priority::Normal,
            due_at: None,
            scheduled_at: None,
            created_at: String::from_str(now),
            completed_at: None,
        };
        let cur = &self.inbox[i];
        let item = InboxItem {
            id: cur.id.clone(),
            content: cur.content.clone(),
            source: cur.source,
            state: InboxState::Processed,
            created_at: cur.created_at.clone(),
        };
        let ghost gt = task;
        let ghost gi = item;
        self.tasks.push(task);
        self.inbox.set(i, item);
        proof {
            if old(self).wf() {
                lemma_push_unique(old(self).tasks@, gt);
                lemma_update_unique(old(self).inbox@, i as int, gi);
            }
            assert(self.tasks@.drop_last() =~= old(self).tasks@);
        }
        Ok(task_id)
    }
}

/// Captures `content` (trimmed) from `source` (`text` or `voice`) as an
/// unprocessed inbox item and returns its new id.
pub fn inbox_add(db: &mut Db, content: String, source: String, now: &str) -> (r: Result<String, CommandError>)
    ensures
        exists|id: Seq<char>|
            id.len() == 42 && id.subrange(0, 6) == "inbox_"@ && inbox_add_post(
                *old(db),
                *final(db),
                id,
                content@,
                source@,
                now@,
                r,
            ),
        old(db).wf() ==> final(db).wf(),
{
    let id = new_id("inbox_");
    proof {
        reveal_strlit("inbox_");
    }
    let ghost gid = id@;
    let r = db.add_inbox_item(id, content.as_str(), source.as_str(), now);
    assert(inbox_add_post(*old(db), *db, gid, content@, source@, now@, r));
    r
}

/// Lists the inbox items, latest created first; with `state`, only those
/// whose state token it is.
pub fn inbox_list(db: &Db, state: Option<String>) -> (r: Vec<InboxItem>)
    ensures
        r@ == latest_first(db.inbox@, inbox_keep(state)),
        stamps_descending(r@),
        r@.to_multiset() == db.inbox@.filter(inbox_keep(state)).to_multiset(),
{
    let n = db.inbox.len();
    let mut mask: Vec<bool> = Vec::new();
    let mut i: usize = 0;
    while i < n
        invariant
            i <= n,
            n == db.inbox@.len(),
            mask@.len() == i,
            forall|k: int| 0 <= k < i ==> mask@[k] == inbox_keep(state)(#[trigger] db.inbox@[k]),
        decreases n - i,
    {
        let row = &db.inbox[i];
        let keep = match &state {
            Some(s) => same_text(row.state.as_str(), s.as_str()),
            None => true,
        };
        mask.push(keep);
        i = i + 1;
    }
    latest_first_of(&db.inbox, &mask, Ghost(inbox_keep(state)))
}

/// Sets an inbox item's state from its token.
pub fn inbox_set_state(db: &mut Db, id: String, state: String) -> (r: Result<(), CommandError>)
    ensures
        match inbox_state_of(state@) {
            None => r == Err::<(), CommandError>(CommandError::Validation(Problem::InvalidState))
                && Db::same_rows(*old(db), *final(db)),
            Some(st) => inbox_state_post(*old(db), *final(db), id@, st, r),
        },
        old(db).wf() ==> final(db).wf(),
{
    match InboxState::parse(state.as_str()) {
        None => Err(CommandError::Validation(Problem::InvalidState)),
        Some(st) => db.set_inbox_state(id.as_str(), st),
    }
}

/// Converts the unprocessed inbox item keyed `inbox_id` into a `todo` task
/// under the fallback area, marks the item processed, and returns the new
/// task's id.
pub fn inbox_convert_to_task(db: &mut Db, inbox_id: String, now: &str) -> (r: Result<String, CommandError>)
    ensures
        exists|task_id: Seq<char>|
            task_id.len() == 41 && task_id.subrange(0, 5) == "task_"@ && convert_post(
                *old(db),
                *final(db),
                inbox_id@,
                task_id,
                now@,
                r,
            ),
        old(db).wf() ==> final(db).wf(),
{
    let task_id = new_id("task_");
    proof {
        reveal_strlit("task_");
    }
    let ghost gid = task_id@;
    let r = db.convert_inbox_item(inbox_id.as_str(), task_id, now);
    assert(convert_post(*old(db), *db, inbox_id@, gid, now@, r));
    r
}

} // verus!
