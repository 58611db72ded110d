use auralis::areas::{area_add, area_list, area_set_active};
use auralis::db::Db;
use auralis::error::{CommandError, Entity, Problem};
use auralis::inbox::{derive_task_title, inbox_add, inbox_convert_to_task, inbox_list, inbox_set_state};
use auralis::model::{InboxSource, InboxState, Priority, ProjectStatus, TaskStatus};
use auralis::notes::{note_add, note_delete, note_get, note_list, note_update};
use auralis::projects::{project_add, project_list, project_set_status};
use auralis::tasks::{task_add, task_list, task_set_status};

const T0: &str = "2024-01-01T00:00:00.000Z";
const T1: &str = "2024-01-01T00:00:01.000Z";
const T2: &str = "2024-01-01T00:00:02.000Z";

fn s(x: &str) -> String {
    x.to_string()
}

#[test]
fn blank_fields_are_rejected_without_writes() {
    let mut db = Db::new();
    assert_eq!(area_add(&mut db, s("   "), T0), Err(CommandError::Validation(Problem::EmptyName)));
    assert_eq!(project_add(&mut db, s(""), None, T0), Err(CommandError::Validation(Problem::EmptyName)));
    assert_eq!(task_add(&mut db, s(" \t\n"), None, None, T0), Err(CommandError::Validation(Problem::EmptyTitle)));
    assert_eq!(inbox_add(&mut db, s("  "), s("text"), T0), Err(CommandError::Validation(Problem::EmptyContent)));
    assert_eq!(
        note_add(&mut db, s(" "), s("body"), None, None, T0),
        Err(CommandError::Validation(Problem::EmptyTitle))
    );
    assert_eq!(
        note_add(&mut db, s("title"), s("\n"), None, None, T0),
        Err(CommandError::Validation(Problem::EmptyContent))
    );
    assert!(db.areas.is_empty() && db.projects.is_empty() && db.tasks.is_empty());
    assert!(db.inbox.is_empty() && db.notes.is_empty());
}

#[test]
fn inbox_rejects_unknown_source() {
    let mut db = Db::new();
    assert_eq!(inbox_add(&mut db, s("hello"), s("email"), T0), Err(CommandError::Validation(Problem::InvalidSource)));
    assert!(db.inbox.is_empty());
}

#[test]
fn missing_ids_are_not_found() {
    let mut db = Db::new();
    task_add(&mut db, s("a task"), None, None, T0).unwrap();
    assert_eq!(task_set_status(&mut db, s("task_nope"), s("done"), T1), Err(CommandError::NotFound(Entity::Task)));
    assert_eq!(db.tasks[0].status, TaskStatus::Todo);
    assert_eq!(project_set_status(&mut db, s("nope"), s("active")), Err(CommandError::NotFound(Entity::Project)));
    assert_eq!(inbox_set_state(&mut db, s("nope"), s("archived")), Err(CommandError::NotFound(Entity::InboxItem)));
    assert_eq!(area_set_active(&mut db, s("nope"), false), Err(CommandError::NotFound(Entity::Area)));
    assert_eq!(note_delete(&mut db, s("nope")), Err(CommandError::NotFound(Entity::Note)));
    assert_eq!(note_get(&db, s("nope")).unwrap_err(), CommandError::NotFound(Entity::Note));
    assert_eq!(
        note_update(&mut db, s("nope"), s("t"), s("c"), None, None, T1),
        Err(CommandError::NotFound(Entity::Note))
    );
}

#[test]
fn invalid_tokens_are_validation_errors() {
    let mut db = Db::new();
    let t = task_add(&mut db, s("a"), None, None, T0).unwrap();
    assert_eq!(task_set_status(&mut db, t, s("finished"), T1), Err(CommandError::Validation(Problem::InvalidStatus)));
    let p = project_add(&mut db, s("p"), None, T0).unwrap();
    assert_eq!(project_set_status(&mut db, p, s("todo")), Err(CommandError::Validation(Problem::InvalidStatus)));
    let i = inbox_add(&mut db, s("x"), s("voice"), T0).unwrap();
    assert_eq!(inbox_set_state(&mut db, i, s("gone")), Err(CommandError::Validation(Problem::InvalidState)));
}

#[test]
fn convert_succeeds_once() {
    let mut db = Db::new();
    let id = inbox_add(&mut db, s("call the bank"), s("voice"), T0).unwrap();
    let task = inbox_convert_to_task(&mut db, id.clone(), T1).unwrap();
    assert!(task.starts_with("task_"));
    assert_eq!(inbox_convert_to_task(&mut db, id.clone(), T2), Err(CommandError::InvalidState));
    assert_eq!(db.tasks.len(), 1);
    assert_eq!(inbox_convert_to_task(&mut db, s("inbox_missing"), T2), Err(CommandError::NotFound(Entity::InboxItem)));
}

#[test]
fn archived_items_do_not_convert() {
    let mut db = Db::new();
    let id = inbox_add(&mut db, s("later"), s("text"), T0).unwrap();
    inbox_set_state(&mut db, id.clone(), s("archived")).unwrap();
    assert_eq!(inbox_convert_to_task(&mut db, id, T1), Err(CommandError::InvalidState));
    assert!(db.tasks.is_empty());
}

#[test]
fn done_sets_and_other_status_clears_completion() {
    let mut db = Db::new();
    let id = task_add(&mut db, s("write report"), None, None, T0).unwrap();
    task_set_status(&mut db, id.clone(), s("done"), T1).unwrap();
    assert_eq!(db.tasks[0].status, TaskStatus::Done);
    assert_eq!(db.tasks[0].completed_at, Some(s(T1)));
    task_set_status(&mut db, id.clone(), s("doing"), T2).unwrap();
    assert_eq!(db.tasks[0].status, TaskStatus::Doing);
    assert_eq!(db.tasks[0].completed_at, None);
    task_set_status(&mut db, id.clone(), s("deferred"), T2).unwrap();
    assert_eq!(db.tasks[0].completed_at, None);
}

#[test]
fn long_first_line_is_cut_to_limit() {
    let line: String = "abcdefghij".repeat(13);
    let mut db = Db::new();
    let id = inbox_add(&mut db, format!("{line}\nsecond"), s("text"), T0).unwrap();
    inbox_convert_to_task(&mut db, id, T1).unwrap();
    assert_eq!(db.tasks[0].title, line[..120].to_string());
    assert_eq!(db.tasks[0].title.len(), 120);
}

#[test]
fn title_clamp_never_splits_a_character() {
    let line: String = "é".repeat(70);
    let title = derive_task_title(&line);
    assert_eq!(title, "é".repeat(60));
    assert_eq!(title.len(), 120);
}

#[test]
fn title_skips_blank_lines_and_falls_back() {
    assert_eq!(derive_task_title("   \nsecond line"), "second line");
    assert_eq!(derive_task_title(" \r\n \t\n"), "Inbox item");
    assert_eq!(derive_task_title(""), "Inbox item");
    assert_eq!(derive_task_title("  Buy milk \r\nmore"), "Buy milk");
}

#[test]
fn note_list_prefers_project_filter() {
    let mut db = Db::new();
    let both = note_add(&mut db, s("a"), s("x"), Some(s("area_1")), Some(s("project_1")), T0).unwrap();
    let area_only = note_add(&mut db, s("b"), s("y"), Some(s("area_1")), None, T1).unwrap();
    let other = note_add(&mut db, s("c"), s("z"), Some(s("area_2")), Some(s("project_1")), T2).unwrap();
    let listed: Vec<String> =
        note_list(&db, Some(s("area_1")), Some(s("project_1"))).into_iter().map(|n| n.id).collect();
    assert_eq!(listed, vec![other.clone(), both.clone()]);
    let by_area: Vec<String> = note_list(&db, Some(s("area_1")), None).into_iter().map(|n| n.id).collect();
    assert_eq!(by_area, vec![area_only.clone(), both.clone()]);
    assert_eq!(note_list(&db, None, None).len(), 3);
}

#[test]
fn end_to_end_inbox_to_task() {
    let mut db = Db::new();
    let id = inbox_add(&mut db, s("Buy milk\nAlso check mail"), s("text"), T0).unwrap();
    let task_id = inbox_convert_to_task(&mut db, id.clone(), T1).unwrap();
    let tasks = task_list(&db, None);
    assert_eq!(tasks.len(), 1);
    assert_eq!(tasks[0].id, task_id);
    assert_eq!(tasks[0].title, "Buy milk");
    assert_eq!(tasks[0].area_id, "area_admin_life");
    assert_eq!(tasks[0].status, TaskStatus::Todo);
    assert_eq!(tasks[0].priority, Priority::Normal);
    assert_eq!(tasks[0].project_id, None);
    let processed = inbox_list(&db, Some(s("processed")));
    assert!(processed.iter().any(|i| i.id == id));
    assert_eq!(processed[0].state, InboxState::Processed);
    assert!(inbox_list(&db, Some(s("unprocessed"))).is_empty());
}

#[test]
fn adds_trim_and_default() {
    let mut db = Db::new();
    let a = area_add(&mut db, s("  Health  "), T0).unwrap();
    assert!(a.starts_with("area_") && a.len() == 41);
    assert_eq!(db.areas[0].name, "Health");
    assert!(db.areas[0].active);
    let p = project_add(&mut db, s(" Garden "), None, T0).unwrap();
    assert!(p.starts_with("project_"));
    assert_eq!(db.projects[0].area_id, "area_admin_life");
    assert_eq!(db.projects[0].status, ProjectStatus::Paused);
    let p2 = project_add(&mut db, s("Run"), Some(a.clone()), T1).unwrap();
    assert_eq!(db.projects[1].area_id, a);
    let t = task_add(&mut db, s(" Dig "), Some(a.clone()), Some(p2.clone()), T1).unwrap();
    assert!(t.starts_with("task_") && t.len() == 41);
    assert_eq!(db.tasks[0].title, "Dig");
    assert_eq!(db.tasks[0].project_id, Some(p2));
    let i = inbox_add(&mut db, s("  idea  "), s("voice"), T0).unwrap();
    assert!(i.starts_with("inbox_"));
    assert_eq!(db.inbox[0].content, "idea");
    assert_eq!(db.inbox[0].source, InboxSource::Voice);
    assert_eq!(db.inbox[0].state, InboxState::Unprocessed);
    assert_ne!(i, inbox_add(&mut db, s("idea"), s("text"), T1).unwrap());
}

#[test]
fn lists_are_newest_first_and_filtered() {
    let mut db = Db::new();
    let a = task_add(&mut db, s("first"), None, None, T0).unwrap();
    let b = task_add(&mut db, s("second"), None, None, T1).unwrap();
    task_set_status(&mut db, a.clone(), s("done"), T2).unwrap();
    let all: Vec<String> = task_list(&db, None).into_iter().map(|t| t.id).collect();
    assert_eq!(all, vec![b.clone(), a.clone()]);
    let done: Vec<String> = task_list(&db, Some(s("done"))).into_iter().map(|t| t.id).collect();
    assert_eq!(done, vec![a]);
    assert!(task_list(&db, Some(s("bogus"))).is_empty());
    let p1 = project_add(&mut db, s("one"), None, T0).unwrap();
    let p2 = project_add(&mut db, s("two"), None, T1).unwrap();
    project_set_status(&mut db, p2.clone(), s("active")).unwrap();
    let ps: Vec<String> = project_list(&db, None).into_iter().map(|p| p.id).collect();
    assert_eq!(ps, vec![p2.clone(), p1.clone()]);
    let active: Vec<String> = project_list(&db, Some(s("active"))).into_iter().map(|p| p.id).collect();
    assert_eq!(active, vec![p2]);
}

#[test]
fn areas_list_by_name_and_activity() {
    let mut db = Db::new();
    let w = area_add(&mut db, s("Work"), T0).unwrap();
    area_add(&mut db, s("Admin"), T1).unwrap();
    area_add(&mut db, s("Health"), T2).unwrap();
    let names: Vec<String> = area_list(&db, None).into_iter().map(|a| a.name).collect();
    assert_eq!(names, vec![s("Admin"), s("Health"), s("Work")]);
    area_set_active(&mut db, w, false).unwrap();
    let active: Vec<String> = area_list(&db, Some(true)).into_iter().map(|a| a.name).collect();
    assert_eq!(active, vec![s("Admin"), s("Health")]);
    assert_eq!(area_list(&db, Some(false)).len(), 3);
}

#[test]
fn note_update_moves_to_front_and_delete_removes() {
    let mut db = Db::new();
    let a = note_add(&mut db, s(" A "), s(" one "), None, None, T0).unwrap();
    let b = note_add(&mut db, s("B"), s("two"), None, None, T1).unwrap();
    note_update(&mut db, a.clone(), s("A2"), s("uno"), Some(s("area_x")), None, T2).unwrap();
    let ids: Vec<String> = note_list(&db, None, None).into_iter().map(|n| n.id).collect();
    assert_eq!(ids, vec![a.clone(), b.clone()]);
    let got = note_get(&db, a.clone()).unwrap();
    assert_eq!(got.title, "A2");
    assert_eq!(got.content, "uno");
    assert_eq!(got.created_at, T0);
    assert_eq!(got.updated_at, T2);
    assert_eq!(got.area_id, Some(s("area_x")));
    assert_eq!(
        note_update(&mut db, a.clone(), s(" "), s("x"), None, None, T2),
        Err(CommandError::Validation(Problem::EmptyTitle))
    );
    note_delete(&mut db, b.clone()).unwrap();
    assert_eq!(db.notes.len(), 1);
    assert_eq!(note_get(&db, b).unwrap_err(), CommandError::NotFound(Entity::Note));
}

#[test]
fn duplicate_id_is_refused() {
    let mut db = Db::new();
    assert_eq!(db.add_task(s("task_1"), "x", None, None, T0), Ok(s("task_1")));
    assert_eq!(db.add_task(s("task_1"), "y", None, None, T0), Err(CommandError::DuplicateId(Entity::Task)));
    assert_eq!(db.tasks.len(), 1);
}

#[test]
fn area_names_sort_by_code_point() {
    let mut db = Db::new();
    area_add(&mut db, s("b"), T0).unwrap();
    area_add(&mut db, s("B"), T0).unwrap();
    area_add(&mut db, s("ab"), T0).unwrap();
    area_add(&mut db, s("a"), T0).unwrap();
    area_add(&mut db, s("b"), T1).unwrap();
    let listed: Vec<(String, String)> =
        area_list(&db, None).into_iter().map(|a| (a.name, a.created_at)).collect();
    let expect: Vec<(String, String)> =
        vec![(s("B"), s(T0)), (s("a"), s(T0)), (s("ab"), s(T0)), (s("b"), s(T0)), (s("b"), s(T1))];
    assert_eq!(listed, expect);
}

#[test]
fn new_ids_carry_a_hyphenated_uuid() {
    let mut db = Db::new();
    let id = task_add(&mut db, s("x"), None, None, T0).unwrap();
    let token: Vec<char> = id["task_".len()..].chars().collect();
    assert_eq!(token.len(), 36);
    for (k, c) in token.iter().enumerate() {
        if [8, 13, 18, 23].contains(&k) {
            assert_eq!(*c, '-');
        } else {
            assert!(c.is_ascii_digit() || ('a'..='f').contains(c));
        }
    }
}

#[test]
fn listings_follow_stamps_not_table_order() {
    let mut db = Db::new();
    let late = task_add(&mut db, s("late"), None, None, T2).unwrap();
    let early = task_add(&mut db, s("early"), None, None, T0).unwrap();
    let mid = task_add(&mut db, s("mid"), None, None, T1).unwrap();
    let ids: Vec<String> = task_list(&db, None).into_iter().map(|t| t.id).collect();
    assert_eq!(ids, vec![late, mid, early]);

    let a = inbox_add(&mut db, s("a"), s("text"), T1).unwrap();
    let b = inbox_add(&mut db, s("b"), s("text"), T0).unwrap();
    let ids: Vec<String> = inbox_list(&db, None).into_iter().map(|i| i.id).collect();
    assert_eq!(ids, vec![a, b]);

    let p = project_add(&mut db, s("p"), None, T2).unwrap();
    let q = project_add(&mut db, s("q"), None, T0).unwrap();
    let ids: Vec<String> = project_list(&db, None).into_iter().map(|p| p.id).collect();
    assert_eq!(ids, vec![p, q]);

    let n1 = note_add(&mut db, s("n1"), s("x"), Some(s("area_1")), None, T2).unwrap();
    let n2 = note_add(&mut db, s("n2"), s("y"), Some(s("area_1")), None, T1).unwrap();
    let ids: Vec<String> = note_list(&db, Some(s("area_1")), None).into_iter().map(|n| n.id).collect();
    assert_eq!(ids, vec![n1, n2]);
}

#[test]
fn equal_stamps_keep_table_order() {
    let mut db = Db::new();
    let a = task_add(&mut db, s("a"), None, None, T0).unwrap();
    let b = task_add(&mut db, s("b"), None, None, T0).unwrap();
    let c = task_add(&mut db, s("c"), None, None, T1).unwrap();
    let ids: Vec<String> = task_list(&db, None).into_iter().map(|t| t.id).collect();
    assert_eq!(ids, vec![c, a, b]);
}
