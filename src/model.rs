//! Entity records and the closed sets of values their fields take.
use vstd::prelude::*;
use crate::text::same_text;

verus! {

/// Lifecycle of a project.
#[derive(Clone, Copy, Debug, PartialEq, Eq, Structural)]
pub enum ProjectStatus {
    Paused,
    Active,
    Completed,
}

/// Lifecycle of a task; `Done` is the only state that carries a completion time.
#[derive(Clone, Copy, Debug, PartialEq, Eq, Structural)]
pub enum TaskStatus {
    Todo,
    Doing,
    Done,
    Deferred,
}

#[derive(Clone, Copy, Debug, PartialEq, Eq, Structural)]
pub enum Priority {
    Low,
    Normal,
    High,
}

/// How an inbox item was captured.
#[derive(Clone, Copy, Debug, PartialEq, Eq, Structural)]
pub enum InboxSource {
    Text,
    Voice,
}

/// Processing state of an inbox item.
#[derive(Clone, Copy, Debug, PartialEq, Eq, Structural)]
pub enum InboxState {
    Unprocessed,
    Processed,
    Archived,
}

pub open spec fn project_status_of(s: Seq<char>) -> Option<ProjectStatus> {
    if s == "paused"@ {
        Some(ProjectStatus::Paused)
    } else if s == "active"@ {
        Some(ProjectStatus::Active)
    } else if s == "completed"@ {
        Some(ProjectStatus::Completed)
    } else {
        None
    }
}

pub open spec fn task_status_of(s: Seq<char>) -> Option<TaskStatus> {
    if s == "todo"@ {
        Some(TaskStatus::Todo)
    } else if s == "doing"@ {
        Some(TaskStatus::Doing)
    } else if s == "done"@ {
        Some(TaskStatus::Done)
    } else if s == "deferred"@ {
        Some(TaskStatus::Deferred)
    } else {
        None
    }
}

pub open spec fn priority_of(s: Seq<char>) -> Option<Priority> {
    if s == "low"@ {
        Some(Priority::Low)
    } else if s == "normal"@ {
        Some(Priority::Normal)
    } else if s == "high"@ {
        Some(Priority::High)
    } else {
        None
    }
}

pub open spec fn inbox_source_of(s: Seq<char>) -> Option<InboxSource> {
    if s == "text"@ {
        Some(InboxSource::Text)
    } else if s == "voice"@ {
        Some(InboxSource::Voice)
    } else {
        None
    }
}

pub open spec fn inbox_state_of(s: Seq<char>) -> Option<InboxState> {
    if s == "unprocessed"@ {
        Some(InboxState::Unprocessed)
    } else if s == "processed"@ {
        Some(InboxState::Processed)
    } else if s == "archived"@ {
        Some(InboxState::Archived)
    } else {
        None
    }
}

impl ProjectStatus {
    /// The token under which the value is stored.
    pub open spec fn token(self) -> Seq<char> {
        match self {
            ProjectStatus::Paused => "paused"@,
            ProjectStatus::Active => "active"@,
            ProjectStatus::Completed => "completed"@,
        }
    }

    /// Reads the stored token (`paused`, `active`, `completed`).
    pub fn parse(s: &str) -> (r: Option<ProjectStatus>)
        ensures
            r == project_status_of(s@),
    {
        if same_text(s, "paused") {
            Some(ProjectStatus::Paused)
        } else if same_text(s, "active") {
            Some(ProjectStatus::Active)
        } else if same_text(s, "completed") {
            Some(ProjectStatus::Completed)
        } else {
            None
        }
    }

    pub fn as_str(&self) -> (r: &'static str)
        ensures
            r@ == self.token(),
    {
        match self {
            ProjectStatus::Paused => "paused",
            ProjectStatus::Active => "active",
            ProjectStatus::Completed => "completed",
        }
    }
}

impl TaskStatus {
    /// The token under which the value is stored.
    pub open spec fn token(self) -> Seq<char> {
        match self {
            TaskStatus::Todo => "todo"@,
            TaskStatus::Doing => "doing"@,
            TaskStatus::Done => "done"@,
            TaskStatus::Deferred => "deferred"@,
        }
    }

    /// Reads the stored token (`todo`, `doing`, `done`, `deferred`).
    pub fn parse(s: &str) -> (r: Option<TaskStatus>)
        ensures
            r == task_status_of(s@),
    {
        if same_text(s, "todo") {
            Some(TaskStatus::Todo)
        } else if same_text(s, "doing") {
            Some(TaskStatus::Doing)
        } else if same_text(s, "done") {
            Some(TaskStatus::Done)
        } else if same_text(s, "deferred") {
            Some(TaskStatus::Deferred)
        } else {
            None
        }
    }

    pub fn as_str(&self) -> (r: &'static str)
        ensures
            r@ == self.token(),
    {
        match self {
            TaskStatus::Todo => "todo",
            TaskStatus::Doing => "doing",
            TaskStatus::Done => "done",
            TaskStatus::Deferred => "deferred",
        }
    }
}

impl Priority {
    /// The token under which the value is stored.
    pub open spec fn token(self) -> Seq<char> {
        match self {
            Priority::Low => "low"@,
            Priority::Normal => "normal"@,
            Priority::High => "high"@,
        }
    }

    /// Reads the stored token (`low`, `normal`, `high`).
    pub fn parse(s: &str) -> (r: Option<Priority>)
        ensures
            r == priority_of(s@),
    {
        if same_text(s, "low") {
            Some(Priority::Low)
        } else if same_text(s, "normal") {
            Some(Priority::Normal)
        } else if same_text(s, "high") {
            Some(Priority::High)
        } else {
            None
        }
    }

    pub fn as_str(&self) -> (r: &'static str)
        ensures
            r@ == self.token(),
    {
        match self {
            Priority::Low => "low",
            Priority::Normal => "normal",
            Priority::High => "high",
        }
    }
}

impl InboxSource {
    /// The token under which the value is stored.
    pub open spec fn token(self) -> Seq<char> {
        match self {
            InboxSource::Text => "text"@,
            InboxSource::Voice => "voice"@,
        }
    }

    /// Reads the stored token (`text`, `voice`).
    pub fn parse(s: &str) -> (r: Option<InboxSource>)
        ensures
            r == inbox_source_of(s@),
    {
        if same_text(s, "text") {
            Some(InboxSource::Text)
        } else if same_text(s, "voice") {
            Some(InboxSource::Voice)
        } else {
            None
        }
    }

    pub fn as_str(&self) -> (r: &'static str)
        ensures
            r@ == self.token(),
    {
        match self {
            InboxSource::Text => "text",
            InboxSource::Voice => "voice",
        }
    }
}

impl InboxState {
    /// The token under which the value is stored.
    pub open spec fn token(self) -> Seq<char> {
        match self {
            InboxState::Unprocessed => "unprocessed"@,
            InboxState::Processed => "processed"@,
            InboxState::Archived => "archived"@,
        }
    }

    /// Reads the stored token (`unprocessed`, `processed`, `archived`).
    pub fn parse(s: &str) -> (r: Option<InboxState>)
        ensures
            r == inbox_state_of(s@),
    {
        if same_text(s, "unprocessed") {
            Some(InboxState::Unprocessed)
        } else if same_text(s, "processed") {
            Some(InboxState::Processed)
        } else if same_text(s, "archived") {
            Some(InboxState::Archived)
        } else {
            None
        }
    }

    pub fn as_str(&self) -> (r: &'static str)
        ensures
            r@ == self.token(),
    {
        match self {
            InboxState::Unprocessed => "unprocessed",
            InboxState::Processed => "processed",
            InboxState::Archived => "archived",
        }
    }
}

/// Copies an optional text field.
pub fn copy_opt(o: &Option<String>) -> (r: Option<String>)
    ensures
        r == *o,
{
    match o {
        Some(s) => Some(s.clone()),
        None => None,
    }
}

#[derive(Debug)]
pub struct AreaItem {
    pub id: String,
    pub name: String,
    pub active: bool,
    pub created_at: String,
}

#[derive(Debug)]
pub struct ProjectItem {
    pub id: String,
    pub area_id: String,
    pub name: String,
    pub status: ProjectStatus,
    pub created_at: String,
}

#[derive(Debug)]
pub struct TaskItem {
    pub id: String,
    pub area_id: String,
    pub project_id: Option<String>,
    pub title: String,
    pub status: TaskStatus,
    pub priority: Priority,
    pub due_at: Option<String>,
    pub scheduled_at: Option<String>,
    pub created_at: String,
    pub completed_at: Option<String>,
}

#[derive(Debug)]
pub struct NoteItem {
    pub id: String,
    pub title: String,
    pub content: String,
    pub area_id: Option<String>,
    pub project_id: Option<String>,
    pub created_at: String,
    pub updated_at: String,
}

#[derive(Debug)]
pub struct InboxItem {
    pub id: String,
    pub content: String,
    pub source: InboxSource,
    pub state: InboxState,
    pub created_at: String,
}

impl AreaItem {
    pub fn duplicate(&self) -> (r: AreaItem)
        ensures
            r == *self,
    {
        AreaItem {
            id: self.id.clone(),
            name: self.name.clone(),
            active: self.active,
            created_at: self.created_at.clone(),
        }
    }
}

impl ProjectItem {
    pub fn duplicate(&self) -> (r: ProjectItem)
        ensures
            r == *self,
    {
        ProjectItem {
            id: self.id.clone(),
            area_id: self.area_id.clone(),
            name: self.name.clone(),
            status: self.status,
            created_at: self.created_at.clone(),
        }
    }
}

impl TaskItem {
    pub fn duplicate(&self) -> (r: TaskItem)
        ensures
            r == *self,
    {
        TaskItem {
            id: self.id.clone(),
            area_id: self.area_id.clone(),
            project_id: copy_opt(&self.project_id),
            title: self.title.clone(),
            status: self.status,
            priority: self.priority,
            due_at: copy_opt(&self.due_at),
            scheduled_at: copy_opt(&self.scheduled_at),
            created_at: self.created_at.clone(),
            completed_at: copy_opt(&self.completed_at),
        }
    }
}

impl NoteItem {
    pub fn duplicate(&self) -> (r: NoteItem)
        ensures
            r == *self,
    {
        NoteItem {
            id: self.id.clone(),
            title: self.title.clone(),
            content: self.content.clone(),
            area_id: copy_opt(&self.area_id),
            project_id: copy_opt(&self.project_id),
            created_at: self.created_at.clone(),
            updated_at: self.updated_at.clone(),
        }
    }
}

impl InboxItem {
    pub fn duplicate(&self) -> (r: InboxItem)
        ensures
            r == *self,
    {
        InboxItem {
            id: self.id.clone(),
            content: self.content.clone(),
            source: self.source,
            state: self.state,
            created_at: self.created_at.clone(),
        }
    }
}

} // verus!
