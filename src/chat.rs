//! The language-model chat exchange: the request that is sent, and what a
//! response means.  Sending and decoding are left to the caller.
use vstd::prelude::*;
use vstd::string::StringExecFns;
use crate::db::{first_pos, Db};
use crate::error::{CommandError, Entity};
use crate::notes::note_get;
use crate::text::{is_blank, trim_spec, trim_text};

verus! {

/// Where chat requests are posted.
pub const CHAT_ENDPOINT: &'static str = "http://127.0.0.1:11434/api/chat";

/// The model that summarises notes.
pub const SUMMARY_MODEL: &'static str = "llama3.1:8b";

/// Instructions that frame every note summary.
pub const SUMMARY_SYSTEM_PROMPT: &'static str = r#"You are Auralis, a personal command-center assistant.

        Your job is to transform raw notes into clear, non-redundant thinking.

        Rules:
        - Do NOT use meta language (e.g. "this note", "the author", "the writer").
        - Do NOT repeat points or restate the same idea in different words.
        - Group related ideas together.
        - Ignore filler, repetition, and emotional venting unless it affects decisions.
        - Prefer concrete details (deadlines, commitments, constraints).
        - Limit Possible actions to the most important 5.
        - If any actions are time-sensitive, prefix them with "[Soon]".

        Output format (strict):

        Summary:
        - 5–8 concise bullets grouped by theme.
        - Each bullet should represent a distinct idea.

        Possible actions:
        - Up to 5 clear, actionable next steps inferred from the note.
        - Actions should be phrased as commands (e.g. "Check…", "Decide…", "Prepare…").

        Do not add anything else."#;

pub struct ChatMessage {
    pub role: String,
    pub content: String,
}

/// One non-streaming chat request: a system message, then a user message.
pub struct ChatRequest {
    pub model: String,
    pub messages: Vec<ChatMessage>,
    pub stream: bool,
}

impl ChatRequest {
    /// This request carries `model`, then `system` and `user` as the system
    /// and user messages, and asks for no streaming.
    pub open spec fn carries(self, model: Seq<char>, system: Seq<char>, user: Seq<char>) -> bool {
        &&& self.model@ == model
        &&& self.messages@.len() == 2
        &&& self.messages@[0].role@ == "system"@
        &&& self.messages@[0].content@ == system
        &&& self.messages@[1].role@ == "user"@
        &&& self.messages@[1].content@ == user
        &&& !self.stream
    }
}

/// Builds the request for one chat exchange.
pub fn chat_request(model: &str, system: &str, user: &str) -> (r: ChatRequest)
    ensures
        r.carries(model@, system@, user@),
{
    let mut messages: Vec<ChatMessage> = Vec::new();
    messages.push(ChatMessage { role: String::from_str("system"), content: String::from_str(system) });
    messages.push(ChatMessage { role: String::from_str("user"), content: String::from_str(user) });
    ChatRequest { model: String::from_str(model), messages, stream: false }
}

/// A success status is one in 200..=299.
pub open spec fn is_success(status: u16) -> bool {
    200 <= status <= 299
}

/// Checks the response status, read before the body: anything but success
/// is a transport error that carries the status and the body text.
pub fn check_status(status: u16, body: String) -> (r: Result<(), CommandError>)
    ensures
        is_success(status) ==> r == Ok::<(), CommandError>(()),
        !is_success(status) ==> r == Err::<(), CommandError>(
            CommandError::Transport { status: Some(status), detail: body },
        ),
{
    if 200 <= status && status <= 299 {
        Ok(())
    } else {
        Err(CommandError::Transport { status: Some(status), detail: body })
    }
}

/// The text of a decoded reply: the message content trimmed, which must not
/// be empty.  A reply without a message is not of the expected shape.
pub fn reply_content(message: Option<ChatMessage>) -> (r: Result<String, CommandError>)
    ensures
        match message {
            Some(m) => if is_blank(m.content@) {
                r == Err::<String, CommandError>(CommandError::EmptyResponse)
            } else {
                r is Ok && r->Ok_0@ == trim_spec(m.content@)
            },
            None => r is Err && r->Err_0 is Parse,
        },
{
    match message {
        None => Err(CommandError::Parse(String::from_str("the response carries no message"))),
        Some(m) => {
            let t = trim_text(m.content.as_str());
            if t.as_str().is_empty() {
                Err(CommandError::EmptyResponse)
            } else {
                Ok(t)
            }
        },
    }
}

/// The user prompt that asks for a summary of a note.
pub open spec fn summary_prompt(title: Seq<char>, content: Seq<char>) -> Seq<char> {
    "Summarise this note.\n\nTitle: "@ + title + "\n\nContent:\n"@ + content
}

/// The chat request that summarises the note keyed `note_id`.
pub fn summary_request(db: &Db, note_id: String) -> (r: Result<ChatRequest, CommandError>)
    ensures
        ({
            let i = first_pos(db.notes@, note_id@) as int;
            if i == db.notes@.len() {
                r is Err && r->Err_0 == CommandError::NotFound(Entity::Note)
            } else {
                r is Ok && r->Ok_0.carries(
                    SUMMARY_MODEL@,
                    SUMMARY_SYSTEM_PROMPT@,
                    summary_prompt(db.notes@[i].title@, db.notes@[i].content@),
                )
            }
        }),
{
    let note = match note_get(db, note_id) {
        Ok(n) => n,
        Err(e) => {
            return Err(e);
        },
    };
    let user = String::from_str("Summarise this note.\n\nTitle: ").concat(note.title.as_str()).concat(
        "\n\nContent:\n",
    ).concat(note.content.as_str());
    Ok(chat_request(SUMMARY_MODEL, SUMMARY_SYSTEM_PROMPT, user.as_str()))
}

} // verus!
