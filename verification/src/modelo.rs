use vstd::prelude::*;

use crate::tiempo::Instante;

verus! {

/// An application the agents work on (e.g. "portal-alumnos").
#[derive(Clone, Debug, PartialEq)]
pub struct Application {
    pub id: i64,
    pub slug: String,
    pub name: String,
    pub description: Option<String>,
    pub entry_count: i64,
    pub last_activity: Option<Instante>,
}

/// An extra markdown document attached to an entry.
#[derive(Clone, Debug, PartialEq)]
pub struct Attachment {
    pub id: i64,
    pub filename: String,
    pub kind: Option<String>,
    pub content_markdown: String,
    pub content_html: String,
}

/// A markdown document to attach when an entry is created.
#[derive(Clone, Debug, PartialEq)]
pub struct NewAttachment {
    pub filename: String,
    pub kind: Option<String>,
    pub content_markdown: String,
}

/// What an agent sends to record a task in the diary.
#[derive(Clone, Debug, PartialEq)]
pub struct NewEntry {
    /// Slug or name of the application; it is created when it does not exist.
    pub application: String,
    /// Identifier of the agent (e.g. "agente-ia").
    pub agent: String,
    pub model: Option<String>,
    pub title: String,
    pub prompt: String,
    pub task_summary: Option<String>,
    pub response_markdown: String,
    pub tags: Vec<String>,
    pub attachments: Vec<NewAttachment>,
    pub tokens_input: Option<i64>,
    pub tokens_output: Option<i64>,
    pub duration_ms: Option<i64>,
    /// Free JSON metadata, as JSON text.
    pub metadata: Option<String>,
}

/// Summary of an entry, for the timeline.
#[derive(Clone, Debug, PartialEq)]
pub struct EntrySummary {
    pub id: i64,
    pub application_slug: String,
    pub application_name: String,
    pub agent_name: String,
    pub model: Option<String>,
    pub title: String,
    pub snippet: String,
    pub tags: Vec<String>,
    pub created_at: Instante,
}

/// A whole entry, with its rendered markdown and attachments.
#[derive(Clone, Debug, PartialEq)]
pub struct Entry {
    pub id: i64,
    pub application_slug: String,
    pub application_name: String,
    pub agent_name: String,
    pub model: Option<String>,
    pub title: String,
    pub prompt: String,
    pub task_summary: Option<String>,
    pub response_markdown: String,
    pub response_html: String,
    pub status: Option<String>,
    pub tags: Vec<String>,
    pub tokens_input: Option<i64>,
    pub tokens_output: Option<i64>,
    pub duration_ms: Option<i64>,
    /// Free JSON metadata, as JSON text.
    pub metadata: Option<String>,
    pub created_at: Instante,
    /// When it was written to the repositories; `None` while it is pending.
    pub exported_at: Option<Instante>,
    /// Name of the exported file, computed by the server.
    pub export_filename: String,
    pub attachments: Vec<Attachment>,
}

/// A page of entry summaries.
#[derive(Clone, Debug, PartialEq)]
pub struct EntryPage {
    pub entries: Vec<EntrySummary>,
    pub next_cursor: Option<i64>,
}

/// Number of entries with a tag.
#[derive(Clone, Debug, PartialEq)]
pub struct TagCount {
    pub tag: String,
    pub count: i64,
}

/// Number of entries on a day.
#[derive(Clone, Debug, PartialEq)]
pub struct DayCount {
    pub day: String,
    pub count: i64,
}

/// The answer to creating an entry.
#[derive(Clone, Debug, PartialEq)]
pub struct CreatedEntry {
    pub id: i64,
    pub url: String,
}

/// A verified API key.
#[derive(Clone, Debug)]
pub struct KeyInfo {
    pub id: i64,
    pub name: String,
    pub scope: String,
}

/// A row of the API key listing (without the secret).
#[derive(Clone, Debug)]
pub struct ApiKeyRow {
    pub id: i64,
    pub name: String,
    pub scope: String,
    pub active: bool,
    pub created_at: String,
    pub last_used_at: Option<String>,
}

/// Arguments of the `log_task` tool.
#[derive(Clone, Debug)]
pub struct LogTaskArgs {
    pub application: String,
    pub title: String,
    pub prompt: String,
    pub response_markdown: String,
    pub task_summary: Option<String>,
    pub model: Option<String>,
    pub tags: Vec<String>,
}

/// Arguments of the `list_entries` tool.
#[derive(Clone, Debug)]
pub struct ListEntriesArgs {
    pub application: Option<String>,
    pub from: Option<String>,
    pub to: Option<String>,
    pub limit: Option<i64>,
}

/// Arguments of the `get_entry` tool.
#[derive(Clone, Debug)]
pub struct GetEntryArgs {
    pub id: i64,
}

}
