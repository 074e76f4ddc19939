//! Log entries, their text form, and the bounded buffer that holds the most
//! recent ones.

use crate::numbers::{decimal, push_decimal, push_text};
use crate::text::string_of;
use std::collections::VecDeque;
use vstd::prelude::*;

verus! {

/// Maximum number of log entries kept in memory.
pub const MAX_LOG_ENTRIES: usize = 1000;

/// Severity of a log entry.
#[derive(Debug, Clone, Copy, PartialEq, Eq, Structural)]
pub enum LogLevel {
    Debug,
    Info,
    Warning,
    Error,
}

impl LogLevel {
    /// The upper-case label written in front of a log line.
    pub open spec fn label(self) -> Seq<char> {
        match self {
            LogLevel::Debug => "DEBUG"@,
            LogLevel::Info => "INFO"@,
            LogLevel::Warning => "WARNING"@,
            LogLevel::Error => "ERROR"@,
        }
    }

    /// The label of the level.
    pub fn as_str(&self) -> (s: &'static str)
        ensures
            s@ == self.label(),
    {
        match self {
            LogLevel::Debug => "DEBUG",
            LogLevel::Info => "INFO",
            LogLevel::Warning => "WARNING",
            LogLevel::Error => "ERROR",
        }
    }
}

/// One log entry.
#[derive(Debug, Clone)]
pub struct LogEntry {
    /// When the entry was made.
    pub timestamp: String,
    /// Severity.
    pub level: LogLevel,
    /// The message.
    pub message: String,
    /// The kind of process that logged it, such as `TRANSLATION`.
    pub process_type: Option<String>,
}

/// Progress of the translation of one file.
#[derive(Debug, Clone)]
pub struct FileProgressInfo {
    pub file_name: String,
    pub file_index: i32,
    pub total_files: i32,
    pub chunks_completed: i32,
    pub total_chunks: i32,
    pub keys_completed: i32,
    pub total_keys: i32,
}

/// The line that is written to the log file for an entry.
pub open spec fn log_line(entry: LogEntry) -> Seq<char> {
    "["@ + entry.timestamp@ + "] ["@ + entry.level.label() + "] "@ + (match entry.process_type {
        Some(kind) => "["@ + kind@ + "] "@,
        None => Seq::empty(),
    }) + entry.message@ + "\n"@
}

/// Formats an entry as a line of the log file.
pub fn format_log_line(entry: &LogEntry) -> (line: String)
    ensures
        line@ == log_line(*entry),
{
    let mut out: Vec<char> = Vec::new();
    push_text(&mut out, "[");
    push_text(&mut out, entry.timestamp.as_str());
    push_text(&mut out, "] [");
    push_text(&mut out, entry.level.as_str());
    push_text(&mut out, "] ");
    match &entry.process_type {
        Some(kind) => {
            push_text(&mut out, "[");
            push_text(&mut out, kind.as_str());
            push_text(&mut out, "] ");
        },
        None => {},
    }
    push_text(&mut out, entry.message.as_str());
    push_text(&mut out, "\n");
    assert(out@ =~= log_line(*entry));
    string_of(&out)
}

/// The message that opens a translation session.
pub open spec fn translation_start_text(
    session_id: Seq<char>,
    target_language: Seq<char>,
    total_files: int,
    total_content_size: int,
) -> Seq<char> {
    "Starting translation session "@ + session_id + " to "@ + target_language + " - "@ + decimal(
        total_files,
    ) + " files, ~"@ + decimal(total_content_size) + " translation keys"@
}

/// Composes the message that opens a translation session.
pub fn translation_start_message(
    session_id: &str,
    target_language: &str,
    total_files: i32,
    total_content_size: i32,
) -> (message: String)
    ensures
        message@ == translation_start_text(
            session_id@,
            target_language@,
            total_files as int,
            total_content_size as int,
        ),
{
    let mut out: Vec<char> = Vec::new();
    push_text(&mut out, "Starting translation session ");
    push_text(&mut out, session_id);
    push_text(&mut out, " to ");
    push_text(&mut out, target_language);
    push_text(&mut out, " - ");
    push_decimal(&mut out, total_files as i64);
    push_text(&mut out, " files, ~");
    push_decimal(&mut out, total_content_size as i64);
    push_text(&mut out, " translation keys");
    assert(out@ =~= translation_start_text(
        session_id@,
        target_language@,
        total_files as int,
        total_content_size as int,
    ));
    string_of(&out)
}

/// The message that states the scope of a translation.
pub open spec fn translation_scope_text(total_files: int, estimated_keys: int, estimated_lines: int) -> Seq<
    char,
> {
    "Translation scope: "@ + decimal(total_files) + " files containing ~"@ + decimal(
        estimated_keys,
    ) + " keys and ~"@ + decimal(estimated_lines) + " lines"@
}

/// Composes the message that states the scope of a translation.
pub fn translation_scope_message(total_files: i32, estimated_keys: i32, estimated_lines: i32) -> (message:
    String)
    ensures
        message@ == translation_scope_text(
            total_files as int,
            estimated_keys as int,
            estimated_lines as int,
        ),
{
    let mut out: Vec<char> = Vec::new();
    push_text(&mut out, "Translation scope: ");
    push_decimal(&mut out, total_files as i64);
    push_text(&mut out, " files containing ~");
    push_decimal(&mut out, estimated_keys as i64);
    push_text(&mut out, " keys and ~");
    push_decimal(&mut out, estimated_lines as i64);
    push_text(&mut out, " lines");
    assert(out@ =~= translation_scope_text(
        total_files as int,
        estimated_keys as int,
        estimated_lines as int,
    ));
    string_of(&out)
}

/// The entries that stay when `entry` joins `before` in a buffer of at most
/// `MAX_LOG_ENTRIES` entries: the most recent ones.
pub open spec fn after_push(before: Seq<LogEntry>, entry: LogEntry) -> Seq<LogEntry> {
    let all = before.push(entry);
    if all.len() > MAX_LOG_ENTRIES {
        all.skip(all.len() - MAX_LOG_ENTRIES)
    } else {
        all
    }
}

/// The most recent log entries, oldest first; never more than
/// `MAX_LOG_ENTRIES`.
pub struct LogBuffer {
    entries: VecDeque<LogEntry>,
}

impl View for LogBuffer {
    type V = Seq<LogEntry>;

    closed spec fn view(&self) -> Seq<LogEntry> {
        self.entries@
    }
}

impl LogBuffer {
    #[verifier::type_invariant]
    closed spec fn within_limit(&self) -> bool {
        self.entries@.len() <= MAX_LOG_ENTRIES
    }

    /// An empty buffer.
    pub fn new() -> (b: LogBuffer)
        ensures
            b@ == Seq::<LogEntry>::empty(),
    {
        LogBuffer { entries: VecDeque::new() }
    }

    /// Number of entries held.
    pub fn len(&self) -> (n: usize)
        ensures
            n == self@.len(),
            n <= MAX_LOG_ENTRIES,
    {
        proof {
            use_type_invariant(self);
        }
        self.entries.len()
    }

    /// Adds an entry; the oldest entry leaves if the buffer is full.
    pub fn push(&mut self, entry: LogEntry)
        ensures
            final(self)@ == after_push(old(self)@, entry),
            final(self)@.len() <= MAX_LOG_ENTRIES,
    {
        proof {
            use_type_invariant(&*self);
        }
        let mut entries: VecDeque<LogEntry> = VecDeque::new();
        core::mem::swap(&mut self.entries, &mut entries);
        entries.push_back(entry);
        let ghost all = entries@;
        if entries.len() > MAX_LOG_ENTRIES {
            let _ = entries.pop_front();
            assert(entries@ =~= all.skip(all.len() - MAX_LOG_ENTRIES));
        }
        self.entries = entries;
    }

    /// Removes every entry.
    pub fn clear(&mut self)
        ensures
            final(self)@ == Seq::<LogEntry>::empty(),
    {
        self.entries = VecDeque::new();
    }

    /// A copy of the entries, oldest first.
    pub fn entries(&self) -> (v: Vec<LogEntry>)
        ensures
            v@.len() == self@.len(),
            forall|i: int|
                0 <= i < v.len() ==> {
                    &&& v[i].timestamp@ == self@[i].timestamp@
                    &&& v[i].level == self@[i].level
                    &&& v[i].message@ == self@[i].message@
                    &&& match (v[i].process_type, self@[i].process_type) {
                        (Some(a), Some(b)) => a@ == b@,
                        (None, None) => true,
                        _ => false,
                    }
                },
    {
        let mut v: Vec<LogEntry> = Vec::new();
        let mut i: usize = 0;
        while i < self.entries.len()
            invariant
                i <= self.entries.len(),
                v.len() == i,
                forall|j: int|
                    0 <= j < i ==> {
                        &&& v[j].timestamp@ == self.entries@[j].timestamp@
                        &&& v[j].level == self.entries@[j].level
                        &&& v[j].message@ == self.entries@[j].message@
                        &&& match (v[j].process_type, self.entries@[j].process_type) {
                            (Some(a), Some(b)) => a@ == b@,
                            (None, None) => true,
                            _ => false,
                        }
                    },
            decreases self.entries.len() - i,
        {
            let e = &self.entries[i];
            let kind = match &e.process_type {
                Some(kind) => Some(kind.clone()),
                None => None,
            };
            v.push(
                LogEntry {
                    timestamp: e.timestamp.clone(),
                    level: e.level,
                    message: e.message.clone(),
                    process_type: kind,
                },
            );
            i += 1;
        }
        v
    }
}

} // verus!
