//! The lines written to the application log.
use vstd::prelude::*;

use crate::text::to_string;

verus! {

/// One log record as the front end reports it.
pub struct LogEntry {
    pub timestamp: String,
    pub level: String,
    pub component: String,
    pub function: Option<String>,
    pub message: String,
}

/// `[timestamp] level component`, then ` at=function` when there is one,
/// then ` | message` and a newline.
pub open spec fn log_line_text(e: LogEntry) -> Seq<char> {
    "["@ + e.timestamp@ + "] "@ + e.level@ + " "@ + e.component@ + match e.function {
        Some(f) => " at="@ + f@,
        None => seq![],
    } + " | "@ + e.message@ + "\n"@
}

pub fn log_line(entry: &LogEntry) -> (r: String)
    ensures
        r@ == log_line_text(*entry),
{
    let mut line = to_string("[");
    line.append(entry.timestamp.as_str());
    line.append("] ");
    line.append(entry.level.as_str());
    line.append(" ");
    line.append(entry.component.as_str());
    match &entry.function {
        Some(f) => {
            line.append(" at=");
            line.append(f.as_str());
        },
        None => {},
    }
    line.append(" | ");
    line.append(entry.message.as_str());
    line.append("\n");
    line
}

/// The name of the log file of a day, from the day written `YYYY-MM-DD`.
pub fn log_file_name(day: &str) -> (r: String)
    ensures
        r@ == "app-"@ + day@ + ".log"@,
{
    let mut name = to_string("app-");
    name.append(day);
    name.append(".log");
    name
}

} // verus!
