//! Reconciles locally tracked time-tracking sessions with records of a remote
//! timesheet service.
//!
//! The library holds the decisions: how a session's tags are classified into
//! identifiers, how a fetched record is compared with the session, and which
//! remote call, write-back or console line comes next for each session. The
//! program around it performs those actions and reports their results back.
mod error;
mod reconcile;
mod tags;
mod text;

pub use error::ReportError;

pub use reconcile::{
    choice_from_answer, matches_record, Action, ConflictChoice, CreateRequest, Event, Outcome,
    Phase, RemoteRecord, Session, SessionTask,
};
pub use tags::{classify_tags, parse_kimai_id, ParsedIdentifiers, TagClasses, TagRole};
pub use text::{decimal_string, parse_usize_text};
