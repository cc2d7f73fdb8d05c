//! The lifecycle of a tracked work item, its classification and its text.

use vstd::prelude::*;
use crate::decimal::{push_decimal, push_signed_decimal, decimal, signed_decimal};

verus! {

/// Exactly one lifecycle state of a work item, with its payload.
#[derive(Debug, Clone, PartialEq, Eq)]
pub enum Status {
    Pending,
    Running { progress: u8 },
    Completed(String),
    Failed { code: i32, message: String },
}

/// The category of a status, by the guarded rules taken in order.
pub open spec fn category(status: Status) -> Seq<char> {
    match status {
        Status::Pending => "waiting"@,
        Status::Running { progress } => if progress > 50 {
            "almost done"@
        } else {
            "in progress"@
        },
        Status::Completed(_) => "done"@,
        Status::Failed { code, .. } => if code < 0 {
            "critical error"@
        } else {
            "error"@
        },
    }
}

/// The display text of a status.
pub open spec fn rendered(status: Status) -> Seq<char> {
    match status {
        Status::Pending => "Pending"@,
        Status::Running { progress } => "Running: "@ + decimal(progress as nat) + "%"@,
        Status::Completed(message) => "Completed: "@ + message@,
        Status::Failed { code, message } => "Failed ["@ + signed_decimal(code as int) + "]: "@
            + message@,
    }
}

/// Classifies a status: "waiting", "almost done" (progress above 50),
/// "in progress", "done", "critical error" (negative code) or "error".
pub fn process_status(status: Status) -> (r: &'static str)
    ensures
        r@ == category(status),
{
    match status {
        Status::Pending => "waiting",
        Status::Running { progress } => if progress > 50 {
            "almost done"
        } else {
            "in progress"
        },
        Status::Completed(_) => "done",
        Status::Failed { code, .. } => if code < 0 {
            "critical error"
        } else {
            "error"
        },
    }
}

impl Status {
    /// The display text: `Pending`, `Running: {progress}%`,
    /// `Completed: {message}` or `Failed [{code}]: {message}`.
    pub fn to_string(&self) -> (r: String)
        ensures
            r@ == rendered(*self),
    {
        match self {
            Status::Pending => String::from_str("Pending"),
            Status::Running { progress } => {
                let mut s = String::from_str("Running: ");
                push_decimal(&mut s, *progress as u64);
                s.append("%");
                s
            },
            Status::Completed(message) => {
                let mut s = String::from_str("Completed: ");
                s.append(message.as_str());
                s
            },
            Status::Failed { code, message } => {
                let mut s = String::from_str("Failed [");
                push_signed_decimal(&mut s, *code as i64);
                s.append("]: ");
                s.append(message.as_str());
                s
            },
        }
    }
}

} // verus!
