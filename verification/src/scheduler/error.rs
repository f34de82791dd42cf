//! What can go wrong in the scheduler.
use crate::text::dec;
use crate::text::decimal;
use vstd::prelude::*;
use vstd::string::StringExecFns;

verus! {

#[derive(Debug, PartialEq, Eq)]
pub enum SchedulerError {
    Io { path: String, permission_denied: bool, message: String },
    Corrupt { path: String, message: String },
    Locked(String),
    UnsupportedSchema(u8),
    Admission(String),
}

impl Clone for SchedulerError {
    fn clone(&self) -> (copy: Self)
        ensures
            copy == *self,
    {
        match self {
            SchedulerError::Io { path, permission_denied, message } => SchedulerError::Io {
                path: path.clone(),
                permission_denied: *permission_denied,
                message: message.clone(),
            },
            SchedulerError::Corrupt { path, message } => SchedulerError::Corrupt {
                path: path.clone(),
                message: message.clone(),
            },
            SchedulerError::Locked(path) => SchedulerError::Locked(path.clone()),
            SchedulerError::UnsupportedSchema(version) => SchedulerError::UnsupportedSchema(
                *version,
            ),
            SchedulerError::Admission(message) => SchedulerError::Admission(message.clone()),
        }
    }
}

impl SchedulerError {
    /// The error in words.
    pub open spec fn text(self) -> Seq<char> {
        match self {
            SchedulerError::Io { path, permission_denied: _, message } => {
                "scheduler state I/O failed for "@ + path@ + ": "@ + message@
            },
            SchedulerError::Corrupt { path, message } => {
                "scheduler state is corrupt at "@ + path@ + ": "@ + message@
            },
            SchedulerError::Locked(path) => {
                "scheduler state is locked by another process: "@ + path@
            },
            SchedulerError::UnsupportedSchema(version) => {
                "scheduler state schema "@ + dec(version as nat) + " is unsupported"@
            },
            SchedulerError::Admission(message) => "bandwidth admission rejected: "@ + message@,
        }
    }

    pub fn message(&self) -> (text: String)
        ensures
            text@ == self.text(),
    {
        match self {
            SchedulerError::Io { path, permission_denied: _, message } => {
                "scheduler state I/O failed for ".to_owned().concat(path).concat(": ").concat(
                    message,
                )
            },
            SchedulerError::Corrupt { path, message } => {
                "scheduler state is corrupt at ".to_owned().concat(path).concat(": ").concat(
                    message,
                )
            },
            SchedulerError::Locked(path) => {
                "scheduler state is locked by another process: ".to_owned().concat(path)
            },
            SchedulerError::UnsupportedSchema(version) => {
                "scheduler state schema ".to_owned().concat(&decimal(*version as u128)).concat(
                    " is unsupported",
                )
            },
            SchedulerError::Admission(message) => {
                "bandwidth admission rejected: ".to_owned().concat(message)
            },
        }
    }

    /// Whether the system denied access to a state file.
    pub fn is_permission_denied(&self) -> (denied: bool)
        ensures
            denied == (match *self {
                SchedulerError::Io { permission_denied, .. } => permission_denied,
                _ => false,
            }),
    {
        match self {
            SchedulerError::Io { permission_denied, .. } => *permission_denied,
            _ => false,
        }
    }
}

} // verus!
