//! The abstract task description handed to either backend, and the error
//! kinds that registry operations surface.

use vstd::prelude::*;

verus! {

/// How often a registered task recurs.
#[derive(Clone, Copy, PartialEq, Eq, Structural, Debug)]
pub enum Recurrence {
    Once,
    Hourly,
    Daily,
    Weekly,
    Monthly,
}

/// An abstract description of a recurring task: a unique name within the
/// application's namespace, an opaque script reference, a trigger time in
/// `"HH:MM"` form, an optional calendar date (empty means absent), and a
/// recurrence.
pub struct TaskSpec {
    pub name: String,
    pub script_reference: String,
    pub start_time: String,
    pub start_date: String,
    pub recurrence: Recurrence,
}

/// The mathematical image of a `TaskSpec`: each string field as a sequence
/// of characters.
pub struct TaskSpecModel {
    pub name: Seq<char>,
    pub script_reference: Seq<char>,
    pub start_time: Seq<char>,
    pub start_date: Seq<char>,
    pub recurrence: Recurrence,
}

impl View for TaskSpec {
    type V = TaskSpecModel;

    open spec fn view(&self) -> TaskSpecModel {
        TaskSpecModel {
            name: self.name@,
            script_reference: self.script_reference@,
            start_time: self.start_time@,
            start_date: self.start_date@,
            recurrence: self.recurrence,
        }
    }
}

/// True when no character of `s` is a line break, so that `s` cannot split a
/// single table line in two.
pub open spec fn no_newline(s: Seq<char>) -> bool {
    forall|i: int| 0 <= i < s.len() ==> s[i] != '\n'
}

/// A well-formed task description: a non-empty name, and no field that could
/// break the one-entry-per-line layout of the text backend.
pub open spec fn valid_task_spec(t: TaskSpecModel) -> bool {
    &&& t.name.len() > 0
    &&& no_newline(t.name)
    &&& no_newline(t.script_reference)
    &&& no_newline(t.start_time)
    &&& no_newline(t.start_date)
}

/// What a registry operation can report: the underlying mechanism could not
/// be launched at all, or it ran and rejected the request (carrying its
/// diagnostic text verbatim), or its output was not valid text.
#[derive(Debug)]
pub enum RegistryError {
    ExecutionError(String),
    RegistrationRejected(String),
    EncodingError(String),
}

impl RegistryError {
    /// The diagnostic text carried by the error.
    pub open spec fn spec_message(&self) -> Seq<char> {
        match self {
            RegistryError::ExecutionError(m) => m@,
            RegistryError::RegistrationRejected(m) => m@,
            RegistryError::EncodingError(m) => m@,
        }
    }

    /// Returns the diagnostic text carried by the error.
    pub fn message(&self) -> (r: String)
        ensures
            r@ == self.spec_message(),
    {
        match self {
            RegistryError::ExecutionError(m) => m.clone(),
            RegistryError::RegistrationRejected(m) => m.clone(),
            RegistryError::EncodingError(m) => m.clone(),
        }
    }
}

} // verus!
