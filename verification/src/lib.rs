//! A verified task-registry adapter: it maps an abstract recurring-task
//! description to the operations of two scheduling backends.
//!
//! The *structured* backend is modelled after a platform task scheduler with
//! typed fields (name, schedule type, trigger time); the *text* backend is
//! modelled after a line-oriented schedule table in which the recurrence must
//! be encoded as a five-field schedule expression.  Entries owned by this
//! library are identified by a private marker; listing and deletion only
//! observe entries carrying that marker.

pub mod cron;
pub mod launch;
pub mod scan;
pub mod seqfacts;
pub mod structured;
pub mod task;
pub mod text_table;
pub mod timeparse;
