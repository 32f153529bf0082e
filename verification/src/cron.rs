//! Encoding of a task description for the text backend: the recurrence and
//! trigger time become a five-field schedule expression (minute, hour,
//! day-of-month, month, day-of-week), and the full table line carries the
//! ownership marker followed by the task's name.

use vstd::prelude::*;
use vstd::string::StrSliceExecFns;
use vstd::string::StringExecFns;
use crate::scan::{contains_seq, lemma_concat_contains_right, lemma_contains_prefix, occurs_at, str_eq};
use crate::task::{no_newline, valid_task_spec, Recurrence, TaskSpec, TaskSpecModel};
use crate::timeparse::{hour_field, minute_field, split_time};
use crate::scan::{after_char, before_char};

verus! {

/// The ownership marker: the comment token that closes every table line this
/// library appends, ahead of the task's name.
pub open spec fn marker_token() -> Seq<char> {
    "# AUI:"@
}

/// Returns the ownership marker.
pub fn marker_str() -> (r: String)
    ensures
        r@ == marker_token(),
{
    "# AUI:".to_owned()
}

/// The marker followed by a task name: what identifies that task's line in
/// the table.
pub open spec fn name_marker(name: Seq<char>) -> Seq<char> {
    marker_token() + name
}

/// Returns the marker for one task name.
pub fn name_marker_str(name: &str) -> (r: String)
    ensures
        r@ == name_marker(name@),
{
    let mut r = "# AUI:".to_owned();
    r.append(name);
    r
}

/// The recurrence named by the text handed across the GUI boundary; anything
/// unrecognized falls back to a one-shot schedule.
pub open spec fn recurrence_of(s: Seq<char>) -> Recurrence {
    if s == "hourly"@ {
        Recurrence::Hourly
    } else if s == "daily"@ {
        Recurrence::Daily
    } else if s == "weekly"@ {
        Recurrence::Weekly
    } else if s == "monthly"@ {
        Recurrence::Monthly
    } else {
        Recurrence::Once
    }
}

/// Maps the textual recurrence to the enum, with the one-shot fallback for
/// unrecognized text.
pub fn parse_recurrence(s: &str) -> (r: Recurrence)
    ensures
        r == recurrence_of(s@),
{
    if str_eq(s, "hourly") {
        Recurrence::Hourly
    } else if str_eq(s, "daily") {
        Recurrence::Daily
    } else if str_eq(s, "weekly") {
        Recurrence::Weekly
    } else if str_eq(s, "monthly") {
        Recurrence::Monthly
    } else {
        Recurrence::Once
    }
}

/// The five-field schedule expression for a recurrence and trigger time:
/// hourly runs ignore the trigger time and fire on every full hour; weekly
/// runs are pinned to one fixed weekday and monthly runs to the first day of
/// the month; a one-shot task degrades to the same daily expression, an
/// approximation the text backend cannot avoid.
pub open spec fn cron_expr_spec(r: Recurrence, start_time: Seq<char>) -> Seq<char> {
    match r {
        Recurrence::Hourly => "0 * * * *"@,
        Recurrence::Weekly => minute_field(start_time) + " "@ + hour_field(start_time) + " * * 1"@,
        Recurrence::Monthly => minute_field(start_time) + " "@ + hour_field(start_time) + " 1 * *"@,
        _ => minute_field(start_time) + " "@ + hour_field(start_time) + " * * *"@,
    }
}

/// Builds the schedule expression for a recurrence and trigger time.
pub fn cron_expr(r: Recurrence, start_time: &str) -> (e: String)
    ensures
        e@ == cron_expr_spec(r, start_time@),
{
    match r {
        Recurrence::Hourly => "0 * * * *".to_owned(),
        _ => {
            let (hour, minute) = split_time(start_time);
            let mut e = minute;
            e.append(" ");
            e.append(hour.as_str());
            match r {
                Recurrence::Weekly => e.append(" * * 1"),
                Recurrence::Monthly => e.append(" 1 * *"),
                _ => e.append(" * * *"),
            }
            proof {
                assert(e@ =~= cron_expr_spec(r, start_time@));
            }
            e
        },
    }
}

/// The full table line registered for a task on the text backend:
/// `<schedule-expression> /bin/bash '<script_reference>' # AUI:<name>`.
pub open spec fn entry_line_spec(t: TaskSpecModel) -> Seq<char> {
    cron_expr_spec(t.recurrence, t.start_time) + " /bin/bash '"@ + t.script_reference + "' "@
        + name_marker(t.name)
}

/// Builds the table line for one task.
pub fn cron_entry_line(t: &TaskSpec) -> (line: String)
    ensures
        line@ == entry_line_spec(t@),
{
    let mut line = cron_expr(t.recurrence, t.start_time.as_str());
    line.append(" /bin/bash '");
    line.append(t.script_reference.as_str());
    line.append("' ");
    line.append("# AUI:");
    line.append(t.name.as_str());
    proof {
        assert(line@ =~= entry_line_spec(t@));
    }
    line
}

/// Every line this library registers carries the marker for its own name,
/// and so the bare ownership marker as well.
pub proof fn lemma_entry_line_marked(t: TaskSpecModel)
    ensures
        contains_seq(entry_line_spec(t), name_marker(t.name)),
        contains_seq(entry_line_spec(t), marker_token()),
{
    let prefix = cron_expr_spec(t.recurrence, t.start_time) + " /bin/bash '"@ + t.script_reference
        + "' "@;
    assert(entry_line_spec(t) =~= prefix + name_marker(t.name));
    lemma_concat_contains_right(prefix, name_marker(t.name));
    assert(name_marker(t.name) == marker_token() + t.name);
    lemma_contains_prefix(entry_line_spec(t), marker_token(), t.name);
}

/// An hourly schedule ignores the trigger time: its expression is the same
/// whatever the time says.
pub proof fn lemma_hourly_ignores_time(a: Seq<char>, b: Seq<char>)
    ensures
        cron_expr_spec(Recurrence::Hourly, a) == cron_expr_spec(Recurrence::Hourly, b),
{
}

/// Splitting on a separator introduces no line break that the text did not
/// have.
proof fn lemma_no_newline_split(s: Seq<char>, c: char)
    requires
        no_newline(s),
    ensures
        no_newline(before_char(s, c)),
        no_newline(after_char(s, c)),
    decreases s.len(),
{
    if s.len() > 0 && s[0] != c {
        let t = s.subrange(1, s.len() as int);
        assert(no_newline(t));
        lemma_no_newline_split(t, c);
    }
}

/// A concatenation of break-free parts is break-free.
proof fn lemma_no_newline_add(a: Seq<char>, b: Seq<char>)
    requires
        no_newline(a),
        no_newline(b),
    ensures
        no_newline(a + b),
{
    assert forall|i: int| 0 <= i < (a + b).len() implies (a + b)[i] != '\n' by {
        if i < a.len() {
            assert((a + b)[i] == a[i]);
        } else {
            assert((a + b)[i] == b[i - a.len()]);
        }
    }
}

/// A well-formed task description yields a single-line entry: its table line
/// holds no line break, so rendering the table and reading it back keeps the
/// line whole.
pub proof fn lemma_entry_line_single_line(t: TaskSpecModel)
    requires
        valid_task_spec(t),
    ensures
        no_newline(entry_line_spec(t)),
{
    reveal_strlit("9");
    reveal_strlit("0");
    reveal_strlit(" ");
    reveal_strlit("0 * * * *");
    reveal_strlit(" * * 1");
    reveal_strlit(" 1 * *");
    reveal_strlit(" * * *");
    reveal_strlit(" /bin/bash '");
    reveal_strlit("' ");
    reveal_strlit("# AUI:");
    lemma_no_newline_split(t.start_time, ':');
    lemma_no_newline_split(after_char(t.start_time, ':'), ':');
    assert(no_newline(hour_field(t.start_time)));
    assert(no_newline(minute_field(t.start_time)));
    let e = cron_expr_spec(t.recurrence, t.start_time);
    assert(no_newline(e)) by {
        match t.recurrence {
            Recurrence::Hourly => {
            },
            Recurrence::Weekly => {
                lemma_no_newline_add(minute_field(t.start_time), " "@);
                lemma_no_newline_add(minute_field(t.start_time) + " "@, hour_field(t.start_time));
                lemma_no_newline_add(
                    minute_field(t.start_time) + " "@ + hour_field(t.start_time),
                    " * * 1"@,
                );
            },
            Recurrence::Monthly => {
                lemma_no_newline_add(minute_field(t.start_time), " "@);
                lemma_no_newline_add(minute_field(t.start_time) + " "@, hour_field(t.start_time));
                lemma_no_newline_add(
                    minute_field(t.start_time) + " "@ + hour_field(t.start_time),
                    " 1 * *"@,
                );
            },
            _ => {
                lemma_no_newline_add(minute_field(t.start_time), " "@);
                lemma_no_newline_add(minute_field(t.start_time) + " "@, hour_field(t.start_time));
                lemma_no_newline_add(
                    minute_field(t.start_time) + " "@ + hour_field(t.start_time),
                    " * * *"@,
                );
            },
        }
    }
    lemma_no_newline_add(e, " /bin/bash '"@);
    lemma_no_newline_add(e + " /bin/bash '"@, t.script_reference);
    lemma_no_newline_add(e + " /bin/bash '"@ + t.script_reference, "' "@);
    lemma_no_newline_add(marker_token(), t.name);
    lemma_no_newline_add(
        e + " /bin/bash '"@ + t.script_reference + "' "@,
        name_marker(t.name),
    );
}

/// The registered line opens with exactly the schedule expression mapped
/// from the task's recurrence and trigger time.
pub proof fn lemma_entry_line_schedule(t: TaskSpecModel)
    ensures
        occurs_at(entry_line_spec(t), cron_expr_spec(t.recurrence, t.start_time), 0),
{
    let e = cron_expr_spec(t.recurrence, t.start_time);
    assert(entry_line_spec(t).subrange(0, e.len() as int) =~= e);
}

} // verus!
