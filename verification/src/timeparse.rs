//! Decomposition of an `"HH:MM"` trigger time into its hour and minute
//! fields.  The string is split on `':'`; an empty hour field falls back to
//! `"9"` and an empty or missing minute field to `"0"`.

use vstd::prelude::*;
use crate::scan::{after_char, before_char, find_char, lemma_after_char_at, lemma_before_char_at};

verus! {

/// The hour field of a trigger time: what stands before the first `':'`, or
/// `"9"` when that is empty.
pub open spec fn hour_field(s: Seq<char>) -> Seq<char> {
    if before_char(s, ':').len() == 0 {
        "9"@
    } else {
        before_char(s, ':')
    }
}

/// The minute field of a trigger time: what stands between the first and the
/// second `':'`, or `"0"` when that is empty or missing.
pub open spec fn minute_field(s: Seq<char>) -> Seq<char> {
    if before_char(after_char(s, ':'), ':').len() == 0 {
        "0"@
    } else {
        before_char(after_char(s, ':'), ':')
    }
}

/// Splits a trigger time into its `(hour, minute)` fields, applying the
/// defaults for an empty field.
pub fn split_time(start_time: &str) -> (r: (String, String))
    ensures
        r.0@ == hour_field(start_time@),
        r.1@ == minute_field(start_time@),
{
    let n = start_time.unicode_len();
    let c1 = find_char(start_time, ':', 0);
    let hour_raw = start_time.substring_char(0, c1);
    proof {
        lemma_before_char_at(start_time@, ':', c1 as int);
    }
    let hour = if hour_raw.unicode_len() == 0 {
        "9".to_owned()
    } else {
        hour_raw.to_owned()
    };
    let minute_raw = if c1 == n {
        proof {
            lemma_after_char_at(start_time@, ':', c1 as int);
            assert(before_char(after_char(start_time@, ':'), ':') =~= Seq::<char>::empty());
        }
        start_time.substring_char(n, n)
    } else {
        let c2 = find_char(start_time, ':', c1 + 1);
        proof {
            lemma_after_char_at(start_time@, ':', c1 as int);
            let t = start_time@.subrange(c1 + 1, start_time@.len() as int);
            lemma_before_char_at(t, ':', c2 - c1 - 1);
            assert(t.subrange(0, c2 - c1 - 1) =~= start_time@.subrange(c1 + 1, c2 as int));
        }
        start_time.substring_char(c1 + 1, c2)
    };
    let minute = if minute_raw.unicode_len() == 0 {
        "0".to_owned()
    } else {
        minute_raw.to_owned()
    };
    (hour, minute)
}

} // verus!
