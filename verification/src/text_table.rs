//! The text backend: an append-only table of schedule lines.  Register
//! appends one marked line, List returns the marked lines in table order,
//! Delete removes every line carrying the marker of one name.  The table is
//! always read in full and rewritten in full; `render` and `split_lines`
//! are the two halves of that round trip.

use vstd::prelude::*;
use vstd::string::StrSliceExecFns;
use vstd::string::StringExecFns;
use crate::cron::{
    cron_entry_line, cron_expr_spec, entry_line_spec, lemma_entry_line_marked,
    lemma_entry_line_schedule, lemma_entry_line_single_line, marker_token, name_marker, name_marker_str,
};
use crate::scan::{
    after_char, before_char, contains_seq, contains_str, find_char, has_char, lemma_after_char_at,
    lemma_after_char_shrinks, lemma_before_char_at, occurs_at,
};
use crate::seqfacts::{lemma_filter_all, lemma_filter_elem, lemma_filter_push};
use crate::task::{no_newline, TaskSpec, TaskSpecModel};

verus! {

/// The Register operation on the table: the entry line for `t` is appended,
/// even when the name is already present (re-registration leaves two lines).
pub open spec fn text_register(table: Seq<Seq<char>>, t: TaskSpecModel) -> Seq<Seq<char>> {
    table.push(entry_line_spec(t))
}

/// The predicate a line must satisfy to be listed: it carries the ownership
/// marker.
pub open spec fn is_marked() -> spec_fn(Seq<char>) -> bool {
    |l: Seq<char>| contains_seq(l, marker_token())
}

/// The List operation: the marked lines, in table order (registration
/// order, since entries are appended).
pub open spec fn text_list(table: Seq<Seq<char>>) -> Seq<Seq<char>> {
    table.filter(is_marked())
}

/// The predicate a line must satisfy to survive deletion of `name`: it does
/// not carry that name's marker.
pub open spec fn keeps(name: Seq<char>) -> spec_fn(Seq<char>) -> bool {
    |l: Seq<char>| !contains_seq(l, name_marker(name))
}

/// The Delete operation: every line carrying the marker of `name` is
/// removed; deleting an unknown name removes nothing and is no error.
pub open spec fn text_delete(table: Seq<Seq<char>>, name: Seq<char>) -> Seq<Seq<char>> {
    table.filter(keeps(name))
}

/// The text written back to the store: every line followed by a line break
/// (an empty table renders as empty text).
pub open spec fn render_spec(table: Seq<Seq<char>>) -> Seq<char>
    decreases table.len(),
{
    if table.len() == 0 {
        Seq::empty()
    } else {
        table.first() + seq!['\n'] + render_spec(table.drop_first())
    }
}

/// The table read from the raw text of the store: the text split on line
/// breaks, with the final empty piece after a trailing break dropped.
pub open spec fn lines_spec(s: Seq<char>) -> Seq<Seq<char>>
    decreases s.len(),
    via lines_spec_decreases
{
    if s.len() == 0 {
        Seq::empty()
    } else if !has_char(s, '\n') {
        seq![s]
    } else {
        seq![before_char(s, '\n')] + lines_spec(after_char(s, '\n'))
    }
}

#[via_fn]
proof fn lines_spec_decreases(s: Seq<char>) {
    if s.len() != 0 && has_char(s, '\n') {
        lemma_after_char_shrinks(s, '\n');
    }
}

/// The text backend's schedule table: one entry per line, in registration
/// order.  The table may also hold foreign lines owned by the user or other
/// programs; this library only observes or removes lines carrying its
/// ownership marker.
pub struct TextTable {
    pub lines: Vec<String>,
}

impl View for TextTable {
    type V = Seq<Seq<char>>;

    open spec fn view(&self) -> Seq<Seq<char>> {
        self.lines@.map_values(|l: String| l@)
    }
}

impl TextTable {
    /// Returns an empty table.
    pub fn new() -> (t: TextTable)
        ensures
            t@ == Seq::<Seq<char>>::empty(),
    {
        let t = TextTable { lines: Vec::new() };
        proof {
            assert(t@ =~= Seq::<Seq<char>>::empty());
        }
        t
    }

    /// Returns the table read from the raw text of the store.
    pub fn from_text(s: &str) -> (t: TextTable)
        ensures
            t@ == lines_spec(s@),
    {
        TextTable { lines: split_lines(s) }
    }

    /// Registers `t`: appends its table line and returns the confirmation
    /// text.
    pub fn register(&mut self, t: &TaskSpec) -> (c: String)
        ensures
            final(self)@ == text_register(old(self)@, t@),
            c@ == "Created cron job: AUI:"@ + t@.name,
    {
        let line = cron_entry_line(t);
        self.lines.push(line);
        proof {
            assert(self@ =~= old(self)@.push(entry_line_spec(t@)));
        }
        let mut c = "Created cron job: AUI:".to_owned();
        c.append(t.name.as_str());
        c
    }

    /// Lists the table lines owned by this library, in table order.
    pub fn list(&self) -> (r: Vec<String>)
        ensures
            r@.map_values(|l: String| l@) == text_list(self@),
    {
        let mut r: Vec<String> = Vec::new();
        let mut i: usize = 0;
        proof {
            reveal(Seq::filter);
            assert(r@.map_values(|l: String| l@) =~= text_list(self@.subrange(0, 0)));
        }
        while i < self.lines.len()
            invariant
                i <= self.lines@.len(),
                self.lines@.len() == self@.len(),
                r@.map_values(|l: String| l@) == text_list(self@.subrange(0, i as int)),
            decreases self.lines@.len() - i,
        {
            let line = &self.lines[i];
            proof {
                assert(self@.subrange(0, i + 1) =~= self@.subrange(0, i as int).push(line@));
                lemma_filter_push(self@.subrange(0, i as int), is_marked(), line@);
            }
            if contains_str(line.as_str(), "# AUI:") {
                let ghost prev = r@.map_values(|l: String| l@);
                r.push(line.clone());
                proof {
                    assert(r@.map_values(|l: String| l@) =~= prev.push(line@));
                }
            }
            i += 1;
        }
        proof {
            assert(self@.subrange(0, self@.len() as int) =~= self@);
        }
        r
    }

    /// Deletes every line carrying the marker of `name` and returns the
    /// confirmation text; a name never registered deletes nothing.
    pub fn delete(&mut self, name: &str) -> (c: String)
        ensures
            final(self)@ == text_delete(old(self)@, name@),
            c@ == "Deleted cron job: AUI:"@ + name@,
    {
        let pat = name_marker_str(name);
        let mut kept: Vec<String> = Vec::new();
        let mut i: usize = 0;
        proof {
            reveal(Seq::filter);
            assert(kept@.map_values(|l: String| l@) =~= text_delete(self@.subrange(0, 0), name@));
        }
        while i < self.lines.len()
            invariant
                i <= self.lines@.len(),
                self.lines@.len() == self@.len(),
                pat@ == name_marker(name@),
                kept@.map_values(|l: String| l@) == text_delete(self@.subrange(0, i as int), name@),
            decreases self.lines@.len() - i,
        {
            let line = &self.lines[i];
            proof {
                assert(self@.subrange(0, i + 1) =~= self@.subrange(0, i as int).push(line@));
                lemma_filter_push(self@.subrange(0, i as int), keeps(name@), line@);
            }
            if !contains_str(line.as_str(), pat.as_str()) {
                let ghost prev = kept@.map_values(|l: String| l@);
                kept.push(line.clone());
                proof {
                    assert(kept@.map_values(|l: String| l@) =~= prev.push(line@));
                }
            }
            i += 1;
        }
        proof {
            assert(self@.subrange(0, self@.len() as int) =~= self@);
        }
        self.lines = kept;
        let mut c = "Deleted cron job: AUI:".to_owned();
        c.append(name);
        c
    }

    /// Renders the full table as the text to hand back to the store.
    pub fn render(&self) -> (s: String)
        ensures
            s@ == render_spec(self@),
    {
        let mut out = String::new();
        let mut i: usize = 0;
        proof {
            assert(self@.subrange(0, self@.len() as int) =~= self@);
        }
        while i < self.lines.len()
            invariant
                i <= self.lines@.len(),
                self.lines@.len() == self@.len(),
                render_spec(self@) == out@ + render_spec(
                    self@.subrange(i as int, self@.len() as int),
                ),
            decreases self.lines@.len() - i,
        {
            let ghost suf = self@.subrange(i as int, self@.len() as int);
            out.append(self.lines[i].as_str());
            out.append("\n");
            proof {
                reveal_strlit("\n");
                assert(suf.first() == self@[i as int]);
                assert(suf.drop_first() =~= self@.subrange(i + 1, self@.len() as int));
                assert("\n"@ =~= seq!['\n']);
                assert(out@ =~= (out@.subrange(0, out@.len() - self@[i as int].len() - 1))
                    + self@[i as int] + seq!['\n']) by {
                    assert(out@.len() >= self@[i as int].len() + 1);
                }
            }
            i += 1;
        }
        proof {
            assert(render_spec(self@.subrange(self@.len() as int, self@.len() as int))
                =~= Seq::<char>::empty());
            assert(out@ + Seq::<char>::empty() =~= out@);
        }
        out
    }
}

/// Splits the raw text of the store into table lines.
pub fn split_lines(s: &str) -> (r: Vec<String>)
    ensures
        r@.map_values(|l: String| l@) == lines_spec(s@),
{
    let n = s.unicode_len();
    let mut r: Vec<String> = Vec::new();
    let mut pos: usize = 0;
    proof {
        assert(s@.subrange(0, n as int) =~= s@);
        assert(r@.map_values(|l: String| l@) =~= Seq::<Seq<char>>::empty());
        assert(Seq::<Seq<char>>::empty() + lines_spec(s@) =~= lines_spec(s@));
    }
    while pos < n
        invariant
            pos <= n,
            n == s@.len(),
            lines_spec(s@) == r@.map_values(|l: String| l@) + lines_spec(
                s@.subrange(pos as int, n as int),
            ),
        decreases n - pos,
    {
        let j = find_char(s, '\n', pos);
        let piece = s.substring_char(pos, j);
        let ghost prev = r@.map_values(|l: String| l@);
        let ghost suf = s@.subrange(pos as int, n as int);
        r.push(piece.to_owned());
        proof {
            assert(r@.map_values(|l: String| l@) =~= prev.push(piece@));
            if j < n {
                assert(suf[j - pos] == '\n');
                assert(has_char(suf, '\n'));
                lemma_before_char_at(suf, '\n', j - pos);
                lemma_after_char_at(suf, '\n', j - pos);
                assert(suf.subrange(0, j - pos) =~= s@.subrange(pos as int, j as int));
                assert(suf.subrange(j - pos + 1, suf.len() as int) =~= s@.subrange(
                    j + 1,
                    n as int,
                ));
                assert(lines_spec(suf) =~= seq![piece@] + lines_spec(
                    s@.subrange(j + 1, n as int),
                ));
                assert(prev.push(piece@) + lines_spec(s@.subrange(j + 1, n as int)) =~= prev
                    + lines_spec(suf));
            } else {
                assert(!has_char(suf, '\n')) by {
                    if has_char(suf, '\n') {
                        let k = choose|k: int| 0 <= k < suf.len() && suf[k] == '\n';
                        assert(s@[pos + k] == '\n');
                    }
                }
                assert(piece@ =~= suf);
                assert(lines_spec(suf) =~= seq![piece@]);
                assert(prev.push(piece@) + lines_spec(s@.subrange(n as int, n as int)) =~= prev
                    + lines_spec(suf));
            }
        }
        if j == n {
            pos = n;
        } else {
            pos = j + 1;
        }
    }
    proof {
        assert(lines_spec(s@.subrange(pos as int, n as int)) =~= Seq::<Seq<char>>::empty());
        assert(r@.map_values(|l: String| l@) + Seq::<Seq<char>>::empty() =~= r@.map_values(
            |l: String| l@,
        ));
    }
    r
}

/// Register then List, from any table: the listing is the old listing plus
/// exactly the one new line, which opens with the schedule expression mapped
/// from the task's recurrence and trigger time.
pub proof fn lemma_text_register_then_list(table: Seq<Seq<char>>, t: TaskSpecModel)
    ensures
        text_list(text_register(table, t)) == text_list(table).push(entry_line_spec(t)),
        occurs_at(entry_line_spec(t), cron_expr_spec(t.recurrence, t.start_time), 0),
{
    lemma_entry_line_marked(t);
    lemma_filter_push(table, is_marked(), entry_line_spec(t));
    lemma_entry_line_schedule(t);
}

/// On an empty table, Register then List yields exactly the one registered
/// line.
pub proof fn lemma_text_register_list_single(t: TaskSpecModel)
    ensures
        text_list(text_register(Seq::empty(), t)) =~= seq![entry_line_spec(t)],
{
    lemma_text_register_then_list(Seq::empty(), t);
    lemma_text_list_empty();
}

/// Registering and then deleting a name gives the same table as deleting it
/// from the original — the new line never survives its own deletion — and
/// the subsequent listing holds no line carrying that name's marker.
pub proof fn lemma_text_register_then_delete(table: Seq<Seq<char>>, t: TaskSpecModel)
    ensures
        text_delete(text_register(table, t), t.name) == text_delete(table, t.name),
        forall|i: int|
            0 <= i < text_list(text_delete(text_register(table, t), t.name)).len()
                ==> !contains_seq(
                #[trigger] text_list(text_delete(text_register(table, t), t.name))[i],
                name_marker(t.name),
            ),
{
    lemma_entry_line_marked(t);
    lemma_filter_push(table, keeps(t.name), entry_line_spec(t));
    let after = text_delete(table, t.name);
    assert forall|i: int| 0 <= i < text_list(after).len() implies !contains_seq(
        #[trigger] text_list(after)[i],
        name_marker(t.name),
    ) by {
        lemma_filter_elem(after, is_marked(), i);
        let elem = text_list(after)[i];
        let j = choose|j: int| 0 <= j < after.len() && after[j] == elem;
        lemma_filter_elem(table, keeps(t.name), j);
    }
}

/// Deleting a name that no line of the table carries leaves the table
/// unchanged.
pub proof fn lemma_text_delete_absent(table: Seq<Seq<char>>, name: Seq<char>)
    requires
        forall|i: int|
            0 <= i < table.len() ==> !contains_seq(#[trigger] table[i], name_marker(name)),
    ensures
        text_delete(table, name) == table,
{
    assert forall|i: int| 0 <= i < table.len() implies (keeps(name))(#[trigger] table[i]) by {
    }
    lemma_filter_all(table, keeps(name));
}

/// A listed line always carries the ownership marker, whatever foreign lines
/// the table holds.
pub proof fn lemma_text_list_only_marked(table: Seq<Seq<char>>, i: int)
    requires
        0 <= i < text_list(table).len(),
    ensures
        contains_seq(text_list(table)[i], marker_token()),
        table.contains(text_list(table)[i]),
{
    lemma_filter_elem(table, is_marked(), i);
}

/// Listing an empty table yields no entries (and no error: List is total).
pub proof fn lemma_text_list_empty()
    ensures
        text_list(Seq::empty()) == Seq::<Seq<char>>::empty(),
{
    reveal(Seq::filter);
}

/// Rendering a table of break-free lines and splitting the text again gives
/// the same table back: what Register writes, a later read sees.
pub proof fn lemma_render_roundtrip(table: Seq<Seq<char>>)
    requires
        forall|i: int| 0 <= i < table.len() ==> no_newline(#[trigger] table[i]),
    ensures
        lines_spec(render_spec(table)) == table,
    decreases table.len(),
{
    if table.len() == 0 {
    } else {
        let t0 = table.first();
        let rest = table.drop_first();
        let s = render_spec(table);
        assert(s =~= t0 + seq!['\n'] + render_spec(rest));
        assert(s[t0.len() as int] == '\n');
        assert(has_char(s, '\n'));
        lemma_before_char_at(s, '\n', t0.len() as int);
        lemma_after_char_at(s, '\n', t0.len() as int);
        assert(s.subrange(0, t0.len() as int) =~= t0);
        assert(s.subrange(t0.len() as int + 1, s.len() as int) =~= render_spec(rest));
        assert forall|i: int| 0 <= i < rest.len() implies no_newline(#[trigger] rest[i]) by {
            assert(rest[i] == table[i + 1]);
        }
        lemma_render_roundtrip(rest);
        assert(lines_spec(s) =~= table);
    }
}

/// What Register writes, a later read parses back whole: after registering a
/// well-formed task in a table of break-free lines, rendering the table and
/// splitting the text again gives exactly that table.
pub proof fn lemma_text_register_render_roundtrip(table: Seq<Seq<char>>, t: TaskSpecModel)
    requires
        crate::task::valid_task_spec(t),
        forall|i: int| 0 <= i < table.len() ==> no_newline(#[trigger] table[i]),
    ensures
        lines_spec(render_spec(text_register(table, t))) == text_register(table, t),
{
    lemma_entry_line_single_line(t);
    let reg = text_register(table, t);
    assert forall|i: int| 0 <= i < reg.len() implies no_newline(#[trigger] reg[i]) by {
        if i < table.len() {
            assert(reg[i] == table[i]);
        } else {
            assert(reg[i] == entry_line_spec(t));
        }
    }
    lemma_render_roundtrip(reg);
}

} // verus!
