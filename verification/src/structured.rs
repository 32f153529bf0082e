//! The structured backend: a platform task scheduler with typed fields.
//! Entries are keyed by a namespaced identifier, so registration overwrites
//! (idempotent create) and deleting a name that was never registered is an
//! error.  `StructuredStore` is the in-memory model of the platform store,
//! foreign entries included; the argument builders below produce the exact
//! invocations of the platform mechanism that realizes it.

use vstd::prelude::*;
use vstd::string::StrSliceExecFns;
use vstd::string::StringExecFns;
use crate::scan::str_eq;
use crate::seqfacts::{lemma_filter_all, lemma_filter_elem, lemma_filter_none, lemma_filter_push};
use crate::task::{Recurrence, RegistryError, TaskSpec, TaskSpecModel};

verus! {

/// The namespace under which this library registers structured entries.
pub open spec fn namespace_prefix() -> Seq<char> {
    "AUI\\"@
}

/// The full identifier of a task in the platform store: the namespace
/// prefix followed by the task's name.
pub open spec fn namespaced_name_spec(name: Seq<char>) -> Seq<char> {
    namespace_prefix() + name
}

/// Returns the namespaced identifier for one task name.
pub fn namespaced_name(name: &str) -> (r: String)
    ensures
        r@ == namespaced_name_spec(name@),
{
    let mut r = "AUI\\".to_owned();
    r.append(name);
    r
}

/// An identifier that lies under this library's namespace.
pub open spec fn is_namespaced(full: Seq<char>) -> bool {
    &&& full.len() >= namespace_prefix().len()
    &&& full.subrange(0, namespace_prefix().len() as int) == namespace_prefix()
}

/// A namespaced identifier always lies under the namespace.
pub proof fn lemma_namespaced(name: Seq<char>)
    ensures
        is_namespaced(namespaced_name_spec(name)),
{
    assert(namespaced_name_spec(name).subrange(0, namespace_prefix().len() as int)
        =~= namespace_prefix());
}

/// Returns whether `full` lies under this library's namespace.
pub fn is_namespaced_exec(full: &str) -> (r: bool)
    ensures
        r == is_namespaced(full@),
{
    proof {
        reveal_strlit("AUI\\");
    }
    let n = full.unicode_len();
    if n < 4 {
        return false;
    }
    let prefix = full.substring_char(0, 4);
    str_eq(prefix, "AUI\\")
}

/// The structured backend's schedule-type token for each recurrence.
pub open spec fn sc_token_spec(r: Recurrence) -> Seq<char> {
    match r {
        Recurrence::Once => "ONCE"@,
        Recurrence::Hourly => "HOURLY"@,
        Recurrence::Daily => "DAILY"@,
        Recurrence::Weekly => "WEEKLY"@,
        Recurrence::Monthly => "MONTHLY"@,
    }
}

/// Returns the schedule-type token for a recurrence.
pub fn sc_token(r: Recurrence) -> (t: String)
    ensures
        t@ == sc_token_spec(r),
{
    match r {
        Recurrence::Once => "ONCE".to_owned(),
        Recurrence::Hourly => "HOURLY".to_owned(),
        Recurrence::Daily => "DAILY".to_owned(),
        Recurrence::Weekly => "WEEKLY".to_owned(),
        Recurrence::Monthly => "MONTHLY".to_owned(),
    }
}

/// The command line registered as the task's action: the script interpreter
/// invoked on the script reference.
pub open spec fn run_command_spec(script: Seq<char>) -> Seq<char> {
    "powershell.exe -ExecutionPolicy Bypass -File \""@ + script + "\""@
}

/// Builds the command line registered as the task's action.
pub fn run_command(script: &str) -> (r: String)
    ensures
        r@ == run_command_spec(script@),
{
    let mut r = "powershell.exe -ExecutionPolicy Bypass -File \"".to_owned();
    r.append(script);
    r.append("\"");
    proof {
        assert(r@ =~= run_command_spec(script@));
    }
    r
}

/// One entry of the platform task store, as this library reads it back:
/// full identifier, schedule-type token, trigger time, start date (empty
/// when none was passed), and the command line it runs.
pub struct StoredTask {
    pub full_name: String,
    pub schedule_type: String,
    pub start_time: String,
    pub start_date: String,
    pub command: String,
}

/// The mathematical image of a stored entry.
pub struct StoredTaskModel {
    pub full_name: Seq<char>,
    pub schedule_type: Seq<char>,
    pub start_time: Seq<char>,
    pub start_date: Seq<char>,
    pub command: Seq<char>,
}

impl View for StoredTask {
    type V = StoredTaskModel;

    open spec fn view(&self) -> StoredTaskModel {
        StoredTaskModel {
            full_name: self.full_name@,
            schedule_type: self.schedule_type@,
            start_time: self.start_time@,
            start_date: self.start_date@,
            command: self.command@,
        }
    }
}

impl StoredTask {
    /// Returns a copy of the entry.
    pub fn duplicate(&self) -> (r: StoredTask)
        ensures
            r@ == self@,
    {
        StoredTask {
            full_name: self.full_name.clone(),
            schedule_type: self.schedule_type.clone(),
            start_time: self.start_time.clone(),
            start_date: self.start_date.clone(),
            command: self.command.clone(),
        }
    }
}

/// The stored entry that registering `t` creates: the schedule-type token
/// for its recurrence, the trigger time verbatim, and the start date only
/// when the schedule is not hourly (the mechanism rejects a start date on an
/// hourly schedule).
pub open spec fn stored_of(t: TaskSpecModel) -> StoredTaskModel {
    StoredTaskModel {
        full_name: namespaced_name_spec(t.name),
        schedule_type: sc_token_spec(t.recurrence),
        start_time: t.start_time,
        start_date: if t.recurrence != Recurrence::Hourly {
            t.start_date
        } else {
            Seq::empty()
        },
        command: run_command_spec(t.script_reference),
    }
}

/// The entries that do not carry one identifier: what survives overwriting
/// or deleting it.
pub open spec fn others(full: Seq<char>) -> spec_fn(StoredTaskModel) -> bool {
    |e: StoredTaskModel| e.full_name != full
}

/// The entries that carry one identifier.
pub open spec fn named(full: Seq<char>) -> spec_fn(StoredTaskModel) -> bool {
    |e: StoredTaskModel| e.full_name == full
}

/// The entries of a store under one identifier.
pub open spec fn named_entries(store: Seq<StoredTaskModel>, full: Seq<char>) -> Seq<
    StoredTaskModel,
> {
    store.filter(named(full))
}

/// The entries namespaced under this library.
pub open spec fn in_namespace() -> spec_fn(StoredTaskModel) -> bool {
    |e: StoredTaskModel| is_namespaced(e.full_name)
}

/// The Register operation: any entry under the same identifier is replaced,
/// never duplicated.
pub open spec fn structured_register(store: Seq<StoredTaskModel>, t: TaskSpecModel) -> Seq<
    StoredTaskModel,
> {
    store.filter(others(namespaced_name_spec(t.name))).push(stored_of(t))
}

/// The List operation: the entries namespaced under this library.  Their
/// order is whatever the platform query returns; this model keeps store
/// order, and callers may not rely on more.
pub open spec fn structured_list(store: Seq<StoredTaskModel>) -> Seq<StoredTaskModel> {
    store.filter(in_namespace())
}

/// Whether some entry of the store carries the identifier.
pub open spec fn has_entry(store: Seq<StoredTaskModel>, full: Seq<char>) -> bool {
    exists|i: int| 0 <= i < store.len() && store[i].full_name == full
}

/// The Delete operation on the store's contents: every entry under the
/// identifier is removed.  Whether the operation succeeds is the exec
/// contract's affair: deleting an absent name is an error.
pub open spec fn structured_delete(store: Seq<StoredTaskModel>, name: Seq<char>) -> Seq<
    StoredTaskModel,
> {
    store.filter(others(namespaced_name_spec(name)))
}

/// An in-memory model of the platform task store, foreign entries included.
/// Its operations state the contract that the platform mechanism realizes.
pub struct StructuredStore {
    pub tasks: Vec<StoredTask>,
}

impl View for StructuredStore {
    type V = Seq<StoredTaskModel>;

    open spec fn view(&self) -> Seq<StoredTaskModel> {
        self.tasks@.map_values(|e: StoredTask| e@)
    }
}

impl StructuredStore {
    /// Returns an empty store.
    pub fn new() -> (s: StructuredStore)
        ensures
            s@ == Seq::<StoredTaskModel>::empty(),
    {
        let s = StructuredStore { tasks: Vec::new() };
        proof {
            assert(s@ =~= Seq::<StoredTaskModel>::empty());
        }
        s
    }

    /// Registers `t`, overwriting any entry under the same identifier
    /// (idempotent create).  Returns the confirmation text.
    pub fn register(&mut self, t: &TaskSpec) -> (c: String)
        ensures
            final(self)@ == structured_register(old(self)@, t@),
            c@ == "Created scheduled task: "@ + namespaced_name_spec(t@.name),
    {
        let full = namespaced_name(t.name.as_str());
        let mut kept: Vec<StoredTask> = Vec::new();
        let mut i: usize = 0;
        proof {
            reveal(Seq::filter);
            assert(kept@.map_values(|e: StoredTask| e@) =~= self@.subrange(0, 0).filter(
                others(full@),
            ));
        }
        while i < self.tasks.len()
            invariant
                i <= self.tasks@.len(),
                self.tasks@.len() == self@.len(),
                full@ == namespaced_name_spec(t@.name),
                kept@.map_values(|e: StoredTask| e@) == self@.subrange(0, i as int).filter(
                    others(full@),
                ),
            decreases self.tasks@.len() - i,
        {
            let entry = &self.tasks[i];
            proof {
                assert(self@.subrange(0, i + 1) =~= self@.subrange(0, i as int).push(entry@));
                lemma_filter_push(self@.subrange(0, i as int), others(full@), entry@);
            }
            if !str_eq(entry.full_name.as_str(), full.as_str()) {
                let ghost prev = kept@.map_values(|e: StoredTask| e@);
                kept.push(entry.duplicate());
                proof {
                    assert(kept@.map_values(|e: StoredTask| e@) =~= prev.push(entry@));
                }
            }
            i += 1;
        }
        proof {
            assert(self@.subrange(0, self@.len() as int) =~= self@);
        }
        let is_hourly = match t.recurrence {
            Recurrence::Hourly => true,
            _ => false,
        };
        let entry = StoredTask {
            full_name: full,
            schedule_type: sc_token(t.recurrence),
            start_time: t.start_time.clone(),
            start_date: if is_hourly {
                String::new()
            } else {
                t.start_date.clone()
            },
            command: run_command(t.script_reference.as_str()),
        };
        let ghost prev = kept@.map_values(|e: StoredTask| e@);
        proof {
            assert(entry@ == stored_of(t@));
        }
        kept.push(entry);
        self.tasks = kept;
        proof {
            assert(self@ =~= prev.push(stored_of(t@)));
        }
        let mut c = "Created scheduled task: ".to_owned();
        c.append("AUI\\");
        c.append(t.name.as_str());
        proof {
            assert(c@ =~= "Created scheduled task: "@ + namespaced_name_spec(t@.name));
        }
        c
    }

    /// Lists the entries namespaced under this library, foreign entries
    /// excluded.
    pub fn list(&self) -> (r: Vec<StoredTask>)
        ensures
            r@.map_values(|e: StoredTask| e@) == structured_list(self@),
    {
        let mut r: Vec<StoredTask> = Vec::new();
        let mut i: usize = 0;
        proof {
            reveal(Seq::filter);
            assert(r@.map_values(|e: StoredTask| e@) =~= structured_list(self@.subrange(0, 0)));
        }
        while i < self.tasks.len()
            invariant
                i <= self.tasks@.len(),
                self.tasks@.len() == self@.len(),
                r@.map_values(|e: StoredTask| e@) == structured_list(self@.subrange(0, i as int)),
            decreases self.tasks@.len() - i,
        {
            let entry = &self.tasks[i];
            proof {
                assert(self@.subrange(0, i + 1) =~= self@.subrange(0, i as int).push(entry@));
                lemma_filter_push(self@.subrange(0, i as int), in_namespace(), entry@);
            }
            if is_namespaced_exec(entry.full_name.as_str()) {
                let ghost prev = r@.map_values(|e: StoredTask| e@);
                r.push(entry.duplicate());
                proof {
                    assert(r@.map_values(|e: StoredTask| e@) =~= prev.push(entry@));
                }
            }
            i += 1;
        }
        proof {
            assert(self@.subrange(0, self@.len() as int) =~= self@);
        }
        r
    }

    /// Deletes the entry under `name`'s identifier.  A name never registered
    /// is surfaced as a rejection, not silently ignored, and the store is
    /// left unchanged.
    pub fn delete(&mut self, name: &str) -> (r: Result<String, RegistryError>)
        ensures
            r is Ok <==> has_entry(old(self)@, namespaced_name_spec(name@)),
            r is Ok ==> final(self)@ == structured_delete(old(self)@, name@),
            r is Ok ==> r->Ok_0@ == "Deleted scheduled task: "@ + namespaced_name_spec(name@),
            r is Err ==> final(self)@ == old(self)@,
            r is Err ==> r->Err_0 is RegistrationRejected,
            r is Err ==> r->Err_0.spec_message() == "no scheduled task named "@
                + namespaced_name_spec(name@),
    {
        let full = namespaced_name(name);
        let mut kept: Vec<StoredTask> = Vec::new();
        let mut found = false;
        let mut i: usize = 0;
        proof {
            reveal(Seq::filter);
            assert(kept@.map_values(|e: StoredTask| e@) =~= structured_delete(
                self@.subrange(0, 0),
                name@,
            ));
        }
        while i < self.tasks.len()
            invariant
                i <= self.tasks@.len(),
                self.tasks@.len() == self@.len(),
                full@ == namespaced_name_spec(name@),
                found == has_entry(self@.subrange(0, i as int), full@),
                kept@.map_values(|e: StoredTask| e@) == structured_delete(
                    self@.subrange(0, i as int),
                    name@,
                ),
            decreases self.tasks@.len() - i,
        {
            let entry = &self.tasks[i];
            proof {
                assert(self@.subrange(0, i + 1) =~= self@.subrange(0, i as int).push(entry@));
                lemma_filter_push(self@.subrange(0, i as int), others(full@), entry@);
            }
            if str_eq(entry.full_name.as_str(), full.as_str()) {
                found = true;
            } else {
                let ghost prev = kept@.map_values(|e: StoredTask| e@);
                kept.push(entry.duplicate());
                proof {
                    assert(kept@.map_values(|e: StoredTask| e@) =~= prev.push(entry@));
                }
            }
            proof {
                let pre = self@.subrange(0, i as int);
                let post = self@.subrange(0, i + 1);
                assert(post =~= pre.push(entry@));
                if entry@.full_name == full@ {
                    assert(post[i as int] == entry@);
                    assert(has_entry(post, full@));
                } else {
                    if has_entry(pre, full@) {
                        let j = choose|j: int| 0 <= j < pre.len() && pre[j].full_name == full@;
                        assert(post[j] == pre[j]);
                        assert(has_entry(post, full@));
                    }
                    if has_entry(post, full@) {
                        let j = choose|j: int| 0 <= j < post.len() && post[j].full_name == full@;
                        assert(j != i);
                        assert(pre[j] == post[j]);
                        assert(has_entry(pre, full@));
                    }
                }
            }
            i += 1;
        }
        proof {
            assert(self@.subrange(0, self@.len() as int) =~= self@);
        }
        if found {
            self.tasks = kept;
            let mut c = "Deleted scheduled task: ".to_owned();
            c.append(full.as_str());
            Ok(c)
        } else {
            let mut m = "no scheduled task named ".to_owned();
            m.append(full.as_str());
            Err(RegistryError::RegistrationRejected(m))
        }
    }
}

/// Register then List: exactly one listed entry carries the task's
/// identifier, and its fields are exactly the mapping of the task
/// description — the schedule-type token for its recurrence, the trigger
/// time verbatim, the start date kept for a non-hourly schedule and omitted
/// for an hourly one.
pub proof fn lemma_structured_register_then_list(store: Seq<StoredTaskModel>, t: TaskSpecModel)
    ensures
        named_entries(
            structured_list(structured_register(store, t)),
            namespaced_name_spec(t.name),
        ) =~= seq![stored_of(t)],
        stored_of(t).schedule_type == sc_token_spec(t.recurrence),
        stored_of(t).start_time == t.start_time,
        t.recurrence != Recurrence::Hourly ==> stored_of(t).start_date == t.start_date,
        t.recurrence == Recurrence::Hourly ==> stored_of(t).start_date == Seq::<char>::empty(),
{
    let full = namespaced_name_spec(t.name);
    let a = store.filter(others(full));
    lemma_namespaced(t.name);
    lemma_filter_push(a, in_namespace(), stored_of(t));
    let b = a.filter(in_namespace());
    lemma_filter_push(b, named(full), stored_of(t));
    assert forall|i: int| 0 <= i < b.len() implies !(named(full))(#[trigger] b[i]) by {
        lemma_filter_elem(a, in_namespace(), i);
        let j = choose|j: int| 0 <= j < a.len() && a[j] == b[i];
        lemma_filter_elem(store, others(full), j);
    }
    lemma_filter_none(b, named(full));
}

/// Registering the same task twice leaves exactly the store that one
/// registration leaves: the second overwrites the first, so exactly one
/// entry carries the identifier after both calls.
pub proof fn lemma_structured_register_idempotent(store: Seq<StoredTaskModel>, t: TaskSpecModel)
    ensures
        structured_register(structured_register(store, t), t) == structured_register(store, t),
{
    let full = namespaced_name_spec(t.name);
    let a = store.filter(others(full));
    lemma_filter_push(a, others(full), stored_of(t));
    assert(!(others(full))(stored_of(t)));
    assert forall|i: int| 0 <= i < a.len() implies (others(full))(#[trigger] a[i]) by {
        lemma_filter_elem(store, others(full), i);
    }
    lemma_filter_all(a, others(full));
}

/// Register then Delete of the same name: the registered entry is present,
/// so the deletion succeeds, and afterwards no entry — stored or listed —
/// carries that identifier.
pub proof fn lemma_structured_register_then_delete(store: Seq<StoredTaskModel>, t: TaskSpecModel)
    ensures
        has_entry(structured_register(store, t), namespaced_name_spec(t.name)),
        named_entries(
            structured_delete(structured_register(store, t), t.name),
            namespaced_name_spec(t.name),
        ) == Seq::<StoredTaskModel>::empty(),
        named_entries(
            structured_list(structured_delete(structured_register(store, t), t.name)),
            namespaced_name_spec(t.name),
        ) == Seq::<StoredTaskModel>::empty(),
{
    let full = namespaced_name_spec(t.name);
    let reg = structured_register(store, t);
    assert(reg[reg.len() - 1] == stored_of(t));
    assert(has_entry(reg, full));
    let after = structured_delete(reg, t.name);
    assert forall|i: int| 0 <= i < after.len() implies !(named(full))(#[trigger] after[i]) by {
        lemma_filter_elem(reg, others(full), i);
    }
    lemma_filter_none(after, named(full));
    let listed = structured_list(after);
    assert forall|i: int| 0 <= i < listed.len() implies !(named(full))(#[trigger] listed[i]) by {
        lemma_filter_elem(after, in_namespace(), i);
        let j = choose|j: int| 0 <= j < after.len() && after[j] == listed[i];
        lemma_filter_elem(reg, others(full), j);
    }
    lemma_filter_none(listed, named(full));
}

/// Deleting a name that no entry carries leaves the store's contents
/// unchanged (the exec operation additionally reports the rejection).
pub proof fn lemma_structured_delete_absent(store: Seq<StoredTaskModel>, name: Seq<char>)
    requires
        !has_entry(store, namespaced_name_spec(name)),
    ensures
        structured_delete(store, name) == store,
{
    let full = namespaced_name_spec(name);
    assert forall|i: int| 0 <= i < store.len() implies (others(full))(#[trigger] store[i]) by {
        if store[i].full_name == full {
            assert(has_entry(store, full));
        }
    }
    lemma_filter_all(store, others(full));
}

/// A listed entry always lies under this library's namespace and comes from
/// the store, whatever foreign entries the store holds.
pub proof fn lemma_structured_list_only_namespaced(store: Seq<StoredTaskModel>, i: int)
    requires
        0 <= i < structured_list(store).len(),
    ensures
        is_namespaced(structured_list(store)[i].full_name),
        store.contains(structured_list(store)[i]),
{
    lemma_filter_elem(store, in_namespace(), i);
}

/// Listing an empty store yields no entries, and no error: List is total.
pub proof fn lemma_structured_list_empty()
    ensures
        structured_list(Seq::<StoredTaskModel>::empty()) == Seq::<StoredTaskModel>::empty(),
{
    reveal(Seq::filter);
}

/// The argument list for the Register invocation of the platform mechanism:
/// create, identifier, command, schedule type, trigger time, forced
/// overwrite, and the start date only for a non-hourly schedule that has
/// one.
pub open spec fn create_args_spec(t: TaskSpecModel) -> Seq<Seq<char>> {
    let base = seq![
        "/Create"@,
        "/TN"@,
        namespaced_name_spec(t.name),
        "/TR"@,
        run_command_spec(t.script_reference),
        "/SC"@,
        sc_token_spec(t.recurrence),
        "/ST"@,
        t.start_time,
        "/F"@,
    ];
    if t.recurrence != Recurrence::Hourly && t.start_date.len() > 0 {
        base + seq!["/SD"@, t.start_date]
    } else {
        base
    }
}

/// Builds the argument list for the Register invocation.
pub fn create_args(t: &TaskSpec) -> (r: Vec<String>)
    ensures
        r@.map_values(|a: String| a@) == create_args_spec(t@),
{
    let mut r: Vec<String> = Vec::new();
    r.push("/Create".to_owned());
    r.push("/TN".to_owned());
    r.push(namespaced_name(t.name.as_str()));
    r.push("/TR".to_owned());
    r.push(run_command(t.script_reference.as_str()));
    r.push("/SC".to_owned());
    r.push(sc_token(t.recurrence));
    r.push("/ST".to_owned());
    r.push(t.start_time.clone());
    r.push("/F".to_owned());
    let is_hourly = match t.recurrence {
        Recurrence::Hourly => true,
        _ => false,
    };
    if !is_hourly && !t.start_date.as_str().is_empty() {
        r.push("/SD".to_owned());
        r.push(t.start_date.clone());
    }
    proof {
        assert(r@.map_values(|a: String| a@) =~= create_args_spec(t@));
    }
    r
}

/// The argument list for the List query: machine-readable tabular output,
/// no header row, restricted to this library's namespace.
pub open spec fn query_args_spec() -> Seq<Seq<char>> {
    seq!["/Query"@, "/FO"@, "CSV"@, "/NH"@, "/TN"@, "AUI\\*"@]
}

/// Builds the argument list for the List query.
pub fn query_args() -> (r: Vec<String>)
    ensures
        r@.map_values(|a: String| a@) == query_args_spec(),
{
    let mut r: Vec<String> = Vec::new();
    r.push("/Query".to_owned());
    r.push("/FO".to_owned());
    r.push("CSV".to_owned());
    r.push("/NH".to_owned());
    r.push("/TN".to_owned());
    r.push("AUI\\*".to_owned());
    proof {
        assert(r@.map_values(|a: String| a@) =~= query_args_spec());
    }
    r
}

/// The argument list for the Delete invocation.
pub open spec fn delete_args_spec(name: Seq<char>) -> Seq<Seq<char>> {
    seq!["/Delete"@, "/TN"@, namespaced_name_spec(name), "/F"@]
}

/// Builds the argument list for the Delete invocation.
pub fn delete_args(name: &str) -> (r: Vec<String>)
    ensures
        r@.map_values(|a: String| a@) == delete_args_spec(name@),
{
    let mut r: Vec<String> = Vec::new();
    r.push("/Delete".to_owned());
    r.push("/TN".to_owned());
    r.push(namespaced_name(name));
    r.push("/F".to_owned());
    proof {
        assert(r@.map_values(|a: String| a@) =~= delete_args_spec(name@));
    }
    r
}

} // verus!
