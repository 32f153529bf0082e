use task_registry::structured::{
    create_args, delete_args, is_namespaced_exec, namespaced_name, query_args, sc_token,
    run_command, StoredTask, StructuredStore,
};
use task_registry::task::{Recurrence, RegistryError, TaskSpec};

fn make_task(name: &str, script: &str, time: &str, date: &str, rec: Recurrence) -> TaskSpec {
    TaskSpec {
        name: name.to_string(),
        script_reference: script.to_string(),
        start_time: time.to_string(),
        start_date: date.to_string(),
        recurrence: rec,
    }
}

fn foreign_entry() -> StoredTask {
    StoredTask {
        full_name: "Microsoft\\Windows\\Defrag".to_string(),
        schedule_type: "WEEKLY".to_string(),
        start_time: "03:00".to_string(),
        start_date: "".to_string(),
        command: "defrag.exe C:".to_string(),
    }
}

#[test]
fn register_then_list_yields_one_mapped_entry() {
    let mut store = StructuredStore::new();
    let t = make_task("Backup", "C:\\scripts\\b.ps1", "14:30", "2026-01-01", Recurrence::Weekly);
    let confirmation = store.register(&t);
    assert_eq!(confirmation, "Created scheduled task: AUI\\Backup");
    let listed = store.list();
    assert_eq!(listed.len(), 1);
    assert_eq!(listed[0].full_name, "AUI\\Backup");
    assert_eq!(listed[0].schedule_type, "WEEKLY");
    assert_eq!(listed[0].start_time, "14:30");
    assert_eq!(listed[0].start_date, "2026-01-01");
    assert_eq!(
        listed[0].command,
        "powershell.exe -ExecutionPolicy Bypass -File \"C:\\scripts\\b.ps1\""
    );
}

#[test]
fn register_twice_keeps_one_entry() {
    let mut store = StructuredStore::new();
    let t = make_task("Backup", "/s.sh", "14:30", "", Recurrence::Daily);
    store.register(&t);
    store.register(&t);
    assert_eq!(store.list().len(), 1);
}

#[test]
fn hourly_schedule_drops_the_start_date() {
    let mut store = StructuredStore::new();
    let t = make_task("Poll", "/p.sh", "14:30", "2026-01-01", Recurrence::Hourly);
    store.register(&t);
    let listed = store.list();
    assert_eq!(listed[0].schedule_type, "HOURLY");
    assert_eq!(listed[0].start_date, "");
}

#[test]
fn delete_after_register_removes_the_entry() {
    let mut store = StructuredStore::new();
    store.register(&make_task("Backup", "/s.sh", "14:30", "", Recurrence::Weekly));
    let r = store.delete("Backup");
    assert_eq!(r.unwrap(), "Deleted scheduled task: AUI\\Backup");
    assert!(store.list().is_empty());
}

#[test]
fn delete_of_unknown_name_is_an_error_and_changes_nothing() {
    let mut store = StructuredStore::new();
    store.tasks.push(foreign_entry());
    store.register(&make_task("Backup", "/s.sh", "14:30", "", Recurrence::Daily));
    let r = store.delete("Ghost");
    match r {
        Err(RegistryError::RegistrationRejected(_)) => {}
        _ => panic!("expected a rejection"),
    }
    assert_eq!(store.tasks.len(), 2);
    assert_eq!(store.list().len(), 1);
}

#[test]
fn rejection_message_names_the_missing_task() {
    let mut store = StructuredStore::new();
    let e = store.delete("Ghost").unwrap_err();
    assert_eq!(e.message(), "no scheduled task named AUI\\Ghost");
}

#[test]
fn list_skips_foreign_entries() {
    let mut store = StructuredStore::new();
    store.tasks.push(foreign_entry());
    store.register(&make_task("Backup", "/s.sh", "14:30", "", Recurrence::Monthly));
    let listed = store.list();
    assert_eq!(listed.len(), 1);
    assert_eq!(listed[0].full_name, "AUI\\Backup");
    assert!(is_namespaced_exec(&listed[0].full_name));
}

#[test]
fn list_of_empty_structured_store_is_empty_not_an_error() {
    assert!(StructuredStore::new().list().is_empty());
}

#[test]
fn create_args_carry_the_full_mapping() {
    let t = make_task("Backup", "C:\\b.ps1", "14:30", "2026-01-01", Recurrence::Weekly);
    let args = create_args(&t);
    assert_eq!(
        args,
        vec![
            "/Create",
            "/TN",
            "AUI\\Backup",
            "/TR",
            "powershell.exe -ExecutionPolicy Bypass -File \"C:\\b.ps1\"",
            "/SC",
            "WEEKLY",
            "/ST",
            "14:30",
            "/F",
            "/SD",
            "2026-01-01",
        ]
    );
}

#[test]
fn create_args_omit_the_date_for_hourly_or_empty() {
    let hourly = make_task("Poll", "/p.sh", "14:30", "2026-01-01", Recurrence::Hourly);
    let args = create_args(&hourly);
    assert_eq!(args.len(), 10);
    assert!(!args.contains(&"/SD".to_string()));
    let undated = make_task("Backup", "/b.sh", "14:30", "", Recurrence::Daily);
    assert_eq!(create_args(&undated).len(), 10);
}

#[test]
fn query_and_delete_args_are_exact() {
    assert_eq!(query_args(), vec!["/Query", "/FO", "CSV", "/NH", "/TN", "AUI\\*"]);
    assert_eq!(delete_args("Backup"), vec!["/Delete", "/TN", "AUI\\Backup", "/F"]);
}

#[test]
fn schedule_type_tokens_cover_every_recurrence() {
    assert_eq!(sc_token(Recurrence::Once), "ONCE");
    assert_eq!(sc_token(Recurrence::Hourly), "HOURLY");
    assert_eq!(sc_token(Recurrence::Daily), "DAILY");
    assert_eq!(sc_token(Recurrence::Weekly), "WEEKLY");
    assert_eq!(sc_token(Recurrence::Monthly), "MONTHLY");
}

#[test]
fn namespacing_is_a_prefix_check() {
    assert_eq!(namespaced_name("Backup"), "AUI\\Backup");
    assert!(is_namespaced_exec("AUI\\Backup"));
    assert!(is_namespaced_exec("AUI\\"));
    assert!(!is_namespaced_exec("AUI"));
    assert!(!is_namespaced_exec("Microsoft\\Windows\\Defrag"));
}

#[test]
fn run_command_wraps_the_script_reference() {
    assert_eq!(
        run_command("/tmp/a.ps1"),
        "powershell.exe -ExecutionPolicy Bypass -File \"/tmp/a.ps1\""
    );
}
