use task_registry::cron::{cron_entry_line, cron_expr, marker_str, name_marker_str, parse_recurrence};
use task_registry::task::{Recurrence, TaskSpec};
use task_registry::text_table::{split_lines, TextTable};

fn make_task(name: &str, script: &str, time: &str, date: &str, rec: Recurrence) -> TaskSpec {
    TaskSpec {
        name: name.to_string(),
        script_reference: script.to_string(),
        start_time: time.to_string(),
        start_date: date.to_string(),
        recurrence: rec,
    }
}

#[test]
fn weekly_backup_line_is_exact() {
    let t = make_task("Backup", "/scripts/b.sh", "14:30", "", Recurrence::Weekly);
    assert_eq!(
        cron_entry_line(&t),
        "30 14 * * 1 /bin/bash '/scripts/b.sh' # AUI:Backup"
    );
}

#[test]
fn hourly_expression_ignores_start_time() {
    assert_eq!(cron_expr(Recurrence::Hourly, "14:30"), "0 * * * *");
    assert_eq!(cron_expr(Recurrence::Hourly, "07:45"), "0 * * * *");
    assert_eq!(cron_expr(Recurrence::Hourly, ""), "0 * * * *");
}

#[test]
fn daily_monthly_once_expressions() {
    assert_eq!(cron_expr(Recurrence::Daily, "08:05"), "05 08 * * *");
    assert_eq!(cron_expr(Recurrence::Monthly, "23:59"), "59 23 1 * *");
    assert_eq!(cron_expr(Recurrence::Once, "14:30"), "30 14 * * *");
}

#[test]
fn time_fields_fall_back_to_defaults() {
    assert_eq!(cron_expr(Recurrence::Daily, ""), "0 9 * * *");
    assert_eq!(cron_expr(Recurrence::Daily, "14"), "0 14 * * *");
    assert_eq!(cron_expr(Recurrence::Daily, "14:"), "0 14 * * *");
    assert_eq!(cron_expr(Recurrence::Daily, ":30"), "30 9 * * *");
    assert_eq!(cron_expr(Recurrence::Daily, "14:30:00"), "30 14 * * *");
}

#[test]
fn parse_recurrence_maps_and_falls_back() {
    assert_eq!(parse_recurrence("hourly"), Recurrence::Hourly);
    assert_eq!(parse_recurrence("daily"), Recurrence::Daily);
    assert_eq!(parse_recurrence("weekly"), Recurrence::Weekly);
    assert_eq!(parse_recurrence("monthly"), Recurrence::Monthly);
    assert_eq!(parse_recurrence("once"), Recurrence::Once);
    assert_eq!(parse_recurrence("yearly"), Recurrence::Once);
    assert_eq!(parse_recurrence(""), Recurrence::Once);
}

#[test]
fn register_then_list_yields_one_decodable_entry() {
    let mut table = TextTable::new();
    let t = make_task("Backup", "/scripts/b.sh", "14:30", "", Recurrence::Weekly);
    let confirmation = table.register(&t);
    assert_eq!(confirmation, "Created cron job: AUI:Backup");
    let listed = table.list();
    assert_eq!(listed.len(), 1);
    assert_eq!(listed[0], "30 14 * * 1 /bin/bash '/scripts/b.sh' # AUI:Backup");
    assert!(listed[0].starts_with("30 14 * * 1 "));
}

#[test]
fn register_twice_appends_a_second_line() {
    let mut table = TextTable::new();
    let t = make_task("Backup", "/scripts/b.sh", "14:30", "", Recurrence::Daily);
    table.register(&t);
    table.register(&t);
    assert_eq!(table.list().len(), 2);
}

#[test]
fn delete_after_register_leaves_no_entry_with_that_name() {
    let mut table = TextTable::new();
    let t = make_task("Backup", "/scripts/b.sh", "14:30", "", Recurrence::Weekly);
    table.register(&t);
    let confirmation = table.delete("Backup");
    assert_eq!(confirmation, "Deleted cron job: AUI:Backup");
    assert!(table.list().is_empty());
    let marker = name_marker_str("Backup");
    assert!(table.lines.iter().all(|l| !l.contains(&marker)));
}

#[test]
fn delete_of_unknown_name_changes_nothing_and_succeeds() {
    let mut table = TextTable::from_text("0 5 * * * certbot renew\n30 14 * * 1 /bin/bash '/s.sh' # AUI:Backup\n");
    let before = table.lines.clone();
    let confirmation = table.delete("Ghost");
    assert_eq!(confirmation, "Deleted cron job: AUI:Ghost");
    assert_eq!(table.lines, before);
}

#[test]
fn delete_also_removes_names_extending_the_given_one() {
    let mut table = TextTable::new();
    table.register(&make_task("A", "/a.sh", "10:00", "", Recurrence::Daily));
    table.register(&make_task("AB", "/ab.sh", "11:00", "", Recurrence::Daily));
    table.delete("A");
    assert!(table.list().is_empty());
}

#[test]
fn list_skips_foreign_lines() {
    let raw = "0 5 * * * certbot renew\n# a comment the user wrote\n30 14 * * 1 /bin/bash '/s.sh' # AUI:Backup\n15 2 * * * /usr/bin/backup-home\n";
    let table = TextTable::from_text(raw);
    let listed = table.list();
    assert_eq!(listed.len(), 1);
    assert!(listed[0].contains(&marker_str()));
    assert_eq!(listed[0], "30 14 * * 1 /bin/bash '/s.sh' # AUI:Backup");
}

#[test]
fn list_of_empty_store_is_empty_not_an_error() {
    assert!(TextTable::new().list().is_empty());
    assert!(TextTable::from_text("").list().is_empty());
}

#[test]
fn render_and_reread_round_trips() {
    let mut table = TextTable::new();
    table.register(&make_task("One", "/one.sh", "06:15", "", Recurrence::Monthly));
    table.register(&make_task("Two", "/two.sh", "18:45", "", Recurrence::Weekly));
    let text = table.render();
    assert!(text.ends_with('\n'));
    let reread = TextTable::from_text(&text);
    assert_eq!(reread.lines, table.lines);
}

#[test]
fn render_of_empty_table_is_empty_text() {
    assert_eq!(TextTable::new().render(), "");
}

#[test]
fn split_lines_handles_breaks_and_trailing_break() {
    let as_vec = |v: Vec<String>| v;
    assert_eq!(as_vec(split_lines("a\nb\n")), vec!["a", "b"]);
    assert_eq!(as_vec(split_lines("a\nb")), vec!["a", "b"]);
    assert!(split_lines("").is_empty());
    assert_eq!(as_vec(split_lines("a\n\nb")), vec!["a", "", "b"]);
}
