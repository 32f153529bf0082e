use task_registry::launch::{detached_launch_line, shell_escape, terminal_script};
use task_registry::scan::{contains_str, str_eq};
use task_registry::task::RegistryError;
use task_registry::timeparse::split_time;

#[test]
fn shell_escape_rewrites_single_quotes() {
    assert_eq!(shell_escape("/plain/path.sh"), "/plain/path.sh");
    assert_eq!(shell_escape("a'b"), "a'\\''b");
    assert_eq!(shell_escape("''"), "'\\'''\\''");
    assert_eq!(shell_escape(""), "");
}

#[test]
fn detached_launch_line_is_exact() {
    assert_eq!(
        detached_launch_line("C:\\deploy.ps1"),
        "/c start \"Deploy\" powershell.exe -NoExit -ExecutionPolicy Bypass -File \"C:\\deploy.ps1\""
    );
}

#[test]
fn terminal_script_embeds_the_escaped_path() {
    let text = terminal_script("/tmp/it's.sh");
    assert!(text.starts_with("tell application \"Terminal\""));
    assert!(text.contains("do script \"bash '/tmp/it'\\''s.sh'\""));
    assert!(text.ends_with("end tell"));
}

#[test]
fn split_time_separates_hour_and_minute() {
    assert_eq!(split_time("14:30"), ("14".to_string(), "30".to_string()));
    assert_eq!(split_time("7:5"), ("7".to_string(), "5".to_string()));
    assert_eq!(split_time("14"), ("14".to_string(), "0".to_string()));
    assert_eq!(split_time(""), ("9".to_string(), "0".to_string()));
    assert_eq!(split_time(":30"), ("9".to_string(), "30".to_string()));
    assert_eq!(split_time("14:30:59"), ("14".to_string(), "30".to_string()));
}

#[test]
fn substring_search_finds_markers() {
    assert!(contains_str("30 14 * * 1 x # AUI:Backup", "# AUI:"));
    assert!(!contains_str("0 5 * * * certbot renew", "# AUI:"));
    assert!(contains_str("anything", ""));
    assert!(!contains_str("", "# AUI:"));
}

#[test]
fn char_equality_is_exact() {
    assert!(str_eq("abc", "abc"));
    assert!(!str_eq("abc", "abd"));
    assert!(!str_eq("abc", "ab"));
    assert!(str_eq("", ""));
}

#[test]
fn error_messages_carry_the_diagnostic_verbatim() {
    let e = RegistryError::ExecutionError("schtasks.exe not found".to_string());
    assert_eq!(e.message(), "schtasks.exe not found");
    let r = RegistryError::RegistrationRejected("access denied".to_string());
    assert_eq!(r.message(), "access denied");
    let u = RegistryError::EncodingError("invalid byte".to_string());
    assert_eq!(u.message(), "invalid byte");
}
