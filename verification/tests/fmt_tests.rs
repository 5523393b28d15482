use virtme_ng_init::logfmt::{command_log_text, format_log_message, get_kernel_version};
use virtme_ng_init::strfind::{base_name, find_str, i64_to_dec, parent_dir, replace_underscores,
    split_fields, split_whitespace_words, str_has_prefix, trim_newlines, u64_to_dec};
use virtme_ng_init::{is_init_pid, next_boot_phase, BootPhase, SessionKind};

#[test]
fn log_message_formatting() {
    let (kmsg, plain) = format_log_message("udev is done").expect("expected a line");
    assert_eq!(kmsg, "<6>virtme-ng-init: udev is done\n");
    assert_eq!(plain, "virtme-ng-init: udev is done");
    let (kmsg, _) = format_log_message("trailing\n\n").expect("expected a line");
    assert_eq!(kmsg, "<6>virtme-ng-init: trailing\n");
    assert!(format_log_message("").is_none());
    assert!(format_log_message("\n\n").is_none());
}

#[test]
fn command_error_output() {
    assert_eq!(command_log_text("warning: xyz\n"), Some("warning: xyz".to_string()));
    assert_eq!(command_log_text("\n"), Some(String::new()));
    assert_eq!(command_log_text(""), None);
}

#[test]
fn kernel_version_line() {
    let release = "6.1.0-virtme".to_string();
    let machine = "x86_64".to_string();
    assert_eq!(get_kernel_version(Some((&release, &machine)), true), "6.1.0-virtme x86_64");
    assert_eq!(get_kernel_version(Some((&release, &machine)), false), "6.1.0-virtme");
    assert_eq!(get_kernel_version(None, true), "None");
}

#[test]
fn decimal_formatting() {
    assert_eq!(u64_to_dec(0), "0");
    assert_eq!(u64_to_dec(7), "7");
    assert_eq!(u64_to_dec(10), "10");
    assert_eq!(u64_to_dec(1234567890123456789), "1234567890123456789");
    assert_eq!(u64_to_dec(u64::MAX), "18446744073709551615");
    assert_eq!(i64_to_dec(-1), "-1");
    assert_eq!(i64_to_dec(42), "42");
    assert_eq!(i64_to_dec(i64::MIN), "-9223372036854775808");
}

#[test]
fn text_helpers() {
    assert_eq!(replace_underscores("virtme_initmount0"), "virtme.initmount0");
    assert_eq!(replace_underscores("nochange"), "nochange");
    assert!(str_has_prefix("virtme_user", "virtme_"));
    assert!(!str_has_prefix("virt", "virtme_"));
    assert_eq!(trim_newlines("abc\n\n"), "abc");
    assert_eq!(base_name("/var/lib/dpkg/lock"), "lock");
    assert_eq!(base_name("plain"), "plain");
    assert_eq!(parent_dir("/a/b/c"), Some("/a/b".to_string()));
    assert_eq!(parent_dir("/a"), Some("/".to_string()));
    assert_eq!(parent_dir("/"), None);
    assert_eq!(parent_dir("x"), None);
    assert_eq!(split_fields("a:b::c", ':'), vec!["a", "b", "", "c"]);
    assert_eq!(split_fields("", ':'), vec![""]);
    assert_eq!(split_whitespace_words("  rows 24\tcols  80 "), vec!["rows", "24", "cols", "80"]);
    assert_eq!(split_whitespace_words("").len(), 0);
    assert_eq!(find_str("abcabc", "bc", 2), Some(4));
    assert_eq!(find_str("abcabc", "zz", 0), None);
}

#[test]
fn pid_one_check() {
    assert!(is_init_pid(1));
    assert!(!is_init_pid(2));
}

#[test]
fn boot_phases_run_forward_only() {
    let p = next_boot_phase(&BootPhase::Init, &SessionKind::Interactive).unwrap();
    assert!(matches!(p, BootPhase::NamespaceSetup));
    let p = next_boot_phase(&p, &SessionKind::Interactive).unwrap();
    assert!(matches!(p, BootPhase::ServiceBringup));
    let s = next_boot_phase(&p, &SessionKind::Scripted).unwrap();
    assert!(matches!(s, BootPhase::ScriptedSession));
    let i = next_boot_phase(&p, &SessionKind::Interactive).unwrap();
    assert!(matches!(i, BootPhase::InteractiveSession));
    let d = next_boot_phase(&p, &SessionKind::Degraded).unwrap();
    assert!(matches!(d, BootPhase::DegradedShell));
    let end = next_boot_phase(&s, &SessionKind::Scripted).unwrap();
    assert!(matches!(end, BootPhase::Shutdown));
    assert!(next_boot_phase(&end, &SessionKind::Scripted).is_none());
}
