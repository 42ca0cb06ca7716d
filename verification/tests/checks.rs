use ritual::cpp_checks::{CppChecks, LibraryTarget, RecordOutcome};

fn env(target: &str, version: Option<&str>) -> LibraryTarget {
    LibraryTarget {
        target: String::from(target),
        cpp_library_version: version.map(String::from),
    }
}

#[test]
fn same_target_compares_both_fields() {
    assert!(env("x86_64-linux", Some("5.9")).same_target(&env("x86_64-linux", Some("5.9"))));
    assert!(!env("x86_64-linux", Some("5.9")).same_target(&env("x86_64-linux", Some("5.11"))));
    assert!(!env("x86_64-linux", None).same_target(&env("x86_64-linux", Some("5.9"))));
    assert!(!env("x86_64-linux", None).same_target(&env("aarch64-linux", None)));
}

#[test]
fn record_new_environment_is_added() {
    let mut checks = CppChecks::new();
    let outcome = checks.record(env("linux", Some("5.9")), None);
    assert_eq!(outcome, RecordOutcome::Added);
    assert_eq!(checks.entries().len(), 1);
}

#[test]
fn record_same_twice_is_unchanged() {
    let mut checks = CppChecks::new();
    checks.record(env("linux", Some("5.9")), Some(String::from("boom")));
    let second = checks.record(env("linux", Some("5.9")), Some(String::from("boom")));
    assert_eq!(second, RecordOutcome::Unchanged);
    assert_eq!(checks.entries().len(), 1);
    assert_eq!(checks.entries()[0].error, Some(String::from("boom")));
}

#[test]
fn record_different_error_reports_previous() {
    let mut checks = CppChecks::new();
    checks.record(env("linux", Some("5.9")), Some(String::from("old error")));
    let outcome = checks.record(env("linux", Some("5.9")), None);
    assert_eq!(outcome, RecordOutcome::Changed { old: Some(String::from("old error")) });
    assert_eq!(checks.entries().len(), 1);
    assert_eq!(checks.entries()[0].error, None);
}

#[test]
fn any_passed_needs_one_errorless_entry() {
    let mut checks = CppChecks::new();
    assert!(!checks.any_passed());
    checks.record(env("linux", Some("5.9")), Some(String::from("link error")));
    assert!(!checks.any_passed());
    checks.record(env("windows", Some("5.9")), None);
    assert!(checks.any_passed());
}

#[test]
fn clear_empties_the_ledger() {
    let mut checks = CppChecks::new();
    checks.record(env("linux", None), None);
    checks.record(env("windows", None), Some(String::from("x")));
    checks.clear();
    assert_eq!(checks.entries().len(), 0);
    assert!(!checks.any_passed());
}

#[test]
fn well_formedness_check_sees_duplicates() {
    let mut checks = CppChecks::new();
    checks.record(env("linux", None), None);
    checks.record(env("windows", None), None);
    assert!(checks.is_well_formed());
}
