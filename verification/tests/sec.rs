use dotlanth::sec::{Capability, CapabilitySet, Syscall};

#[test]
fn capability_parses_from_stable_identifiers() {
    assert_eq!(Capability::from_str("log").unwrap(), Capability::Log);
    assert_eq!(
        Capability::from_str("net.http.listen").unwrap(),
        Capability::NetHttpListen
    );
}

#[test]
fn unknown_capability_fails_clearly() {
    let error = Capability::from_str("net.tcp.connect").expect_err("unknown must fail");
    assert_eq!(error.display_string(), "unknown capability `net.tcp.connect`");
    assert_eq!(error.input(), "net.tcp.connect");
}

#[test]
fn empty_capability_set_denies_all_caps() {
    let set = CapabilitySet::empty();
    assert!(!set.contains(Capability::Log));
    assert!(!set.contains(Capability::NetHttpListen));
}

#[test]
fn capability_set_parses_from_identifiers() {
    let set = CapabilitySet::try_from_iter(&vec!["log".to_string(), "net.http.listen".to_string()])
        .expect("known caps parse");
    assert!(set.contains(Capability::Log));
    assert!(set.contains(Capability::NetHttpListen));
}

#[test]
fn missing_log_capability_denies_log_syscall_with_actionable_error() {
    let set = CapabilitySet::empty();
    let error = set
        .enforce(Syscall::LogEmit)
        .expect_err("log must be denied without capability");
    assert_eq!(error.syscall(), Syscall::LogEmit);
    assert_eq!(error.required_capability(), Capability::Log);
    assert_eq!(
        error.display_string(),
        "capability denied: syscall `log.emit` requires capability `log`. Hint: add `allow log`. Declare it in your `.dot` file with an `allow ...` statement."
    );
}

#[test]
fn missing_http_listen_capability_denies_listen_syscall_with_actionable_error() {
    let set = CapabilitySet::empty();
    let error = set
        .enforce(Syscall::NetHttpListen)
        .expect_err("listen must be denied without capability");
    assert_eq!(error.syscall(), Syscall::NetHttpListen);
    assert_eq!(error.required_capability(), Capability::NetHttpListen);
    assert_eq!(
        error.display_string(),
        "capability denied: syscall `net.http.listen` requires capability `net.http.listen`. Hint: add `allow net.http.listen`. Declare it in your `.dot` file with an `allow ...` statement."
    );
}

#[test]
fn inserting_a_capability_grants_only_that_capability() {
    let mut set = CapabilitySet::empty();
    set.insert(Capability::Log);
    assert!(set.contains(Capability::Log));
    assert!(!set.contains(Capability::NetHttpListen));
    assert!(set.enforce(Syscall::LogEmit).is_ok());
    assert!(set.enforce(Syscall::NetHttpListen).is_err());
}

#[test]
fn capability_names_and_allow_statements_are_stable() {
    assert_eq!(Capability::Log.as_str(), "log");
    assert_eq!(Capability::NetHttpListen.as_str(), "net.http.listen");
    assert_eq!(Syscall::LogEmit.name(), "log.emit");
    assert_eq!(Syscall::NetHttpListen.name(), "net.http.listen");
    assert_eq!(Syscall::LogEmit.allow_statement(), "allow log");
    assert_eq!(Syscall::NetHttpListen.allow_statement(), "allow net.http.listen");
    assert_eq!(Syscall::LogEmit.required_capability(), Capability::Log);
    assert_eq!(
        Syscall::NetHttpListen.required_capability(),
        Capability::NetHttpListen
    );
    assert_eq!(Capability::all(), vec![Capability::Log, Capability::NetHttpListen]);
}
