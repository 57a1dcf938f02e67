use kode_bridge::transport::{
    guard_should_remove, on_bind_failure, reclaim_verdict, unix, windows, BindFailure, Endpoint,
    ListenerOptions, ProbeResult, ReclaimVerdict,
};
use kode_bridge::errors::ErrorKind;
use std::time::Duration;

#[test]
fn windows_non_pipe_endpoints_are_rejected_during_construction() {
    let endpoint = br"C:\temp\kode-bridge-invalid.sock";
    assert!(Endpoint::new_named_pipe(endpoint).is_err());
    assert!(!windows::validate_endpoint(endpoint));
}

#[test]
fn unix_endpoints_with_nul_are_rejected_during_construction() {
    let endpoint = b"/tmp/kb-invalid\0.sock";
    assert!(Endpoint::new(endpoint).is_err());
    assert!(!unix::validate_endpoint(endpoint));
}

#[test]
fn migration_api_contract_compiles() {
    let path = b"/tmp/kode-bridge-public-api.sock";

    let endpoint = Endpoint::new(path).expect("valid endpoint");
    assert_eq!(endpoint.as_path(), &path[..]);

    let listener_options = ListenerOptions::new()
        .reclaim_name(true)
        .try_overwrite(false)
        .max_spin_time(Duration::from_millis(100));
    assert!(listener_options.get_reclaim_name());
    assert!(!listener_options.get_try_overwrite());
    assert_eq!(listener_options.get_max_spin_time(), Some(Duration::from_millis(100)));

    let pipe = br"\\.\pipe\kode-bridge-public-api";
    let pipe_endpoint = Endpoint::new_named_pipe(pipe).expect("valid pipe");
    assert_eq!(pipe_endpoint.as_path(), &pipe[..]);
}

#[test]
fn endpoint_errors_are_configuration_errors() {
    let err = Endpoint::new(b"a\0b").unwrap_err();
    assert_eq!(err.kind, ErrorKind::Configuration);
    assert!(err.message.starts_with("Invalid IPC endpoint: "));
    let err = Endpoint::new_named_pipe(b"/tmp/x.sock").unwrap_err();
    assert_eq!(err.kind, ErrorKind::Configuration);
}

#[test]
fn named_pipe_paths() {
    assert!(windows::validate_endpoint(br"\\.\pipe\name"));
    assert!(windows::validate_endpoint(br"\\server\pipe\a"));
    // The name after \pipe\ must not be empty.
    assert!(!windows::validate_endpoint(br"\\.\pipe\"));
    // It must start with two backslashes.
    assert!(!windows::validate_endpoint(br"\.\pipe\name"));
    // The first backslash after the host must open \pipe\.
    assert!(!windows::validate_endpoint(br"\\.\pip\name"));
    assert!(!windows::validate_endpoint(br"\\.\PIPE\name"));
    // No NUL anywhere.
    assert!(!windows::validate_endpoint(b"\\\\.\\pipe\\na\0me"));
    assert!(!windows::validate_endpoint(b""));
}

#[test]
fn unix_paths_allow_any_bytes_but_nul() {
    assert!(unix::validate_endpoint(b""));
    assert!(unix::validate_endpoint(b"relative/path.sock"));
    assert!(unix::validate_endpoint(&[0xff, 0x80]));
    assert!(!unix::validate_endpoint(&[b'a', 0]));
}

#[test]
fn listener_options_defaults_and_setters() {
    let o = ListenerOptions::new();
    assert!(o.get_reclaim_name());
    assert!(!o.get_try_overwrite());
    assert_eq!(o.get_max_spin_time(), None);
    assert_eq!(o.get_mode(), None);
    let o = o.reclaim_name(false).try_overwrite(true).mode(0o600);
    assert!(!o.get_reclaim_name());
    assert!(o.get_try_overwrite());
    assert_eq!(o.get_mode(), Some(0o600));
}

#[test]
fn bind_failures_reclaim_only_when_allowed() {
    assert_eq!(on_bind_failure(true, true, false, false), BindFailure::ReclaimAndRetry);
    assert_eq!(on_bind_failure(true, true, true, false), BindFailure::ReclaimAndRetry);
    assert_eq!(on_bind_failure(true, true, true, true), BindFailure::Fail);
    assert_eq!(on_bind_failure(true, false, false, false), BindFailure::Fail);
    assert_eq!(on_bind_failure(false, true, false, false), BindFailure::Fail);
}

#[test]
fn only_unchanged_stale_sockets_are_removed() {
    assert_eq!(reclaim_verdict(true, ProbeResult::Refused, true), ReclaimVerdict::Remove);
    assert_eq!(reclaim_verdict(true, ProbeResult::Refused, false), ReclaimVerdict::Changed);
    assert_eq!(reclaim_verdict(true, ProbeResult::Connected, true), ReclaimVerdict::Live);
    assert_eq!(reclaim_verdict(true, ProbeResult::OtherError, true), ReclaimVerdict::ProbeFailed);
    assert_eq!(reclaim_verdict(false, ProbeResult::Refused, true), ReclaimVerdict::NotASocket);
}

#[test]
fn guard_removes_only_its_own_socket() {
    assert!(guard_should_remove(true, 1, 2, 1, 2));
    assert!(!guard_should_remove(true, 1, 3, 1, 2));
    assert!(!guard_should_remove(true, 9, 2, 1, 2));
    assert!(!guard_should_remove(false, 1, 2, 1, 2));
}
