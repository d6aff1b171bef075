//! Error taxonomy behaviour.

use rusted_jetsons::Error;

#[test]
fn test_error_display_io() {
    let io_err = std::io::Error::new(std::io::ErrorKind::NotFound, "file not found");
    let err = Error::Io(io_err.to_string());
    let display = err.message();
    assert!(display.contains("I/O error"));
}

#[test]
fn test_error_display_hardware_not_found() {
    let err = Error::HardwareNotFound("GPU".to_string());
    let display = err.message();
    assert_eq!(display, "Hardware not found: GPU");
}

#[test]
fn test_error_display_permission_denied() {
    let err = Error::PermissionDenied("/sys/class/thermal".to_string());
    let display = err.message();
    assert_eq!(display, "Permission denied: /sys/class/thermal");
}

#[test]
fn test_error_display_unsupported_platform() {
    let err = Error::UnsupportedPlatform("x86_64".to_string());
    let display = err.message();
    assert_eq!(display, "Unsupported platform: x86_64");
}

#[test]
fn test_error_display_invalid_input() {
    let err = Error::InvalidInput("Speed must be 0-100".to_string());
    let display = err.message();
    assert_eq!(display, "Invalid input: Speed must be 0-100");
}

#[test]
fn test_error_source_io() {
    let io_err = std::io::Error::new(std::io::ErrorKind::NotFound, "file not found");
    let err = Error::Io(io_err.to_string());
    assert!(err.source().is_some());
}

#[test]
fn test_error_source_other() {
    let err = Error::HardwareNotFound("GPU".to_string());
    assert!(err.source().is_none());

    let err = Error::PermissionDenied("/sys".to_string());
    assert!(err.source().is_none());

    let err = Error::UnsupportedPlatform("x86".to_string());
    assert!(err.source().is_none());
}

#[test]
fn test_error_from_io_error() {
    let io_err = std::io::Error::new(std::io::ErrorKind::PermissionDenied, "access denied");
    let err = Error::Io(io_err.to_string());
    assert!(matches!(err, Error::Io(_)));
}

#[test]
fn test_error_debug() {
    let err = Error::HardwareNotFound("test".to_string());
    let debug = format!("{:?}", err);
    assert!(debug.contains("HardwareNotFound"));
}

#[test]
fn test_result_type() {
    let ok_result: Result<i32, Error> = Ok(42);
    assert_eq!(ok_result.unwrap(), 42);

    let err_result: Result<i32, Error> = Err(Error::HardwareNotFound("test".to_string()));
    assert!(err_result.is_err());
}
