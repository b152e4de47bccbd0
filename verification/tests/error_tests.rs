use koilang::error::is_runtime_error;
use koilang::{DispatchResult, KoiError};

#[test]
fn test_runtime_error() {
    let err = KoiError::runtime("test error");
    assert!(matches!(err, KoiError::Runtime { .. }));
}

#[test]
fn test_command_not_found() {
    let err = KoiError::command_not_found("test_cmd");
    assert!(matches!(err, KoiError::CommandNotFound { name } if name == "test_cmd"));
}

#[test]
fn runtime_error_keeps_its_message() {
    let err = KoiError::runtime("boom");
    match err {
        KoiError::Runtime { message } => assert_eq!(message, "boom"),
        _ => panic!("expected a runtime error"),
    }
}

#[test]
fn error_texts_follow_the_display_format() {
    assert_eq!(KoiError::runtime("x failed").to_string(), "Runtime error: x failed");
    assert_eq!(KoiError::command_not_found("go").to_string(), "Command 'go' not found");
    let io = std::io::Error::new(std::io::ErrorKind::Other, "disk");
    assert_eq!(KoiError::Io(io).to_string(), "IO error: disk");
}

#[test]
fn only_not_found_is_not_found() {
    assert!(KoiError::command_not_found("a").is_command_not_found());
    assert!(!KoiError::runtime("a").is_command_not_found());
}

#[test]
fn dispatch_result_error_carries_the_error() {
    let r: DispatchResult = DispatchResult::Error(KoiError::runtime("bad"));
    assert!(matches!(r, DispatchResult::Error(KoiError::Runtime { message }) if message == "bad"));
    let _ = is_runtime_error;
}
