use koilang::handler::dispatch_to_handler;
use koilang::{CommandHandler, DispatchResult, KoiError, Runtime, Value};
use std::collections::HashMap;

struct TestHandler {
    last_command: Option<String>,
}

impl CommandHandler for TestHandler {
    fn handle_command(
        &mut self,
        name: &str,
        _args: &[Value],
        _kwargs: &HashMap<String, Value>,
        _runtime: &mut Runtime,
    ) -> DispatchResult {
        self.last_command = Some(name.to_string());
        if name == "fail" {
            DispatchResult::Error(KoiError::runtime("test failure"))
        } else {
            DispatchResult::Continue
        }
    }
}

#[test]
fn test_handler_dispatch() {
    let mut handler = TestHandler { last_command: None };
    let mut runtime = Runtime::new();

    let result = dispatch_to_handler(&mut handler, "test", &[], &HashMap::new(), &mut runtime);
    assert!(matches!(result, DispatchResult::Continue));
    assert_eq!(handler.last_command, Some("test".to_string()));
}

#[test]
fn test_handler_error() {
    let mut handler = TestHandler { last_command: None };
    let mut runtime = Runtime::new();

    let result = dispatch_to_handler(&mut handler, "fail", &[], &HashMap::new(), &mut runtime);
    assert!(matches!(result, DispatchResult::Error(_)));
}
