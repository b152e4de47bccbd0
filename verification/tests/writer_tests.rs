use koilang::writer::{active_options, build_params, failure_message, targets_include, write_failure};
use koilang::{FormatterOptions, KoiError, Parameter, Value};
use std::collections::HashMap;

fn opts(indent: usize) -> FormatterOptions {
    FormatterOptions { indent, ..Default::default() }
}

#[test]
fn targets_select_commands() {
    assert!(targets_include(&None, "anything"));
    let t = Some(vec!["special".to_string(), "other".to_string()]);
    assert!(targets_include(&t, "other"));
    assert!(!targets_include(&t, "plain"));
    assert!(!targets_include(&Some(vec![]), "plain"));
}

#[test]
fn the_topmost_applicable_options_win() {
    let stack = vec![
        (opts(1), None),
        (opts(2), Some(vec!["a".to_string()])),
        (opts(3), Some(vec!["b".to_string()])),
    ];
    assert_eq!(active_options(&stack, "a"), Some(opts(2)));
    assert_eq!(active_options(&stack, "b"), Some(opts(3)));
    assert_eq!(active_options(&stack, "c"), Some(opts(1)));
    assert_eq!(active_options(&stack[1..], "c"), None);
    assert_eq!(active_options(&[], "a"), None);
}

#[test]
fn params_list_positional_then_named() {
    let mut kwargs = HashMap::new();
    kwargs.insert("color".to_string(), Value::from("red"));
    let params = build_params(&[Value::from("circle"), Value::Int(100)], &kwargs);
    assert_eq!(
        params,
        vec![
            Parameter::from("circle"),
            Parameter::from(100i64),
            Parameter::from(("color", Value::from("red"))),
        ]
    );
    assert!(build_params(&[], &HashMap::new()).is_empty());
}

#[test]
fn write_failures_name_the_operation() {
    let io = std::io::Error::new(std::io::ErrorKind::Other, "sink closed");
    let e = write_failure("Failed to write command: ", &io);
    assert!(matches!(e, KoiError::Runtime { message } if message == "Failed to write command: sink closed"));
}

#[test]
fn named_parameters_carry_their_key_and_value() {
    let mut kwargs = HashMap::new();
    kwargs.insert("a".to_string(), Value::Int(1));
    kwargs.insert("b".to_string(), Value::from("two"));
    let params = build_params(&[Value::Bool(true)], &kwargs);
    assert_eq!(params.len(), 3);
    assert_eq!(params[0], Parameter::from(Value::Bool(true)));
    let mut named: Vec<Parameter> = params[1..].to_vec();
    named.sort_by_key(|p| p.to_string());
    assert_eq!(named, vec![Parameter::from(("a", Value::Int(1))), Parameter::from(("b", Value::from("two")))]);
}

#[test]
fn failure_messages_join_prefix_and_detail() {
    let e = failure_message("Failed to write text: ", "disk full");
    assert!(matches!(e, KoiError::Runtime { message } if message == "Failed to write text: disk full"));
}
