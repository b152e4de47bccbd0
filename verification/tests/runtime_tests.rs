use koilang::runtime::{build_command, command_args};
use koilang::{
    Command, CommandHandler, DispatchResult, KoiError, LoopStep, MatchingStrategy, Middleware,
    MiddlewareNext, Parameter, ProbeStep, Runtime, ScanStrategy, Value,
};
use koicore::parser::{FileInputSource, Parser, StringInputSource, TextInputSource};
use std::collections::HashMap;
use std::io::Write;
use std::sync::{Arc, Mutex};

struct TestEnv {
    commands: Arc<Mutex<Vec<String>>>,
}

impl TestEnv {
    fn new() -> (Self, Arc<Mutex<Vec<String>>>) {
        let commands = Arc::new(Mutex::new(Vec::new()));
        (Self { commands: commands.clone() }, commands)
    }
}

impl CommandHandler for TestEnv {
    fn handle_command(
        &mut self,
        name: &str,
        _args: &[Value],
        _kwargs: &HashMap<String, Value>,
        _runtime: &mut Runtime,
    ) -> DispatchResult {
        self.commands.lock().unwrap().push(name.to_string());
        DispatchResult::Continue
    }
}

/// An environment that knows only the commands in `known`, records what it
/// handles with its tag, and reports the rest as not found.
struct PickyEnv {
    tag: &'static str,
    known: Vec<&'static str>,
    log: Arc<Mutex<Vec<String>>>,
}

impl CommandHandler for PickyEnv {
    fn handle_command(
        &mut self,
        name: &str,
        args: &[Value],
        _kwargs: &HashMap<String, Value>,
        _runtime: &mut Runtime,
    ) -> DispatchResult {
        if self.known.contains(&name) {
            self.log.lock().unwrap().push(format!("{}:{}:{}", self.tag, name, args.len()));
            DispatchResult::Continue
        } else {
            DispatchResult::Error(KoiError::command_not_found(name))
        }
    }
}

/// Records the arguments it receives.
struct ArgsEnv {
    seen: Arc<Mutex<Vec<Value>>>,
}

impl CommandHandler for ArgsEnv {
    fn handle_command(
        &mut self,
        _name: &str,
        args: &[Value],
        _kwargs: &HashMap<String, Value>,
        _runtime: &mut Runtime,
    ) -> DispatchResult {
        self.seen.lock().unwrap().extend(args.iter().cloned());
        DispatchResult::Continue
    }
}

struct NameIs(&'static str);

impl ScanStrategy for NameIs {
    fn matches(&mut self, cmd: &Command, _pos: usize) -> bool {
        cmd.name() == self.0
    }
}

fn cached_runtime(names: &[&str]) -> Runtime {
    let mut runtime = Runtime::new();
    runtime.enable_cache();
    for n in names {
        runtime.record_parsed(&Command::new(*n, vec![]));
    }
    runtime
}

#[test]
fn test_runtime_new() {
    let runtime = Runtime::new();
    assert!(!runtime.is_cache_enabled());
    assert_eq!(runtime.current_position(), 0);
}

#[test]
fn test_env_stack() {
    let mut runtime = Runtime::new();
    let (env, _) = TestEnv::new();

    runtime.env_enter(Box::new(env));
    assert_eq!(runtime.env_stack().len(), 1);

    runtime.env_exit();
    assert_eq!(runtime.env_stack().len(), 0);
}

#[test]
fn test_cache_enable_disable() {
    let mut runtime = Runtime::new();

    runtime.enable_cache();
    assert!(runtime.is_cache_enabled());

    runtime.disable_cache();
    assert!(!runtime.is_cache_enabled());
}

#[test]
fn test_execute_command() {
    let mut runtime = Runtime::new();
    let (env, commands) = TestEnv::new();
    runtime.env_enter(Box::new(env));

    let r = runtime.execute_command("test", &[], &HashMap::new());
    assert!(matches!(r, DispatchResult::Continue));
    assert_eq!(commands.lock().unwrap().len(), 1);
}

#[test]
fn test_execute_on_environment() {
    let mut runtime = Runtime::new();
    let (env, commands) = TestEnv::new();
    runtime.env_enter(Box::new(env));

    let r = runtime.execute_on_environment(0, "test", &[], &HashMap::new());
    assert!(matches!(r, DispatchResult::Continue));
    assert_eq!(commands.lock().unwrap().len(), 1);
}

#[test]
fn test_command_builder() {
    let mut runtime = Runtime::new();
    let (env, commands) = TestEnv::new();
    runtime.env_enter(Box::new(env));

    let r = runtime.cmd("test").arg("arg1").arg(42i64).kwarg("key", "value").execute();
    assert!(matches!(r, DispatchResult::Continue));

    assert_eq!(commands.lock().unwrap().len(), 1);
}

#[test]
fn test_execute_command_obj() {
    let mut runtime = Runtime::new();
    let (env, commands) = TestEnv::new();
    runtime.env_enter(Box::new(env));

    let cmd = Command::new("direct_command", vec![]);
    let r = runtime.execute_command_obj(&cmd);
    assert!(matches!(r, DispatchResult::Continue));

    let cmds = commands.lock().unwrap();
    assert_eq!(cmds.len(), 1);
    assert_eq!(cmds[0], "direct_command");
}

#[test]
fn builder_arguments_reach_the_handler() {
    let mut runtime = Runtime::new();
    let seen = Arc::new(Mutex::new(Vec::new()));
    runtime.env_enter(Box::new(ArgsEnv { seen: seen.clone() }));
    let r = runtime.cmd("draw").arg("circle").arg(100i64).kwarg("color", "red").execute();
    assert!(matches!(r, DispatchResult::Continue));
    assert_eq!(*seen.lock().unwrap(), vec![Value::from("circle"), Value::Int(100)]);
}

#[test]
fn execute_command_hands_over_the_arguments_unchanged() {
    let mut runtime = Runtime::new();
    let seen = Arc::new(Mutex::new(Vec::new()));
    runtime.env_enter(Box::new(ArgsEnv { seen: seen.clone() }));
    let args = vec![Value::from("Alice"), Value::Int(42), Value::Bool(true), Value::Float(1.5)];
    let r = runtime.execute_command("greet", &args, &HashMap::new());
    assert!(matches!(r, DispatchResult::Continue));
    assert_eq!(*seen.lock().unwrap(), args);
}

#[test]
fn built_command_round_trips_its_arguments() {
    let args = vec![Value::from("a"), Value::Int(-7)];
    let cmd = build_command("go", &args);
    assert_eq!(cmd.name(), "go");
    assert_eq!(command_args(&cmd), args);
}

#[test]
fn command_args_leave_named_parameters_out() {
    let cmd = Command::new(
        "move",
        vec![
            koilang::Parameter::from("left"),
            koilang::Parameter::from(("speed", 5i64)),
            koilang::Parameter::from(3i64),
        ],
    );
    assert_eq!(command_args(&cmd), vec![Value::from("left"), Value::Int(3)]);
}

#[test]
fn without_environments_commands_are_not_found() {
    let mut runtime = Runtime::new();
    let r = runtime.execute_command("nobody", &[], &HashMap::new());
    assert!(matches!(r, DispatchResult::Error(KoiError::CommandNotFound { name }) if name == "nobody"));
}

#[test]
fn unhandled_annotations_are_ignored() {
    let mut runtime = Runtime::new();
    let r = runtime.execute_command("@annotation", &["note".into()], &HashMap::new());
    assert!(matches!(r, DispatchResult::Continue));
    let log = Arc::new(Mutex::new(Vec::new()));
    runtime.env_enter(Box::new(PickyEnv { tag: "a", known: vec!["x"], log }));
    let r = runtime.execute_command("@annotation", &[], &HashMap::new());
    assert!(matches!(r, DispatchResult::Continue));
}

#[test]
fn the_top_environment_is_asked_first() {
    let mut runtime = Runtime::new();
    let log = Arc::new(Mutex::new(Vec::new()));
    runtime.env_enter(Box::new(PickyEnv { tag: "bottom", known: vec!["shared", "low"], log: log.clone() }));
    runtime.env_enter(Box::new(PickyEnv { tag: "top", known: vec!["shared"], log: log.clone() }));
    assert!(matches!(runtime.execute_command("shared", &[], &HashMap::new()), DispatchResult::Continue));
    assert!(matches!(runtime.execute_command("low", &["v".into()], &HashMap::new()), DispatchResult::Continue));
    let r = runtime.execute_command("none", &[], &HashMap::new());
    assert!(matches!(r, DispatchResult::Error(KoiError::CommandNotFound { name }) if name == "none"));
    assert_eq!(*log.lock().unwrap(), vec!["top:shared:0".to_string(), "bottom:low:1".to_string()]);
    assert_eq!(runtime.env_stack().len(), 2);
}

#[test]
fn execute_on_environment_checks_the_index() {
    let mut runtime = Runtime::new();
    let (env, _) = TestEnv::new();
    runtime.env_enter(Box::new(env));
    let r = runtime.execute_on_environment(3, "test", &[], &HashMap::new());
    assert!(matches!(r, DispatchResult::Error(KoiError::Runtime { message }) if message == "Environment index 3 out of bounds"));
}

#[test]
fn labels_need_the_cache() {
    let mut runtime = Runtime::new();
    let r = runtime.register_label("loop", None);
    assert!(matches!(r, Err(KoiError::Runtime { message }) if message == "Cache must be enabled to register labels"));
}

#[test]
fn a_registered_label_is_where_the_jump_goes() {
    let mut runtime = cached_runtime(&["a", "b", "c"]);
    runtime.register_label("here", Some(2)).unwrap();
    assert!(matches!(runtime.jump_to_label("here"), DispatchResult::Jump(2)));
    runtime.register_label("start", None).unwrap();
    assert!(matches!(runtime.jump_to_label("start"), DispatchResult::Jump(0)));
}

#[test]
fn a_label_is_registered_once() {
    let mut runtime = cached_runtime(&["a"]);
    runtime.register_label("x", Some(0)).unwrap();
    let r = runtime.register_label("x", Some(5));
    assert!(matches!(r, Err(KoiError::Runtime { message }) if message == "Label 'x' already registered"));
    assert!(matches!(runtime.jump_to_label("x"), DispatchResult::Jump(0)));
}

#[test]
fn unknown_labels_and_disabled_caches_give_errors() {
    let mut runtime = cached_runtime(&["a"]);
    assert!(matches!(runtime.jump_to_label("nope"), DispatchResult::Error(KoiError::Runtime { message }) if message == "Label 'nope' not found"));
    runtime.register_label("x", None).unwrap();
    runtime.disable_cache();
    assert!(matches!(runtime.jump_to_label("x"), DispatchResult::Error(KoiError::Runtime { message }) if message == "Label 'x' not found"));
    assert!(matches!(runtime.jump_to_position(1), DispatchResult::Error(KoiError::Runtime { message }) if message == "Cache must be enabled for jumps"));
    assert_eq!(runtime.current_position(), 0);
    assert!(runtime.cached_command().is_none());
}

#[test]
fn jump_to_position_jumps_when_caching() {
    let mut runtime = Runtime::new();
    runtime.enable_cache();
    assert!(matches!(runtime.jump_to_position(7), DispatchResult::Jump(7)));
}

#[test]
fn scan_and_jump_finds_a_cached_target() {
    let mut runtime = cached_runtime(&["a", "b", "c", "d"]);
    assert!(matches!(runtime.scan_and_jump(NameIs("c"), 0), DispatchResult::Jump(2)));
    assert!(matches!(runtime.scan_and_jump(NameIs("c"), 1), DispatchResult::Jump(3)));
    assert!(matches!(runtime.scan_and_jump(NameIs("a"), 0), DispatchResult::ProbeNeeded { offset: 0, .. }));
    let r = runtime.scan_and_jump(NameIs("d"), 1);
    assert!(matches!(r, DispatchResult::Error(KoiError::Runtime { message }) if message == "Jump target position 4 out of bounds (0..4)"));
    let r = runtime.scan_and_jump(NameIs("b"), -2);
    assert!(matches!(r, DispatchResult::Error(KoiError::Runtime { message }) if message == "Jump target position -1 out of bounds (0..4)"));
    assert_eq!(runtime.current_position(), 0);
}

#[test]
fn scan_and_jump_needs_the_cache() {
    let mut runtime = Runtime::new();
    let r = runtime.scan_and_jump(NameIs("c"), 0);
    assert!(matches!(r, DispatchResult::Error(KoiError::Runtime { message }) if message == "Cache must be enabled for scan_and_jump"));
}

#[test]
fn probe_until_answers_continue_or_asks_for_more() {
    let mut runtime = cached_runtime(&["a", "b"]);
    assert!(matches!(runtime.probe_until(NameIs("b")), DispatchResult::Continue));
    assert!(matches!(runtime.probe_until(NameIs("z")), DispatchResult::ProbeNeeded { offset: 0, .. }));
    runtime.disable_cache();
    let r = runtime.probe_until(NameIs("b"));
    assert!(matches!(r, DispatchResult::Error(KoiError::Runtime { message }) if message == "Cache must be enabled for probe_until"));
}

#[test]
fn jump_to_matching_stops_at_the_first_end() {
    let mut runtime = cached_runtime(&["if", "x", "else", "y", "endif", "z"]);
    assert!(matches!(runtime.jump_to_matching("if", "endif", None, 0), DispatchResult::Jump(4)));
    assert!(matches!(runtime.jump_to_matching("if", "endif", None, 1), DispatchResult::Jump(5)));
    assert!(matches!(runtime.jump_to_matching("if", "endif", Some("else"), 1), DispatchResult::Jump(3)));
}

#[test]
fn jump_to_matching_skips_nested_blocks() {
    let mut runtime = cached_runtime(&["if", "if", "else", "endif", "else", "endif"]);
    assert!(matches!(runtime.jump_to_matching("if", "endif", None, 0), DispatchResult::Jump(5)));
    assert!(matches!(runtime.jump_to_matching("if", "endif", Some("else"), 0), DispatchResult::Jump(4)));
}

#[test]
fn jump_to_matching_probes_when_the_end_is_not_cached() {
    let mut runtime = cached_runtime(&["if", "if", "endif"]);
    let r = runtime.jump_to_matching("if", "endif", None, 2);
    match r {
        DispatchResult::ProbeNeeded { mut strategy, offset } => {
            assert_eq!(offset, 2);
            // The probe carries on with the depth the scan reached.
            assert!(!strategy.matches(&Command::new("x", vec![]), 3));
            assert!(strategy.matches(&Command::new("endif", vec![]), 4));
        }
        _ => panic!("expected a probe request"),
    }
}

#[test]
fn matching_strategy_tracks_depth() {
    let mut s = MatchingStrategy::new("begin", "end", Some("mid"));
    assert!(!s.matches(&Command::new("begin", vec![]), 1));
    assert!(!s.matches(&Command::new("mid", vec![]), 2));
    assert!(!s.matches(&Command::new("end", vec![]), 3));
    assert!(s.matches(&Command::new("mid", vec![]), 4));
}

#[test]
fn settle_moves_the_position() {
    let mut runtime = cached_runtime(&["a", "b", "c"]);
    assert!(matches!(runtime.settle(DispatchResult::Continue), LoopStep::Next));
    assert_eq!(runtime.current_position(), 1);
    assert!(matches!(runtime.settle(DispatchResult::Jump(0)), LoopStep::Next));
    assert_eq!(runtime.current_position(), 0);
    let step = runtime.settle(DispatchResult::Error(KoiError::runtime("stop")));
    assert!(matches!(step, LoopStep::Stop(KoiError::Runtime { message }) if message == "stop"));
    let step = runtime.settle(DispatchResult::ProbeNeeded { strategy: Box::new(NameIs("c")), offset: 3 });
    assert!(matches!(step, LoopStep::Probe { offset: 3, .. }));
    assert_eq!(runtime.current_position(), 0);
}

#[test]
fn probing_caches_commands_until_the_strategy_stops() {
    let mut runtime = cached_runtime(&["a"]);
    let mut strategy: Box<dyn ScanStrategy> = Box::new(NameIs("target"));
    let step = runtime.probe_parsed(&mut strategy, 0, Command::new("b", vec![]));
    assert!(matches!(step, ProbeStep::Searching));
    assert_eq!(runtime.current_position(), 0);
    let step = runtime.probe_parsed(&mut strategy, -1, Command::new("target", vec![]));
    assert!(matches!(step, ProbeStep::Found));
    assert_eq!(runtime.current_position(), 1);
    let step = runtime.probe_parsed(&mut strategy, 5, Command::new("target", vec![]));
    assert!(matches!(step, ProbeStep::Stop(KoiError::Runtime { message }) if message == "Jump target position 8 out of bounds (0..4)"));
    runtime.set_current_command(&Command::new("z", vec![]));
    assert_eq!(runtime.current_command().unwrap().name(), "z");
    let e = Runtime::probe_exhausted();
    assert!(matches!(e, KoiError::Runtime { message } if message == "Jump target not found: end of input"));
}

#[test]
fn the_cache_replays_recorded_commands() {
    let mut runtime = Runtime::new();
    runtime.record_parsed(&Command::new("lost", vec![]));
    assert!(runtime.cached_command().is_none());
    runtime.enable_cache();
    runtime.record_parsed(&Command::new("kept", vec![]));
    assert_eq!(runtime.cached_command().unwrap().name(), "kept");
    runtime.settle(DispatchResult::Continue);
    assert!(runtime.cached_command().is_none());
}

#[test]
fn sessions_send_lifecycle_hooks_in_order() {
    let mut runtime = Runtime::new();
    let log = Arc::new(Mutex::new(Vec::new()));
    runtime.env_enter(Box::new(PickyEnv { tag: "low", known: vec!["@start", "@end"], log: log.clone() }));
    runtime.env_enter(Box::new(PickyEnv { tag: "high", known: vec!["@start", "@end"], log: log.clone() }));
    let outer = runtime.begin_session();
    assert!(outer);
    let inner = runtime.begin_session();
    assert!(!inner);
    runtime.end_session(inner);
    assert_eq!(runtime.lifecycle_depth(), 1);
    runtime.end_session(outer);
    assert_eq!(runtime.lifecycle_depth(), 0);
    assert_eq!(
        *log.lock().unwrap(),
        vec!["low:@start:0", "high:@start:0", "high:@end:0", "low:@end:0"]
    );
}

#[test]
fn environments_entered_inside_a_session_get_lifecycle_hooks() {
    let mut runtime = Runtime::new();
    let outer = runtime.begin_session();
    let (env, commands) = TestEnv::new();
    runtime.env_enter(Box::new(env));
    runtime.env_exit();
    runtime.end_session(outer);
    assert_eq!(*commands.lock().unwrap(), vec!["@start".to_string(), "@end".to_string()]);
}

struct PassThrough {
    seen: Arc<Mutex<Vec<String>>>,
}

impl Middleware for PassThrough {
    fn call(&self, runtime: &mut Runtime, cmd: &Command, next: &MiddlewareNext) -> DispatchResult {
        self.seen.lock().unwrap().push(cmd.name().to_string());
        next.run(runtime, cmd)
    }
}

struct Intercept;

impl Middleware for Intercept {
    fn call(&self, _runtime: &mut Runtime, cmd: &Command, _next: &MiddlewareNext) -> DispatchResult {
        DispatchResult::Error(KoiError::runtime(&format!("intercepted {}", cmd.name())))
    }
}

#[test]
fn middleware_can_be_added() {
    let mut runtime = Runtime::new();
    let seen = Arc::new(Mutex::new(Vec::new()));
    runtime.add_middleware(PassThrough { seen: seen.clone() });
    let (env, commands) = TestEnv::new();
    runtime.env_enter(Box::new(env));
    assert!(matches!(runtime.execute_command("x", &[], &HashMap::new()), DispatchResult::Continue));
    assert_eq!(commands.lock().unwrap().len(), 1);
    // Command objects go through the middleware chain.
    let cmd = Command::new("y", vec![]);
    assert!(matches!(runtime.execute_command_obj(&cmd), DispatchResult::Continue));
    assert_eq!(*seen.lock().unwrap(), vec!["y".to_string()]);
    assert_eq!(*commands.lock().unwrap(), vec!["x".to_string(), "y".to_string()]);
}

#[test]
fn middleware_wraps_dispatch_in_order_and_may_answer() {
    let mut runtime = Runtime::new();
    let seen = Arc::new(Mutex::new(Vec::new()));
    runtime.add_middleware(PassThrough { seen: seen.clone() });
    runtime.add_middleware(Intercept);
    let (env, commands) = TestEnv::new();
    runtime.env_enter(Box::new(env));
    let cmd = Command::new("z", vec![]);
    match runtime.execute_command_obj(&cmd) {
        DispatchResult::Error(KoiError::Runtime { message }) => assert_eq!(message, "intercepted z"),
        _ => panic!("expected the middleware's answer"),
    }
    assert_eq!(*seen.lock().unwrap(), vec!["z".to_string()]);
    assert!(commands.lock().unwrap().is_empty());
}

#[test]
fn middleware_sees_the_command_first_and_without_middleware_the_stack_answers() {
    let mut runtime = Runtime::new();
    let cmd = Command::new("missing", vec![]);
    assert!(matches!(
        runtime.execute_command_obj(&cmd),
        DispatchResult::Error(KoiError::CommandNotFound { .. })
    ));
    runtime.add_middleware(Intercept);
    assert!(matches!(runtime.execute_command_obj(&cmd), DispatchResult::Error(KoiError::Runtime { .. })));
}

#[test]
fn with_config_keeps_the_configuration() {
    let config = koilang::ParserConfig::default().with_command_threshold(2);
    let runtime = Runtime::with_config(config.clone());
    assert_eq!(runtime.session_parser_config(), config);
    assert_eq!(Runtime::new().session_parser_config(), koilang::ParserConfig::default());
    let default_runtime: Runtime = Default::default();
    assert!(!default_runtime.is_cache_enabled());
}

#[test]
fn env_stack_mut_gives_access_to_the_environments() {
    let mut runtime = Runtime::new();
    let (env, _) = TestEnv::new();
    runtime.env_stack_mut().push(Box::new(env));
    assert_eq!(runtime.env_stack().len(), 1);
    runtime.env_stack_mut().clear();
    assert_eq!(runtime.env_stack().len(), 0);
}

#[test]
fn builder_without_environments_is_not_found() {
    let mut runtime = Runtime::new();
    let r = runtime.cmd("draw").arg("circle").kwarg("color", "red").kwarg("color", "blue").execute();
    assert!(matches!(r, DispatchResult::Error(KoiError::CommandNotFound { name }) if name == "draw"));
    let r = runtime.cmd("@annotation").execute();
    assert!(matches!(r, DispatchResult::Continue));
}

/// Records every name and named argument it receives, and handles everything.
struct KwargsEnv {
    seen: Arc<Mutex<Vec<(String, Vec<(String, Value)>)>>>,
}

impl CommandHandler for KwargsEnv {
    fn handle_command(
        &mut self,
        name: &str,
        _args: &[Value],
        kwargs: &HashMap<String, Value>,
        _runtime: &mut Runtime,
    ) -> DispatchResult {
        let mut entries: Vec<(String, Value)> = kwargs.iter().map(|(k, v)| (k.clone(), v.clone())).collect();
        entries.sort_by(|a, b| a.0.cmp(&b.0));
        self.seen.lock().unwrap().push((name.to_string(), entries));
        DispatchResult::Continue
    }
}

/// Records the positions it is offered and stops at `stop`.
struct Recorder {
    offered: Arc<Mutex<Vec<usize>>>,
    stop: usize,
}

impl ScanStrategy for Recorder {
    fn matches(&mut self, _cmd: &Command, pos: usize) -> bool {
        self.offered.lock().unwrap().push(pos);
        pos == self.stop
    }
}

#[test]
fn named_arguments_reach_the_handler() {
    let mut runtime = Runtime::new();
    let seen = Arc::new(Mutex::new(Vec::new()));
    runtime.env_enter(Box::new(KwargsEnv { seen: seen.clone() }));
    let mut kwargs = HashMap::new();
    kwargs.insert("size".to_string(), Value::Int(3));
    assert!(matches!(runtime.execute_command("draw", &[], &kwargs), DispatchResult::Continue));
    assert!(matches!(runtime.cmd("paint").kwarg("color", "red").execute(), DispatchResult::Continue));
    let cmd = Command::new(
        "fill",
        vec![Parameter::from(1i64), Parameter::from(("level", Value::Int(2)))],
    );
    assert!(matches!(runtime.execute_command_obj(&cmd), DispatchResult::Continue));
    assert_eq!(
        *seen.lock().unwrap(),
        vec![
            ("draw".to_string(), vec![("size".to_string(), Value::Int(3))]),
            ("paint".to_string(), vec![("color".to_string(), Value::from("red"))]),
            ("fill".to_string(), vec![("level".to_string(), Value::Int(2))]),
        ]
    );
}

#[test]
fn the_strategy_is_offered_positions_in_order_until_it_stops() {
    let mut runtime = cached_runtime(&["a", "b", "c", "d", "e"]);
    let offered = Arc::new(Mutex::new(Vec::new()));
    let r = runtime.scan_and_jump(Recorder { offered: offered.clone(), stop: 3 }, 0);
    assert!(matches!(r, DispatchResult::Jump(3)));
    assert_eq!(*offered.lock().unwrap(), vec![1, 2, 3]);
    offered.lock().unwrap().clear();
    let r = runtime.scan_and_jump(Recorder { offered: offered.clone(), stop: 9 }, 5);
    assert!(matches!(r, DispatchResult::ProbeNeeded { offset: 5, .. }));
    assert_eq!(*offered.lock().unwrap(), vec![1, 2, 3, 4]);
    offered.lock().unwrap().clear();
    assert!(matches!(runtime.probe_until(Recorder { offered: offered.clone(), stop: 2 }), DispatchResult::Continue));
    assert_eq!(*offered.lock().unwrap(), vec![1, 2]);
}

#[test]
fn a_new_environment_alone_receives_start_inside_a_session() {
    let mut runtime = Runtime::new();
    let log = Arc::new(Mutex::new(Vec::new()));
    runtime.env_enter(Box::new(PickyEnv { tag: "low", known: vec!["@start", "@end"], log: log.clone() }));
    let outer = runtime.begin_session();
    runtime.env_enter(Box::new(PickyEnv { tag: "new", known: vec![], log: log.clone() }));
    assert_eq!(runtime.env_stack().len(), 2);
    runtime.env_exit();
    assert_eq!(runtime.env_stack().len(), 1);
    runtime.end_session(outer);
    assert_eq!(*log.lock().unwrap(), vec!["low:@start:0", "low:@end:0"]);
}

#[test]
fn entering_and_exiting_outside_a_session_sends_no_hooks() {
    let mut runtime = Runtime::new();
    let log = Arc::new(Mutex::new(Vec::new()));
    runtime.env_enter(Box::new(PickyEnv { tag: "e", known: vec!["@start", "@end"], log: log.clone() }));
    runtime.env_exit();
    runtime.env_exit();
    assert!(runtime.env_stack().is_empty());
    assert!(log.lock().unwrap().is_empty());
}

/// Runs a script from `source` in one session.
fn run_source<S: TextInputSource>(runtime: &mut Runtime, source: S) -> koilang::Result<()> {
    let mut parser = Parser::new(source, runtime.session_parser_config());
    run_with_parser(runtime, &mut parser)
}

/// Runs a session over a parser, as the application's `run_with_parser`
/// does: `@start` and `@end` around the outermost one.
fn run_with_parser<S: TextInputSource>(runtime: &mut Runtime, parser: &mut Parser<S>) -> koilang::Result<()> {
    let outermost = runtime.begin_session();
    let result = execution_loop(runtime, parser);
    runtime.end_session(outermost);
    result
}

/// The application's execution loop.
fn execution_loop<S: TextInputSource>(runtime: &mut Runtime, parser: &mut Parser<S>) -> koilang::Result<()> {
    loop {
        let cmd = match runtime.cached_command() {
            Some(cmd) => cmd,
            None => match parser.next_command() {
                Ok(Some(cmd)) => {
                    runtime.record_parsed(&cmd);
                    cmd
                }
                Ok(None) => break,
                Err(e) => return Err(KoiError::Parse(*e)),
            },
        };
        runtime.set_current_command(&cmd);
        let result = runtime.execute_command_obj(&cmd);
        match runtime.settle(result) {
            LoopStep::Next => {}
            LoopStep::Probe { mut strategy, offset } => loop {
                match parser.next_command() {
                    Ok(Some(cmd)) => match runtime.probe_parsed(&mut strategy, offset, cmd) {
                        ProbeStep::Found => break,
                        ProbeStep::Searching => {}
                        ProbeStep::Stop(e) => return Err(e),
                    },
                    Ok(None) => return Err(Runtime::probe_exhausted()),
                    Err(e) => return Err(KoiError::Parse(*e)),
                }
            },
            LoopStep::Stop(e) => return Err(e),
        }
    }
    Ok(())
}

#[test]
fn test_integration() {
    let mut runtime = Runtime::new();
    let (env, commands) = TestEnv::new();
    runtime.env_enter(Box::new(env));
    run_source(&mut runtime, StringInputSource::new(r#"#test_command"#)).unwrap();
    assert!(matches!(
        runtime.execute_command("another_command", &[], &HashMap::new()),
        DispatchResult::Continue
    ));
    assert_eq!(
        *commands.lock().unwrap(),
        vec!["@start", "test_command", "@end", "another_command"]
    );
}

#[test]
fn test_execute_with_source() {
    let mut runtime = Runtime::new();
    let (env, commands) = TestEnv::new();
    runtime.env_enter(Box::new(env));
    let source = StringInputSource::new("#test_command\n#another_command");
    run_source(&mut runtime, source).unwrap();
    let cmds = commands.lock().unwrap();
    assert_eq!(cmds.len(), 4);
    assert_eq!(cmds[0], "@start");
    assert_eq!(cmds[1], "test_command");
    assert_eq!(cmds[2], "another_command");
    assert_eq!(cmds[3], "@end");
}

#[test]
fn test_execute_file() {
    let mut runtime = Runtime::new();
    let (env, commands) = TestEnv::new();
    runtime.env_enter(Box::new(env));
    let mut temp_file = tempfile::NamedTempFile::new().unwrap();
    temp_file.write_all(b"#file_command\n").unwrap();
    temp_file.write_all(b"#second_command\n").unwrap();
    let source = FileInputSource::new(temp_file.path()).unwrap();
    run_source(&mut runtime, source).unwrap();
    let cmds = commands.lock().unwrap();
    assert_eq!(cmds.len(), 4);
    assert_eq!(cmds[0], "@start");
    assert_eq!(cmds[1], "file_command");
    assert_eq!(cmds[2], "second_command");
    assert_eq!(cmds[3], "@end");
}

#[test]
fn a_cached_script_runs_each_command_once() {
    let mut runtime = Runtime::new();
    runtime.enable_cache();
    let (env, commands) = TestEnv::new();
    runtime.env_enter(Box::new(env));
    run_source(&mut runtime, StringInputSource::new("#a\n#b\n#c")).unwrap();
    assert_eq!(*commands.lock().unwrap(), vec!["@start", "a", "b", "c", "@end"]);
}

#[test]
fn only_single_named_values_become_named_arguments() {
    let mut runtime = Runtime::new();
    let seen = Arc::new(Mutex::new(Vec::new()));
    runtime.env_enter(Box::new(KwargsEnv { seen: seen.clone() }));
    let cmd = Command::new(
        "shape",
        vec![
            Parameter::from(("xs", vec![1i64, 2])),
            Parameter::from(("w", Value::Int(4))),
            Parameter::from(7i64),
        ],
    );
    assert!(matches!(runtime.execute_command_obj(&cmd), DispatchResult::Continue));
    assert_eq!(
        *seen.lock().unwrap(),
        vec![("shape".to_string(), vec![("w".to_string(), Value::Int(4))])]
    );
}

#[test]
fn a_session_leaves_no_session_open() {
    let mut runtime = Runtime::new();
    let (env, commands) = TestEnv::new();
    runtime.env_enter(Box::new(env));
    run_source(&mut runtime, StringInputSource::new("#one")).unwrap();
    assert_eq!(runtime.lifecycle_depth(), 0);
    assert_eq!(*commands.lock().unwrap(), vec!["@start", "one", "@end"]);
}
