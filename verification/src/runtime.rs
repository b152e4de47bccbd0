//! Runtime for KoiLang execution.
//!
//! The [`Runtime`] holds the environment stack, the middleware chain, the
//! command cache with its labels and current position, and the depth of
//! nested execution sessions. Its methods decide what each command, jump and
//! probe does; reading commands from a parser, which may not end, is left to
//! the caller, who feeds each command to the runtime and carries out the step
//! that the runtime answers.

use crate::env_stack::{
    env_below_top, env_count, env_ids, in_step, lemma_in_step_ids, middleware_ids, stack_ids_of,
    sync_ids, EnvStack,
    MiddlewareChain,
};
use crate::error::{is_not_found_error, is_runtime_error, is_runtime_failure, DispatchResult, KoiError, Result};
use crate::handler::{CommandHandler, Middleware};
use crate::outside::{
    command_clone, command_name, command_name_of, parameter_named_of, parameter_shape, command_new, command_params, command_params_of,
    parameter_basic_of, parameter_from_value, parser_config_clone,
    parser_config_default, value_clone,
};
use crate::strategy::{matching_scan, MatchingStrategy, ScanStrategy};
use crate::text::{concat3, decimal, push_decimal, push_signed_decimal, signed_decimal};
use koicore::command::{Command, Parameter, Value};
use koicore::parser::ParserConfig;
use std::collections::HashMap;
use vstd::prelude::*;
use vstd::std_specs::convert::IntoSpec;
use vstd::string::StringExecFns;

verus! {

/// Runtime for executing KoiLang scripts.
///
/// The runtime manages the environment stack for command handlers, the
/// middleware chain, the command cache for jump operations, and the
/// lifecycle of execution sessions.
pub struct Runtime {
    /// Stack of environments for command handling.
    env_stack: EnvStack,
    /// Middleware chain.
    middleware: MiddlewareChain,
    /// Parser configuration.
    parser_config: Option<ParserConfig>,
    /// Currently executing command (for context).
    current_command: Option<Command>,
    /// Whether command caching is enabled.
    cache_enabled: bool,
    /// Cache of parsed commands.
    command_cache: Vec<Command>,
    /// Labels for jumps, in the order they were registered.
    label_index: Vec<(String, usize)>,
    /// Current position in the command cache.
    current_position: usize,
    /// Session depth for lifecycle management.
    lifecycle_depth: usize,
    /// The identifier that the next environment entered gets.
    next_env_id: u64,
    /// What the handlers were asked by the last operation that asked any.
    offers: Ghost<Seq<Offer>>,
    /// The last call of a middleware.
    middleware_call: Ghost<Option<MiddlewareCall>>,
    /// What a strategy answered in the last scan of the cache.
    scan: Ghost<Seq<ScanAnswer>>,
}

/// A command handed to one environment, and its answer.
pub ghost struct Offer {
    /// The environment's index in the stack when it was asked.
    pub index: int,
    /// The identifier of the environment asked.
    pub env: u64,
    /// The identifiers of the stack as the environment found it (itself
    /// included).
    pub before: Seq<u64>,
    /// The identifiers of the stack as its handler left it (itself not
    /// included).
    pub left: Seq<u64>,
    /// The command's name.
    pub name: Seq<char>,
    /// The positional arguments.
    pub args: Seq<Value>,
    /// The named arguments.
    pub kwargs: Map<String, Value>,
    /// What the environment answered.
    pub answer: DispatchResult,
}

/// A command handed to one middleware, and its answer.
pub ghost struct MiddlewareCall {
    /// The middleware's index in the chain.
    pub index: int,
    /// Its identifier.
    pub middleware: u64,
    /// The command.
    pub cmd: Command,
    /// Where the continuation handed to it goes on in the chain.
    pub next: int,
    /// What the middleware answered.
    pub answer: DispatchResult,
}

/// A cached command offered to a scan strategy, and its answer.
pub ghost struct ScanAnswer {
    /// The command.
    pub cmd: Command,
    /// Its position in the cache.
    pub position: int,
    /// Whether the strategy stopped there.
    pub stops: bool,
}

/// What a runtime is: the values that its operations read and change.
pub struct RuntimeView {
    /// Whether command caching is enabled.
    pub cache_enabled: bool,
    /// The cached commands, by position.
    pub cache: Seq<Command>,
    /// The registered labels and the positions they name.
    pub labels: Map<Seq<char>, usize>,
    /// The current position in the command cache.
    pub position: usize,
    /// How many execution sessions are open.
    pub lifecycle_depth: usize,
    /// The stack of environments, as a whole: `env_count` gives how many it
    /// holds, `stack_ids` their identifiers and `env_below_top` what lies
    /// below its top.
    pub envs: EnvStack,
    /// The identifiers of the middleware, in the order in which they were
    /// added.
    pub middleware: Seq<u64>,
    /// The command being executed, if any.
    pub current_command: Option<Command>,
    /// The parser configuration, if one was given.
    pub parser_config: Option<ParserConfig>,
}

/// The labels that a list of registrations names; a later registration of a
/// name overrides an earlier one.
pub open spec fn labels_of(entries: Seq<(String, usize)>) -> Map<Seq<char>, usize>
    decreases entries.len(),
{
    if entries.len() == 0 {
        Map::empty()
    } else {
        labels_of(entries.drop_last()).insert(entries.last().0@, entries.last().1)
    }
}

/// The names of the cached commands, by position.
pub open spec fn names_of(cache: Seq<Command>) -> Seq<Seq<char>> {
    cache.map_values(|c: Command| command_name_of(c))
}

/// The values of the basic parameters, in order; named parameters are left out.
pub open spec fn basic_values_of(params: Seq<Parameter>) -> Seq<Value>
    decreases params.len(),
{
    if params.len() == 0 {
        Seq::empty()
    } else {
        let rest = basic_values_of(params.drop_last());
        match parameter_basic_of(params.last()) {
            Some(v) => rest.push(v),
            None => rest,
        }
    }
}

/// The message of a jump whose target lies outside the cache.
pub open spec fn out_of_bounds_message(target: int, len: nat) -> Seq<char> {
    "Jump target position "@ + signed_decimal(target) + " out of bounds (0.."@ + decimal(len)
        + ")"@
}

/// `r` is what a jump to `target` in a cache of `len` commands gives: the jump
/// itself when the target lies in the cache, an error naming it otherwise.
pub open spec fn is_jump_outcome(r: DispatchResult, target: int, len: nat) -> bool {
    if 0 <= target < len {
        r matches DispatchResult::Jump(t) && t == target
    } else {
        is_runtime_failure(r, out_of_bounds_message(target, len))
    }
}

/// `r` is what a scan that stops at position `p` gives: the jump to `p + offset`.
pub open spec fn is_stop_outcome(r: DispatchResult, p: int, offset: i32, len: nat) -> bool {
    is_jump_outcome(r, p + offset, len)
}

/// `answers` is a scan of `cache` after position `from`: the strategy was
/// offered the cached commands from `from + 1` on, one by one and in order,
/// each with its position, until it stopped at one; when it stopped at none,
/// it was offered every command after `from`.
pub open spec fn is_scan(cache: Seq<Command>, from: int, answers: Seq<ScanAnswer>) -> bool {
    &&& forall|t: int|
        0 <= t < answers.len() ==> (#[trigger] answers[t]).position == from + 1 + t && from + 1 + t
            < cache.len() && answers[t].cmd == cache[from + 1 + t]
    &&& forall|t: int| 0 <= t < answers.len() - 1 ==> !(#[trigger] answers[t]).stops
    &&& scan_stop(answers) is None ==> answers.len() == if from + 1 < cache.len() {
        cache.len() - (from + 1)
    } else {
        0
    }
}

/// Where a scan stopped: the position of its last answer, when that answer
/// stopped it.
pub open spec fn scan_stop(answers: Seq<ScanAnswer>) -> Option<int> {
    if answers.len() > 0 && answers.last().stops {
        Some(answers.last().position)
    } else {
        None
    }
}

/// `r` asks to probe further with the given offset.
pub open spec fn is_probe(r: DispatchResult, offset: i32) -> bool {
    r matches DispatchResult::ProbeNeeded { offset: o, .. } && o == offset
}

/// What a dispatch of a command named `name` answers when no environment
/// handles it: annotations are ignored, anything else is not found.
pub open spec fn is_unhandled_outcome(r: DispatchResult, name: Seq<char>) -> bool {
    if name == "@annotation"@ {
        r is Continue
    } else {
        r matches DispatchResult::Error(e) && is_not_found_error(e, name)
    }
}

/// What every dispatch of a command named `name` answers, whatever the
/// handlers do: a not-found error only ever names `name`, and an annotation is
/// never reported as not found.
pub open spec fn is_dispatch_outcome(r: DispatchResult, name: Seq<char>) -> bool {
    &&& (r matches DispatchResult::Error(e) && e is CommandNotFound) ==> (r matches DispatchResult::Error(e)
        && is_not_found_error(e, name))
    &&& name == "@annotation"@ ==> !(r matches DispatchResult::Error(e) && e is CommandNotFound)
}

/// What `register_label(label, position)` does to a runtime `before`,
/// leaving `after` and answering `r`: on an enabled cache a new label names
/// the given position (the current one when none is given); a label that is
/// already registered, or a disabled cache, leaves the runtime as it was and
/// answers an error.
pub open spec fn is_registration(
    before: RuntimeView,
    after: RuntimeView,
    label: Seq<char>,
    position: Option<usize>,
    r: Result<()>,
) -> bool {
    if !before.cache_enabled {
        after == before && (r matches Err(e) && is_runtime_error(
            e,
            "Cache must be enabled to register labels"@,
        ))
    } else if before.labels.contains_key(label) {
        after == before && (r matches Err(e) && is_runtime_error(
            e,
            "Label '"@ + label + "' already registered"@,
        ))
    } else {
        r is Ok && after == RuntimeView {
            labels: before.labels.insert(
                label,
                match position {
                    Some(p) => p,
                    None => before.position,
                },
            ),
            ..before
        }
    }
}

/// What `jump_to_label(label)` answers on a runtime `v`: a jump to the
/// position that the label names, an error when the label is unknown or the
/// cache is disabled.
pub open spec fn is_label_jump(v: RuntimeView, label: Seq<char>, r: DispatchResult) -> bool {
    if !v.labels.contains_key(label) {
        is_runtime_failure(r, "Label '"@ + label + "' not found"@)
    } else if !v.cache_enabled {
        is_runtime_failure(r, "Cache must be enabled for jumps"@)
    } else {
        r matches DispatchResult::Jump(p) && p == v.labels[label]
    }
}

/// A runtime after `disable_cache`: caching off, no cached command, no label,
/// position 0.
pub open spec fn disabled(v: RuntimeView) -> RuntimeView {
    RuntimeView { cache_enabled: false, cache: Seq::empty(), labels: Map::empty(), position: 0, ..v }
}

/// What `begin_session` does: it answers whether no session was open, and
/// opens one, so that one more session is open afterwards. When it is not the
/// outermost, or when there is no environment to receive `@start`, nothing
/// else changes.
pub open spec fn is_session_begin(before: RuntimeView, after: RuntimeView, outermost: bool) -> bool {
    &&& outermost == (before.lifecycle_depth == 0)
    &&& after.lifecycle_depth == before.lifecycle_depth + 1
    &&& (!outermost || env_count(before.envs) == 0) ==> after == RuntimeView {
        lifecycle_depth: (before.lifecycle_depth + 1) as usize,
        ..before
    }
}

/// What `end_session` does: it closes a session, so that one session fewer
/// is open afterwards (none when none was). When it is not the outermost, or
/// when there is no environment to receive `@end`, nothing else changes.
pub open spec fn is_session_end(before: RuntimeView, after: RuntimeView, outermost: bool) -> bool {
    &&& after.lifecycle_depth == if before.lifecycle_depth > 0 {
        (before.lifecycle_depth - 1) as usize
    } else {
        0
    }
    &&& (!outermost || env_count(before.envs) == 0) ==> after == RuntimeView {
        lifecycle_depth: if before.lifecycle_depth > 0 {
            (before.lifecycle_depth - 1) as usize
        } else {
            0
        },
        ..before
    }
}

impl View for Runtime {
    type V = RuntimeView;

    closed spec fn view(&self) -> RuntimeView {
        RuntimeView {
            cache_enabled: self.cache_enabled,
            cache: self.command_cache@,
            labels: labels_of(self.label_index@),
            position: self.current_position,
            lifecycle_depth: self.lifecycle_depth,
            envs: self.env_stack,
            middleware: middleware_ids(self.middleware),
            current_command: self.current_command,
            parser_config: self.parser_config,
        }
    }
}

/// What `env_enter` does outside an execution session: the new
/// environment, with identifier `id`, goes on top of the stack, and nothing
/// else changes.
pub open spec fn is_env_entry(before: RuntimeView, after: RuntimeView, id: u64) -> bool {
    &&& after == RuntimeView { envs: after.envs, ..before }
    &&& env_count(after.envs) == env_count(before.envs) + 1
    &&& in_step(after.envs)
    &&& stack_ids(after) == stack_ids(before).push(id)
    &&& in_step(before.envs) ==> env_below_top(after.envs) == before.envs
}

/// What `env_exit` does outside an execution session: the top environment
/// leaves the stack, and nothing else changes; without environments nothing
/// changes at all.
pub open spec fn is_env_exit(before: RuntimeView, after: RuntimeView) -> bool {
    if env_count(before.envs) == 0 {
        after == before
    } else {
        &&& after == RuntimeView { envs: after.envs, ..before }
        &&& env_count(after.envs) == env_count(before.envs) - 1
        &&& stack_ids(after) == stack_ids(before).drop_last()
        &&& in_step(before.envs) ==> after.envs == env_below_top(before.envs)
    }
}

/// `v` is the view of a fresh runtime with the given parser configuration:
/// no environment, no middleware, caching off, no session.
pub open spec fn is_fresh(v: RuntimeView, parser_config: Option<ParserConfig>) -> bool {
    &&& v == RuntimeView {
        cache_enabled: false,
        cache: Seq::empty(),
        labels: Map::empty(),
        position: 0,
        lifecycle_depth: 0,
        envs: v.envs,
        middleware: Seq::empty(),
        current_command: None,
        parser_config,
    }
    &&& env_count(v.envs) == 0
    &&& in_step(v.envs)
}

/// A registration appended at the end is what the labels then name.
proof fn lemma_labels_push(entries: Seq<(String, usize)>, e: (String, usize))
    ensures
        labels_of(entries.push(e)) == labels_of(entries).insert(e.0@, e.1),
{
    assert(entries.push(e).drop_last() =~= entries);
}

/// When no registration at `i` or later names `key`, the labels of the first
/// `i` registrations say the same of `key` as all of them.
proof fn lemma_labels_prefix(entries: Seq<(String, usize)>, i: int, key: Seq<char>)
    requires
        0 <= i <= entries.len(),
        forall|j: int| i <= j < entries.len() ==> (#[trigger] entries[j]).0@ != key,
    ensures
        labels_of(entries).contains_key(key) == labels_of(entries.take(i)).contains_key(key),
        labels_of(entries).contains_key(key) ==> labels_of(entries)[key] == labels_of(
            entries.take(i),
        )[key],
    decreases entries.len() - i,
{
    if i < entries.len() {
        lemma_labels_prefix(entries, i + 1, key);
        assert(entries.take(i + 1).drop_last() =~= entries.take(i));
        assert(entries.take(i + 1).last() == entries[i]);
    } else {
        assert(entries.take(i) =~= entries);
    }
}

impl Runtime {
    /// Create a new runtime with default settings.
    pub fn new() -> (rt: Runtime)
        ensures
            is_fresh(rt@, None),
    {
        Runtime {
            env_stack: EnvStack::new(),
            middleware: MiddlewareChain::new(),
            parser_config: None,
            current_command: None,
            cache_enabled: false,
            command_cache: Vec::new(),
            label_index: Vec::new(),
            current_position: 0,
            lifecycle_depth: 0,
            next_env_id: 1,
            offers: Ghost(Seq::empty()),
            middleware_call: Ghost(None),
            scan: Ghost(Seq::empty()),
        }
    }

    /// Create a new runtime with parser configuration.
    pub fn with_config(config: ParserConfig) -> (rt: Runtime)
        ensures
            is_fresh(rt@, Some(config)),
    {
        let mut runtime = Self::new();
        runtime.parser_config = Some(config);
        runtime
    }

    /// What the handlers were asked by the last operation that asked any:
    /// each environment asked, in order, with its index and identifier as
    /// taken off the stack, the stack it found and the stack it left, the
    /// command and the answer.
    pub closed spec fn offers(&self) -> Seq<Offer> {
        self.offers@
    }

    /// The identifier that the next environment entered gets.
    pub closed spec fn next_env_id(&self) -> u64 {
        self.next_env_id
    }

    /// The last call of a middleware, if any.
    pub closed spec fn middleware_call(&self) -> Option<MiddlewareCall> {
        self.middleware_call@
    }

    /// What a strategy was offered and answered in the last scan of the
    /// cache, in order.
    pub closed spec fn scan(&self) -> Seq<ScanAnswer> {
        self.scan@
    }

    /// Check if cache is enabled.
    pub fn is_cache_enabled(&self) -> (b: bool)
        ensures
            b == self@.cache_enabled,
    {
        self.cache_enabled
    }

    /// How many execution sessions are open.
    pub fn lifecycle_depth(&self) -> (d: usize)
        ensures
            d == self@.lifecycle_depth,
    {
        self.lifecycle_depth
    }

    /// Get the current position in the command cache.
    pub fn current_position(&self) -> (p: usize)
        ensures
            p == self@.position,
    {
        self.current_position
    }

    /// Enable command caching.
    ///
    /// When enabled, parsed commands are stored in memory, allowing
    /// for jump operations and random access.
    pub fn enable_cache(&mut self)
        ensures
            final(self)@ == (RuntimeView { cache_enabled: true, ..old(self)@ }),
    {
        self.cache_enabled = true;
    }

    /// Disable command caching and clear the cache.
    pub fn disable_cache(&mut self)
        ensures
            final(self)@ == disabled(old(self)@),
            final(self)@.cache.len() == 0,
            final(self)@.labels.dom().len() == 0,
            final(self)@.position == 0,
            !final(self)@.cache_enabled,
    {
        self.cache_enabled = false;
        self.command_cache.clear();
        self.label_index.clear();
        self.current_position = 0;
    }

    /// The position that a label names, if it is registered.
    fn find_label(&self, label: &String) -> (r: Option<usize>)
        ensures
            r is Some <==> self@.labels.contains_key(label@),
            r matches Some(p) ==> p == self@.labels[label@],
    {
        let mut i = self.label_index.len();
        while i > 0
            invariant
                i <= self.label_index@.len(),
                forall|j: int|
                    i <= j < self.label_index@.len() ==> (#[trigger] self.label_index@[j]).0@
                        != label@,
            decreases i,
        {
            i = i - 1;
            if self.label_index[i].0 == *label {
                proof {
                    let entries = self.label_index@;
                    lemma_labels_prefix(entries, i + 1, label@);
                    assert(entries.take(i + 1).drop_last() =~= entries.take(i as int));
                    assert(entries.take(i + 1).last() == entries[i as int]);
                }
                return Some(self.label_index[i].1);
            }
        }
        proof {
            lemma_labels_prefix(self.label_index@, 0, label@);
            assert(self.label_index@.take(0).len() == 0);
        }
        None
    }

    /// Register a label at the current position.
    ///
    /// * `label` - The label name
    /// * `position` - Optional position (defaults to current position)
    pub fn register_label(&mut self, label: &str, position: Option<usize>) -> (r: Result<()>)
        ensures
            is_registration(old(self)@, final(self)@, label@, position, r),
    {
        if !self.cache_enabled {
            return Err(KoiError::runtime("Cache must be enabled to register labels"));
        }
        let pos = match position {
            Some(p) => p,
            None => self.current_position,
        };
        let key = label.to_owned();
        if self.find_label(&key).is_some() {
            let msg = concat3("Label '", label, "' already registered");
            return Err(KoiError::Runtime { message: msg });
        }
        proof {
            lemma_labels_push(self.label_index@, (key, pos));
        }
        self.label_index.push((key, pos));
        Ok(())
    }

    /// Jump to a specific position in the command cache.
    ///
    /// This answers `DispatchResult::Jump`, which the execution loop carries out.
    pub fn jump_to_position(&self, position: usize) -> (r: DispatchResult)
        ensures
            !self@.cache_enabled ==> is_runtime_failure(r, "Cache must be enabled for jumps"@),
            self@.cache_enabled ==> (r matches DispatchResult::Jump(p) && p == position),
    {
        if !self.cache_enabled {
            return DispatchResult::Error(KoiError::runtime("Cache must be enabled for jumps"));
        }
        DispatchResult::Jump(position)
    }

    /// Jump to a registered label.
    pub fn jump_to_label(&self, label: &str) -> (r: DispatchResult)
        ensures
            is_label_jump(self@, label@, r),
    {
        let key = label.to_owned();
        match self.find_label(&key) {
            Some(pos) => self.jump_to_position(pos),
            None => {
                let msg = concat3("Label '", label, "' not found");
                DispatchResult::Error(KoiError::Runtime { message: msg })
            },
        }
    }

    /// The outcome of a jump to `pos + offset` in a cache of `len` commands.
    fn jump_target(pos: usize, offset: i32, len: usize) -> (r: DispatchResult)
        ensures
            is_jump_outcome(r, pos + offset, len as nat),
    {
        let target: i128 = pos as i128 + offset as i128;
        if target < 0 || target >= len as i128 {
            let mut msg = String::from_str("Jump target position ");
            push_signed_decimal(&mut msg, target);
            msg.append(" out of bounds (0..");
            push_decimal(&mut msg, len as u128);
            msg.append(")");
            proof {
                reveal_strlit("Jump target position ");
                reveal_strlit(" out of bounds (0..");
                reveal_strlit(")");
            }
            return DispatchResult::Error(KoiError::Runtime { message: msg });
        }
        DispatchResult::Jump(target as usize)
    }

    /// Scan forward and jump to a command matching the strategy.
    ///
    /// The scan starts after the current position and covers the commands
    /// already in the cache. When the strategy stops at position `p`, the
    /// answer is a jump to `p + offset` (an error when that lies outside the
    /// cache); when it stops nowhere, the answer asks the execution loop to
    /// keep parsing with the same strategy and offset.
    pub fn scan_and_jump<F: ScanStrategy + 'static>(&mut self, strategy: F, offset: i32) -> (r:
        DispatchResult)
        ensures
            final(self)@ == old(self)@,
            !old(self)@.cache_enabled ==> is_runtime_failure(
                r,
                "Cache must be enabled for scan_and_jump"@,
            ) && final(self).scan().len() == 0,
            old(self)@.cache_enabled ==> is_scan(
                old(self)@.cache,
                old(self)@.position as int,
                final(self).scan(),
            ) && match scan_stop(final(self).scan()) {
                Some(p) => is_stop_outcome(r, p, offset, old(self)@.cache.len()),
                None => is_probe(r, offset),
            },
    {
        if !self.cache_enabled {
            self.scan = Ghost(Seq::empty());
            return DispatchResult::Error(
                KoiError::runtime("Cache must be enabled for scan_and_jump"),
            );
        }
        let mut strategy = strategy;
        let (found, answers) = self.scan_cache(&mut strategy);
        self.scan = answers;
        match found {
            Some(p) => Self::jump_target(p, offset, self.command_cache.len()),
            None => DispatchResult::ProbeNeeded { strategy: Box::new(strategy), offset },
        }
    }

    /// Offers the cached commands after the current position to `strategy`,
    /// in order, until it stops at one; answers that position, if any, with
    /// what the strategy was offered and answered.
    fn scan_cache<F: ScanStrategy>(&self, strategy: &mut F) -> (res: (Option<usize>, Ghost<Seq<ScanAnswer>>))
        ensures
            is_scan(self@.cache, self@.position as int, res.1@),
            res.0 == match scan_stop(res.1@) {
                Some(p) => Some(p as usize),
                None => None::<usize>,
            },
    {
        let len = self.command_cache.len();
        let ghost from = self.current_position as int;
        let ghost mut answers: Seq<ScanAnswer> = Seq::empty();
        let mut pos = if self.current_position < len {
            self.current_position + 1
        } else {
            len
        };
        while pos < len
            invariant
                len == self.command_cache@.len(),
                from == self.current_position,
                pos <= len,
                from < pos || pos == len,
                from < len ==> pos == from + 1 + answers.len(),
                from >= len ==> answers.len() == 0,
                forall|t: int|
                    0 <= t < answers.len() ==> (#[trigger] answers[t]).position == from + 1 + t
                        && from + 1 + t < len && answers[t].cmd == self.command_cache@[from + 1 + t],
                forall|t: int| 0 <= t < answers.len() ==> !(#[trigger] answers[t]).stops,
            decreases len - pos,
        {
            let stops = strategy.matches(&self.command_cache[pos], pos);
            let ghost answer = ScanAnswer { cmd: self.command_cache@[pos as int], position: pos as int, stops };
            proof {
                answers = answers.push(answer);
            }
            if stops {
                assert(answers.last() == answer);
                return (Some(pos), Ghost(answers));
            }
            pos = pos + 1;
        }
        proof {
            if answers.len() > 0 {
                assert(!answers[answers.len() - 1].stops);
            }
        }
        (None, Ghost(answers))
    }

    /// Probe (fill cache) until a condition is met, without jumping.
    ///
    /// When the strategy stops at a command already cached after the current
    /// position, the answer is `Continue`; otherwise the execution loop is
    /// asked to keep parsing until the strategy stops.
    pub fn probe_until<F: ScanStrategy + 'static>(&mut self, strategy: F) -> (r: DispatchResult)
        ensures
            final(self)@ == old(self)@,
            !old(self)@.cache_enabled ==> is_runtime_failure(
                r,
                "Cache must be enabled for probe_until"@,
            ) && final(self).scan().len() == 0,
            old(self)@.cache_enabled ==> is_scan(
                old(self)@.cache,
                old(self)@.position as int,
                final(self).scan(),
            ) && match scan_stop(final(self).scan()) {
                Some(p) => r is Continue,
                None => is_probe(r, 0),
            },
    {
        if !self.cache_enabled {
            self.scan = Ghost(Seq::empty());
            return DispatchResult::Error(KoiError::runtime("Cache must be enabled for probe_until"));
        }
        let mut strategy = strategy;
        let (found, answers) = self.scan_cache(&mut strategy);
        self.scan = answers;
        match found {
            Some(_) => DispatchResult::Continue,
            None => DispatchResult::ProbeNeeded { strategy: Box::new(strategy), offset: 0 },
        }
    }

    /// Jump to a matching end marker, tracking nesting depth.
    ///
    /// * `start` - The start marker command name
    /// * `end` - The end marker command name
    /// * `alternative` - Optional alternative marker to stop at (when depth is 1)
    /// * `offset` - Offset to apply to the found position
    pub fn jump_to_matching(
        &mut self,
        start: &str,
        end: &str,
        alternative: Option<&str>,
        offset: i32,
    ) -> (r: DispatchResult)
        ensures
            final(self)@ == old(self)@,
            !old(self)@.cache_enabled ==> is_runtime_failure(
                r,
                "Cache must be enabled for scan_and_jump"@,
            ),
            old(self)@.cache_enabled ==> match matching_scan(
                names_of(old(self)@.cache),
                old(self)@.position + 1,
                1,
                start@,
                end@,
                match alternative {
                    Some(a) => Some(a@),
                    None => None::<Seq<char>>,
                },
            ).0 {
                Some(p) => is_jump_outcome(r, p + offset, old(self)@.cache.len()),
                None => is_probe(r, offset),
            },
    {
        if !self.cache_enabled {
            return DispatchResult::Error(
                KoiError::runtime("Cache must be enabled for scan_and_jump"),
            );
        }
        let mut strategy = MatchingStrategy::new(start, end, alternative);
        let ghost alt = match alternative {
            Some(a) => Some(a@),
            None => None::<Seq<char>>,
        };
        let ghost names = names_of(self.command_cache@);
        let len = self.command_cache.len();
        let mut pos = if self.current_position < len {
            self.current_position + 1
        } else {
            len
        };
        while pos < len
            invariant
                *self == *old(self),
                self.cache_enabled,
                len == self.command_cache@.len(),
                names == names_of(self.command_cache@),
                pos <= len,
                strategy.start@ == start@,
                strategy.end@ == end@,
                crate::strategy::alternative_view(strategy.alternative) == alt,
                alt == match alternative {
                    Some(a) => Some(a@),
                    None => None::<Seq<char>>,
                },
                matching_scan(names, self.current_position + 1, 1, start@, end@, alt)
                    == matching_scan(names, pos as int, strategy.depth as int, start@, end@, alt),
            decreases len - pos,
        {
            let name = command_name(&self.command_cache[pos]);
            assert(names[pos as int] == name@);
            let ghost depth = strategy.depth as int;
            if strategy.step(&name) {
                assert(matching_scan(names, pos as int, depth, start@, end@, alt).0 == Some(
                    pos as int,
                ));
                let r = Self::jump_target(pos, offset, len);
                return r;
            }
            pos = pos + 1;
        }
        DispatchResult::ProbeNeeded { strategy: Box::new(strategy), offset }
    }
}


/// What a `koicore` parameter is: a basic value, or a named composite value
/// (a single value, a list or a dictionary).
pub enum ParamShape {
    /// `Parameter::Basic(value)`.
    Basic(Value),
    /// `Parameter::Composite(name, CompositeValue::Single(value))`.
    Single(String, Value),
    /// `Parameter::Composite(name, CompositeValue::List(..))`; the values are
    /// left out.
    List(String),
    /// `Parameter::Composite(name, CompositeValue::Dict(..))`; the entries are
    /// left out.
    Dict(String),
}

/// The values of the basic parameters of `cmd`, in order: what a handler
/// receives as its positional arguments.
pub fn command_args(cmd: &Command) -> (args: Vec<Value>)
    ensures
        args@ == basic_values_of(command_params_of(*cmd)),
{
    let params = command_params(cmd);
    let mut args: Vec<Value> = Vec::new();
    let mut i: usize = 0;
    while i < params.len()
        invariant
            i <= params@.len(),
            params@ == command_params_of(*cmd),
            args@ == basic_values_of(params@.take(i as int)),
        decreases params@.len() - i,
    {
        assert(params@.take(i + 1).drop_last() =~= params@.take(i as int));
        match parameter_shape(&params[i]) {
            ParamShape::Basic(v) => args.push(v),
            _ => {},
        }
        i = i + 1;
    }
    assert(params@.take(params@.len() as int) =~= params@);
    args
}

/// `m` holds the named arguments of `params`: each of its entries is the
/// name and value of a named parameter, and each named parameter's name is
/// one of its keys.
pub open spec fn is_named_map(params: Seq<Parameter>, m: Map<String, Value>) -> bool {
    &&& forall|s: String|
        #![trigger m.contains_key(s)]
        m.contains_key(s) ==> exists|j: int|
            #![trigger params[j]]
            0 <= j < params.len() && parameter_named_of(params[j]) == Some((s@, m[s]))
    &&& forall|j: int|
        #![trigger params[j]]
        0 <= j < params.len() && parameter_named_of(params[j]) is Some ==> exists|s: String|
            #![trigger m.contains_key(s)]
            m.contains_key(s) && s@ == parameter_named_of(params[j])->Some_0.0
}

/// The named arguments of `cmd`: the name and value of each parameter of
/// the form `name(value)`; of two with one name, the later one counts.
pub fn command_kwargs(cmd: &Command) -> (m: HashMap<String, Value>)
    ensures
        vstd::std_specs::hash::obeys_key_model::<String>() ==> is_named_map(
            command_params_of(*cmd),
            m@,
        ),
{
    let params = command_params(cmd);
    let mut m: HashMap<String, Value> = HashMap::new();
    let mut i: usize = 0;
    while i < params.len()
        invariant
            i <= params@.len(),
            params@ == command_params_of(*cmd),
            vstd::std_specs::hash::obeys_key_model::<String>() ==> is_named_map(
                params@.take(i as int),
                m@,
            ),
        decreases params@.len() - i,
    {
        let ghost before = m@;
        let ghost pre = params@.take(i as int);
        let ghost now = params@.take(i + 1);
        assert(now.drop_last() =~= pre);
        match parameter_shape(&params[i]) {
            ParamShape::Single(key, v) => {
                let ghost k = key;
                m.insert(key, v);
                proof {
                    if vstd::std_specs::hash::obeys_key_model::<String>() {
                        assert forall|s: String| #![trigger m@.contains_key(s)] m@.contains_key(s) implies exists|j: int|
                            #![trigger now[j]]
                            0 <= j < now.len() && parameter_named_of(now[j]) == Some((s@, m@[s])) by {
                            if s == k {
                                assert(parameter_named_of(now[i as int]) == Some((s@, m@[s])));
                            } else {
                                assert(before.contains_key(s));
                                let j = choose|j: int| #![trigger pre[j]] 0 <= j < pre.len() && parameter_named_of(pre[j]) == Some((s@, before[s]));
                                assert(now[j] == pre[j]);
                            }
                        }
                        assert forall|j: int| #![trigger now[j]] 0 <= j < now.len() && parameter_named_of(now[j]) is Some implies exists|s: String|
                            #![trigger m@.contains_key(s)]
                            m@.contains_key(s) && s@ == parameter_named_of(now[j])->Some_0.0 by {
                            if j == i {
                                assert(m@.contains_key(k));
                            } else {
                                assert(now[j] == pre[j]);
                                let s = choose|s: String| #![trigger before.contains_key(s)] before.contains_key(s) && s@ == parameter_named_of(pre[j])->Some_0.0;
                                assert(m@.contains_key(s));
                            }
                        }
                    }
                }
            },
            _ => {
                proof {
                    if vstd::std_specs::hash::obeys_key_model::<String>() {
                        assert forall|s: String| #![trigger m@.contains_key(s)] m@.contains_key(s) implies exists|j: int|
                            #![trigger now[j]]
                            0 <= j < now.len() && parameter_named_of(now[j]) == Some((s@, m@[s])) by {
                            let j = choose|j: int| #![trigger pre[j]] 0 <= j < pre.len() && parameter_named_of(pre[j]) == Some((s@, before[s]));
                            assert(now[j] == pre[j]);
                        }
                        assert forall|j: int| #![trigger now[j]] 0 <= j < now.len() && parameter_named_of(now[j]) is Some implies exists|s: String|
                            #![trigger m@.contains_key(s)]
                            m@.contains_key(s) && s@ == parameter_named_of(now[j])->Some_0.0 by {
                            assert(j < i);
                            assert(now[j] == pre[j]);
                        }
                    }
                }
            },
        }
        i = i + 1;
    }
    assert(params@.take(params@.len() as int) =~= params@);
    m
}

/// A command named `name` whose parameters are the basic values `args`.
pub fn build_command(name: &str, args: &[Value]) -> (cmd: Command)
    ensures
        command_name_of(cmd) == name@,
        command_params_of(cmd).len() == args@.len(),
        forall|i: int|
            0 <= i < args@.len() ==> parameter_basic_of(#[trigger] command_params_of(cmd)[i])
                == Some(args@[i]) && parameter_named_of(command_params_of(cmd)[i]) is None,
{
    let mut params: Vec<Parameter> = Vec::new();
    let mut i: usize = 0;
    while i < args.len()
        invariant
            i <= args@.len(),
            params@.len() == i,
            forall|j: int| 0 <= j < i ==> parameter_basic_of(#[trigger] params@[j]) == Some(args@[j])
                && parameter_named_of(params@[j]) is None,
        decreases args@.len() - i,
    {
        let v = value_clone(&args[i]);
        params.push(parameter_from_value(v));
        i = i + 1;
    }
    command_new(name, params)
}

/// Parameters that are all basic, with the values `args`, give back `args`.
pub proof fn lemma_basic_values_all_basic(params: Seq<Parameter>, args: Seq<Value>)
    requires
        params.len() == args.len(),
        forall|i: int| 0 <= i < args.len() ==> parameter_basic_of(#[trigger] params[i]) == Some(args[i]),
    ensures
        basic_values_of(params) == args,
    decreases params.len(),
{
    if params.len() > 0 {
        lemma_basic_values_all_basic(params.drop_last(), args.drop_last());
        assert(args.drop_last().push(args.last()) =~= args);
    } else {
        assert(args =~= Seq::<Value>::empty());
    }
}

/// What the execution loop does after a command was dispatched.
pub enum LoopStep {
    /// Go on with the next command.
    Next,
    /// Parse further, offering each new command to the strategy, until it stops.
    Probe {
        /// Decides where the probe stops.
        strategy: Box<dyn ScanStrategy>,
        /// Added to the position at which the strategy stopped.
        offset: i32,
    },
    /// Stop the execution with this error.
    Stop(KoiError),
}

/// The outcome of offering one newly parsed command to a probe.
pub enum ProbeStep {
    /// The strategy stopped; execution goes on at the new current position.
    Found,
    /// The strategy did not stop; parse the next command.
    Searching,
    /// Stop the execution with this error.
    Stop(KoiError),
}

/// Whether the search through the environment stack goes on past an
/// environment that answered `r`: only when it does not know the command.
pub open spec fn passes(r: DispatchResult) -> bool {
    r matches DispatchResult::Error(e) && e is CommandNotFound
}

/// The identifiers of the environments on a runtime's stack, bottom to top.
pub open spec fn stack_ids(v: RuntimeView) -> Seq<u64> {
    stack_ids_of(v.envs)
}

/// `o` asked the environment at its index of the stack it found: `o.env` is
/// that environment's identifier.
pub open spec fn is_taken(o: Offer) -> bool {
    0 <= o.index < o.before.len() && o.env == o.before[o.index]
}

/// The stack once the environment asked by `o` is back: where it was taken
/// from, or on top when the stack it left is lower than that.
pub open spec fn put_back(o: Offer) -> Seq<u64> {
    o.left.insert(if o.index <= o.left.len() { o.index } else { o.left.len() as int }, o.env)
}

/// The handler asked by `o` left the stack as it found it.
pub open spec fn left_alone(o: Offer) -> bool {
    o.left == o.before.remove(o.index)
}

/// `o` hands the hook `hook`, without arguments, to the environment at
/// `index` of the stack `before`.
pub open spec fn is_hook_offer(o: Offer, before: Seq<u64>, index: int, hook: Seq<char>) -> bool {
    &&& o.before == before
    &&& o.index == index
    &&& is_taken(o)
    &&& o.name == hook
    &&& o.args.len() == 0
    &&& o.kwargs == Map::<String, Value>::empty()
}

/// Each of `offers` hands over the command named `name`, with `args` and
/// `kwargs`.
pub open spec fn offers_command(
    offers: Seq<Offer>,
    name: Seq<char>,
    args: Seq<Value>,
    kwargs: Map<String, Value>,
) -> bool {
    forall|t: int|
        0 <= t < offers.len() ==> (#[trigger] offers[t]).name == name && offers[t].args == args
            && offers[t].kwargs == kwargs
}

/// Each of `offers` after the first found the stack as the one before it
/// left it, with the environment it asked put back.
pub open spec fn offers_chain(offers: Seq<Offer>) -> bool {
    forall|t: int, u: int|
        #![trigger offers[t], offers[u]]
        0 <= t && u == t + 1 && u < offers.len() ==> offers[u].before == put_back(offers[t])
}

/// The stack that `offers`, made on the stack `ids0`, leave.
pub open spec fn stack_left(ids0: Seq<u64>, offers: Seq<Offer>) -> Seq<u64> {
    if offers.len() == 0 {
        ids0
    } else {
        put_back(offers.last())
    }
}

/// `offers` and `r` are a search through the stack `ids0` for a command
/// named `name`: the top environment is asked first, then ones further down
/// the stack each found, each only after all before it passed the command
/// on; the answer is that of the first environment that did not pass it on,
/// else what an unhandled command answers. When every handler leaves the
/// stack as it found it, the environments are asked one after the other from
/// the top, all of them when all pass the command on.
pub open spec fn is_search(ids0: Seq<u64>, offers: Seq<Offer>, name: Seq<char>, r: DispatchResult) -> bool {
    &&& (offers.len() == 0 <==> ids0.len() == 0)
    &&& offers.len() > 0 ==> offers[0].before == ids0 && offers[0].index == ids0.len() - 1
    &&& forall|t: int| 0 <= t < offers.len() ==> is_taken(#[trigger] offers[t])
    &&& offers_chain(offers)
    &&& forall|t: int, u: int|
        0 <= t < u < offers.len() ==> (#[trigger] offers[u]).index < (#[trigger] offers[t]).index
    &&& forall|t: int| 0 <= t < offers.len() - 1 ==> passes((#[trigger] offers[t]).answer)
    &&& (forall|t: int| 0 <= t < offers.len() ==> left_alone(#[trigger] offers[t])) ==> {
        &&& forall|t: int|
            0 <= t < offers.len() ==> (#[trigger] offers[t]).before == ids0 && offers[t].index
                == ids0.len() - 1 - t
        &&& offers.len() > 0 && passes(offers.last().answer) ==> offers.len() == ids0.len()
        &&& stack_left(ids0, offers) == ids0
    }
    &&& if offers.len() > 0 && !passes(offers.last().answer) {
        r == offers.last().answer
    } else {
        is_unhandled_outcome(r, name)
    }
}

/// What the search for `cmd` through the stack of a runtime `before` did,
/// leaving `after`, asking `offers` and answering `r`: the environments
/// receive the command's name, the values of its basic parameters and its
/// named arguments; the stack is left as the search leaves it, and without
/// environments nothing changes.
pub open spec fn is_command_search(
    before: RuntimeView,
    after: RuntimeView,
    offers: Seq<Offer>,
    cmd: Command,
    r: DispatchResult,
) -> bool {
    &&& is_search(stack_ids(before), offers, command_name_of(cmd), r)
    &&& forall|t: int|
        0 <= t < offers.len() ==> (#[trigger] offers[t]).name == command_name_of(cmd)
            && offers[t].args == basic_values_of(command_params_of(cmd)) && (
        vstd::std_specs::hash::obeys_key_model::<String>() ==> is_named_map(
            command_params_of(cmd),
            offers[t].kwargs,
        ))
    &&& stack_ids(after) == stack_left(stack_ids(before), offers)
    &&& env_count(before.envs) == 0 ==> after == before
}

/// What running the middleware chain of a runtime `before` from `from` on
/// did with `cmd`: when a middleware is left, the one at `from` was handed
/// the command and a continuation that goes on with the next one, and `r` is
/// its answer; else the command was searched for through the stack.
pub open spec fn is_chain_run(
    before: RuntimeView,
    after: RuntimeView,
    offers: Seq<Offer>,
    call: Option<MiddlewareCall>,
    from: int,
    cmd: Command,
    r: DispatchResult,
) -> bool {
    if from < before.middleware.len() {
        call == Some(
            MiddlewareCall {
                index: from,
                middleware: before.middleware[from],
                cmd,
                next: from + 1,
                answer: r,
            },
        )
    } else {
        is_command_search(before, after, offers, cmd, r)
    }
}

/// `offers` hands the hook `hook`, without arguments, to the environments
/// of the stack `ids0` one by one, bottom to top or top to bottom: the first
/// is the bottom (or top) environment, each later one lies above (or below)
/// the one before, and each found the stack as the one before left it. When
/// every handler leaves the stack as it found it, each environment receives
/// the hook once, in that order, and the stack is left as it was.
pub open spec fn is_broadcast(ids0: Seq<u64>, offers: Seq<Offer>, hook: Seq<char>, bottom_up: bool) -> bool {
    &&& offers.len() <= ids0.len()
    &&& ids0.len() > 0 ==> offers.len() > 0 && offers[0].before == ids0 && offers[0].index == if bottom_up {
        0
    } else {
        ids0.len() - 1
    }
    &&& forall|t: int|
        0 <= t < offers.len() ==> is_taken(#[trigger] offers[t]) && offers[t].name == hook
            && offers[t].args.len() == 0 && offers[t].kwargs == Map::<String, Value>::empty()
    &&& offers_chain(offers)
    &&& forall|t: int, u: int|
        0 <= t < u < offers.len() ==> if bottom_up {
            (#[trigger] offers[t]).index < (#[trigger] offers[u]).index
        } else {
            offers[u].index < offers[t].index
        }
    &&& (forall|t: int| 0 <= t < offers.len() ==> left_alone(#[trigger] offers[t])) ==> {
        &&& offers.len() == ids0.len()
        &&& forall|t: int|
            0 <= t < offers.len() ==> (#[trigger] offers[t]).before == ids0 && offers[t].index
                == if bottom_up {
                t
            } else {
                ids0.len() - 1 - t
            }
        &&& stack_left(ids0, offers) == ids0
    }
}

/// An environment whose handler left the stack as it found it goes back
/// where it was: the stack is then as it was before it was asked.
pub proof fn law_put_back_where_taken(o: Offer)
    requires
        is_taken(o),
        left_alone(o),
    ensures
        put_back(o) == o.before,
{
    assert(o.before.remove(o.index).insert(o.index, o.before[o.index]) =~= o.before);
}

/// The continuation handed to a middleware: the rest of the chain, from
/// the middleware at `from` on, and at its end the search through the
/// environment stack.
pub struct MiddlewareNext {
    from: usize,
}

impl MiddlewareNext {
    /// Where in the chain this continuation goes on.
    pub closed spec fn position(&self) -> int {
        self.from as int
    }

    /// Runs the rest of the chain on `cmd`.
    pub fn run(&self, runtime: &mut Runtime, cmd: &Command) -> (r: DispatchResult)
        ensures
            is_chain_run(
                old(runtime)@,
                final(runtime)@,
                final(runtime).offers(),
                final(runtime).middleware_call(),
                self.position(),
                *cmd,
                r,
            ),
    {
        runtime.run_chain(self.from, cmd)
    }
}

/// A copy of `args`.
fn values_vec(args: &[Value]) -> (v: Vec<Value>)
    ensures
        v@ == args@,
{
    let mut v: Vec<Value> = Vec::new();
    let mut i: usize = 0;
    while i < args.len()
        invariant
            i <= args@.len(),
            v@ == args@.take(i as int),
        decreases args@.len() - i,
    {
        v.push(value_clone(&args[i]));
        i = i + 1;
        assert(v@ =~= args@.take(i as int));
    }
    assert(args@.take(args@.len() as int) =~= args@);
    v
}

impl Runtime {
    /// Whether the search through the environment stack goes on past an
    /// environment that answered `r`: only when it does not know the command.
    pub fn passes_on(r: &DispatchResult) -> (b: bool)
        ensures
            b == passes(*r),
            b <==> (*r matches DispatchResult::Error(e) && e is CommandNotFound),
    {
        match r {
            DispatchResult::Error(e) => e.is_command_not_found(),
            _ => false,
        }
    }

    /// The answer for a command that no environment handles: annotations are
    /// silently ignored, anything else is not found.
    pub fn unhandled(name: &String) -> (r: DispatchResult)
        ensures
            is_unhandled_outcome(r, name@),
    {
        let annotation = "@annotation".to_owned();
        proof {
            reveal_strlit("@annotation");
        }
        if *name == annotation {
            DispatchResult::Continue
        } else {
            DispatchResult::Error(KoiError::CommandNotFound { name: name.clone() })
        }
    }

    /// Hands a command to the environment at `index`: it is taken off the
    /// stack while its handler runs (the handler receives the runtime) and
    /// then put back where it was, or on top when the stack has become lower
    /// than that. The answer is the handler's.
    fn ask(&mut self, index: usize, name: &str, args: &[Value], kwargs: &HashMap<String, Value>) -> (r:
        DispatchResult)
        requires
            index < env_count(old(self).env_stack),
        ensures
            final(self).offers().len() == 1,
            final(self).offers()[0].index == index,
            final(self).offers()[0].before == stack_ids(old(self)@),
            is_taken(final(self).offers()[0]),
            final(self).offers()[0].name == name@,
            final(self).offers()[0].args == args@,
            final(self).offers()[0].kwargs == kwargs@,
            final(self).offers()[0].answer == r,
            stack_ids(final(self)@) == put_back(final(self).offers()[0]),
            in_step(final(self)@.envs),
    {
        sync_ids(&mut self.env_stack);
        let ghost before = env_ids(self.env_stack);
        let (id, mut env) = self.env_stack.take(index);
        let r = env.handle_command(name, args, kwargs, self);
        sync_ids(&mut self.env_stack);
        let ghost left = env_ids(self.env_stack);
        let n = self.env_stack.len();
        let at = if index <= n {
            index
        } else {
            n
        };
        self.env_stack.restore(at, id, env);
        let ghost record = seq![
            Offer {
                index: index as int,
                env: id,
                before,
                left,
                name: name@,
                args: args@,
                kwargs: kwargs@,
                answer: r,
            },
        ];
        self.offers = Ghost(record);
        proof {
            assert(record[0] == record[0]);
        }
        r
    }

    /// Offers a command to the environments, top to bottom, until one of them
    /// answers something other than "not found". A handler may change the
    /// stack while it runs; the search goes on below the index it reached.
    fn offer_to_environments(
        &mut self,
        name: &String,
        args: &Vec<Value>,
        kwargs: &HashMap<String, Value>,
    ) -> (r: DispatchResult)
        ensures
            is_search(stack_ids(old(self)@), final(self).offers(), name@, r),
            offers_command(final(self).offers(), name@, args@, kwargs@),
            stack_ids(final(self)@) == stack_left(stack_ids(old(self)@), final(self).offers()),
            is_dispatch_outcome(r, name@),
            env_count(old(self)@.envs) == 0 ==> final(self)@ == old(self)@,
    {
        let ghost ids0 = stack_ids(self@);
        let ghost count0 = env_count(self.env_stack);
        let ghost mut offers: Seq<Offer> = Seq::empty();
        let mut i = self.env_stack.len();
        while i > 0
            invariant
                ids0 == stack_ids(old(self)@),
                count0 == env_count(old(self).env_stack),
                ids0.len() == count0,
                i <= count0,
                offers.len() == 0 ==> *self == *old(self) && i == count0,
                offers.len() > 0 ==> offers[0].before == ids0 && offers[0].index == count0 - 1
                    && i <= offers.last().index && stack_ids(self@) == put_back(offers.last()),
                env_count(self.env_stack) == stack_ids(self@).len(),
                forall|t: int| 0 <= t < offers.len() ==> is_taken(#[trigger] offers[t]),
                offers_chain(offers),
                forall|t: int, u: int|
                    0 <= t < u < offers.len() ==> (#[trigger] offers[u]).index < (#[trigger] offers[t]).index,
                forall|t: int| 0 <= t < offers.len() ==> passes((#[trigger] offers[t]).answer),
                offers_command(offers, name@, args@, kwargs@),
                (forall|t: int| 0 <= t < offers.len() ==> left_alone(#[trigger] offers[t])) ==> {
                    &&& stack_ids(self@) == ids0
                    &&& offers.len() == count0 - i
                    &&& forall|t: int|
                        0 <= t < offers.len() ==> (#[trigger] offers[t]).before == ids0
                            && offers[t].index == count0 - 1 - t
                },
            decreases i,
        {
            i = i - 1;
            if i < self.env_stack.len() {
                let ghost prev = offers;
                let ghost ids_now = stack_ids(self@);
                let r = self.ask(i, name.as_str(), args.as_slice(), kwargs);
                let ghost offer = self.offers()[0];
                proof {
                    offers = offers.push(offer);
                    assert(offer.before == ids_now);
                    assert forall|t: int| 0 <= t < offers.len() implies is_taken(#[trigger] offers[t]) by {
                        if t < prev.len() {
                            assert(offers[t] == prev[t]);
                        }
                    }
                    assert forall|t: int, u: int|
                        #![trigger offers[t], offers[u]]
                        0 <= t && u == t + 1 && u < offers.len() implies offers[u].before == put_back(
                            offers[t],
                        ) by {
                        assert(offers[t] == if t < prev.len() { prev[t] } else { offer });
                        if u < prev.len() {
                            assert(offers[u] == prev[u]);
                            assert(prev[t] == prev[t] && prev[u] == prev[u]);
                        } else {
                            assert(t == prev.len() - 1);
                            assert(offers[t] == prev.last());
                        }
                    }
                    assert forall|t: int, u: int|
                        0 <= t < u < offers.len() implies (#[trigger] offers[u]).index < (
                        #[trigger] offers[t]).index by {
                        if u < prev.len() {
                            assert(offers[u] == prev[u] && offers[t] == prev[t]);
                        } else {
                            assert(offers[t] == prev[t]);
                        }
                    }
                    assert forall|t: int| 0 <= t < offers.len() - 1 implies passes(
                        (#[trigger] offers[t]).answer,
                    ) by {
                        assert(offers[t] == prev[t]);
                    }
                    assert forall|t: int| 0 <= t < offers.len() implies (#[trigger] offers[t]).name
                        == name@ && offers[t].args == args@ && offers[t].kwargs == kwargs@ by {
                        if t < prev.len() {
                            assert(offers[t] == prev[t]);
                        }
                    }
                    if forall|t: int| 0 <= t < offers.len() ==> left_alone(#[trigger] offers[t]) {
                        assert forall|t: int| 0 <= t < prev.len() implies left_alone(#[trigger] prev[t]) by {
                            assert(offers[t] == prev[t]);
                        }
                        assert(left_alone(offers[prev.len() as int]));
                        law_put_back_where_taken(offer);
                        assert forall|t: int| 0 <= t < offers.len() implies (#[trigger] offers[t]).before
                            == ids0 && offers[t].index == count0 - 1 - t by {
                            if t < prev.len() {
                                assert(offers[t] == prev[t]);
                            }
                        }
                    }
                }
                if !Self::passes_on(&r) {
                    self.offers = Ghost(offers);
                    return r;
                }
                self.offers = Ghost(offers);
            }
        }
        let r = Self::unhandled(name);
        self.offers = Ghost(offers);
        r
    }

    /// Execute a command, searching the environment stack from the top.
    fn execute_command_internal(&mut self, cmd: &Command) -> (r: DispatchResult)
        ensures
            is_command_search(old(self)@, final(self)@, final(self).offers(), *cmd, r),
            is_dispatch_outcome(r, command_name_of(*cmd)),
    {
        let name = command_name(cmd);
        let args = command_args(cmd);
        let kwargs = command_kwargs(cmd);
        self.offer_to_environments(&name, &args, &kwargs)
    }

    /// Dispatch a command by name and arguments, searching the environment
    /// stack from the top.
    fn dispatch_args(&mut self, name: &str, args: &[Value], kwargs: &HashMap<String, Value>) -> (r:
        DispatchResult)
        ensures
            is_search(stack_ids(old(self)@), final(self).offers(), name@, r),
            offers_command(final(self).offers(), name@, args@, kwargs@),
            stack_ids(final(self)@) == stack_left(stack_ids(old(self)@), final(self).offers()),
            is_dispatch_outcome(r, name@),
            env_count(old(self)@.envs) == 0 ==> final(self)@ == old(self)@,
    {
        let key = name.to_owned();
        let values = values_vec(args);
        self.offer_to_environments(&key, &values, kwargs)
    }

    /// Enter an environment (push to stack); it gets the identifier
    /// `next_env_id()`.
    ///
    /// Inside an execution session the new environment then receives
    /// `@start`; what it answers is ignored.
    pub fn env_enter(&mut self, env: Box<dyn CommandHandler>)
        ensures
            old(self)@.lifecycle_depth == 0 ==> is_env_entry(
                old(self)@,
                final(self)@,
                old(self).next_env_id(),
            ),
            old(self)@.lifecycle_depth > 0 ==> final(self).offers().len() == 1 && is_hook_offer(
                final(self).offers()[0],
                stack_ids(old(self)@).push(old(self).next_env_id()),
                env_count(old(self)@.envs) as int,
                "@start"@,
            ) && stack_ids(final(self)@) == put_back(final(self).offers()[0]),
    {
        sync_ids(&mut self.env_stack);
        let id = self.next_env_id;
        self.next_env_id = if id < u64::MAX {
            id + 1
        } else {
            0
        };
        let ghost synced = self.env_stack;
        self.env_stack.push(id, env);
        proof {
            lemma_in_step_ids(synced);
            lemma_in_step_ids(self.env_stack);
        }
        if self.lifecycle_depth > 0 {
            let top = self.env_stack.len() - 1;
            let empty: Vec<Value> = Vec::new();
            let kwargs: HashMap<String, Value> = HashMap::new();
            let _ = self.ask(top, "@start", empty.as_slice(), &kwargs);
            proof {
                reveal_strlit("@start");
            }
        }
    }

    /// Exit the current environment (pop from stack).
    ///
    /// Inside an execution session the environment receives `@end` as it
    /// leaves the stack; what it answers is ignored, and the stack is then as
    /// its handler left it.
    pub fn env_exit(&mut self)
        ensures
            old(self)@.lifecycle_depth == 0 ==> is_env_exit(old(self)@, final(self)@),
            env_count(old(self)@.envs) == 0 ==> final(self)@ == old(self)@,
            env_count(old(self)@.envs) > 0 && old(self)@.lifecycle_depth > 0 ==> final(self).offers().len()
                == 1 && is_hook_offer(
                final(self).offers()[0],
                stack_ids(old(self)@),
                env_count(old(self)@.envs) - 1,
                "@end"@,
            ) && final(self).offers()[0].left == stack_ids(final(self)@),
    {
        if self.env_stack.len() == 0 {
            return;
        }
        sync_ids(&mut self.env_stack);
        let ghost before = env_ids(self.env_stack);
        let ghost top = (env_count(self.env_stack) - 1) as int;
        proof {
            lemma_in_step_ids(self.env_stack);
        }
        match self.env_stack.pop() {
            Some((id, mut env)) => {
                proof {
                    lemma_in_step_ids(self.env_stack);
                    assert(env_ids(self.env_stack) =~= before.drop_last());
                }
                if self.lifecycle_depth > 0 {
                    let empty: Vec<Value> = Vec::new();
                    let kwargs: HashMap<String, Value> = HashMap::new();
                    let r = env.handle_command("@end", empty.as_slice(), &kwargs, self);
                    proof {
                        reveal_strlit("@end");
                    }
                    let ghost record = seq![
                        Offer {
                            index: top,
                            env: id,
                            before,
                            left: stack_ids(self@),
                            name: "@end"@,
                            args: empty@,
                            kwargs: kwargs@,
                            answer: r,
                        },
                    ];
                    self.offers = Ghost(record);
                }
            },
            None => {},
        }
    }

    /// Add middleware to the chain; its identifier is its position in it.
    pub fn add_middleware<M: Middleware + 'static>(&mut self, middleware: M)
        ensures
            final(self)@ == (RuntimeView {
                middleware: old(self)@.middleware.push(old(self)@.middleware.len() as u64),
                ..old(self)@
            }),
    {
        let id = self.middleware.len() as u64;
        self.middleware.push(id, Box::new(middleware));
    }

    /// Runs the middleware from `from` on, the search through the
    /// environment stack at the end.
    fn run_chain(&mut self, from: usize, cmd: &Command) -> (r: DispatchResult)
        ensures
            is_chain_run(
                old(self)@,
                final(self)@,
                final(self).offers(),
                final(self).middleware_call(),
                from as int,
                *cmd,
                r,
            ),
    {
        if from >= self.middleware.len() {
            return self.execute_command_internal(cmd);
        }
        let (id, m) = self.middleware.get(from);
        let rest = MiddlewareNext { from: from + 1 };
        let r = m.call(self, cmd, &rest);
        self.middleware_call = Ghost(
            Some(
                MiddlewareCall {
                    index: from as int,
                    middleware: id,
                    cmd: *cmd,
                    next: from + 1,
                    answer: r,
                },
            ),
        );
        r
    }

    /// Dispatch a command through the middleware chain, the first
    /// middleware added first; at the end of the chain the environment stack
    /// is searched.
    fn dispatch(&mut self, cmd: &Command) -> (r: DispatchResult)
        ensures
            is_chain_run(
                old(self)@,
                final(self)@,
                final(self).offers(),
                final(self).middleware_call(),
                0,
                *cmd,
                r,
            ),
    {
        self.run_chain(0, cmd)
    }

    /// Get a reference to the environment stack.
    pub fn env_stack(&self) -> (s: &[Box<dyn CommandHandler>])
        ensures
            s@.len() == env_count(self@.envs),
    {
        self.env_stack.as_slice()
    }

    /// Get the currently executing command.
    pub fn current_command(&self) -> (c: Option<&Command>)
        ensures
            c is Some <==> self@.current_command is Some,
            c matches Some(cmd) ==> self@.current_command == Some(*cmd),
    {
        self.current_command.as_ref()
    }

    /// Execute a command programmatically: the environments, searched from
    /// the top, receive `name`, `args` and `kwargs`.
    pub fn execute_command(
        &mut self,
        name: &str,
        args: &[Value],
        kwargs: &HashMap<String, Value>,
    ) -> (r: DispatchResult)
        ensures
            is_search(stack_ids(old(self)@), final(self).offers(), name@, r),
            offers_command(final(self).offers(), name@, args@, kwargs@),
            stack_ids(final(self)@) == stack_left(stack_ids(old(self)@), final(self).offers()),
            is_dispatch_outcome(r, name@),
            env_count(old(self)@.envs) == 0 ==> final(self)@ == old(self)@,
    {
        self.dispatch_args(name, args, kwargs)
    }

    /// Execute a pre-constructed `Command` object through the runtime's
    /// dispatch chain: every middleware added wraps the search through the
    /// environment stack, the first added outermost.
    pub fn execute_command_obj(&mut self, cmd: &Command) -> (r: DispatchResult)
        ensures
            is_chain_run(
                old(self)@,
                final(self)@,
                final(self).offers(),
                final(self).middleware_call(),
                0,
                *cmd,
                r,
            ),
    {
        self.dispatch(cmd)
    }

    /// Execute a command directly on a specific environment.
    ///
    /// * `index` - The environment index in the stack (0 = bottom)
    pub fn execute_on_environment(
        &mut self,
        index: usize,
        name: &str,
        args: &[Value],
        kwargs: &HashMap<String, Value>,
    ) -> (r: DispatchResult)
        ensures
            index >= env_count(old(self)@.envs) ==> final(self)@ == old(self)@ && is_runtime_failure(
                r,
                "Environment index "@ + decimal(index as nat) + " out of bounds"@,
            ),
            index < env_count(old(self)@.envs) ==> final(self).offers().len() == 1
                && final(self).offers()[0].index == index && final(self).offers()[0].before
                == stack_ids(old(self)@) && is_taken(final(self).offers()[0])
                && final(self).offers()[0].name == name@ && final(self).offers()[0].args == args@
                && final(self).offers()[0].kwargs == kwargs@ && final(self).offers()[0].answer == r
                && stack_ids(final(self)@) == put_back(final(self).offers()[0]),
    {
        if index >= self.env_stack.len() {
            let mut msg = String::from_str("Environment index ");
            push_decimal(&mut msg, index as u128);
            msg.append(" out of bounds");
            proof {
                reveal_strlit("Environment index ");
                reveal_strlit(" out of bounds");
            }
            return DispatchResult::Error(KoiError::Runtime { message: msg });
        }
        self.ask(index, name, args, kwargs)
    }

    /// Create a command builder for fluent command construction.
    pub fn cmd(&mut self, name: &str) -> (b: CommandBuilder<'_>)
        ensures
            b.name() == name@,
            b.args().len() == 0,
            b.kwargs() == Map::<Seq<char>, Value>::empty(),
            b.runtime() == old(self)@,
    {
        CommandBuilder {
            runtime: self,
            name: name.to_owned(),
            args: Vec::new(),
            kwargs: Vec::new(),
        }
    }
}

/// The named arguments that a list of settings gives; a later setting of a
/// name overrides an earlier one.
pub open spec fn kwargs_of(entries: Seq<(String, Value)>) -> Map<Seq<char>, Value>
    decreases entries.len(),
{
    if entries.len() == 0 {
        Map::empty()
    } else {
        kwargs_of(entries.drop_last()).insert(entries.last().0@, entries.last().1)
    }
}

/// The named arguments that a list of settings gives, keyed by the strings
/// themselves; a later setting of a key overrides an earlier one.
pub open spec fn named_map(entries: Seq<(String, Value)>) -> Map<String, Value>
    decreases entries.len(),
{
    if entries.len() == 0 {
        Map::empty()
    } else {
        named_map(entries.drop_last()).insert(entries.last().0, entries.last().1)
    }
}

/// Builder for constructing command executions.
///
/// This provides a fluent API for building command executions
/// with positional and named arguments.
pub struct CommandBuilder<'a> {
    runtime: &'a mut Runtime,
    name: String,
    args: Vec<Value>,
    /// The named arguments, in the order they were set.
    kwargs: Vec<(String, Value)>,
}

impl<'a> CommandBuilder<'a> {
    /// The name of the command being built.
    pub closed spec fn name(&self) -> Seq<char> {
        self.name@
    }

    /// The positional arguments given so far.
    pub closed spec fn args(&self) -> Seq<Value> {
        self.args@
    }

    /// The named arguments given so far.
    pub closed spec fn kwargs(&self) -> Map<Seq<char>, Value> {
        kwargs_of(self.kwargs@)
    }

    /// The named arguments given so far, keyed by the strings given.
    pub closed spec fn kwarg_map(&self) -> Map<String, Value> {
        named_map(self.kwargs@)
    }

    /// The runtime that executes the command, as it is now.
    pub closed spec fn runtime(&self) -> RuntimeView {
        (*self.runtime)@
    }

    /// Add a positional argument.
    pub fn arg<V: Into<Value>>(self, value: V) -> (b: Self)
        ensures
            b.name() == self.name(),
            b.args().len() == self.args().len() + 1,
            b.args().drop_last() == self.args(),
            V::obeys_into_spec() ==> b.args() == self.args().push(value.into_spec()),
            b.kwargs() == self.kwargs(),
            b.runtime() == self.runtime(),
    {
        let mut b = self;
        b.args.push(value.into());
        b
    }

    /// Add a named argument: `key` names the converted `value`, replacing
    /// what it named before.
    pub fn kwarg<V: Into<Value>>(self, key: &str, value: V) -> (b: Self)
        ensures
            b.name() == self.name(),
            b.args() == self.args(),
            b.runtime() == self.runtime(),
            b.kwargs().dom() == self.kwargs().dom().insert(key@),
            b.kwargs() == self.kwargs().insert(key@, b.kwargs()[key@]),
            V::obeys_into_spec() ==> b.kwargs()[key@] == value.into_spec(),
    {
        let mut b = self;
        let ghost before = b.kwargs@;
        let v: Value = value.into();
        let k = key.to_owned();
        b.kwargs.push((k, v));
        assert(b.kwargs@.drop_last() =~= before);
        b
    }

    /// Execute the built command, as `Runtime::execute_command` does: the
    /// environments, searched from the top, receive its name, its positional
    /// arguments and its named arguments. Without environments it is not
    /// found, or, for an annotation, ignored.
    pub fn execute(self) -> (r: DispatchResult)
        ensures
            exists|offers: Seq<Offer>, kwargs: Map<String, Value>|
                is_search(stack_ids(self.runtime()), offers, self.name(), r) && offers_command(
                    offers,
                    self.name(),
                    self.args(),
                    kwargs,
                ) && (vstd::std_specs::hash::obeys_key_model::<String>() ==> kwargs
                    == self.kwarg_map()),
            is_dispatch_outcome(r, self.name()),
            env_count(self.runtime().envs) == 0 ==> is_unhandled_outcome(r, self.name()),
    {
        let b = self;
        let mut kwargs: HashMap<String, Value> = HashMap::new();
        let mut i: usize = 0;
        while i < b.kwargs.len()
            invariant
                i <= b.kwargs@.len(),
                vstd::std_specs::hash::obeys_key_model::<String>() ==> kwargs@ == named_map(
                    b.kwargs@.take(i as int),
                ),
            decreases b.kwargs@.len() - i,
        {
            let key = b.kwargs[i].0.clone();
            let v = value_clone(&b.kwargs[i].1);
            kwargs.insert(key, v);
            assert(b.kwargs@.take(i + 1).drop_last() =~= b.kwargs@.take(i as int));
            i = i + 1;
        }
        assert(b.kwargs@.take(b.kwargs@.len() as int) =~= b.kwargs@);
        let ghost count = stack_ids(b.runtime());
        let r = b.runtime.execute_command(b.name.as_str(), b.args.as_slice(), &kwargs);
        assert(is_search(count, (*b.runtime).offers(), b.name@, r) && offers_command(
            (*b.runtime).offers(),
            b.name@,
            b.args@,
            kwargs@,
        ));
        let ghost offers = (*b.runtime).offers();
        let ghost kw = kwargs@;
        assert(count == stack_ids(self.runtime()));
        assert(b.name() == self.name() && b.args() == self.args() && b.kwarg_map() == self.kwarg_map());
        assert(is_search(count, offers, b.name(), r) && offers_command(offers, b.name(), b.args(), kw) && (
        vstd::std_specs::hash::obeys_key_model::<String>() ==> kw == b.kwarg_map()));
        r
    }
}

impl Runtime {
    /// Get a mutable reference to the environment stack.
    pub fn env_stack_mut(&mut self) -> (v: &mut Vec<Box<dyn CommandHandler>>)
        ensures
            v@.len() == env_count(old(self)@.envs),
            final(self)@ == (RuntimeView { envs: final(self)@.envs, ..old(self)@ }),
            env_count(final(self)@.envs) == final(v)@.len(),
    {
        self.env_stack.as_mut_vec()
    }

    /// The parser configuration that an execution uses: the one given to
    /// `with_config`, else the default.
    pub fn session_parser_config(&self) -> (c: ParserConfig)
        ensures
            self@.parser_config matches Some(given) ==> c == given,
    {
        match &self.parser_config {
            Some(c) => parser_config_clone(c),
            None => parser_config_default(),
        }
    }

    /// Offers a lifecycle hook to every environment, bottom to top or top to
    /// bottom; what the environments answer is ignored. A handler may change
    /// the stack while it runs; the environments that are then missing are
    /// skipped.
    fn broadcast_hook(&mut self, hook: &str, bottom_up: bool)
        ensures
            is_broadcast(stack_ids(old(self)@), final(self).offers(), hook@, bottom_up),
            stack_ids(final(self)@) == stack_left(stack_ids(old(self)@), final(self).offers()),
            env_count(old(self)@.envs) == 0 ==> final(self)@ == old(self)@,
    {
        let empty: Vec<Value> = Vec::new();
        let kwargs: HashMap<String, Value> = HashMap::new();
        let total = self.env_stack.len();
        let ghost ids0 = stack_ids(self@);
        let ghost mut offers: Seq<Offer> = Seq::empty();
        let mut k: usize = 0;
        while k < total
            invariant
                total == env_count(old(self).env_stack),
                ids0 == stack_ids(old(self)@),
                ids0.len() == total,
                k <= total,
                offers.len() <= k,
                k == 0 ==> *self == *old(self),
                offers.len() == 0 ==> stack_ids(self@) == ids0,
                offers.len() > 0 ==> stack_ids(self@) == put_back(offers.last()),
                env_count(self.env_stack) == stack_ids(self@).len(),
                k > 0 ==> offers.len() > 0 && offers[0].before == ids0 && offers[0].index == if bottom_up {
                    0
                } else {
                    total - 1
                },
                empty@.len() == 0,
                kwargs@ == Map::<String, Value>::empty(),
                forall|t: int|
                    0 <= t < offers.len() ==> is_taken(#[trigger] offers[t]) && offers[t].name == hook@
                        && offers[t].args.len() == 0 && offers[t].kwargs == Map::<String, Value>::empty(),
                offers_chain(offers),
                forall|t: int|
                    0 <= t < offers.len() ==> if bottom_up {
                        (#[trigger] offers[t]).index < k
                    } else {
                        offers[t].index > total - 1 - k
                    },
                forall|t: int, u: int|
                    0 <= t < u < offers.len() ==> if bottom_up {
                        (#[trigger] offers[t]).index < (#[trigger] offers[u]).index
                    } else {
                        offers[u].index < offers[t].index
                    },
                (forall|t: int| 0 <= t < offers.len() ==> left_alone(#[trigger] offers[t])) ==> {
                    &&& stack_ids(self@) == ids0
                    &&& offers.len() == k
                    &&& forall|t: int|
                        0 <= t < offers.len() ==> (#[trigger] offers[t]).before == ids0
                            && offers[t].index == if bottom_up {
                            t
                        } else {
                            total - 1 - t
                        }
                },
            decreases total - k,
        {
            let i = if bottom_up {
                k
            } else {
                total - 1 - k
            };
            if i < self.env_stack.len() {
                let ghost prev = offers;
                let ghost ids_now = stack_ids(self@);
                let _ = self.ask(i, hook, empty.as_slice(), &kwargs);
                let ghost offer = self.offers()[0];
                proof {
                    offers = offers.push(offer);
                    assert forall|t: int| 0 <= t < offers.len() implies is_taken(#[trigger] offers[t])
                        && offers[t].name == hook@ && offers[t].args.len() == 0 && offers[t].kwargs
                        == Map::<String, Value>::empty() by {
                        if t < prev.len() {
                            assert(offers[t] == prev[t]);
                        }
                    }
                    assert forall|t: int, u: int|
                        #![trigger offers[t], offers[u]]
                        0 <= t && u == t + 1 && u < offers.len() implies offers[u].before == put_back(
                            offers[t],
                        ) by {
                        if u < prev.len() {
                            assert(offers[u] == prev[u] && offers[t] == prev[t]);
                            assert(prev[t] == prev[t] && prev[u] == prev[u]);
                        } else {
                            assert(offers[t] == prev.last());
                        }
                    }
                    assert forall|t: int| 0 <= t < offers.len() implies if bottom_up {
                        (#[trigger] offers[t]).index < k + 1
                    } else {
                        offers[t].index > total - 1 - (k + 1)
                    } by {
                        if t < prev.len() {
                            assert(offers[t] == prev[t]);
                        }
                    }
                    assert forall|t: int, u: int| 0 <= t < u < offers.len() implies if bottom_up {
                        (#[trigger] offers[t]).index < (#[trigger] offers[u]).index
                    } else {
                        offers[u].index < offers[t].index
                    } by {
                        assert(offers[t] == prev[t]);
                        if u < prev.len() {
                            assert(offers[u] == prev[u]);
                        }
                    }
                    if forall|t: int| 0 <= t < offers.len() ==> left_alone(#[trigger] offers[t]) {
                        assert forall|t: int| 0 <= t < prev.len() implies left_alone(#[trigger] prev[t]) by {
                            assert(offers[t] == prev[t]);
                        }
                        assert(left_alone(offers[prev.len() as int]));
                        law_put_back_where_taken(offer);
                        assert forall|t: int| 0 <= t < offers.len() implies (#[trigger] offers[t]).before
                            == ids0 && offers[t].index == if bottom_up {
                            t
                        } else {
                            total - 1 - t
                        } by {
                            if t < prev.len() {
                                assert(offers[t] == prev[t]);
                            }
                        }
                    }
                }
            }
            k = k + 1;
        }
        self.offers = Ghost(offers);
    }

    /// Opens an execution session. The outermost session (the one opened
    /// when none is open) dispatches `@start` to every environment, bottom to
    /// top. Answers whether this session is the outermost; afterwards one
    /// more session is open, whatever the hooks did to the depth.
    pub fn begin_session(&mut self) -> (outermost: bool)
        requires
            old(self)@.lifecycle_depth < usize::MAX,
        ensures
            is_session_begin(old(self)@, final(self)@, outermost),
            outermost ==> is_broadcast(stack_ids(old(self)@), final(self).offers(), "@start"@, true)
                && stack_ids(final(self)@) == stack_left(stack_ids(old(self)@), final(self).offers()),
    {
        let is_outermost = self.lifecycle_depth == 0;
        let depth = self.lifecycle_depth + 1;
        self.lifecycle_depth = depth;
        if is_outermost {
            self.broadcast_hook("@start", true);
            self.lifecycle_depth = depth;
            proof {
                reveal_strlit("@start");
            }
        }
        is_outermost
    }

    /// Closes an execution session. Closing the outermost session dispatches
    /// `@end` to every environment, top to bottom; afterwards one session
    /// fewer is open, whatever the hooks did to the depth.
    pub fn end_session(&mut self, outermost: bool)
        ensures
            is_session_end(old(self)@, final(self)@, outermost),
            outermost ==> is_broadcast(stack_ids(old(self)@), final(self).offers(), "@end"@, false)
                && stack_ids(final(self)@) == stack_left(stack_ids(old(self)@), final(self).offers()),
    {
        let depth = if self.lifecycle_depth > 0 {
            self.lifecycle_depth - 1
        } else {
            0
        };
        self.lifecycle_depth = depth;
        if outermost {
            self.broadcast_hook("@end", false);
            self.lifecycle_depth = depth;
            proof {
                reveal_strlit("@end");
            }
        }
    }

    /// The command at the current position, when caching is enabled and the
    /// cache holds it; `None` means the next command has to be parsed.
    pub fn cached_command(&self) -> (c: Option<Command>)
        ensures
            self@.cache_enabled && self@.position < self@.cache.len() ==> c == Some(
                self@.cache[self@.position as int],
            ),
            !(self@.cache_enabled && self@.position < self@.cache.len()) ==> c is None,
    {
        if self.cache_enabled && self.current_position < self.command_cache.len() {
            Some(command_clone(&self.command_cache[self.current_position]))
        } else {
            None
        }
    }

    /// Takes note of a newly parsed command: it joins the cache when caching
    /// is enabled.
    pub fn record_parsed(&mut self, cmd: &Command)
        ensures
            old(self)@.cache_enabled ==> final(self)@ == (RuntimeView {
                cache: old(self)@.cache.push(*cmd),
                ..old(self)@
            }),
            !old(self)@.cache_enabled ==> final(self)@ == old(self)@,
    {
        if self.cache_enabled {
            self.command_cache.push(command_clone(cmd));
        }
    }

    /// Sets the command being executed.
    pub fn set_current_command(&mut self, cmd: &Command)
        ensures
            final(self)@ == (RuntimeView { current_command: Some(*cmd), ..old(self)@ }),
    {
        self.current_command = Some(command_clone(cmd));
    }

    /// Carries out what a dispatch answered: `Continue` moves to the next
    /// position, `Jump` to the given one; a probe request is handed back to
    /// the caller, an error stops the execution.
    pub fn settle(&mut self, r: DispatchResult) -> (step: LoopStep)
        requires
            r is Continue ==> old(self)@.position < usize::MAX,
        ensures
            r is Continue ==> step is Next && final(self)@ == (RuntimeView {
                position: (old(self)@.position + 1) as usize,
                ..old(self)@
            }),
            r matches DispatchResult::Jump(p) ==> step is Next && final(self)@ == (RuntimeView {
                position: p,
                ..old(self)@
            }),
            r matches DispatchResult::ProbeNeeded { strategy, offset } ==> final(self)@ == old(self)@
                && step == (LoopStep::Probe { strategy, offset }),
            r matches DispatchResult::Error(e) ==> final(self)@ == old(self)@ && step == LoopStep::Stop(e),
    {
        match r {
            DispatchResult::Continue => {
                self.current_position = self.current_position + 1;
                LoopStep::Next
            },
            DispatchResult::Jump(p) => {
                self.current_position = p;
                LoopStep::Next
            },
            DispatchResult::ProbeNeeded { strategy, offset } => LoopStep::Probe { strategy, offset },
            DispatchResult::Error(e) => LoopStep::Stop(e),
        }
    }

    /// Offers a newly parsed command to a probe: it joins the cache, and when
    /// the strategy stops there, execution goes on at its position plus
    /// `offset` (an error when that lies outside the cache).
    pub fn probe_parsed(&mut self, strategy: &mut Box<dyn ScanStrategy>, offset: i32, cmd: Command) -> (step:
        ProbeStep)
        ensures
            final(self)@.cache == old(self)@.cache.push(cmd),
            final(self).scan().len() == 1,
            final(self).scan()[0].cmd == cmd,
            final(self).scan()[0].position == old(self)@.cache.len(),
            final(self).scan()[0].stops <==> !(step is Searching),
            step is Searching ==> final(self)@ == (RuntimeView {
                cache: old(self)@.cache.push(cmd),
                ..old(self)@
            }),
            step is Found ==> 0 <= old(self)@.cache.len() + offset < old(self)@.cache.len() + 1
                && final(self)@ == (RuntimeView {
                cache: old(self)@.cache.push(cmd),
                position: (old(self)@.cache.len() + offset) as usize,
                ..old(self)@
            }),
            step matches ProbeStep::Stop(e) ==> final(self)@ == (RuntimeView {
                cache: old(self)@.cache.push(cmd),
                ..old(self)@
            }) && is_runtime_error(
                e,
                out_of_bounds_message(
                    old(self)@.cache.len() + offset,
                    old(self)@.cache.len() + 1,
                ),
            ),
    {
        let ghost offered = cmd;
        self.command_cache.push(cmd);
        let len = self.command_cache.len();
        let pos = len - 1;
        let stops = strategy.matches(&self.command_cache[pos], pos);
        let ghost record = seq![ScanAnswer { cmd: offered, position: pos as int, stops }];
        self.scan = Ghost(record);
        if stops {
            match Self::jump_target(pos, offset, len) {
                DispatchResult::Jump(target) => {
                    self.current_position = target;
                    ProbeStep::Found
                },
                DispatchResult::Error(e) => ProbeStep::Stop(e),
                _ => ProbeStep::Searching,
            }
        } else {
            ProbeStep::Searching
        }
    }

    /// The error of a probe that reached the end of the input without its
    /// strategy stopping.
    pub fn probe_exhausted() -> (e: KoiError)
        ensures
            is_runtime_error(e, "Jump target not found: end of input"@),
    {
        KoiError::runtime("Jump target not found: end of input")
    }
}

impl Default for Runtime {
    fn default() -> (rt: Runtime)
        ensures
            is_fresh(rt@, None),
    {
        Self::new()
    }
}
} // verus!
