//! Properties that span several operations of the runtime and the writer.

use crate::env_stack::{env_count, in_step};
use crate::error::{is_runtime_error, is_runtime_failure, DispatchResult, Result};
use crate::outside::{command_name_of, command_params_of, parameter_basic_of, parameter_named_of};
use crate::runtime::{
    basic_values_of, lemma_basic_values_all_basic, disabled, is_label_jump, is_registration, is_command_search, is_env_entry, is_env_exit, is_named_map, is_search, is_session_begin, is_session_end, offers_command, stack_ids, Offer, RuntimeView,
};
use crate::command_macro::{
    commanded, extract_count, is_plan_of, options_from_attrs, param_source, param_sources, plan_index, ArgSource,
    CommandPlan, MethodModel, ParamModel,
};
use crate::command_macro::{accepted, is_default_arg, ArgKind, ArgValue, FloatSource, ValueKind};
use crate::error::KoiError;
use crate::runtime::is_unhandled_outcome;
use crate::strategy::{depth_after, matching_scan};
use crate::writer::{active_index, targets_apply};
use koicore::command::{Command, Value};
use koicore::writer::FormatterOptions;
use vstd::prelude::*;

verus! {

/// A label registered on an enabled cache is where a jump to it goes: the
/// given position, or the current position when none was given.
pub proof fn law_jump_to_registered_label(
    before: RuntimeView,
    after: RuntimeView,
    label: Seq<char>,
    position: Option<usize>,
    r: Result<()>,
    jump: DispatchResult,
)
    requires
        before.cache_enabled,
        !before.labels.contains_key(label),
        is_registration(before, after, label, position, r),
        is_label_jump(after, label, jump),
    ensures
        r is Ok,
        jump matches DispatchResult::Jump(p) && p == match position {
            Some(q) => q,
            None => before.position,
        },
{
}

/// A label is registered once: registering it again fails and changes
/// nothing, so the first position stays.
pub proof fn law_label_registered_once(
    v0: RuntimeView,
    v1: RuntimeView,
    v2: RuntimeView,
    label: Seq<char>,
    p1: Option<usize>,
    p2: Option<usize>,
    r1: Result<()>,
    r2: Result<()>,
)
    requires
        v0.cache_enabled,
        is_registration(v0, v1, label, p1, r1),
        is_registration(v1, v2, label, p2, r2),
    ensures
        v2 == v1,
        r2 matches Err(e) && is_runtime_error(e, "Label '"@ + label + "' already registered"@),
{
}

/// Disabling the cache forgets every label: a jump to any label then fails
/// as not found.
pub proof fn law_disable_cache_forgets_labels(v: RuntimeView, label: Seq<char>, jump: DispatchResult)
    requires
        is_label_jump(disabled(v), label, jump),
    ensures
        is_runtime_failure(jump, "Label '"@ + label + "' not found"@),
{
}

/// Without environments, opening an execution session and closing it again
/// leaves the runtime as it was.
pub proof fn law_session_round_trip(
    v0: RuntimeView,
    v1: RuntimeView,
    v2: RuntimeView,
    outermost: bool,
)
    requires
        env_count(v0.envs) == 0,
        v0.lifecycle_depth < usize::MAX,
        is_session_begin(v0, v1, outermost),
        is_session_end(v1, v2, outermost),
    ensures
        v2 == v0,
{
    assert(env_count(v1.envs) == 0);
    assert(v2.lifecycle_depth == v0.lifecycle_depth);
}

/// Outside an execution session, entering an environment and exiting it
/// again leaves the runtime as it was, its stack included.
pub proof fn law_enter_exit_round_trip(v0: RuntimeView, v1: RuntimeView, v2: RuntimeView, id: u64)
    requires
        v0.lifecycle_depth == 0,
        in_step(v0.envs),
        is_env_entry(v0, v1, id),
        is_env_exit(v1, v2),
    ensures
        v2 == v0,
{
}

/// A session opened inside another one is not the outermost: it neither
/// sends `@start` when opened nor `@end` when closed, and only the depth
/// changes.
pub proof fn law_nested_session_is_silent(v0: RuntimeView, v1: RuntimeView, outermost: bool)
    requires
        v0.lifecycle_depth > 0,
        is_session_begin(v0, v1, outermost),
    ensures
        !outermost,
        v1 == (RuntimeView { lifecycle_depth: (v0.lifecycle_depth + 1) as usize, ..v0 }),
{
}

/// A command name that neither opens nor closes a block and is not the
/// alternative marker.
pub open spec fn is_neutral(
    name: Seq<char>,
    start: Seq<char>,
    end: Seq<char>,
    alternative: Option<Seq<char>>,
) -> bool {
    name != start && name != end && alternative != Some(name)
}

/// Neutral commands leave the matching scan as it was: scanning from `from`
/// gives what scanning from `to` gives.
pub proof fn lemma_matching_skips_neutral(
    names: Seq<Seq<char>>,
    from: int,
    to: int,
    depth: int,
    start: Seq<char>,
    end: Seq<char>,
    alternative: Option<Seq<char>>,
)
    requires
        0 <= from <= to <= names.len(),
        forall|i: int| from <= i < to ==> is_neutral(#[trigger] names[i], start, end, alternative),
    ensures
        matching_scan(names, from, depth, start, end, alternative) == matching_scan(
            names,
            to,
            depth,
            start,
            end,
            alternative,
        ),
    decreases to - from,
{
    if from < to {
        lemma_matching_skips_neutral(names, from + 1, to, depth, start, end, alternative);
    }
}

/// With no block opened in between, `jump_to_matching` stops at the first
/// end marker after the current position.
pub proof fn law_matching_stops_at_first_end(
    names: Seq<Seq<char>>,
    position: int,
    q: int,
    start: Seq<char>,
    end: Seq<char>,
    alternative: Option<Seq<char>>,
)
    requires
        0 <= position < q < names.len(),
        start != end,
        names[q] == end,
        forall|i: int|
            position < i < q ==> is_neutral(#[trigger] names[i], start, end, alternative),
    ensures
        matching_scan(names, position + 1, 1, start, end, alternative).0 == Some(q),
{
    lemma_matching_skips_neutral(names, position + 1, q, 1, start, end, alternative);
}

/// A block opened and closed after the current position is skipped:
/// `jump_to_matching` stops at the end marker after it, not at the one that
/// closes it, and an alternative marker inside it does not stop the scan.
pub proof fn law_matching_skips_nested_block(
    names: Seq<Seq<char>>,
    position: int,
    a: int,
    b: int,
    c: int,
    start: Seq<char>,
    end: Seq<char>,
    alternative: Option<Seq<char>>,
)
    requires
        0 <= position < a < b < c < names.len(),
        start != end,
        alternative != Some(start) && alternative != Some(end),
        names[a] == start,
        names[b] == end,
        names[c] == end,
        forall|i: int|
            position < i < a || b < i < c ==> is_neutral(#[trigger] names[i], start, end, alternative),
        forall|i: int|
            a < i < b ==> (#[trigger] names[i]) != start && names[i] != end,
    ensures
        matching_scan(names, position + 1, 1, start, end, alternative).0 == Some(c),
{
    lemma_matching_skips_neutral(names, position + 1, a, 1, start, end, alternative);
    assert(matching_scan(names, a, 1, start, end, alternative) == matching_scan(
        names,
        a + 1,
        2,
        start,
        end,
        alternative,
    ));
    lemma_matching_inside_block(names, a + 1, b, start, end, alternative);
    assert(matching_scan(names, b, 2, start, end, alternative) == matching_scan(
        names,
        b + 1,
        1,
        start,
        end,
        alternative,
    ));
    lemma_matching_skips_neutral(names, b + 1, c, 1, start, end, alternative);
}

/// Inside a block (depth 2) commands that neither open nor close a block
/// leave the scan as it was.
proof fn lemma_matching_inside_block(
    names: Seq<Seq<char>>,
    from: int,
    to: int,
    start: Seq<char>,
    end: Seq<char>,
    alternative: Option<Seq<char>>,
)
    requires
        0 <= from <= to <= names.len(),
        forall|i: int| from <= i < to ==> (#[trigger] names[i]) != start && names[i] != end,
    ensures
        matching_scan(names, from, 2, start, end, alternative) == matching_scan(
            names,
            to,
            2,
            start,
            end,
            alternative,
        ),
    decreases to - from,
{
    if from < to {
        lemma_matching_inside_block(names, from + 1, to, start, end, alternative);
    }
}

/// The options the writer applies to a command are those of the topmost
/// entry whose targets include it: that entry applies, and no entry above it
/// does.
pub proof fn law_topmost_applicable_options(
    stack: Seq<(FormatterOptions, Option<Vec<String>>)>,
    name: Seq<char>,
)
    ensures
        match active_index(stack, name) {
            Some(i) => 0 <= i < stack.len() && targets_apply(stack[i].1, name) && forall|j: int|
                i < j < stack.len() ==> !targets_apply(#[trigger] stack[j].1, name),
            None => forall|j: int| 0 <= j < stack.len() ==> !targets_apply(#[trigger] stack[j].1, name),
        },
    decreases stack.len(),
{
    if stack.len() > 0 {
        law_topmost_applicable_options(stack.drop_last(), name);
        assert forall|j: int| 0 <= j < stack.len() - 1 implies #[trigger] stack[j].1 == stack.drop_last()[j].1 by {}
    }
}

/// Options without targets apply to every command: pushed on top, they are
/// the ones applied.
pub proof fn law_untargeted_options_apply_to_all(
    stack: Seq<(FormatterOptions, Option<Vec<String>>)>,
    options: FormatterOptions,
    name: Seq<char>,
)
    ensures
        active_index(stack.push((options, None)), name) == Some(stack.len() as int),
{
}

/// A command built from a name and positional arguments, dispatched as a
/// command object, reaches the environments as `execute_command` with those
/// arguments and no named ones would hand it: the search is the same, and
/// each environment asked receives the name and exactly those arguments.
pub proof fn law_built_command_reaches_handlers(
    name: Seq<char>,
    args: Seq<Value>,
    cmd: Command,
    before: RuntimeView,
    after: RuntimeView,
    offers: Seq<Offer>,
    r: DispatchResult,
)
    requires
        command_name_of(cmd) == name,
        command_params_of(cmd).len() == args.len(),
        forall|i: int|
            0 <= i < args.len() ==> parameter_basic_of(#[trigger] command_params_of(cmd)[i])
                == Some(args[i]) && parameter_named_of(command_params_of(cmd)[i]) is None,
        is_command_search(before, after, offers, cmd, r),
    ensures
        is_search(stack_ids(before), offers, name, r),
        vstd::std_specs::hash::obeys_key_model::<String>() ==> offers_command(
            offers,
            name,
            args,
            Map::empty(),
        ),
{
    lemma_basic_values_all_basic(command_params_of(cmd), args);
    if vstd::std_specs::hash::obeys_key_model::<String>() {
        assert forall|t: int| 0 <= t < offers.len() implies (#[trigger] offers[t]).name == name
            && offers[t].args == args && offers[t].kwargs == Map::<String, Value>::empty() by {
            let m = offers[t].kwargs;
            assert(is_named_map(command_params_of(cmd), m));
            assert forall|s: String| !m.contains_key(s) by {
                if m.contains_key(s) {
                    let j = choose|j: int|
                        #![trigger command_params_of(cmd)[j]]
                        0 <= j < command_params_of(cmd).len() && parameter_named_of(command_params_of(cmd)[j])
                            == Some((s@, m[s]));
                    assert(parameter_named_of(command_params_of(cmd)[j]) is None);
                }
            }
            assert(m =~= Map::<String, Value>::empty());
        }
    }
}

/// The command name that a method accepted by `#[command]` answers to.
pub open spec fn command_name_of_method(m: MethodModel) -> Option<Seq<char>> {
    match options_from_attrs(m.attrs@, m.ident@) {
        Ok((name, _)) => Some(name),
        Err(_) => None,
    }
}

/// What `plan_index` finds: the first plan for the name, or none.
proof fn lemma_plan_index(plans: Seq<CommandPlan>, name: Seq<char>)
    ensures
        match plan_index(plans, name) {
            Some(i) => 0 <= i < plans.len() && plans[i].command@ == name && forall|j: int|
                0 <= j < i ==> (#[trigger] plans[j]).command@ != name,
            None => forall|j: int| 0 <= j < plans.len() ==> (#[trigger] plans[j]).command@ != name,
        },
    decreases plans.len(),
{
    if plans.len() > 0 {
        lemma_plan_index(plans.drop_first(), name);
        assert forall|j: int| 1 <= j < plans.len() implies plans[j] == plans.drop_first()[j - 1] by {}
    }
}

/// A generated handler dispatches by command name: for the command `name`,
/// the plans that `command_handler` made for the methods carrying
/// `#[command]` call the first such method whose command name (the `name =
/// ".."` of its attribute, else its own name) is `name`; when no method's
/// command name is `name`, none is called and the command is not found
/// (`unknown_command`).
pub proof fn law_handler_dispatches_by_command_name(
    methods: Seq<MethodModel>,
    plans: Seq<CommandPlan>,
    name: Seq<char>,
)
    requires
        plans.len() == commanded(methods).len(),
        forall|i: int| 0 <= i < plans.len() ==> is_plan_of(#[trigger] plans[i], commanded(methods)[i]),
    ensures
        match plan_index(plans, name) {
            Some(i) => 0 <= i < plans.len() && plans[i].method@ == commanded(methods)[i].ident@
                && command_name_of_method(commanded(methods)[i]) == Some(name) && forall|j: int|
                0 <= j < i ==> command_name_of_method(#[trigger] commanded(methods)[j]) != Some(name),
            None => forall|j: int|
                0 <= j < plans.len() ==> command_name_of_method(#[trigger] commanded(methods)[j])
                    != Some(name),
        },
{
    lemma_plan_index(plans, name);
    match plan_index(plans, name) {
        Some(i) => {
            assert(is_plan_of(plans[i], commanded(methods)[i]));
            assert forall|j: int| 0 <= j < i implies command_name_of_method(
                #[trigger] commanded(methods)[j],
            ) != Some(name) by {
                assert(is_plan_of(plans[j], commanded(methods)[j]));
                assert(plans[j].command@ != name);
            }
        },
        None => {
            assert forall|j: int| 0 <= j < plans.len() implies command_name_of_method(
                #[trigger] commanded(methods)[j],
            ) != Some(name) by {
                assert(is_plan_of(plans[j], commanded(methods)[j]));
                assert(plans[j].command@ != name);
            }
        },
    }
}

/// A generated handler reads the positional values in the order of the
/// method's parameters: the parameters that take one read `args[0]`,
/// `args[1]`, ... in declaration order, and a `&mut Runtime` parameter takes
/// none.
pub proof fn law_arguments_in_declaration_order(params: Seq<ParamModel>, flag: bool, sources: Seq<ArgSource>)
    requires
        params.len() <= usize::MAX,
        param_sources(params, flag) == Some(sources),
    ensures
        sources.len() == params.len(),
        forall|k: int|
            0 <= k < sources.len() ==> match #[trigger] sources[k] {
                ArgSource::Extract { index, .. } => index == extract_count(sources.take(k)),
                ArgSource::Runtime => true,
            },
    decreases params.len(),
{
    if params.len() > 0 {
        let prev = param_sources(params.drop_last(), flag)->Some_0;
        law_arguments_in_declaration_order(params.drop_last(), flag, prev);
        assert(sources == prev.push(sources.last()));
        assert forall|k: int| 0 <= k < sources.len() implies match #[trigger] sources[k] {
            ArgSource::Extract { index, .. } => index == extract_count(sources.take(k)),
            ArgSource::Runtime => true,
        } by {
            if k < prev.len() {
                assert(sources.take(k) =~= prev.take(k));
                assert(sources[k] == prev[k]);
            } else {
                assert(sources.take(k) =~= prev);
                lemma_extract_count_bound(prev);
                let src = param_source(params.last(), flag, extract_count(prev));
                assert(src == Some(sources.last()));
            }
        }
    } else {
        assert(sources.len() == 0);
    }
}

/// At most every source takes a positional value.
proof fn lemma_extract_count_bound(sources: Seq<ArgSource>)
    ensures
        extract_count(sources) <= sources.len(),
    decreases sources.len(),
{
    if sources.len() > 0 {
        lemma_extract_count_bound(sources.drop_last());
    }
}

/// The search through the stack stops at the first environment that
/// answers anything but "not found", and the dispatch answers exactly that:
/// a runtime error, a jump or a probe request of a handler is never taken
/// for "not mine". Only after a "not found" is the next environment asked,
/// and when the last one asked did not know the command either, the command
/// is unhandled.
pub proof fn law_search_returns_first_real_answer(
    ids0: Seq<u64>,
    offers: Seq<Offer>,
    name: Seq<char>,
    r: DispatchResult,
)
    requires
        is_search(ids0, offers, name, r),
    ensures
        forall|t: int|
            0 <= t < offers.len() && !((#[trigger] offers[t]).answer matches DispatchResult::Error(e)
                && e is CommandNotFound) ==> t == offers.len() - 1 && r == offers[t].answer,
        offers.len() > 0 && (offers.last().answer matches DispatchResult::Error(e) && e is CommandNotFound)
            ==> is_unhandled_outcome(r, name),
        forall|t: int|
            0 <= t < offers.len() - 1 ==> ((#[trigger] offers[t]).answer matches DispatchResult::Error(e)
                && e is CommandNotFound),
{
}

/// In particular, a stack of one environment that answers a runtime error
/// gives that runtime error, whatever the command.
pub proof fn law_single_environment_error_is_returned(
    ids0: Seq<u64>,
    offers: Seq<Offer>,
    name: Seq<char>,
    message: String,
    r: DispatchResult,
)
    requires
        ids0.len() == 1,
        is_search(ids0, offers, name, r),
        offers[0].answer == DispatchResult::Error(KoiError::Runtime { message }),
    ensures
        offers.len() == 1,
        r == DispatchResult::Error(KoiError::Runtime { message }),
{
    law_search_returns_first_real_answer(ids0, offers, name, r);
}

/// Extraction accepts exactly the values of the parameter's type (integers
/// for floats only when allowed) and keeps their payload: a boolean gives
/// that boolean, an integer that integer (or, for an `i32` parameter, the
/// same number when it fits), a string the same characters, and an integer
/// for a float parameter that integer.
pub proof fn law_extraction_keeps_the_value(
    kind: ArgKind,
    v: ValueKind,
    b: bool,
    i: i64,
    text: String,
    wide: bool,
    allow: bool,
)
    ensures
        accepted(kind, v) is Some <==> match kind {
            ArgKind::OwnedString | ArgKind::StrRef => v is Str,
            ArgKind::Int { .. } => v is Int,
            ArgKind::Float { allow_int_to_float, .. } => v is Float || (v is Int && allow_int_to_float),
            ArgKind::Bool => v is Bool,
        },
        accepted(ArgKind::Bool, ValueKind::Bool(b)) == Some(ArgValue::Bool(b)),
        accepted(ArgKind::Int { wide: true }, ValueKind::Int(i)) == Some(ArgValue::Int(i)),
        i32::MIN <= i <= i32::MAX ==> accepted(ArgKind::Int { wide: false }, ValueKind::Int(i)) == Some(
            ArgValue::Int32(i as i32),
        ) && (i as i32) as int == i as int,
        accepted(ArgKind::OwnedString, ValueKind::Str(text)) == Some(ArgValue::Str(text)),
        accepted(ArgKind::StrRef, ValueKind::Str(text)) == Some(ArgValue::Str(text)),
        accepted(ArgKind::Float { wide, allow_int_to_float: true }, ValueKind::Int(i)) == Some(
            ArgValue::Float(FloatSource::FromInt(i)),
        ),
        accepted(ArgKind::Float { wide, allow_int_to_float: allow }, ValueKind::Float) == Some(
            ArgValue::Float(FloatSource::FromFloat),
        ),
{
}

/// Opening a block adds one nesting level and closing one removes it, at
/// every depth short of the `i64` limits; other commands leave it.
pub proof fn law_depth_counts_levels(d: int, name: Seq<char>, start: Seq<char>, end: Seq<char>)
    requires
        start != end,
        i64::MIN < d < i64::MAX,
    ensures
        depth_after(d, start, start, end) == d + 1,
        depth_after(d, end, start, end) == d - 1,
        name != start && name != end ==> depth_after(d, name, start, end) == d,
{
}

/// Blocks nested to any depth are skipped: entered at nesting `d`, a scan
/// over `m` opening markers followed by `m + d` closing ones stops at the
/// last of them, the one that closes the level the scan began on.
pub proof fn law_matching_skips_any_nesting(
    names: Seq<Seq<char>>,
    p: int,
    m: int,
    d: int,
    start: Seq<char>,
    end: Seq<char>,
    alternative: Option<Seq<char>>,
)
    requires
        start != end,
        0 <= p,
        0 <= m,
        1 <= d,
        d + m <= i64::MAX,
        p + 2 * m + d <= names.len(),
        forall|j: int| p <= j < p + m ==> #[trigger] names[j] == start,
        forall|j: int| p + m <= j < p + 2 * m + d ==> #[trigger] names[j] == end,
    ensures
        matching_scan(names, p, d, start, end, alternative).0 == Some(p + 2 * m + d - 1),
    decreases m + m + d,
{
    if m > 0 {
        assert(names[p] == start);
        law_matching_skips_any_nesting(names, p + 1, m - 1, d + 1, start, end, alternative);
    } else {
        assert(names[p] == end);
        if d > 1 {
            law_matching_skips_any_nesting(names, p + 1, 0, d - 1, start, end, alternative);
        }
    }
}

/// Options with a list of targets apply to a command exactly when it is
/// named anywhere in the list.
pub proof fn law_options_apply_to_every_target(targets: Vec<String>, name: Seq<char>)
    ensures
        forall|i: int|
            0 <= i < targets@.len() ==> targets_apply(Some(targets), (#[trigger] targets@[i])@),
        targets_apply(Some(targets), name) <==> exists|i: int|
            0 <= i < targets@.len() && (#[trigger] targets@[i])@ == name,
{
}

/// Disabling the cache empties it: no cached command, no label, position 0
/// and caching off; the rest of the runtime stays as it was.
pub proof fn law_disable_cache_empties_the_cache(v: RuntimeView)
    ensures
        disabled(v).cache.len() == 0,
        disabled(v).labels.dom().len() == 0,
        disabled(v).position == 0,
        !disabled(v).cache_enabled,
        disabled(v).envs == v.envs,
        disabled(v).middleware == v.middleware,
        disabled(v).lifecycle_depth == v.lifecycle_depth,
        disabled(v).current_command == v.current_command,
        disabled(v).parser_config == v.parser_config,
{
}

/// A command that no environment handles is not found, naming the command,
/// unless it is an annotation, which is silently ignored.
pub proof fn law_unhandled_commands(r: DispatchResult, name: Seq<char>)
    requires
        is_unhandled_outcome(r, name),
    ensures
        name == "@annotation"@ ==> r is Continue,
        name != "@annotation"@ ==> (r matches DispatchResult::Error(KoiError::CommandNotFound { name: n })
            && n@ == name),
{
}

/// A missing argument gets the zero of its type: the empty string, 0, 0.0
/// or `false`.
pub proof fn law_missing_arguments_default_to_zero(a: ArgValue, wide: bool, allow: bool)
    ensures
        is_default_arg(a, ArgKind::Bool) <==> a == ArgValue::Bool(false),
        is_default_arg(a, ArgKind::Int { wide: true }) <==> a == ArgValue::Int(0),
        is_default_arg(a, ArgKind::Int { wide: false }) <==> a == ArgValue::Int32(0),
        is_default_arg(a, ArgKind::Float { wide, allow_int_to_float: allow }) <==> a == ArgValue::Float(
            FloatSource::Zero,
        ),
        is_default_arg(a, ArgKind::OwnedString) <==> (a matches ArgValue::Str(t) && t@.len() == 0),
{
}

} // verus!
