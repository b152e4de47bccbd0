//! The decisions of KoiLang generation.
//!
//! A writer formats commands through the `koicore` writer into an output
//! sink. What it decides before each write stands here: which of its
//! temporary formatting options apply to a command, how positional and named
//! arguments become parameters, and what error a failed write reports.

use crate::error::KoiError;
use crate::outside::{
    formatter_options_clone, io_error_text, lists_entries, map_entries, parameter_basic_of,
    parameter_from_pair, parameter_from_value, parameter_named_of, value_clone,
};
use koicore::command::{Parameter, Value};
use koicore::writer::FormatterOptions;
use std::collections::HashMap;
use vstd::prelude::*;
use vstd::string::StringExecFns;

verus! {

/// Whether options with these targets apply to a command named `name`: all
/// commands when there are no targets, else those named among them.
pub open spec fn targets_apply(targets: Option<Vec<String>>, name: Seq<char>) -> bool {
    match targets {
        None => true,
        Some(t) => names_contain(t@, name),
    }
}

/// Whether one of `names` is `name`.
pub open spec fn names_contain(names: Seq<String>, name: Seq<char>) -> bool {
    exists|i: int| 0 <= i < names.len() && (#[trigger] names[i])@ == name
}

/// The index of the topmost entry of an options stack that applies to a
/// command named `name`, if any.
pub open spec fn active_index(
    stack: Seq<(FormatterOptions, Option<Vec<String>>)>,
    name: Seq<char>,
) -> Option<int>
    decreases stack.len(),
{
    if stack.len() == 0 {
        None
    } else if targets_apply(stack.last().1, name) {
        Some(stack.len() - 1)
    } else {
        active_index(stack.drop_last(), name)
    }
}

/// `e` is the error of a failed write, whose message starts with `prefix`.
pub open spec fn is_write_error(e: KoiError, prefix: Seq<char>) -> bool {
    e matches KoiError::Runtime { message } && prefix.is_prefix_of(message@)
}

/// `params` holds the values of `args` as basic parameters, in order, then
/// `extra` named parameters.
pub open spec fn is_param_list(params: Seq<Parameter>, args: Seq<Value>, extra: nat) -> bool {
    &&& params.len() == args.len() + extra
    &&& forall|i: int| 0 <= i < args.len() ==> parameter_basic_of(#[trigger] params[i]) == Some(args[i])
    &&& forall|i: int| args.len() <= i < params.len() ==> parameter_basic_of(#[trigger] params[i]) is None
}

/// The parameters of `params` from `start` on are the named parameters of
/// `kwargs`: each carries the key and value of an entry, and each entry is
/// carried by one of them.
pub open spec fn carries_kwargs(params: Seq<Parameter>, start: int, kwargs: Map<String, Value>) -> bool {
    &&& forall|j: int|
        #![trigger params[j]]
        start <= j < params.len() ==> parameter_named_of(params[j]) is Some && exists|k: String|
            #![trigger kwargs.contains_key(k)]
            kwargs.contains_key(k) && parameter_named_of(params[j]) == Some((k@, kwargs[k]))
    &&& forall|k: String|
        #![trigger kwargs.contains_key(k)]
        kwargs.contains_key(k) ==> exists|j: int|
            #![trigger params[j]]
            start <= j < params.len() && parameter_named_of(params[j]) == Some((k@, kwargs[k]))
}

/// Whether options with these targets apply to a command named `name`.
pub fn targets_include(targets: &Option<Vec<String>>, name: &str) -> (b: bool)
    ensures
        b == targets_apply(*targets, name@),
{
    match targets {
        None => true,
        Some(t) => {
            let key = name.to_owned();
            let mut i: usize = 0;
            while i < t.len()
                invariant
                    i <= t@.len(),
                    key@ == name@,
                    *targets == Some(*t),
                    forall|j: int| 0 <= j < i ==> (#[trigger] t@[j])@ != name@,
                decreases t@.len() - i,
            {
                if t[i] == key {
                    assert((t@[i as int])@ == name@);
                    assert(names_contain(t@, name@));
                    return true;
                }
                i = i + 1;
            }
            false
        },
    }
}

/// The options of the topmost entry of `stack` that applies to a command
/// named `name`; `None` when no entry does, and the writer's own options
/// apply.
pub fn active_options(stack: &[(FormatterOptions, Option<Vec<String>>)], name: &str) -> (o: Option<
    FormatterOptions,
>)
    ensures
        match active_index(stack@, name@) {
            Some(i) => o == Some(stack@[i].0),
            None => o is None,
        },
{
    let mut i = stack.len();
    assert(stack@.take(i as int) =~= stack@);
    while i > 0
        invariant
            i <= stack@.len(),
            active_index(stack@, name@) == active_index(stack@.take(i as int), name@),
        decreases i,
    {
        let ghost prefix = stack@.take(i as int);
        assert(prefix.drop_last() =~= stack@.take(i - 1));
        assert(prefix.last() == stack@[i - 1]);
        i = i - 1;
        if targets_include(&stack[i].1, name) {
            return Some(formatter_options_clone(&stack[i].0));
        }
    }
    None
}

/// The error reported for a failed write: a runtime error whose message is
/// `prefix` followed by `detail`, the description of what went wrong.
pub fn failure_message(prefix: &str, detail: &str) -> (err: KoiError)
    ensures
        err matches KoiError::Runtime { message } && message@ == prefix@ + detail@,
{
    let mut msg = String::from_str(prefix);
    msg.append(detail);
    KoiError::Runtime { message: msg }
}

/// The failure of a write, as a runtime error whose message is `prefix`
/// followed by the description of the I/O error.
pub fn write_failure(prefix: &str, e: &std::io::Error) -> (err: KoiError)
    ensures
        is_write_error(err, prefix@),
{
    let detail = io_error_text(e);
    let err = failure_message(prefix, detail.as_str());
    proof {
        if let KoiError::Runtime { message } = &err {
            assert(message@.subrange(0, prefix@.len() as int) =~= prefix@);
        }
    }
    err
}

/// Build parameters from positional and named arguments: the positional
/// arguments first, as basic parameters, then one named parameter per entry of
/// `kwargs`, with its key and value, in the order in which the map is
/// walked.
pub fn build_params(args: &[Value], kwargs: &HashMap<String, Value>) -> (params: Vec<Parameter>)
    ensures
        is_param_list(params@, args@, kwargs.len() as nat),
        vstd::std_specs::hash::obeys_key_model::<String>() ==> carries_kwargs(
            params@,
            args@.len() as int,
            kwargs@,
        ),
{
    let mut params: Vec<Parameter> = Vec::new();
    let mut i: usize = 0;
    while i < args.len()
        invariant
            i <= args@.len(),
            is_param_list(params@, args@.take(i as int), 0),
        decreases args@.len() - i,
    {
        let v = value_clone(&args[i]);
        params.push(parameter_from_value(v));
        i = i + 1;
        assert(is_param_list(params@, args@.take(i as int), 0)) by {
            assert forall|j: int| 0 <= j < i implies parameter_basic_of(#[trigger] params@[j])
                == Some(args@.take(i as int)[j]) by {
                if j < i - 1 {
                    assert(args@.take(i - 1)[j] == args@.take(i as int)[j]);
                }
            }
        }
    }
    assert(args@.take(args@.len() as int) =~= args@);
    let entries = map_entries(kwargs);
    let mut k: usize = 0;
    while k < entries.len()
        invariant
            k <= entries@.len(),
            entries@.len() == kwargs.len(),
            is_param_list(params@, args@, k as nat),
            forall|j: int| 0 <= j < k ==> parameter_named_of(#[trigger] params@[args@.len() + j])
                == Some((entries@[j].0@, entries@[j].1)),
        decreases entries@.len() - k,
    {
        let v = value_clone(&entries[k].1);
        params.push(parameter_from_pair(entries[k].0.as_str(), v));
        k = k + 1;
    }
    proof {
        let n = args@.len() as int;
        if vstd::std_specs::hash::obeys_key_model::<String>() {
            assert(lists_entries(entries@, kwargs@));
            assert forall|j: int| #![trigger params@[j]] n <= j < params@.len() implies parameter_named_of(params@[j]) is Some && exists|key: String|
                #![trigger kwargs@.contains_key(key)]
                kwargs@.contains_key(key) && parameter_named_of(params@[j])
                    == Some((key@, kwargs@[key])) by {
                let e = entries@[j - n];
                assert(parameter_named_of(params@[n + (j - n)]) == Some((e.0@, e.1)));
                assert(kwargs@.contains_key(e.0) && kwargs@[e.0] == e.1);
                assert(parameter_named_of(params@[j]) == Some((e.0@, kwargs@[e.0])));
            }
            assert forall|key: String| #![trigger kwargs@.contains_key(key)] kwargs@.contains_key(key) implies exists|j: int|
                #![trigger params@[j]]
                n <= j < params@.len() && parameter_named_of(params@[j])
                    == Some((key@, kwargs@[key])) by {
                let i = choose|i: int| 0 <= i < entries@.len() && (#[trigger] entries@[i].0) == key;
                assert(parameter_named_of(params@[n + i]) == Some((entries@[i].0@, entries@[i].1)));
                assert(kwargs@[key] == entries@[i].1);
                assert(n <= n + i < params@.len());
            }
            assert(carries_kwargs(params@, n, kwargs@));
        }
    }
    params
}

} // verus!
