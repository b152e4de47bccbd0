//! The items of `koicore` and of std that the library uses, with the
//! contracts that the library relies on. Each wrapper below makes one call
//! and converts its arguments and result; nothing else happens in them.

use koicore::command::{Command, CompositeValue, Parameter, Value};
use koicore::parser::{ParseError, ParserConfig};
use crate::runtime::ParamShape;
use koicore::writer::FormatterOptions;
use vstd::prelude::*;

verus! {

/// A parsed or constructed KoiLang command of `koicore`.
#[verifier::external_type_specification]
#[verifier::external_body]
pub struct ExCommand(Command);

/// A parameter of a `koicore` command.
#[verifier::external_type_specification]
#[verifier::external_body]
pub struct ExParameter(Parameter);

/// A basic `koicore` value (integer, float, boolean or string).
#[verifier::external_type_specification]
#[verifier::external_body]
pub struct ExValue(Value);

/// The configuration of the `koicore` parser.
#[verifier::external_type_specification]
#[verifier::external_body]
pub struct ExParserConfig(ParserConfig);

/// A parse error reported by `koicore`.
#[verifier::external_type_specification]
#[verifier::external_body]
pub struct ExParseError(ParseError);

/// The formatting options of the `koicore` writer.
#[verifier::external_type_specification]
#[verifier::external_body]
pub struct ExFormatterOptions(FormatterOptions);

/// An I/O error of std.
#[verifier::external_type_specification]
#[verifier::external_body]
pub struct ExIoError(std::io::Error);

/// The name that a `koicore` command carries (its public field `name`).
pub uninterp spec fn command_name_of(cmd: Command) -> Seq<char>;

/// The parameters that a `koicore` command carries (its public field `params`).
pub uninterp spec fn command_params_of(cmd: Command) -> Seq<Parameter>;

/// What a parameter is, variant by variant (see `parameter_shape`).
pub uninterp spec fn parameter_shape_of(p: Parameter) -> ParamShape;

/// The value of a parameter when it is `Parameter::Basic`, `None` for any
/// other.
pub open spec fn parameter_basic_of(p: Parameter) -> Option<Value> {
    match parameter_shape_of(p) {
        ParamShape::Basic(v) => Some(v),
        _ => None,
    }
}

/// The name and value of a parameter of the form
/// `Parameter::Composite(name, CompositeValue::Single(value))`, `None` for any
/// other.
pub open spec fn parameter_named_of(p: Parameter) -> Option<(Seq<char>, Value)> {
    match parameter_shape_of(p) {
        ParamShape::Single(name, v) => Some((name@, v)),
        _ => None,
    }
}

/// `Command::new(name, params)`: by its source the command keeps `name` and
/// `params` as they were given.
#[verifier::external_body]
pub(crate) fn command_new(name: &str, params: Vec<Parameter>) -> (cmd: Command)
    ensures
        command_name_of(cmd) == name@,
        command_params_of(cmd) == params@,
{
    Command::new(name, params)
}

/// `Command::name`: the command's name field, copied into a `String`.
#[verifier::external_body]
pub(crate) fn command_name(cmd: &Command) -> (name: String)
    ensures
        name@ == command_name_of(*cmd),
{
    cmd.name().to_string()
}

/// `Command::params`: the command's parameters, cloned into a `Vec`.
/// `Parameter`'s `Clone` is derived, so each clone equals its original.
#[verifier::external_body]
pub(crate) fn command_params(cmd: &Command) -> (params: Vec<Parameter>)
    ensures
        params@ == command_params_of(*cmd),
{
    cmd.params().to_vec()
}

/// `Clone::clone` on a `koicore` command (derived, field by field).
#[verifier::external_body]
pub(crate) fn command_clone(cmd: &Command) -> (c: Command)
    ensures
        c == *cmd,
{
    cmd.clone()
}

/// Tells the variants of `Parameter` and of its `CompositeValue` apart, one
/// arm each, moving (cloning) their fields; the contents of a list or a
/// dictionary are left out.
#[verifier::external_body]
pub(crate) fn parameter_shape(p: &Parameter) -> (s: ParamShape)
    ensures
        s == parameter_shape_of(*p),
{
    match p {
        Parameter::Basic(v) => ParamShape::Basic(v.clone()),
        Parameter::Composite(name, CompositeValue::Single(v)) => ParamShape::Single(name.clone(), v.clone()),
        Parameter::Composite(name, CompositeValue::List(_)) => ParamShape::List(name.clone()),
        Parameter::Composite(name, CompositeValue::Dict(_)) => ParamShape::Dict(name.clone()),
    }
}

/// `Parameter::from(value)`: by its source, `Parameter::Basic(value)`.
#[verifier::external_body]
pub(crate) fn parameter_from_value(v: Value) -> (p: Parameter)
    ensures
        parameter_shape_of(p) == ParamShape::Basic(v),
{
    Parameter::from(v)
}

/// `Parameter::from((key, value))`: by its source,
/// `Parameter::Composite(key.into(), CompositeValue::Single(value))`.
#[verifier::external_body]
pub(crate) fn parameter_from_pair(key: &str, v: Value) -> (p: Parameter)
    ensures
        parameter_named_of(p) == Some((key@, v)),
{
    Parameter::from((key, v))
}

/// `Clone::clone` on a `koicore` value (derived).
#[verifier::external_body]
pub(crate) fn value_clone(v: &Value) -> (c: Value)
    ensures
        c == *v,
{
    v.clone()
}

/// `Clone::clone` on the parser configuration (derived).
#[verifier::external_body]
pub(crate) fn parser_config_clone(c: &ParserConfig) -> (r: ParserConfig)
    ensures
        r == *c,
{
    c.clone()
}

/// `ParserConfig::default()`. Nothing of its fields is used by the library.
#[verifier::external_body]
pub(crate) fn parser_config_default() -> ParserConfig {
    ParserConfig::default()
}

/// `Clone::clone` on formatter options (derived).
#[verifier::external_body]
pub(crate) fn formatter_options_clone(o: &FormatterOptions) -> (r: FormatterOptions)
    ensures
        r == *o,
{
    o.clone()
}

/// `Display` of a `koicore` parse error. The text is left unsaid.
#[verifier::external_body]
pub(crate) fn parse_error_text(e: &ParseError) -> String {
    e.to_string()
}

/// `Display` of an I/O error. The text depends on the operating system
/// and is left unsaid.
#[verifier::external_body]
pub(crate) fn io_error_text(e: &std::io::Error) -> String {
    e.to_string()
}

/// `entries` lists the entries of `m`: each entry of the map exactly once,
/// in some order.
pub open spec fn lists_entries(entries: Seq<(String, Value)>, m: Map<String, Value>) -> bool {
    &&& entries.len() == m.len()
    &&& forall|i: int| 0 <= i < entries.len() ==> m.contains_key(#[trigger] entries[i].0) && m[entries[i].0] == entries[i].1
    &&& forall|i: int, j: int| 0 <= i < j < entries.len() ==> (#[trigger] entries[i].0) != (#[trigger] entries[j].0)
    &&& forall|k: String| #[trigger] m.contains_key(k) ==> exists|i: int| 0 <= i < entries.len() && (#[trigger] entries[i].0) == k
}

/// `HashMap::iter`, each key and value cloned: every entry of the map once,
/// in the order in which the map is walked, which is left unsaid. As in
/// vstd's model of `HashMap`, what the entries are is stated where `String`
/// keys obey that model.
#[verifier::external_body]
pub(crate) fn map_entries(m: &std::collections::HashMap<String, Value>) -> (entries: Vec<(String, Value)>)
    ensures
        entries@.len() == m.len(),
        vstd::std_specs::hash::obeys_key_model::<String>() ==> lists_entries(entries@, m@),
{
    m.iter().map(|(k, v)| (k.clone(), v.clone())).collect()
}

/// The variant of a `koicore` value with its payload: that of an integer, a
/// boolean or a string; that of a float is dropped.
pub uninterp spec fn value_kind_of(v: Value) -> crate::command_macro::ValueKind;

/// Tells the four variants of `Value` apart, with the payload of an
/// integer, a boolean or a string (cloned); that of a float is dropped.
#[verifier::external_body]
pub(crate) fn value_kind(v: &Value) -> (k: crate::command_macro::ValueKind)
    ensures
        k == value_kind_of(*v),
{
    match v {
        Value::Int(i) => crate::command_macro::ValueKind::Int(*i),
        Value::Float(_) => crate::command_macro::ValueKind::Float,
        Value::Bool(b) => crate::command_macro::ValueKind::Bool(*b),
        Value::String(s) => crate::command_macro::ValueKind::Str(s.clone()),
    }
}

} // verus!
