//! The decisions behind `#[command_handler]` and `#[command]`.
//!
//! An impl block marked `#[command_handler]` becomes a `CommandHandler`
//! whose `handle_command` dispatches by command name to the methods marked
//! `#[command]`, extracting each positional argument with strict type
//! checking and injecting the runtime where a method asks for `&mut Runtime`.
//! The attribute and the method signatures are read here as plain values:
//! [`AttributeModel`], [`TypeModel`], [`ParamModel`], [`MethodModel`].





use crate::error::{is_not_found_error, is_runtime_error, DispatchResult, KoiError};
use crate::outside::{value_kind, value_kind_of};
use crate::text::{concat3, decimal, push_decimal};
use koicore::command::Value;
use vstd::prelude::*;
use vstd::string::StringExecFns;

verus! {

/// The options that a `#[command]` attribute gives a method.
pub struct CommandOptions {
    /// The command name the method handles.
    pub name: String,
    /// Whether integer arguments are accepted for float parameters.
    pub allow_int_to_float: bool,
}

/// One item of the comma-separated arguments of `#[command(..)]`.
pub enum NestedMeta {
    /// `key = value`: whether the key is the identifier `name`, and the text
    /// of the value when it is a string literal.
    NameValue { key_is_name: bool, value: Option<String> },
    /// A path, with its identifier when it is a single identifier.
    Path { ident: Option<String> },
    /// Anything else, such as a parenthesized list.
    Other,
}

/// The arguments of a `#[command]` attribute.
pub enum CommandArgs {
    /// `#[command]`: no arguments.
    Empty,
    /// `#[command(a, b = .., ..)]`: the comma-separated meta items.
    Items(Vec<NestedMeta>),
    /// Arguments that are not comma-separated meta items; they are ignored,
    /// as no arguments would be.
    Malformed,
}

/// An attribute on a method.
pub struct AttributeModel {
    /// Whether its path is the identifier `command`.
    pub is_command: bool,
    /// Its arguments.
    pub args: CommandArgs,
}

/// Why a `#[command]` attribute is refused.
pub enum AttributeError {
    /// `name = ..` with a value that is no string literal.
    NameNotStringLiteral,
}

/// Whether an attribute list holds a `#[command]` attribute.
pub open spec fn has_command_attr_spec(attrs: Seq<AttributeModel>) -> bool {
    exists|i: int| 0 <= i < attrs.len() && (#[trigger] attrs[i]).is_command
}

/// The index of the first `#[command]` attribute.
pub open spec fn first_command_attr(attrs: Seq<AttributeModel>) -> Option<int>
    decreases attrs.len(),
{
    if attrs.len() == 0 {
        None
    } else if attrs[0].is_command {
        Some(0)
    } else {
        match first_command_attr(attrs.drop_first()) {
            Some(i) => Some(i + 1),
            None => None,
        }
    }
}

/// A list item that sets the name to something that is no string literal.
pub open spec fn is_bad_name_item(item: NestedMeta) -> bool {
    item matches NestedMeta::NameValue { key_is_name, value } && key_is_name && value is None
}

/// The name that a list sets: the value of its last `name = ".."` item, or
/// `default` when it has none.
pub open spec fn list_name(items: Seq<NestedMeta>, default: Seq<char>) -> Seq<char>
    decreases items.len(),
{
    if items.len() == 0 {
        default
    } else {
        match items.last() {
            NestedMeta::NameValue { key_is_name: true, value: Some(v) } => v@,
            _ => list_name(items.drop_last(), default),
        }
    }
}

/// Whether a list holds the flag `allow_int_to_float`.
pub open spec fn list_flag(items: Seq<NestedMeta>) -> bool {
    exists|i: int|
        0 <= i < items.len() && (#[trigger] items[i] matches NestedMeta::Path { ident: Some(id) }
            && id@ == "allow_int_to_float"@)
}

/// What a `#[command]` attribute with arguments `args` gives a method whose
/// own name is `default`: the command name and whether integers are accepted
/// for floats, or why the attribute is refused. Every item is read: the last
/// `name = ".."` sets the name, `allow_int_to_float` sets the flag, and a
/// `name = ` whose value is no string literal refuses the attribute.
pub open spec fn options_of(args: CommandArgs, default: Seq<char>) -> Result<
    (Seq<char>, bool),
    AttributeError,
> {
    match args {
        CommandArgs::Empty => Ok((default, false)),
        CommandArgs::Malformed => Ok((default, false)),
        CommandArgs::Items(items) => if exists|i: int| 0 <= i < items@.len() && is_bad_name_item(
            #[trigger] items@[i],
        ) {
            Err(AttributeError::NameNotStringLiteral)
        } else {
            Ok((list_name(items@, default), list_flag(items@)))
        },
    }
}

/// `o` is the options that `expected` describes.
pub open spec fn options_match(
    o: Result<CommandOptions, AttributeError>,
    expected: Result<(Seq<char>, bool), AttributeError>,
) -> bool {
    match expected {
        Ok((name, flag)) => o matches Ok(opts) && opts.name@ == name && opts.allow_int_to_float == flag,
        Err(e) => o == Err::<CommandOptions, AttributeError>(e),
    }
}

/// What the attributes of a method whose own name is `default` give it: the
/// options of its first `#[command]` attribute, or the defaults when it has
/// none.
pub open spec fn options_from_attrs(attrs: Seq<AttributeModel>, default: Seq<char>) -> Result<
    (Seq<char>, bool),
    AttributeError,
> {
    match first_command_attr(attrs) {
        Some(i) => options_of(attrs[i].args, default),
        None => Ok((default, false)),
    }
}

/// Whether a method carries the `#[command]` attribute.
pub fn has_command_attr(attrs: &[AttributeModel]) -> (b: bool)
    ensures
        b == has_command_attr_spec(attrs@),
{
    let mut i: usize = 0;
    while i < attrs.len()
        invariant
            i <= attrs@.len(),
            forall|j: int| 0 <= j < i ==> !(#[trigger] attrs@[j]).is_command,
        decreases attrs@.len() - i,
    {
        if attrs[i].is_command {
            return true;
        }
        i = i + 1;
    }
    false
}

/// Whether a string is `allow_int_to_float`.
fn is_flag_name(s: &String) -> (b: bool)
    ensures
        b == (s@ == "allow_int_to_float"@),
{
    let flag = "allow_int_to_float".to_owned();
    *s == flag
}

/// The options of a list of meta items.
fn list_options(items: &Vec<NestedMeta>, default: &str) -> (o: Result<CommandOptions, AttributeError>)
    ensures
        options_match(
            o,
            if exists|i: int| 0 <= i < items@.len() && is_bad_name_item(#[trigger] items@[i]) {
                Err(AttributeError::NameNotStringLiteral)
            } else {
                Ok((list_name(items@, default@), list_flag(items@)))
            },
        ),
{
    let mut name = default.to_owned();
    let mut flag = false;
    let mut i: usize = 0;
    while i < items.len()
        invariant
            i <= items@.len(),
            forall|j: int| 0 <= j < i ==> !is_bad_name_item(#[trigger] items@[j]),
            name@ == list_name(items@.take(i as int), default@),
            flag == list_flag(items@.take(i as int)),
        decreases items@.len() - i,
    {
        let ghost prefix = items@.take(i + 1);
        assert(prefix.drop_last() =~= items@.take(i as int));
        assert(prefix.last() == items@[i as int]);
        match &items[i] {
            NestedMeta::NameValue { key_is_name, value } => {
                if *key_is_name {
                    match value {
                        Some(v) => {
                            name = v.clone();
                        },
                        None => {
                            assert(is_bad_name_item(items@[i as int]));
                            return Err(AttributeError::NameNotStringLiteral);
                        },
                    }
                }
            },
            NestedMeta::Path { ident } => {
                match ident {
                    Some(id) => {
                        if is_flag_name(id) {
                            flag = true;
                            assert(prefix[i as int] matches NestedMeta::Path { ident: Some(id) } && id@
                                == "allow_int_to_float"@);
                        }
                    },
                    None => {},
                }
            },
            NestedMeta::Other => {},
        }
        assert(flag == list_flag(prefix)) by {
            if list_flag(prefix) && !list_flag(items@.take(i as int)) {
                let k = choose|k: int|
                    0 <= k < prefix.len() && (#[trigger] prefix[k] matches NestedMeta::Path {
                        ident: Some(id),
                    } && id@ == "allow_int_to_float"@);
                if k < i {
                    assert(items@.take(i as int)[k] == prefix[k]);
                }
            }
            if list_flag(items@.take(i as int)) {
                let k = choose|k: int|
                    0 <= k < i && (#[trigger] items@.take(i as int)[k] matches NestedMeta::Path {
                        ident: Some(id),
                    } && id@ == "allow_int_to_float"@);
                assert(prefix[k] == items@.take(i as int)[k]);
            }
        }
        i = i + 1;
    }
    assert(items@.take(items@.len() as int) =~= items@);
    Ok(CommandOptions { name, allow_int_to_float: flag })
}

/// Parse options from the `#[command]` attribute.
///
/// Supports `#[command]` (the method's own name), `#[command(name = "..")]`
/// (the given name), `#[command(allow_int_to_float)]` (integers accepted for
/// float parameters), and both side by side.
pub fn parse_command_options(attrs: &[AttributeModel], default_name: &str) -> (o: Result<
    CommandOptions,
    AttributeError,
>)
    ensures
        options_match(o, options_from_attrs(attrs@, default_name@)),
{
    let mut i: usize = 0;
    while i < attrs.len()
        invariant
            i <= attrs@.len(),
            forall|j: int| 0 <= j < i ==> !(#[trigger] attrs@[j]).is_command,
        decreases attrs@.len() - i,
    {
        if attrs[i].is_command {
            proof {
                lemma_first_command_attr(attrs@, i as int);
            }
            return match &attrs[i].args {
                CommandArgs::Empty => Ok(
                    CommandOptions { name: default_name.to_owned(), allow_int_to_float: false },
                ),
                CommandArgs::Malformed => Ok(
                    CommandOptions { name: default_name.to_owned(), allow_int_to_float: false },
                ),
                CommandArgs::Items(items) => list_options(items, default_name),
            };
        }
        i = i + 1;
    }
    proof {
        lemma_no_command_attr(attrs@);
    }
    Ok(CommandOptions { name: default_name.to_owned(), allow_int_to_float: false })
}

/// The first `#[command]` attribute is the first one that is.
proof fn lemma_first_command_attr(attrs: Seq<AttributeModel>, i: int)
    requires
        0 <= i < attrs.len(),
        attrs[i].is_command,
        forall|j: int| 0 <= j < i ==> !(#[trigger] attrs[j]).is_command,
    ensures
        first_command_attr(attrs) == Some(i),
    decreases i,
{
    if i > 0 {
        assert forall|j: int| 0 <= j < i - 1 implies !(#[trigger] attrs.drop_first()[j]).is_command by {
            assert(attrs.drop_first()[j] == attrs[j + 1]);
        }
        lemma_first_command_attr(attrs.drop_first(), i - 1);
    }
}

/// A list without `#[command]` attribute has no first one.
proof fn lemma_no_command_attr(attrs: Seq<AttributeModel>)
    requires
        forall|j: int| 0 <= j < attrs.len() ==> !(#[trigger] attrs[j]).is_command,
    ensures
        first_command_attr(attrs) is None,
    decreases attrs.len(),
{
    if attrs.len() > 0 {
        assert forall|j: int| 0 <= j < attrs.len() - 1 implies !(#[trigger] attrs.drop_first()[j]).is_command by {
            assert(attrs.drop_first()[j] == attrs[j + 1]);
        }
        lemma_no_command_attr(attrs.drop_first());
    }
}

/// The type of a method parameter.
pub enum TypeModel {
    /// A type path: its token text, and its identifier when it is a single
    /// identifier.
    Path { text: String, ident: Option<String> },
    /// A reference: whether it is `&mut`, and, when the referenced type is a
    /// path, that path's identifier (when it is a single identifier) and last
    /// segment.
    Reference { mutable: bool, elem: Option<(Option<String>, Option<String>)> },
    /// Any other type.
    Other,
}

/// How a positional argument is taken from the command's values.
pub enum ArgKind {
    /// `String`: a string value, cloned; the empty string when missing.
    OwnedString,
    /// `&str`: a string value, borrowed; the empty string when missing.
    StrRef,
    /// `i32` or `i64` (`wide`): an integer value; 0 when missing.
    Int { wide: bool },
    /// `f32` or `f64` (`wide`): a float value, or an integer one when
    /// `allow_int_to_float`; 0.0 when missing.
    Float { wide: bool, allow_int_to_float: bool },
    /// `bool`: a boolean value; `false` when missing.
    Bool,
}

/// Why a parameter cannot be extracted.
pub enum ExtractionError {
    /// The parameter's pattern is not a simple identifier.
    NotSimpleIdentifier,
    /// A reference to anything but `str`; the parameter's name.
    UnsupportedReference(String),
    /// A path type that is not supported: the type's text and the
    /// parameter's name.
    UnsupportedType(String, String),
    /// Any other type; the parameter's name.
    UnsupportedParamType(String),
}

/// The text of the compile error for `e`.
pub open spec fn extraction_message(e: ExtractionError) -> Seq<char> {
    match e {
        ExtractionError::NotSimpleIdentifier => "only simple identifiers are supported as parameter names"@,
        ExtractionError::UnsupportedReference(var) => "unsupported reference type for parameter '"@
            + var@ + "'"@,
        ExtractionError::UnsupportedType(ty, var) => "unsupported type '"@ + ty@
            + "' for parameter '"@ + var@ + "'"@,
        ExtractionError::UnsupportedParamType(var) => "unsupported type for parameter '"@ + var@
            + "'"@,
    }
}

impl ExtractionError {
    /// The text of the compile error that refuses the parameter.
    pub fn message(&self) -> (s: String)
        ensures
            s@ == extraction_message(*self),
    {
        match self {
            ExtractionError::NotSimpleIdentifier => {
                proof {
                    reveal_strlit("only simple identifiers are supported as parameter names");
                }
                "only simple identifiers are supported as parameter names".to_owned()
            },
            ExtractionError::UnsupportedReference(var) => concat3(
                "unsupported reference type for parameter '",
                var.as_str(),
                "'",
            ),
            ExtractionError::UnsupportedType(ty, var) => {
                let mut s = concat3("unsupported type '", ty.as_str(), "' for parameter '");
                s.append(var.as_str());
                s.append("'");
                s
            },
            ExtractionError::UnsupportedParamType(var) => concat3(
                "unsupported type for parameter '",
                var.as_str(),
                "'",
            ),
        }
    }
}

/// A method parameter after `self`.
pub struct ParamModel {
    /// The parameter's identifier, when its pattern is a simple identifier.
    pub ident: Option<String>,
    /// Its type.
    pub ty: TypeModel,
}

/// Whether a type is `&mut Runtime` (a mutable reference to a path whose last
/// segment is `Runtime`).
pub open spec fn is_runtime_type_spec(ty: TypeModel) -> bool {
    ty matches TypeModel::Reference { mutable: true, elem: Some((_, Some(last))) } && last@
        == "Runtime"@
}

/// Whether `ident` is `Some(s)` with `s` equal to `text`.
pub open spec fn ident_is(ident: Option<String>, text: Seq<char>) -> bool {
    ident matches Some(s) && s@ == text
}

/// How a parameter of type `ty` is extracted, when it is no runtime
/// parameter and its pattern is a simple identifier: the kind, or why it
/// cannot be.
pub open spec fn kind_of(ty: TypeModel, allow_int_to_float: bool) -> Option<ArgKind> {
    match ty {
        TypeModel::Path { text, ident } => if ident_is(ident, "String"@) {
            Some(ArgKind::OwnedString)
        } else if text@ == "i32"@ || text@ == "i64"@ {
            Some(ArgKind::Int { wide: text@ == "i64"@ })
        } else if text@ == "f32"@ || text@ == "f64"@ {
            Some(ArgKind::Float { wide: text@ == "f64"@, allow_int_to_float })
        } else if text@ == "bool"@ {
            Some(ArgKind::Bool)
        } else {
            None
        },
        TypeModel::Reference { elem, .. } => match elem {
            Some((ident, _)) => if ident_is(ident, "str"@) {
                Some(ArgKind::StrRef)
            } else {
                None
            },
            None => None,
        },
        TypeModel::Other => None,
    }
}

/// `e` is the refusal for a parameter named `var` of type `ty`.
pub open spec fn is_refusal(e: ExtractionError, ty: TypeModel, var: Seq<char>) -> bool {
    match ty {
        TypeModel::Path { text, .. } => e matches ExtractionError::UnsupportedType(t, v) && t@
            == text@ && v@ == var,
        TypeModel::Reference { .. } => e matches ExtractionError::UnsupportedReference(v) && v@
            == var,
        TypeModel::Other => e matches ExtractionError::UnsupportedParamType(v) && v@ == var,
    }
}

/// Check if a type is `&mut Runtime`.
pub fn is_runtime_type(ty: &TypeModel) -> (b: bool)
    ensures
        b == is_runtime_type_spec(*ty),
{
    match ty {
        TypeModel::Reference { mutable, elem } => {
            if !*mutable {
                return false;
            }
            match elem {
                Some((_, Some(last))) => {
                    let runtime = "Runtime".to_owned();
                    *last == runtime
                },
                _ => false,
            }
        },
        _ => false,
    }
}

/// Whether `ident` is `Some(s)` with `s` equal to `text`.
fn ident_equals(ident: &Option<String>, text: &str) -> (b: bool)
    ensures
        b == ident_is(*ident, text@),
{
    match ident {
        Some(s) => {
            let t = text.to_owned();
            *s == t
        },
        None => false,
    }
}

/// Whether a string equals `text`.
fn string_is(s: &String, text: &str) -> (b: bool)
    ensures
        b == (s@ == text@),
{
    let t = text.to_owned();
    *s == t
}

/// Decide how a parameter is extracted from the command's values.
///
/// A `&mut Runtime` parameter is injected, not extracted (`Ok(None)`); any
/// other parameter needs a simple identifier as its pattern and a supported
/// type.
pub fn generate_arg_extraction(param: &ParamModel, allow_int_to_float: bool) -> (r: core::result::Result<
    Option<ArgKind>,
    ExtractionError,
>)
    ensures
        is_runtime_type_spec(param.ty) ==> r == Ok::<Option<ArgKind>, ExtractionError>(None),
        !is_runtime_type_spec(param.ty) && param.ident is None ==> r == Err::<
            Option<ArgKind>,
            ExtractionError,
        >(ExtractionError::NotSimpleIdentifier),
        param.ident matches Some(var) ==> (!is_runtime_type_spec(param.ty) ==> match kind_of(
            param.ty,
            allow_int_to_float,
        ) {
            Some(k) => r == Ok::<Option<ArgKind>, ExtractionError>(Some(k)),
            None => r matches Err(e) && is_refusal(e, param.ty, var@),
        }),
{
    if is_runtime_type(&param.ty) {
        return Ok(None);
    }
    let var = match &param.ident {
        Some(v) => v,
        None => {
            return Err(ExtractionError::NotSimpleIdentifier);
        },
    };
    proof {
        reveal_strlit("String");
        reveal_strlit("str");
        reveal_strlit("i32");
        reveal_strlit("i64");
        reveal_strlit("f32");
        reveal_strlit("f64");
        reveal_strlit("bool");
    }
    match &param.ty {
        TypeModel::Path { text, ident } => {
            if ident_equals(ident, "String") {
                Ok(Some(ArgKind::OwnedString))
            } else if string_is(text, "i32") || string_is(text, "i64") {
                Ok(Some(ArgKind::Int { wide: string_is(text, "i64") }))
            } else if string_is(text, "f32") || string_is(text, "f64") {
                Ok(Some(ArgKind::Float { wide: string_is(text, "f64"), allow_int_to_float }))
            } else if string_is(text, "bool") {
                Ok(Some(ArgKind::Bool))
            } else {
                Err(ExtractionError::UnsupportedType(text.clone(), var.clone()))
            }
        },
        TypeModel::Reference { elem, .. } => match elem {
            Some((ident, _)) => {
                if ident_equals(ident, "str") {
                    Ok(Some(ArgKind::StrRef))
                } else {
                    Err(ExtractionError::UnsupportedReference(var.clone()))
                }
            },
            None => Err(ExtractionError::UnsupportedReference(var.clone())),
        },
        TypeModel::Other => Err(ExtractionError::UnsupportedParamType(var.clone())),
    }
}

/// A method of an impl block marked `#[command_handler]`.
pub struct MethodModel {
    /// The method's name.
    pub ident: String,
    /// Its attributes.
    pub attrs: Vec<AttributeModel>,
    /// Its parameters after the first one (`self`).
    pub params: Vec<ParamModel>,
}

/// Where a method's argument comes from when its command is dispatched.
pub enum ArgSource {
    /// The runtime itself, for a `&mut Runtime` parameter.
    Runtime,
    /// The positional value at `index`, extracted as `kind`.
    Extract { index: usize, kind: ArgKind },
}

/// How one command of a handler is dispatched: its name, the method that
/// handles it, and where each argument of the method comes from.
pub struct CommandPlan {
    /// The command name.
    pub command: String,
    /// The method's name.
    pub method: String,
    /// The sources of the method's arguments, in order.
    pub args: Vec<ArgSource>,
}

/// Why `#[command_handler]` refuses an impl block.
pub enum MacroError {
    /// A `#[command]` attribute is refused.
    Attribute(AttributeError),
    /// A parameter cannot be extracted.
    Extraction(ExtractionError),
}

/// How many sources take a positional value.
pub open spec fn extract_count(sources: Seq<ArgSource>) -> nat
    decreases sources.len(),
{
    if sources.len() == 0 {
        0
    } else {
        extract_count(sources.drop_last()) + if sources.last() is Extract { 1nat } else { 0nat }
    }
}

/// The source of a parameter, when the positional values before it number
/// `index`: `None` when it cannot be extracted.
pub open spec fn param_source(p: ParamModel, allow_int_to_float: bool, index: nat) -> Option<ArgSource> {
    if is_runtime_type_spec(p.ty) {
        Some(ArgSource::Runtime)
    } else if p.ident is None {
        None
    } else {
        match kind_of(p.ty, allow_int_to_float) {
            Some(k) => Some(ArgSource::Extract { index: index as usize, kind: k }),
            None => None,
        }
    }
}

/// The sources of a list of parameters: positional values are numbered in
/// the order of the parameters that take one; `None` when a parameter cannot
/// be extracted.
pub open spec fn param_sources(params: Seq<ParamModel>, allow_int_to_float: bool) -> Option<Seq<ArgSource>>
    decreases params.len(),
{
    if params.len() == 0 {
        Some(Seq::empty())
    } else {
        match param_sources(params.drop_last(), allow_int_to_float) {
            Some(prev) => match param_source(params.last(), allow_int_to_float, extract_count(prev)) {
                Some(src) => Some(prev.push(src)),
                None => None,
            },
            None => None,
        }
    }
}

/// The methods that carry `#[command]`, in order.
pub open spec fn commanded(methods: Seq<MethodModel>) -> Seq<MethodModel> {
    methods.filter(|m: MethodModel| has_command_attr_spec(m.attrs@))
}

/// `plan` is how the method `m` is dispatched: its command name from its
/// attribute, its own name, and the sources of its arguments.
pub open spec fn is_plan_of(plan: CommandPlan, m: MethodModel) -> bool {
    &&& options_from_attrs(m.attrs@, m.ident@) matches Ok((name, flag))
    &&& plan.command@ == name
    &&& plan.method@ == m.ident@
    &&& param_sources(m.params@, flag) == Some(plan.args@)
}

/// Whether the method `m` can be dispatched: its attribute is accepted and
/// all its parameters can be extracted.
pub open spec fn is_plannable(m: MethodModel) -> bool {
    &&& options_from_attrs(m.attrs@, m.ident@) matches Ok((name, flag))
    &&& param_sources(m.params@, flag) is Some
}

/// Plans the extraction of all parameters of a method.
fn plan_params(params: &Vec<ParamModel>, allow_int_to_float: bool) -> (r: core::result::Result<
    Vec<ArgSource>,
    ExtractionError,
>)
    ensures
        r matches Ok(sources) ==> param_sources(params@, allow_int_to_float) == Some(sources@),
        r is Err ==> param_sources(params@, allow_int_to_float) is None,
{
    let mut sources: Vec<ArgSource> = Vec::new();
    let mut arg_index: usize = 0;
    let mut i: usize = 0;
    while i < params.len()
        invariant
            i <= params@.len(),
            param_sources(params@.take(i as int), allow_int_to_float) == Some(sources@),
            arg_index == extract_count(sources@),
            arg_index <= i,
        decreases params@.len() - i,
    {
        let ghost prefix = params@.take(i + 1);
        assert(prefix.drop_last() =~= params@.take(i as int));
        assert(prefix.last() == params@[i as int]);
        match generate_arg_extraction(&params[i], allow_int_to_float) {
            Ok(None) => {
                let ghost prev = sources@;
                sources.push(ArgSource::Runtime);
                assert(sources@.drop_last() =~= prev);
            },
            Ok(Some(kind)) => {
                let ghost prev = sources@;
                sources.push(ArgSource::Extract { index: arg_index, kind });
                assert(sources@.drop_last() =~= prev);
                arg_index = arg_index + 1;
            },
            Err(e) => {
                proof {
                    lemma_sources_stay_none(params@, allow_int_to_float, i + 1);
                }
                return Err(e);
            },
        }
        i = i + 1;
    }
    assert(params@.take(params@.len() as int) =~= params@);
    Ok(sources)
}

/// Once a parameter cannot be extracted, neither can the list.
proof fn lemma_sources_stay_none(params: Seq<ParamModel>, allow_int_to_float: bool, n: int)
    requires
        0 <= n <= params.len(),
        param_sources(params.take(n), allow_int_to_float) is None,
    ensures
        param_sources(params, allow_int_to_float) is None,
    decreases params.len() - n,
{
    if n < params.len() {
        assert(params.take(n + 1).drop_last() =~= params.take(n));
        lemma_sources_stay_none(params, allow_int_to_float, n + 1);
    } else {
        assert(params.take(n) =~= params);
    }
}

/// Plans the dispatch of an impl block marked `#[command_handler]`: one plan
/// per method carrying `#[command]`, in order; the first refused attribute or
/// parameter refuses the block.
pub fn command_handler(methods: &Vec<MethodModel>) -> (r: core::result::Result<
    Vec<CommandPlan>,
    MacroError,
>)
    ensures
        r is Ok <==> forall|i: int|
            0 <= i < commanded(methods@).len() ==> is_plannable(#[trigger] commanded(methods@)[i]),
        r matches Ok(plans) ==> plans@.len() == commanded(methods@).len() && forall|i: int|
            0 <= i < plans@.len() ==> is_plan_of(#[trigger] plans@[i], commanded(methods@)[i]),
{
    let mut plans: Vec<CommandPlan> = Vec::new();
    let mut i: usize = 0;
    while i < methods.len()
        invariant
            i <= methods@.len(),
            plans@.len() == commanded(methods@.take(i as int)).len(),
            forall|j: int|
                0 <= j < plans@.len() ==> is_plan_of(
                    #[trigger] plans@[j],
                    commanded(methods@.take(i as int))[j],
                ),
            forall|j: int|
                0 <= j < commanded(methods@.take(i as int)).len() ==> is_plannable(
                    #[trigger] commanded(methods@.take(i as int))[j],
                ),
        decreases methods@.len() - i,
    {
        let ghost before = methods@.take(i as int);
        let ghost after = methods@.take(i + 1);
        assert(after.drop_last() =~= before);
        assert(after.last() == methods@[i as int]);
        reveal_with_fuel(Seq::filter, 1);
        let m = &methods[i];
        if has_command_attr(m.attrs.as_slice()) {
            assert(commanded(after) =~= commanded(before).push(*m));
            let options = match parse_command_options(m.attrs.as_slice(), m.ident.as_str()) {
                Ok(o) => o,
                Err(e) => {
                    proof {
                        lemma_commanded_prefix(methods@, i + 1);
                        let k = commanded(after).len() - 1;
                        assert(commanded(after)[k] == *m);
                        assert(commanded(methods@.take(i + 1))[k] == *m);
                        assert(commanded(methods@)[k] == *m);
                        assert(!is_plannable(commanded(methods@)[k]));
                    }
                    return Err(MacroError::Attribute(e));
                },
            };
            let args = match plan_params(&m.params, options.allow_int_to_float) {
                Ok(a) => a,
                Err(e) => {
                    proof {
                        lemma_commanded_prefix(methods@, i + 1);
                        let k = commanded(after).len() - 1;
                        assert(commanded(after)[k] == *m);
                        assert(commanded(methods@.take(i + 1))[k] == *m);
                        assert(commanded(methods@)[k] == *m);
                        assert(!is_plannable(commanded(methods@)[k]));
                    }
                    return Err(MacroError::Extraction(e));
                },
            };
            plans.push(CommandPlan { command: options.name, method: m.ident.clone(), args });
        } else {
            assert(commanded(after) =~= commanded(before));
        }
        i = i + 1;
    }
    assert(methods@.take(methods@.len() as int) =~= methods@);
    Ok(plans)
}

/// The methods carrying `#[command]` among the first `n` are the first ones
/// among all.
proof fn lemma_commanded_prefix(methods: Seq<MethodModel>, n: int)
    requires
        0 <= n <= methods.len(),
    ensures
        commanded(methods.take(n)).len() <= commanded(methods).len(),
        forall|j: int|
            0 <= j < commanded(methods.take(n)).len() ==> commanded(methods)[j] == #[trigger] commanded(
                methods.take(n),
            )[j],
    decreases methods.len() - n,
{
    reveal_with_fuel(Seq::filter, 1);
    if n < methods.len() {
        lemma_commanded_prefix(methods, n + 1);
        let before = methods.take(n);
        let after = methods.take(n + 1);
        assert(after.drop_last() =~= before);
        if has_command_attr_spec(after.last().attrs@) {
            assert(commanded(after) =~= commanded(before).push(after.last()));
        } else {
            assert(commanded(after) =~= commanded(before));
        }
        assert forall|j: int| 0 <= j < commanded(before).len() implies commanded(methods)[j]
            == #[trigger] commanded(before)[j] by {
            assert(commanded(before)[j] == commanded(after)[j]);
        }
    } else {
        assert(methods.take(n) =~= methods);
    }
}

/// The index of the first plan for the command `name`: the match arm that
/// the generated `handle_command` takes.
pub open spec fn plan_index(plans: Seq<CommandPlan>, name: Seq<char>) -> Option<int>
    decreases plans.len(),
{
    if plans.len() == 0 {
        None
    } else if plans[0].command@ == name {
        Some(0)
    } else {
        match plan_index(plans.drop_first(), name) {
            Some(i) => Some(i + 1),
            None => None,
        }
    }
}

/// The plan that handles the command `name`, if any: the first one for it.
pub fn find_command(plans: &[CommandPlan], name: &str) -> (r: Option<usize>)
    ensures
        match plan_index(plans@, name@) {
            Some(i) => r == Some(i as usize),
            None => r is None,
        },
{
    let key = name.to_owned();
    let mut i: usize = 0;
    assert(plans@.skip(0) =~= plans@);
    while i < plans.len()
        invariant
            i <= plans@.len(),
            key@ == name@,
            plan_index(plans@, name@) == match plan_index(plans@.skip(i as int), name@) {
                Some(k) => Some(k + i),
                None => None::<int>,
            },
        decreases plans@.len() - i,
    {
        assert(plans@.skip(i as int).drop_first() =~= plans@.skip(i + 1));
        assert(plans@.skip(i as int)[0] == plans@[i as int]);
        if plans[i].command == key {
            return Some(i);
        }
        i = i + 1;
    }
    None
}

/// What the generated `handle_command` answers for a command that no method
/// handles: not found, so that the runtime asks the next environment down.
pub fn unknown_command(name: &str) -> (r: DispatchResult)
    ensures
        r matches DispatchResult::Error(e) && is_not_found_error(e, name@),
{
    DispatchResult::Error(KoiError::command_not_found(name))
}

/// The kind of a `koicore` value, without the payload of a float.
pub enum ValueKind {
    /// An integer.
    Int(i64),
    /// A float.
    Float,
    /// A boolean.
    Bool(bool),
    /// A string.
    Str(String),
}

/// Where a float argument's value comes from.
pub enum FloatSource {
    /// The float value itself.
    FromFloat,
    /// An integer value, converted.
    FromInt(i64),
    /// No value: 0.0.
    Zero,
}

/// An extracted argument.
pub enum ArgValue {
    /// A string (also for `&str` parameters).
    Str(String),
    /// An `i64`.
    Int(i64),
    /// An `i32`, truncated from the integer value.
    Int32(i32),
    /// A float, taken from where the source says.
    Float(FloatSource),
    /// A boolean.
    Bool(bool),
}

/// The name of a value's type in mismatch messages.
pub open spec fn kind_name(v: ValueKind) -> Seq<char> {
    match v {
        ValueKind::Int(_) => "Int"@,
        ValueKind::Float => "Float"@,
        ValueKind::Bool(_) => "Bool"@,
        ValueKind::Str(_) => "String"@,
    }
}

/// The message of a type mismatch for the argument at `index`.
pub open spec fn mismatch_message(index: nat, expected: Seq<char>, got: ValueKind) -> Seq<char> {
    "type mismatch for argument "@ + decimal(index) + ": expected "@ + expected + ", got "@
        + kind_name(got)
}

/// The type name that an extraction expects.
pub open spec fn expected_name(kind: ArgKind) -> Seq<char> {
    match kind {
        ArgKind::OwnedString | ArgKind::StrRef => "String"@,
        ArgKind::Int { .. } => "Int"@,
        ArgKind::Float { .. } => "Float"@,
        ArgKind::Bool => "Bool"@,
    }
}

/// Whether a value of kind `v` is accepted for an extraction of kind `kind`,
/// and what it gives then.
pub open spec fn accepted(kind: ArgKind, v: ValueKind) -> Option<ArgValue> {
    match (kind, v) {
        (ArgKind::OwnedString, ValueKind::Str(s)) => Some(ArgValue::Str(s)),
        (ArgKind::StrRef, ValueKind::Str(s)) => Some(ArgValue::Str(s)),
        (ArgKind::Int { wide }, ValueKind::Int(i)) => if wide {
            Some(ArgValue::Int(i))
        } else {
            Some(ArgValue::Int32(i as i32))
        },
        (ArgKind::Float { .. }, ValueKind::Float) => Some(ArgValue::Float(FloatSource::FromFloat)),
        (ArgKind::Float { allow_int_to_float, .. }, ValueKind::Int(i)) => if allow_int_to_float {
            Some(ArgValue::Float(FloatSource::FromInt(i)))
        } else {
            None
        },
        (ArgKind::Bool, ValueKind::Bool(b)) => Some(ArgValue::Bool(b)),
        _ => None,
    }
}

/// `a` is the value that `expected` describes; strings are compared by their
/// characters.
pub open spec fn arg_matches(a: ArgValue, expected: ArgValue) -> bool {
    match expected {
        ArgValue::Str(s) => a matches ArgValue::Str(t) && t@ == s@,
        _ => a == expected,
    }
}

/// `a` is the value of a missing argument of kind `kind`: the empty
/// string, zero or `false`.
pub open spec fn is_default_arg(a: ArgValue, kind: ArgKind) -> bool {
    match kind {
        ArgKind::OwnedString | ArgKind::StrRef => a matches ArgValue::Str(t) && t@.len() == 0,
        ArgKind::Int { wide } => if wide { a == ArgValue::Int(0) } else { a == ArgValue::Int32(0) },
        ArgKind::Float { .. } => a == ArgValue::Float(FloatSource::Zero),
        ArgKind::Bool => a == ArgValue::Bool(false),
    }
}

/// The kind of the positional value at `index`, if there is one.
pub fn argument_kind(args: &[Value], index: usize) -> (k: Option<ValueKind>)
    ensures
        index < args@.len() ==> k == Some(value_kind_of(args@[index as int])),
        index >= args@.len() ==> k is None,
{
    if index < args.len() {
        Some(value_kind(&args[index]))
    } else {
        None
    }
}

/// Appends the name of a value's type.
fn push_kind_name(s: &mut String, v: &ValueKind)
    ensures
        final(s)@ == old(s)@ + kind_name(*v),
{
    proof {
        reveal_strlit("Int");
        reveal_strlit("Float");
        reveal_strlit("Bool");
        reveal_strlit("String");
    }
    match v {
        ValueKind::Int(_) => s.append("Int"),
        ValueKind::Float => s.append("Float"),
        ValueKind::Bool(_) => s.append("Bool"),
        ValueKind::Str(_) => s.append("String"),
    }
}

/// The error of a type mismatch for the argument at `index`.
fn mismatch(index: usize, kind: &ArgKind, got: &ValueKind) -> (e: KoiError)
    ensures
        is_runtime_error(e, mismatch_message(index as nat, expected_name(*kind), *got)),
{
    let mut msg = String::from_str("type mismatch for argument ");
    push_decimal(&mut msg, index as u128);
    msg.append(": expected ");
    proof {
        reveal_strlit("type mismatch for argument ");
        reveal_strlit(": expected ");
        reveal_strlit(", got ");
        reveal_strlit("String");
        reveal_strlit("Int");
        reveal_strlit("Float");
        reveal_strlit("Bool");
    }
    match kind {
        ArgKind::OwnedString | ArgKind::StrRef => msg.append("String"),
        ArgKind::Int { .. } => msg.append("Int"),
        ArgKind::Float { .. } => msg.append("Float"),
        ArgKind::Bool => msg.append("Bool"),
    }
    msg.append(", got ");
    push_kind_name(&mut msg, got);
    KoiError::Runtime { message: msg }
}

/// Extract the argument at `index`, whose value has kind `arg` (`None` when
/// the command has no value there), with strict type checking: a value of
/// another type is a type mismatch, a missing value gives the default.
pub fn extract_argument(kind: &ArgKind, arg: &Option<ValueKind>, index: usize) -> (r: core::result::Result<
    ArgValue,
    KoiError,
>)
    ensures
        match *arg {
            None => r matches Ok(a) && is_default_arg(a, *kind),
            Some(v) => match accepted(*kind, v) {
                Some(expected) => r matches Ok(a) && arg_matches(a, expected),
                None => r matches Err(e) && is_runtime_error(
                    e,
                    mismatch_message(index as nat, expected_name(*kind), v),
                ),
            },
        },
{
    match arg {
        None => match kind {
            ArgKind::OwnedString | ArgKind::StrRef => Ok(ArgValue::Str(String::new())),
            ArgKind::Int { wide } => if *wide {
                Ok(ArgValue::Int(0))
            } else {
                Ok(ArgValue::Int32(0))
            },
            ArgKind::Float { .. } => Ok(ArgValue::Float(FloatSource::Zero)),
            ArgKind::Bool => Ok(ArgValue::Bool(false)),
        },
        Some(v) => match (kind, v) {
            (ArgKind::OwnedString, ValueKind::Str(s)) => Ok(ArgValue::Str(s.clone())),
            (ArgKind::StrRef, ValueKind::Str(s)) => Ok(ArgValue::Str(s.clone())),
            (ArgKind::Int { wide }, ValueKind::Int(i)) => if *wide {
                Ok(ArgValue::Int(*i))
            } else {
                Ok(ArgValue::Int32(#[verifier::truncate] (*i as i32)))
            },
            (ArgKind::Float { .. }, ValueKind::Float) => Ok(ArgValue::Float(FloatSource::FromFloat)),
            (ArgKind::Float { allow_int_to_float, .. }, ValueKind::Int(i)) => if *allow_int_to_float {
                Ok(ArgValue::Float(FloatSource::FromInt(*i)))
            } else {
                Err(mismatch(index, kind, v))
            },
            (ArgKind::Bool, ValueKind::Bool(b)) => Ok(ArgValue::Bool(*b)),
            _ => Err(mismatch(index, kind, v)),
        },
    }
}

} // verus!
