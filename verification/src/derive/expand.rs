//! Writing the `Layered` impl for a struct.
//!
//! The impl parses the command line with clap, loads the config file once,
//! and resolves every field across the layers.

use vstd::prelude::*;
use vstd::string::StringExecFns;
use vstd::std_specs::iter::IteratorSpec;
use crate::derive::model::{DeriveModel, FieldModel, Shape};
use crate::derive::options::{
    arg_id, clap_arg_id, container_options, field_options, has_clap_marker, has_marker,
    parse_container_attrs, parse_field_attrs, Container, FieldFlags,
};
use crate::text::push_char;

verus! {

broadcast use vstd::string::group_string_axioms;

/// What `str::to_uppercase` makes of a text: its Unicode uppercase form.
pub uninterp spec fn uppercase(s: Seq<char>) -> Seq<char>;

/// The ASCII uppercase of `c`: `a` to `z` become `A` to `Z`, anything else
/// stays.
pub open spec fn ascii_upper(c: char) -> char {
    if 0x61 <= (c as u32) && (c as u32) <= 0x7a {
        ((c as u32) - 0x20) as char
    } else {
        c
    }
}

/// Whether every character of `s` is ASCII.
pub open spec fn all_ascii(s: Seq<char>) -> bool {
    forall|i: int| 0 <= i < s.len() ==> (s[i] as u32) < 0x80
}

/// Wraps `str::to_uppercase`, whose result is named by [`uppercase`]. On an
/// ASCII text it maps each letter `a` to `z` to `A` to `Z` and keeps every
/// other character, as the Unicode uppercase mapping does for ASCII.
#[verifier::external_body]
fn to_uppercase(s: &str) -> (r: String)
    ensures
        r@ == uppercase(s@),
        all_ascii(s@) ==> r@ == s@.map_values(|c: char| ascii_upper(c)),
{
    s.to_uppercase()
}

// ---------------------------------------------------------------------------
// Pieces of generated code

/// What `char::escape_debug` writes for a character.
pub uninterp spec fn debug_escape(c: char) -> Seq<char>;

/// Wraps `char::escape_debug`, whose text is named by [`debug_escape`].
#[verifier::external_body]
fn escape_debug_char(c: char) -> (r: String)
    ensures
        r@ == debug_escape(c),
{
    c.escape_debug().to_string()
}

/// Whether `c` is one of the digits `0` to `7`.
pub open spec fn is_octal_digit(c: char) -> bool {
    0x30 <= (c as u32) && (c as u32) <= 0x37
}

/// How `c` is written inside a string literal when `next` follows it, as a
/// Rust string literal token is written: NUL as `\0`, or as `\x00` before a
/// digit `0` to `7` so that it does not read as an octal escape; `'` as
/// itself; anything else as `char::escape_debug` writes it.
pub open spec fn escape_with(c: char, next: Option<char>) -> Seq<char> {
    if c == '\0' {
        if next matches Some(n) && is_octal_digit(n) {
            seq!['\\', 'x', '0', '0']
        } else {
            seq!['\\', '0']
        }
    } else if c == '\'' {
        seq![c]
    } else {
        debug_escape(c)
    }
}

/// How the character at `i` of `s` is written inside a string literal.
pub open spec fn escape_at(s: Seq<char>, i: int) -> Seq<char> {
    escape_with(s[i], if i + 1 < s.len() { Some(s[i + 1]) } else { None })
}

/// The first `n` characters of `s` written as inside a string literal.
pub open spec fn escaped_upto(s: Seq<char>, n: int) -> Seq<char>
    decreases n,
{
    if n <= 0 {
        Seq::empty()
    } else {
        escaped_upto(s, n - 1) + escape_at(s, n - 1)
    }
}

/// `s` written as inside a string literal.
pub open spec fn escaped(s: Seq<char>) -> Seq<char> {
    escaped_upto(s, s.len() as int)
}

/// A string literal denoting `s`.
pub open spec fn string_lit(s: Seq<char>) -> Seq<char> {
    seq!['"'] + escaped(s) + seq!['"']
}

/// An `Option` expression: `Some(e)` or `None`.
pub open spec fn option_expr(e: Option<Seq<char>>) -> Seq<char> {
    match e {
        Some(t) => "::core::option::Option::Some("@ + t + ")"@,
        None => "::core::option::Option::None"@,
    }
}

fn push_escaped(out: &mut String, c: char, next: Option<char>)
    ensures
        final(out)@ == old(out)@ + escape_with(c, next),
{
    if c == '\0' {
        let before_octal = match next {
            Some(n) => {
                let k: u32 = n as u32;
                0x30 <= k && k <= 0x37
            },
            None => false,
        };
        push_char(out, '\\');
        if before_octal {
            push_char(out, 'x');
            push_char(out, '0');
            push_char(out, '0');
        } else {
            push_char(out, '0');
        }
    } else if c == '\'' {
        push_char(out, c);
    } else {
        let e = escape_debug_char(c);
        out.append(e.as_str());
    }
    proof {
        assert(out@ =~= old(out)@ + escape_with(c, next));
    }
}

fn push_string_lit(out: &mut String, s: &str)
    ensures
        final(out)@ == old(out)@ + string_lit(s@),
{
    let ghost v = s@;
    push_char(out, '"');
    let ghost start = out@;
    let mut it = s.chars();
    let mut pending: Option<char> = None;
    let ghost mut i: int = 0;
    proof {
        assert(v.skip(0) =~= v);
        assert(out@ =~= start + escaped_upto(v, -1));
    }
    loop
        invariant_except_break
            v == s@,
            0 <= i <= v.len(),
            it.remaining() == v.skip(i),
            pending is Some <==> i > 0,
            pending matches Some(p) ==> p == v[i - 1],
            out@ == start + escaped_upto(v, i - 1),
            start == old(out)@.push('"'),
        ensures
            out@ == start + escaped(v),
            start == old(out)@.push('"'),
        decreases v.len() - i,
    {
        match it.next() {
            None => {
                assert(v.skip(i).len() == 0);
                assert(i == v.len());
                if let Some(p) = pending {
                    push_escaped(out, p, None);
                    proof {
                        assert(escape_at(v, i - 1) == escape_with(p, None));
                        assert(out@ =~= start + escaped_upto(v, i));
                    }
                } else {
                    proof {
                        assert(out@ =~= start + escaped_upto(v, i));
                    }
                }
                break;
            },
            Some(c) => {
                assert(c == v[i]);
                proof {
                    assert(v.skip(i).drop_first() =~= v.skip(i + 1));
                }
                if let Some(p) = pending {
                    push_escaped(out, p, Some(c));
                    proof {
                        assert(escape_at(v, i - 1) == escape_with(p, Some(c)));
                        assert(out@ =~= start + escaped_upto(v, i));
                    }
                } else {
                    proof {
                        assert(out@ =~= start + escaped_upto(v, i));
                    }
                }
                pending = Some(c);
                proof {
                    i = i + 1;
                }
            },
        }
    }
    push_char(out, '"');
    proof {
        assert(out@ =~= old(out)@ + string_lit(v));
    }
}

// ---------------------------------------------------------------------------
// Messages

/// The error for `no_cli` without `#[arg(skip)]`.
pub open spec fn no_cli_message() -> Seq<char> {
    "`#[layered(no_cli)]` also requires `#[arg(skip)]` on the same field\n  help: without `#[arg(skip)]` clap still defines a flag for this field, so it would not actually be hidden from the command line\n  note: `#[arg(skip)]` requires the field type to implement `Default`"@
}

/// The error for a field that no layer can reach.
pub open spec fn no_source_message() -> Seq<char> {
    "this field has no configuration source\n  help: it is hidden from the command line, and the environment and file layers are unavailable to it, so it could only ever hold `Default::default()`"@
}

/// The error for a tuple struct.
pub open spec fn tuple_message() -> Seq<char> {
    "`Layered` does not support tuple structs\n  help: layering resolves values by field name, so fields must be named"@
}

/// The error for a unit struct.
pub open spec fn unit_message() -> Seq<char> {
    "`Layered` does not support unit structs\n  help: there is nothing to configure on a struct with no fields"@
}

/// The error for an enum.
pub open spec fn enum_message() -> Seq<char> {
    "`Layered` does not support enums\n  help: derive `Layered` on your top-level `Parser` struct. Subcommand enums are not supported yet"@
}

/// The error for a union.
pub open spec fn union_message() -> Seq<char> {
    "`Layered` does not support unions"@
}

// ---------------------------------------------------------------------------
// One field

/// The environment variable a field reads: `PREFIX_FIELD` uppercased, when
/// the struct names a prefix and the field does not opt out with `no_env`.
/// Without a prefix the layer is off, so a field named `path` never reads the
/// ambient `PATH`.
pub open spec fn field_env_var(c: Container, flags: FieldFlags, field_name: Seq<char>) -> Option<Seq<char>> {
    match c.env_prefix {
        Some(p) => if flags.no_env {
            None
        } else {
            Some(uppercase(p.value@) + "_"@ + uppercase(field_name))
        },
        None => None,
    }
}

/// Whether clap owns the field entirely (`#[command(flatten)]` or a subcommand).
pub open spec fn passed_through(f: FieldModel) -> bool {
    has_marker(f.attrs@, seq!["command"@, "clap"@], "flatten"@)
        || has_marker(f.attrs@, seq!["command"@, "clap"@, "arg"@], "subcommand"@)
}

/// Whether clap never sees the field (`#[arg(skip)]`).
pub open spec fn skipped(f: FieldModel) -> bool {
    has_marker(f.attrs@, seq!["arg"@, "clap"@], "skip"@)
}

/// The expression resolving a field across the layers.
pub open spec fn resolve_call(f: FieldModel, flags: FieldFlags, env_var: Option<Seq<char>>, skipped: bool) -> Seq<char> {
    f.name@ + ": ::clap_layers::__private::resolve("@ + string_lit(f.unraw@) + ", "@
        + option_expr(match env_var { Some(v) => Some(string_lit(v)), None => None }) + ", env, "@
        + (if flags.no_file { "::core::option::Option::None"@ } else { "__file"@ }) + ", "@
        + (if skipped {
            "false"@
        } else {
            "::clap_layers::__private::is_explicit(&__matches, "@ + string_lit(arg_id(f.attrs@, f.unraw@)) + ")"@
        }) + ", __cli."@ + f.name@ + ")?"@
}

/// The initializer for one field, or why the field is rejected. The field's
/// `layered` markers are read first, so a malformed or misspelled marker is
/// reported even on a field that clap owns.
pub open spec fn field_init(f: FieldModel, c: Container) -> Result<Seq<char>, Seq<char>> {
    match field_options(f.attrs@) {
        Err(e) => Err(e),
        Ok(flags) => if passed_through(f) {
            Ok(f.name@ + ": __cli."@ + f.name@)
        } else {
            let skip = skipped(f);
            let env_var = field_env_var(c, flags, f.unraw@);
            if flags.no_cli && !skip {
                Err(no_cli_message())
            } else if skip && env_var is None && (flags.no_file || c.file is None) {
                Err(no_source_message())
            } else {
                Ok(resolve_call(f, flags, env_var, skip))
            }
        },
    }
}

/// Build the initializer for one field.
fn build_field_init(f: &FieldModel, c: &Container) -> (r: Result<String, String>)
    ensures
        match field_init(*f, *c) {
            Ok(code) => r matches Ok(s) && s@ == code,
            Err(e) => r matches Err(s) && s@ == e,
        },
{
    let command_clap: [&str; 2] = ["command", "clap"];
    let command_clap_arg: [&str; 3] = ["command", "clap", "arg"];
    let arg_clap: [&str; 2] = ["arg", "clap"];
    proof {
        assert(crate::derive::options::name_seqs(&command_clap) =~= seq!["command"@, "clap"@]);
        assert(crate::derive::options::name_seqs(&command_clap_arg) =~= seq!["command"@, "clap"@, "arg"@]);
        assert(crate::derive::options::name_seqs(&arg_clap) =~= seq!["arg"@, "clap"@]);
    }
    let flags = parse_field_attrs(&f.attrs)?;
    if has_clap_marker(&f.attrs, &command_clap, "flatten")
        || has_clap_marker(&f.attrs, &command_clap_arg, "subcommand") {
        let mut s = f.name.clone();
        s.append(": __cli.");
        s.append(f.name.as_str());
        return Ok(s);
    }
    let skip = has_clap_marker(&f.attrs, &arg_clap, "skip");
    if flags.no_cli && !skip {
        return Err(String::from_str("`#[layered(no_cli)]` also requires `#[arg(skip)]` on the same field\n  help: without `#[arg(skip)]` clap still defines a flag for this field, so it would not actually be hidden from the command line\n  note: `#[arg(skip)]` requires the field type to implement `Default`"));
    }
    let env_var: Option<String> = match &c.env_prefix {
        Some(p) => if flags.no_env {
            None
        } else {
            let mut v = to_uppercase(p.value.as_str());
            v.append("_");
            let upper = to_uppercase(f.unraw.as_str());
            v.append(upper.as_str());
            Some(v)
        },
        None => None,
    };
    proof {
        assert(env_var matches Some(v) ==> field_env_var(*c, flags, f.unraw@) == Some(v@));
    }
    if skip && env_var.is_none() && (flags.no_file || c.file.is_none()) {
        return Err(String::from_str("this field has no configuration source\n  help: it is hidden from the command line, and the environment and file layers are unavailable to it, so it could only ever hold `Default::default()`"));
    }
    let mut s = f.name.clone();
    s.append(": ::clap_layers::__private::resolve(");
    push_string_lit(&mut s, f.unraw.as_str());
    s.append(", ");
    let ghost mark1 = s@;
    match &env_var {
        Some(v) => {
            s.append("::core::option::Option::Some(");
            push_string_lit(&mut s, v.as_str());
            s.append(")");
        },
        None => s.append("::core::option::Option::None"),
    }
    proof {
        assert(s@ =~= mark1 + option_expr(match field_env_var(*c, flags, f.unraw@) { Some(v) => Some(string_lit(v)), None => None }));
    }
    s.append(", env, ");
    if flags.no_file {
        s.append("::core::option::Option::None");
    } else {
        s.append("__file");
    }
    s.append(", ");
    let ghost mark2 = s@;
    if skip {
        s.append("false");
    } else {
        s.append("::clap_layers::__private::is_explicit(&__matches, ");
        let id = clap_arg_id(&f.attrs, f.unraw.as_str());
        push_string_lit(&mut s, id.as_str());
        s.append(")");
    }
    let ghost mark3 = s@;
    s.append(", __cli.");
    s.append(f.name.as_str());
    s.append(")?");
    proof {
        assert(s@ =~= resolve_call(*f, flags, field_env_var(*c, flags, f.unraw@), skip));
    }
    Ok(s)
}

// ---------------------------------------------------------------------------
// The whole impl

/// The initializers of the fields that are accepted, and the errors of those
/// that are not, each in field order.
pub open spec fn field_results(fields: Seq<FieldModel>, c: Container) -> (Seq<Seq<char>>, Seq<Seq<char>>)
    decreases fields.len(),
{
    if fields.len() == 0 {
        (Seq::empty(), Seq::empty())
    } else {
        let (codes, errors) = field_results(fields.drop_last(), c);
        match field_init(fields.last(), c) {
            Ok(code) => (codes.push(code), errors),
            Err(e) => (codes, errors.push(e)),
        }
    }
}

/// `parts` separated by `sep`.
pub open spec fn join(parts: Seq<Seq<char>>, sep: Seq<char>) -> Seq<char>
    decreases parts.len(),
{
    if parts.len() == 0 {
        Seq::empty()
    } else if parts.len() == 1 {
        parts[0]
    } else {
        join(parts.drop_last(), sep) + sep + parts.last()
    }
}

/// The text of the generated `Layered` impl.
pub open spec fn impl_text(m: DeriveModel, c: Container, inits: Seq<Seq<char>>) -> Seq<char> {
    "#[automatically_derived] impl "@ + m.impl_generics@ + " ::clap_layers::Layered for "@ + m.name@
        + m.ty_generics@ + " "@ + m.where_clause@
        + " { fn layered_from<__I, __T>(args: __I, env: &::clap_layers::Env) -> ::core::result::Result<Self, ::clap_layers::LayeredError> where __I: ::core::iter::IntoIterator<Item = __T>, __T: ::core::convert::Into<::std::ffi::OsString> + ::core::clone::Clone { let __matches = <Self as ::clap_layers::clap::CommandFactory>::command().try_get_matches_from(args)?; let __cli = <Self as ::clap_layers::clap::FromArgMatches>::from_arg_matches(&__matches)?; let __file = ::clap_layers::__private::load_file("@
        + option_expr(match c.file { Some(l) => Some(l.token@), None => None })
        + ")?; let __file = __file.as_ref(); ::core::result::Result::Ok(Self { "@ + join(inits, ", "@)
        + " }) } }"@
}

/// What the derive produces for `m`: the impl, or every error found. The
/// struct's own options are checked first; then every field is checked, so
/// one build reports every bad field.
pub open spec fn expansion(m: DeriveModel) -> Result<Seq<char>, Seq<Seq<char>>> {
    match container_options(m.attrs@) {
        Err(e) => Err(seq![e]),
        Ok(c) => match m.shape {
            Shape::Tuple => Err(seq![tuple_message()]),
            Shape::Unit => Err(seq![unit_message()]),
            Shape::Enum => Err(seq![enum_message()]),
            Shape::Union => Err(seq![union_message()]),
            Shape::Named(fields) => {
                let (codes, errors) = field_results(fields@, c);
                if errors.len() > 0 {
                    Err(errors)
                } else {
                    Ok(impl_text(m, c, codes))
                }
            },
        },
    }
}

/// The messages of a list of errors.
pub open spec fn messages(v: Seq<String>) -> Seq<Seq<char>> {
    v.map_values(|s: String| s@)
}

fn single_error(e: String) -> (r: Vec<String>)
    ensures
        messages(r@) == seq![e@],
        r@.len() == 1,
{
    let mut v = Vec::new();
    v.push(e);
    proof {
        assert(messages(v@) =~= seq![e@]);
    }
    v
}

/// Appends `parts` separated by `sep`.
fn push_joined(out: &mut String, parts: &Vec<String>, sep: &str)
    ensures
        final(out)@ == old(out)@ + join(messages(parts@), sep@),
{
    let mut i: usize = 0;
    while i < parts.len()
        invariant
            0 <= i <= parts@.len(),
            out@ == old(out)@ + join(messages(parts@.take(i as int)), sep@),
        decreases parts@.len() - i,
    {
        let ghost before = out@;
        if i > 0 {
            out.append(sep);
        }
        out.append(parts[i].as_str());
        proof {
            let t = messages(parts@.take(i + 1));
            assert(messages(parts@.take(i as int)) =~= t.drop_last());
            assert(t.last() == parts@[i as int]@);
            if i == 0 {
                assert(t.len() == 1);
            }
            assert(out@ =~= old(out)@ + join(t, sep@));
        }
        i = i + 1;
    }
    proof {
        assert(parts@.take(parts@.len() as int) =~= parts@);
    }
}

/// Write the `Layered` impl for `input`, or report every error found in it.
pub fn expand(input: &DeriveModel) -> (r: Result<String, Vec<String>>)
    ensures
        match expansion(*input) {
            Ok(code) => r matches Ok(s) && s@ == code,
            Err(es) => r matches Err(v) && messages(v@) == es,
        },
        r matches Err(v) ==> v@.len() > 0,
{
    let container = match parse_container_attrs(&input.attrs) {
        Ok(c) => c,
        Err(e) => {
            let mut v = Vec::new();
            v.push(e);
            proof {
                assert(messages(v@) =~= seq![v@[0]@]);
            }
            return Err(v);
        },
    };
    let fields = match &input.shape {
        Shape::Named(fields) => fields,
        Shape::Tuple => return Err(single_error(String::from_str("`Layered` does not support tuple structs\n  help: layering resolves values by field name, so fields must be named"))),
        Shape::Unit => return Err(single_error(String::from_str("`Layered` does not support unit structs\n  help: there is nothing to configure on a struct with no fields"))),
        Shape::Enum => return Err(single_error(String::from_str("`Layered` does not support enums\n  help: derive `Layered` on your top-level `Parser` struct. Subcommand enums are not supported yet"))),
        Shape::Union => return Err(single_error(String::from_str("`Layered` does not support unions"))),
    };
    let mut inits: Vec<String> = Vec::new();
    let mut errors: Vec<String> = Vec::new();
    let mut i: usize = 0;
    while i < fields.len()
        invariant
            0 <= i <= fields@.len(),
            field_results(fields@.take(i as int), container)
                == (messages(inits@), messages(errors@)),
        decreases fields@.len() - i,
    {
        proof {
            assert(fields@.take(i + 1).drop_last() =~= fields@.take(i as int));
        }
        let ghost prev_inits = inits@;
        let ghost prev_errors = errors@;
        match build_field_init(&fields[i], &container) {
            Ok(code) => {
                inits.push(code);
                proof {
                    assert(messages(inits@) =~= messages(prev_inits).push(inits@.last()@));
                }
            },
            Err(e) => {
                errors.push(e);
                proof {
                    assert(messages(errors@) =~= messages(prev_errors).push(errors@.last()@));
                }
            },
        }
        i = i + 1;
    }
    proof {
        assert(fields@.take(fields@.len() as int) =~= fields@);
    }
    if errors.len() > 0 {
        return Err(errors);
    }
    proof {
        assert(messages(errors@).len() == 0);
    }
    let mut s = String::from_str("#[automatically_derived] impl ");
    s.append(input.impl_generics.as_str());
    s.append(" ::clap_layers::Layered for ");
    s.append(input.name.as_str());
    s.append(input.ty_generics.as_str());
    s.append(" ");
    s.append(input.where_clause.as_str());
    s.append(" { fn layered_from<__I, __T>(args: __I, env: &::clap_layers::Env) -> ::core::result::Result<Self, ::clap_layers::LayeredError> where __I: ::core::iter::IntoIterator<Item = __T>, __T: ::core::convert::Into<::std::ffi::OsString> + ::core::clone::Clone { let __matches = <Self as ::clap_layers::clap::CommandFactory>::command().try_get_matches_from(args)?; let __cli = <Self as ::clap_layers::clap::FromArgMatches>::from_arg_matches(&__matches)?; let __file = ::clap_layers::__private::load_file(");
    match &container.file {
        Some(l) => {
            s.append("::core::option::Option::Some(");
            s.append(l.token.as_str());
            s.append(")");
        },
        None => s.append("::core::option::Option::None"),
    }
    s.append(")?; let __file = __file.as_ref(); ::core::result::Result::Ok(Self { ");
    let ghost before = s@;
    push_joined(&mut s, &inits, ", ");
    s.append(" }) } }");
    proof {
        assert(s@ =~= impl_text(*input, container, messages(inits@)));
    }
    Ok(s)
}

/// A `compile_error!` invocation for each message, in order, as a derive
/// reports errors to the compiler.
pub open spec fn compile_errors(es: Seq<Seq<char>>) -> Seq<char>
    decreases es.len(),
{
    if es.len() == 0 {
        Seq::empty()
    } else {
        compile_errors(es.drop_last()) + "::core::compile_error! { "@ + string_lit(es.last()) + " }"@
    }
}

/// Appends a `compile_error!` invocation for each message.
pub fn push_compile_errors(out: &mut String, es: &Vec<String>)
    ensures
        final(out)@ == old(out)@ + compile_errors(messages(es@)),
{
    let mut i: usize = 0;
    while i < es.len()
        invariant
            0 <= i <= es@.len(),
            out@ == old(out)@ + compile_errors(messages(es@.take(i as int))),
        decreases es@.len() - i,
    {
        out.append("::core::compile_error! { ");
        push_string_lit(out, es[i].as_str());
        out.append(" }");
        proof {
            let t = messages(es@.take(i + 1));
            assert(messages(es@.take(i as int)) =~= t.drop_last());
            assert(t.last() == es@[i as int]@);
            assert(out@ =~= old(out)@ + compile_errors(t));
        }
        i = i + 1;
    }
    proof {
        assert(es@.take(es@.len() as int) =~= es@);
    }
}

/// What the derive hands the compiler for `input`: the impl, or a
/// `compile_error!` for every error found.
pub fn expand_to_code(input: &DeriveModel) -> (r: String)
    ensures
        r@ == match expansion(*input) {
            Ok(code) => code,
            Err(es) => compile_errors(es),
        },
{
    match expand(input) {
        Ok(code) => code,
        Err(es) => {
            let mut s = String::new();
            push_compile_errors(&mut s, &es);
            proof {
                assert(s@ =~= compile_errors(messages(es@)));
            }
            s
        },
    }
}

// ---------------------------------------------------------------------------
// Laws

/// Every bad field is reported in one pass: each field that is rejected
/// contributes its error, and the fields are accepted as a whole exactly when
/// none is rejected.
pub proof fn law_every_bad_field_reported(fields: Seq<FieldModel>, c: Container)
    ensures
        forall|i: int| 0 <= i < fields.len() && (#[trigger] field_init(fields[i], c)) is Err
            ==> field_results(fields, c).1.contains(field_init(fields[i], c)->Err_0),
        field_results(fields, c).1.len() == 0 <==> forall|i: int| 0 <= i < fields.len() ==> (#[trigger] field_init(fields[i], c)) is Ok,
    decreases fields.len(),
{
    if fields.len() > 0 {
        let prev = fields.drop_last();
        law_every_bad_field_reported(prev, c);
        let (codes, errors) = field_results(prev, c);
        let last = fields.len() - 1;
        assert forall|i: int| 0 <= i < prev.len() implies #[trigger] fields[i] == prev[i] by {}
        assert forall|i: int| 0 <= i < fields.len() && (#[trigger] field_init(fields[i], c)) is Err
            implies field_results(fields, c).1.contains(field_init(fields[i], c)->Err_0) by {
            if i < last {
                assert(field_init(prev[i], c) is Err);
                let k = choose|k: int| 0 <= k < errors.len() && errors[k] == field_init(prev[i], c)->Err_0;
                assert(field_results(fields, c).1[k] == errors[k]);
            } else {
                assert(field_results(fields, c).1 == errors.push(field_init(fields[last], c)->Err_0));
                assert(field_results(fields, c).1[errors.len() as int] == field_init(fields[i], c)->Err_0);
            }
        }
        if field_results(fields, c).1.len() == 0 {
            assert forall|i: int| 0 <= i < fields.len() implies (#[trigger] field_init(fields[i], c)) is Ok by {
                if i < last {
                    assert(field_init(prev[i], c) is Ok);
                }
            }
        }
        if forall|i: int| 0 <= i < fields.len() ==> (#[trigger] field_init(fields[i], c)) is Ok {
            assert(field_init(fields[last], c) is Ok);
            assert forall|i: int| 0 <= i < prev.len() implies (#[trigger] field_init(prev[i], c)) is Ok by {
                assert(field_init(fields[i], c) is Ok);
            }
        }
    }
}

/// The environment layer of a field: it is on exactly when the struct names an
/// `env_prefix` and the field does not carry `no_env`, and the variable is then
/// `PREFIX_FIELD`, both parts uppercased. Without a prefix a field named
/// `path` never reads the ambient `PATH`.
pub proof fn law_environment_variable_name(c: Container, flags: FieldFlags, field_name: Seq<char>)
    ensures
        field_env_var(c, flags, field_name) is Some <==> (c.env_prefix is Some && !flags.no_env),
        field_env_var(c, flags, field_name) is Some ==> field_env_var(c, flags, field_name)->0
            == uppercase(c.env_prefix->0.value@) + "_"@ + uppercase(field_name),
{
}

/// What an accepted field reads: its `layered` markers parse; clap-owned
/// fields (flattened, subcommands) pass through untouched; every other field is resolved under its name
/// without `r#`, through the environment layer as above, through the file
/// unless it carries `no_file`, and asks clap whether its flag was typed
/// only when clap parses it (never for `#[arg(skip)]`).
pub proof fn law_accepted_field_initializer(f: FieldModel, c: Container)
    requires
        field_init(f, c) is Ok,
    ensures
        field_options(f.attrs@) is Ok,
        passed_through(f) ==> field_init(f, c)->Ok_0 == f.name@ + ": __cli."@ + f.name@,
        !passed_through(f) ==> field_init(f, c)->Ok_0 == resolve_call(
            f,
            field_options(f.attrs@)->Ok_0,
            field_env_var(c, field_options(f.attrs@)->Ok_0, f.unraw@),
            skipped(f),
        ),
        !passed_through(f) && field_options(f.attrs@)->Ok_0.no_cli ==> skipped(f),
{
}

/// A malformed or misspelled `layered` marker is an error, never ignored: the
/// field is rejected with that marker's error, whatever else it carries (a
/// field that clap owns included).
pub proof fn law_bad_marker_is_an_error(f: FieldModel, c: Container)
    requires
        field_options(f.attrs@) is Err,
    ensures
        field_init(f, c) == Err::<Seq<char>, Seq<char>>(field_options(f.attrs@)->Err_0),
{
}

/// A field that clap never parses (`#[arg(skip)]`) can never have been typed:
/// the explicitness it hands the resolver is the literal `false`, so the
/// environment and the file can fill it. Every other field asks clap, under its
/// argument id, whether its flag was typed.
pub proof fn law_skipped_field_is_never_explicit(f: FieldModel, c: Container)
    requires
        field_init(f, c) is Ok,
        !passed_through(f),
    ensures
        skipped(f) ==> (", false, __cli."@ + f.name@ + ")?"@).is_suffix_of(field_init(f, c)->Ok_0),
        !skipped(f) ==> (", ::clap_layers::__private::is_explicit(&__matches, "@
            + string_lit(arg_id(f.attrs@, f.unraw@)) + "), __cli."@ + f.name@ + ")?"@).is_suffix_of(
            field_init(f, c)->Ok_0),
{
    let flags = field_options(f.attrs@)->Ok_0;
    let env_var = field_env_var(c, flags, f.unraw@);
    let pre = f.name@ + ": ::clap_layers::__private::resolve("@ + string_lit(f.unraw@) + ", "@
        + option_expr(match env_var { Some(v) => Some(string_lit(v)), None => None }) + ", env, "@
        + (if flags.no_file { "::core::option::Option::None"@ } else { "__file"@ });
    let init = field_init(f, c)->Ok_0;
    reveal_strlit(", ");
    reveal_strlit("false");
    reveal_strlit(", __cli.");
    reveal_strlit(")?");
    reveal_strlit(")");
    reveal_strlit(", false, __cli.");
    reveal_strlit("::clap_layers::__private::is_explicit(&__matches, ");
    reveal_strlit(", ::clap_layers::__private::is_explicit(&__matches, ");
    reveal_strlit("), __cli.");
    if skipped(f) {
        let suffix = ", false, __cli."@ + f.name@ + ")?"@;
        assert(init =~= pre + suffix);
        assert(init.subrange(init.len() - suffix.len(), init.len() as int) =~= suffix);
    } else {
        let suffix = ", ::clap_layers::__private::is_explicit(&__matches, "@
            + string_lit(arg_id(f.attrs@, f.unraw@)) + "), __cli."@ + f.name@ + ")?"@;
        assert(init =~= pre + suffix);
        assert(init.subrange(init.len() - suffix.len(), init.len() as int) =~= suffix);
    }
}

} // verus!
