//! Reading and checking the `#[layered(...)]` options.
//!
//! A misspelled, malformed or repeated option is an error, never silently
//! ignored: an ignored marker is how a layer comes to do nothing at all.

use vstd::prelude::*;
use vstd::string::StringExecFns;
use vstd::std_specs::iter::IteratorSpec;
use crate::derive::model::{is_ident, ident_is, AttrModel, ExprModel, LitModel, MetaKind, MetaModel};
use crate::text::push_char;

verus! {

broadcast use vstd::string::group_string_axioms;

// ---------------------------------------------------------------------------
// Messages

/// The error for a bare `#[layered]`.
pub open spec fn bare_layered_message() -> Seq<char> {
    "`#[layered]` requires options\n  help: write `#[layered(file = \"myapp.toml\")]`, or remove the attribute"@
}

/// The error for an option of a kind this item does not take.
pub open spec fn unknown_option_message(found: Option<String>, supported: Seq<char>, on: Seq<char>) -> Seq<char> {
    let found = match found {
        Some(s) => s@,
        None => "<non-identifier>"@,
    };
    "unknown `layered` option `"@ + found + "`\n  help: supported options on a "@ + on + " are: "@ + supported
}

/// The error for `name = value` where `value` is not a string literal.
pub open spec fn not_a_string_message(name: Seq<char>, example: Seq<char>) -> Seq<char> {
    "`"@ + name + "` must be a string literal\n  help: write `#[layered("@ + name + " = \""@ + example + "\")]`"@
}

/// The error for an option that needs `= "..."` and has none.
pub open spec fn requires_value_message(name: Seq<char>, example: Seq<char>) -> Seq<char> {
    "`"@ + name + "` requires a value\n  help: write `#[layered("@ + name + " = \""@ + example + "\")]`"@
}

/// The error for an option given twice.
pub open spec fn duplicate_message(name: Seq<char>) -> Seq<char> {
    "`"@ + name + "` is specified more than once"@
}

/// The error for a marker written with a value.
pub open spec fn takes_no_value_message(name: Seq<char>) -> Seq<char> {
    "`"@ + name + "` does not take a value\n  help: write `#[layered("@ + name + ")]`"@
}

/// The error for `file = ""`.
pub open spec fn empty_file_message() -> Seq<char> {
    "`file` must not be empty\n  help: an empty path names no file, so the layer would silently never apply. Remove `file` to disable the layer deliberately"@
}

/// The error for `env_prefix = ""`.
pub open spec fn empty_prefix_message() -> Seq<char> {
    "`env_prefix` must not be empty\n  help: an empty prefix would map a field named `path` to the ambient `PATH`"@
}

/// The error for a prefix holding `bad`, which cannot appear in a variable name.
pub open spec fn bad_prefix_char_message(bad: char) -> Seq<char> {
    "`env_prefix` contains `"@ + seq![bad] + "`, which is not valid in an environment variable name\n  help: use ASCII letters, digits and underscores, as in `#[layered(env_prefix = \"MY_APP\")]`"@
}

/// The error for a prefix that starts with a digit.
pub open spec fn digit_prefix_message() -> Seq<char> {
    "`env_prefix` must not start with a digit\n  help: an environment variable name cannot begin with a digit"@
}

fn unknown_option_error(found: &Option<String>, supported: &str, on: &str) -> (r: String)
    ensures
        r@ == unknown_option_message(*found, supported@, on@),
{
    let mut s = String::from_str("unknown `layered` option `");
    match found {
        Some(f) => s.append(f.as_str()),
        None => s.append("<non-identifier>"),
    }
    s.append("`\n  help: supported options on a ");
    s.append(on);
    s.append(" are: ");
    s.append(supported);
    proof {
        assert(s@ =~= unknown_option_message(*found, supported@, on@));
    }
    s
}

fn named_error(before: &str, name: &str, after: &str) -> (r: String)
    ensures
        r@ == before@ + name@ + after@,
{
    let mut s = String::from_str(before);
    s.append(name);
    s.append(after);
    s
}

// ---------------------------------------------------------------------------
// Flattening `#[layered(...)]` attributes

/// Every option of every `#[layered(...)]` attribute, in order, or the error of
/// the first such attribute that is bare or does not parse.
pub open spec fn layered_metas(attrs: Seq<AttrModel>) -> Result<Seq<MetaModel>, Seq<char>>
    decreases attrs.len(),
{
    if attrs.len() == 0 {
        Ok(Seq::empty())
    } else {
        match layered_metas(attrs.drop_last()) {
            Err(e) => Err(e),
            Ok(ms) => {
                let a = attrs.last();
                if !is_ident(a.ident, "layered"@) {
                    Ok(ms)
                } else if a.bare {
                    Err(bare_layered_message())
                } else {
                    match a.args {
                        Ok(v) => Ok(ms + v@),
                        Err(m) => Err(m@),
                    }
                }
            },
        }
    }
}

fn clone_metas(out: &mut Vec<MetaModel>, v: &Vec<MetaModel>)
    ensures
        final(out)@ == old(out)@ + v@,
{
    let mut i: usize = 0;
    while i < v.len()
        invariant
            0 <= i <= v@.len(),
            out@ == old(out)@ + v@.take(i as int),
        decreases v@.len() - i,
    {
        let m = MetaModel { ident: v[i].ident.clone(), kind: clone_kind(&v[i].kind) };
        proof {
            assert(m == v@[i as int]);
        }
        out.push(m);
        proof {
            assert(v@.take(i + 1) =~= v@.take(i as int).push(v@[i as int]));
        }
        i = i + 1;
    }
    proof {
        assert(v@.take(v@.len() as int) =~= v@);
    }
}

fn clone_kind(k: &MetaKind) -> (r: MetaKind)
    ensures
        r == *k,
{
    match k {
        MetaKind::Path => MetaKind::Path,
        MetaKind::List => MetaKind::List,
        MetaKind::NameValue(e) => MetaKind::NameValue(e.clone()),
    }
}

/// Flatten every `#[layered(...)]` attribute into its comma-separated options.
pub fn collect_layered_metas(attrs: &Vec<AttrModel>) -> (r: Result<Vec<MetaModel>, String>)
    ensures
        match layered_metas(attrs@) {
            Ok(ms) => r matches Ok(v) && v@ == ms,
            Err(e) => r matches Err(m) && m@ == e,
        },
{
    let mut out: Vec<MetaModel> = Vec::new();
    let mut i: usize = 0;
    while i < attrs.len()
        invariant
            0 <= i <= attrs@.len(),
            layered_metas(attrs@.take(i as int)) == Ok::<Seq<MetaModel>, Seq<char>>(out@),
        decreases attrs@.len() - i,
    {
        proof {
            assert(attrs@.take(i + 1).drop_last() =~= attrs@.take(i as int));
        }
        let a = &attrs[i];
        if ident_is(&a.ident, "layered") {
            if a.bare {
                proof {
                    lemma_layered_metas_err_sticks(attrs@, (i + 1) as int);
                }
                return Err(String::from_str("`#[layered]` requires options\n  help: write `#[layered(file = \"myapp.toml\")]`, or remove the attribute"));
            }
            match &a.args {
                Ok(v) => clone_metas(&mut out, v),
                Err(m) => {
                    proof {
                        lemma_layered_metas_err_sticks(attrs@, (i + 1) as int);
                    }
                    return Err(m.clone());
                },
            }
        }
        i = i + 1;
    }
    proof {
        assert(attrs@.take(attrs@.len() as int) =~= attrs@);
    }
    Ok(out)
}

/// Once a prefix of the attributes fails, so do all the attributes.
proof fn lemma_layered_metas_err_sticks(attrs: Seq<AttrModel>, i: int)
    requires
        0 <= i <= attrs.len(),
        layered_metas(attrs.take(i)) is Err,
    ensures
        layered_metas(attrs) == layered_metas(attrs.take(i)),
    decreases attrs.len() - i,
{
    if i < attrs.len() {
        assert(attrs.take(i + 1).drop_last() =~= attrs.take(i));
        lemma_layered_metas_err_sticks(attrs, i + 1);
    } else {
        assert(attrs.take(i) =~= attrs);
    }
}

// ---------------------------------------------------------------------------
// Values of options

/// Looks through the invisible groups around an expression.
pub open spec fn peel(e: ExprModel) -> ExprModel
    decreases e,
{
    match e {
        ExprModel::Group(inner) => peel(*inner),
        other => other,
    }
}

/// Looks through the invisible groups that `macro_rules!` wraps around a
/// substituted fragment, so a `$file:literal` passed through a macro is still
/// taken for the string literal it is.
pub fn peel_groups(e: &ExprModel) -> (r: &ExprModel)
    ensures
        *r == peel(*e),
    decreases e,
{
    match e {
        ExprModel::Group(inner) => peel_groups(&**inner),
        _ => e,
    }
}

/// The string literal of `name = "..."`, or the error for any other shape.
pub open spec fn expect_string(meta: MetaModel, name: Seq<char>, example: Seq<char>) -> Result<LitModel, Seq<char>> {
    match meta.kind {
        MetaKind::NameValue(v) => match peel(v) {
            ExprModel::Str(lit) => Ok(lit),
            _ => Err(not_a_string_message(name, example)),
        },
        _ => Err(requires_value_message(name, example)),
    }
}

/// Require `name = "..."` and hand back the literal.
fn expect_string_literal(meta: &MetaModel, name: &str, example: &str) -> (r: Result<LitModel, String>)
    ensures
        match expect_string(*meta, name@, example@) {
            Ok(lit) => r == Ok::<LitModel, String>(lit),
            Err(e) => r matches Err(m) && m@ == e,
        },
{
    match &meta.kind {
        MetaKind::NameValue(v) => match peel_groups(v) {
            ExprModel::Str(lit) => Ok(lit.clone()),
            _ => {
                let mut s = String::from_str("`");
                s.append(name);
                s.append("` must be a string literal\n  help: write `#[layered(");
                s.append(name);
                s.append(" = \"");
                s.append(example);
                s.append("\")]`");
                proof {
                    assert(s@ =~= not_a_string_message(name@, example@));
                }
                Err(s)
            },
        },
        _ => {
            let mut s = String::from_str("`");
            s.append(name);
            s.append("` requires a value\n  help: write `#[layered(");
            s.append(name);
            s.append(" = \"");
            s.append(example);
            s.append("\")]`");
            proof {
                assert(s@ =~= requires_value_message(name@, example@));
            }
            Err(s)
        },
    }
}

// ---------------------------------------------------------------------------
// The environment variable prefix

/// Whether `c` may appear in an environment variable name: an ASCII letter,
/// an ASCII digit or `_`.
pub open spec fn is_env_name_char(c: char) -> bool {
    ('0' <= c && c <= '9') || ('a' <= c && c <= 'z') || ('A' <= c && c <= 'Z') || c == '_'
}

/// The first character of `v` from `i` on that cannot appear in a variable name.
pub open spec fn first_non_env_char(v: Seq<char>, i: int) -> Option<char>
    decreases v.len() - i,
{
    if i < 0 || i >= v.len() {
        None
    } else if !is_env_name_char(v[i]) {
        Some(v[i])
    } else {
        first_non_env_char(v, i + 1)
    }
}

/// Why `v` cannot prefix environment variable names, if it cannot: it is
/// empty, holds a character other than ASCII letters, digits and `_`, or
/// starts with a digit.
pub open spec fn prefix_problem(v: Seq<char>) -> Option<Seq<char>> {
    if v.len() == 0 {
        Some(empty_prefix_message())
    } else {
        match first_non_env_char(v, 0) {
            Some(c) => Some(bad_prefix_char_message(c)),
            None => if '0' <= v[0] && v[0] <= '9' {
                Some(digit_prefix_message())
            } else {
                None
            },
        }
    }
}

fn env_name_char(c: char) -> (r: bool)
    ensures
        r == is_env_name_char(c),
{
    ('0' <= c && c <= '9') || ('a' <= c && c <= 'z') || ('A' <= c && c <= 'Z') || c == '_'
}

/// Reject a prefix that would build environment variable names nobody can set.
///
/// `env_prefix = "my-app"` yields `MY-APP_PORT`, which most shells cannot
/// export, so the layer would appear to do nothing at run time.
pub fn validate_env_prefix(value: &str) -> (r: Option<String>)
    ensures
        match prefix_problem(value@) {
            Some(e) => r matches Some(m) && m@ == e,
            None => r is None,
        },
{
    let ghost v = value@;
    let mut it = value.chars();
    let mut first: Option<char> = None;
    let ghost mut i: int = 0;
    proof {
        assert(v.skip(0) =~= v);
    }
    loop
        invariant
            v == value@,
            0 <= i <= v.len(),
            it.remaining() == v.skip(i),
            first_non_env_char(v, i) == first_non_env_char(v, 0),
            i == 0 ==> first is None,
            i > 0 ==> first == Some(v[0]),
        ensures
            v == value@,
            first_non_env_char(v, 0) == None::<char>,
            v.len() == 0 ==> first is None,
            v.len() > 0 ==> first == Some(v[0]),
        decreases v.len() - i,
    {
        match it.next() {
            None => {
                assert(v.skip(i).len() == 0);
                assert(first_non_env_char(v, i) == None::<char>);
                break;
            },
            Some(c) => {
                assert(c == v[i]);
                if !env_name_char(c) {
                    let mut s = String::from_str("`env_prefix` contains `");
                    push_char(&mut s, c);
                    s.append("`, which is not valid in an environment variable name\n  help: use ASCII letters, digits and underscores, as in `#[layered(env_prefix = \"MY_APP\")]`");
                    proof {
                        assert(s@ =~= bad_prefix_char_message(c));
                    }
                    return Some(s);
                }
                if first.is_none() {
                    first = Some(c);
                }
                proof {
                    assert(v.skip(i).drop_first() =~= v.skip(i + 1));
                    i = i + 1;
                }
            },
        }
    }
    match first {
        None => Some(String::from_str("`env_prefix` must not be empty\n  help: an empty prefix would map a field named `path` to the ambient `PATH`")),
        Some(c) => if '0' <= c && c <= '9' {
            Some(String::from_str("`env_prefix` must not start with a digit\n  help: an environment variable name cannot begin with a digit"))
        } else {
            None
        },
    }
}

// ---------------------------------------------------------------------------
// Options on the struct

/// Struct-level options.
pub struct Container {
    /// `file = "..."`: the config file to read.
    pub file: Option<LitModel>,
    /// `env_prefix = "..."`: what environment variable names start with.
    pub env_prefix: Option<LitModel>,
}

/// Applies one struct-level option.
pub open spec fn container_step(c: Container, m: MetaModel) -> Result<Container, Seq<char>> {
    if is_ident(m.ident, "file"@) {
        match expect_string(m, "file"@, "myapp.toml"@) {
            Err(e) => Err(e),
            Ok(lit) => if lit.value@.len() == 0 {
                Err(empty_file_message())
            } else if c.file is Some {
                Err(duplicate_message("file"@))
            } else {
                Ok(Container { file: Some(lit), env_prefix: c.env_prefix })
            },
        }
    } else if is_ident(m.ident, "env_prefix"@) {
        match expect_string(m, "env_prefix"@, "MYAPP"@) {
            Err(e) => Err(e),
            Ok(lit) => match prefix_problem(lit.value@) {
                Some(e) => Err(e),
                None => if c.env_prefix is Some {
                    Err(duplicate_message("env_prefix"@))
                } else {
                    Ok(Container { file: c.file, env_prefix: Some(lit) })
                },
            },
        }
    } else {
        Err(unknown_option_message(m.ident, "`file`, `env_prefix`"@, "struct"@))
    }
}

/// Applies the struct-level options in turn; the first error stops.
pub open spec fn fold_container(ms: Seq<MetaModel>) -> Result<Container, Seq<char>>
    decreases ms.len(),
{
    if ms.len() == 0 {
        Ok(Container { file: None, env_prefix: None })
    } else {
        match fold_container(ms.drop_last()) {
            Err(e) => Err(e),
            Ok(c) => container_step(c, ms.last()),
        }
    }
}

proof fn lemma_fold_container_err_sticks(ms: Seq<MetaModel>, i: int)
    requires
        0 <= i <= ms.len(),
        fold_container(ms.take(i)) is Err,
    ensures
        fold_container(ms) == fold_container(ms.take(i)),
    decreases ms.len() - i,
{
    if i < ms.len() {
        assert(ms.take(i + 1).drop_last() =~= ms.take(i));
        lemma_fold_container_err_sticks(ms, i + 1);
    } else {
        assert(ms.take(i) =~= ms);
    }
}

/// The struct-level options that `attrs` set, or the first error among them.
pub open spec fn container_options(attrs: Seq<AttrModel>) -> Result<Container, Seq<char>> {
    match layered_metas(attrs) {
        Err(e) => Err(e),
        Ok(ms) => fold_container(ms),
    }
}

fn apply_container_option(c: Container, m: &MetaModel) -> (r: Result<Container, String>)
    ensures
        match container_step(c, *m) {
            Ok(n) => r == Ok::<Container, String>(n),
            Err(e) => r matches Err(s) && s@ == e,
        },
{
    if ident_is(&m.ident, "file") {
        let lit = expect_string_literal(m, "file", "myapp.toml")?;
        if lit.value.as_str().is_empty() {
            return Err(String::from_str("`file` must not be empty\n  help: an empty path names no file, so the layer would silently never apply. Remove `file` to disable the layer deliberately"));
        }
        if c.file.is_some() {
            return Err(named_error("`", "file", "` is specified more than once"));
        }
        Ok(Container { file: Some(lit), env_prefix: c.env_prefix })
    } else if ident_is(&m.ident, "env_prefix") {
        let lit = expect_string_literal(m, "env_prefix", "MYAPP")?;
        if let Some(problem) = validate_env_prefix(lit.value.as_str()) {
            return Err(problem);
        }
        if c.env_prefix.is_some() {
            return Err(named_error("`", "env_prefix", "` is specified more than once"));
        }
        Ok(Container { file: c.file, env_prefix: Some(lit) })
    } else {
        Err(unknown_option_error(&m.ident, "`file`, `env_prefix`", "struct"))
    }
}

/// Parse `#[layered(file = "...", env_prefix = "...")]` on the struct.
pub fn parse_container_attrs(attrs: &Vec<AttrModel>) -> (r: Result<Container, String>)
    ensures
        match container_options(attrs@) {
            Ok(c) => r == Ok::<Container, String>(c),
            Err(e) => r matches Err(s) && s@ == e,
        },
{
    let metas = collect_layered_metas(attrs)?;
    let mut c = Container { file: None, env_prefix: None };
    let mut i: usize = 0;
    while i < metas.len()
        invariant
            0 <= i <= metas@.len(),
            layered_metas(attrs@) == Ok::<Seq<MetaModel>, Seq<char>>(metas@),
            fold_container(metas@.take(i as int)) == Ok::<Container, Seq<char>>(c),
        decreases metas@.len() - i,
    {
        proof {
            assert(metas@.take(i + 1).drop_last() =~= metas@.take(i as int));
        }
        match apply_container_option(c, &metas[i]) {
            Ok(n) => c = n,
            Err(e) => {
                proof {
                    lemma_fold_container_err_sticks(metas@, i + 1);
                }
                return Err(e);
            },
        }
        i = i + 1;
    }
    proof {
        assert(metas@.take(metas@.len() as int) =~= metas@);
    }
    Ok(c)
}

// ---------------------------------------------------------------------------
// Markers on a field

/// Field-level markers.
#[derive(Clone, Copy, PartialEq, Eq)]
pub struct FieldFlags {
    /// `no_cli`: never a command-line flag.
    pub no_cli: bool,
    /// `no_file`: never read from the config file.
    pub no_file: bool,
    /// `no_env`: never read from the environment.
    pub no_env: bool,
}

/// Applies one field-level marker.
pub open spec fn field_step(f: FieldFlags, m: MetaModel) -> Result<FieldFlags, Seq<char>> {
    if is_ident(m.ident, "no_cli"@) {
        if !(m.kind is Path) {
            Err(takes_no_value_message("no_cli"@))
        } else if f.no_cli {
            Err(duplicate_message("no_cli"@))
        } else {
            Ok(FieldFlags { no_cli: true, ..f })
        }
    } else if is_ident(m.ident, "no_file"@) {
        if !(m.kind is Path) {
            Err(takes_no_value_message("no_file"@))
        } else if f.no_file {
            Err(duplicate_message("no_file"@))
        } else {
            Ok(FieldFlags { no_file: true, ..f })
        }
    } else if is_ident(m.ident, "no_env"@) {
        if !(m.kind is Path) {
            Err(takes_no_value_message("no_env"@))
        } else if f.no_env {
            Err(duplicate_message("no_env"@))
        } else {
            Ok(FieldFlags { no_env: true, ..f })
        }
    } else {
        Err(unknown_option_message(m.ident, "`no_cli`, `no_file`, `no_env`"@, "field"@))
    }
}

/// Applies the field-level markers in turn; the first error stops.
pub open spec fn fold_field(ms: Seq<MetaModel>) -> Result<FieldFlags, Seq<char>>
    decreases ms.len(),
{
    if ms.len() == 0 {
        Ok(FieldFlags { no_cli: false, no_file: false, no_env: false })
    } else {
        match fold_field(ms.drop_last()) {
            Err(e) => Err(e),
            Ok(f) => field_step(f, ms.last()),
        }
    }
}

proof fn lemma_fold_field_err_sticks(ms: Seq<MetaModel>, i: int)
    requires
        0 <= i <= ms.len(),
        fold_field(ms.take(i)) is Err,
    ensures
        fold_field(ms) == fold_field(ms.take(i)),
    decreases ms.len() - i,
{
    if i < ms.len() {
        assert(ms.take(i + 1).drop_last() =~= ms.take(i));
        lemma_fold_field_err_sticks(ms, i + 1);
    } else {
        assert(ms.take(i) =~= ms);
    }
}

/// The markers that a field's attributes set, or the first error among them.
pub open spec fn field_options(attrs: Seq<AttrModel>) -> Result<FieldFlags, Seq<char>> {
    match layered_metas(attrs) {
        Err(e) => Err(e),
        Ok(ms) => fold_field(ms),
    }
}

fn marker_error(name: &str, duplicate: bool) -> (r: String)
    ensures
        r@ == if duplicate { duplicate_message(name@) } else { takes_no_value_message(name@) },
{
    if duplicate {
        named_error("`", name, "` is specified more than once")
    } else {
        let mut s = String::from_str("`");
        s.append(name);
        s.append("` does not take a value\n  help: write `#[layered(");
        s.append(name);
        s.append(")]`");
        proof {
            assert(s@ =~= takes_no_value_message(name@));
        }
        s
    }
}

fn apply_field_option(f: FieldFlags, m: &MetaModel) -> (r: Result<FieldFlags, String>)
    ensures
        match field_step(f, *m) {
            Ok(n) => r == Ok::<FieldFlags, String>(n),
            Err(e) => r matches Err(s) && s@ == e,
        },
{
    let is_path = match m.kind {
        MetaKind::Path => true,
        _ => false,
    };
    if ident_is(&m.ident, "no_cli") {
        if !is_path || f.no_cli {
            return Err(marker_error("no_cli", is_path));
        }
        Ok(FieldFlags { no_cli: true, ..f })
    } else if ident_is(&m.ident, "no_file") {
        if !is_path || f.no_file {
            return Err(marker_error("no_file", is_path));
        }
        Ok(FieldFlags { no_file: true, ..f })
    } else if ident_is(&m.ident, "no_env") {
        if !is_path || f.no_env {
            return Err(marker_error("no_env", is_path));
        }
        Ok(FieldFlags { no_env: true, ..f })
    } else {
        Err(unknown_option_error(&m.ident, "`no_cli`, `no_file`, `no_env`", "field"))
    }
}

/// Parse `#[layered(no_cli, no_file, no_env)]` on a field.
pub fn parse_field_attrs(attrs: &Vec<AttrModel>) -> (r: Result<FieldFlags, String>)
    ensures
        match field_options(attrs@) {
            Ok(f) => r == Ok::<FieldFlags, String>(f),
            Err(e) => r matches Err(s) && s@ == e,
        },
{
    let metas = collect_layered_metas(attrs)?;
    let mut f = FieldFlags { no_cli: false, no_file: false, no_env: false };
    let mut i: usize = 0;
    while i < metas.len()
        invariant
            0 <= i <= metas@.len(),
            layered_metas(attrs@) == Ok::<Seq<MetaModel>, Seq<char>>(metas@),
            fold_field(metas@.take(i as int)) == Ok::<FieldFlags, Seq<char>>(f),
        decreases metas@.len() - i,
    {
        proof {
            assert(metas@.take(i + 1).drop_last() =~= metas@.take(i as int));
        }
        match apply_field_option(f, &metas[i]) {
            Ok(n) => f = n,
            Err(e) => {
                proof {
                    lemma_fold_field_err_sticks(metas@, i + 1);
                }
                return Err(e);
            },
        }
        i = i + 1;
    }
    proof {
        assert(metas@.take(metas@.len() as int) =~= metas@);
    }
    Ok(f)
}

// ---------------------------------------------------------------------------
// What clap does with a field

/// Whether the attribute's name is one of `names`.
pub open spec fn attr_named(a: AttrModel, names: Seq<Seq<char>>) -> bool {
    match a.ident {
        Some(s) => names.contains(s@),
        None => false,
    }
}

/// The names, as character sequences.
pub open spec fn name_seqs(names: &[&str]) -> Seq<Seq<char>> {
    names@.map_values(|n: &str| n@)
}

/// Every option of every attribute named by one of `names` whose options
/// parse, in order.
pub open spec fn named_metas(attrs: Seq<AttrModel>, names: Seq<Seq<char>>) -> Seq<MetaModel>
    decreases attrs.len(),
{
    if attrs.len() == 0 {
        Seq::empty()
    } else {
        let a = attrs.last();
        named_metas(attrs.drop_last(), names) + if attr_named(a, names) {
            match a.args {
                Ok(v) => v@,
                Err(_) => Seq::empty(),
            }
        } else {
            Seq::empty()
        }
    }
}

/// Whether some attribute named by one of `names` carries the bare option
/// `marker`, as in `#[arg(skip)]` or `#[command(flatten)]`.
pub open spec fn has_marker(attrs: Seq<AttrModel>, names: Seq<Seq<char>>, marker: Seq<char>) -> bool {
    exists|j: int| 0 <= j < named_metas(attrs, names).len()
        && is_ident(#[trigger] named_metas(attrs, names)[j].ident, marker)
}

fn name_in(ident: &Option<String>, names: &[&str]) -> (r: bool)
    ensures
        r == match *ident {
            Some(s) => name_seqs(names).contains(s@),
            None => false,
        },
{
    match ident {
        Some(s) => {
            let mut i: usize = 0;
            while i < names.len()
                invariant
                    *ident == Some(*s),
                    0 <= i <= names@.len(),
                    forall|j: int| 0 <= j < i ==> name_seqs(names)[j] != s@,
                decreases names@.len() - i,
            {
                if crate::text::str_eq(s.as_str(), names[i]) {
                    assert(name_seqs(names)[i as int] == names@[i as int]@);
                    assert(name_seqs(names)[i as int] == s@);
                    assert(name_seqs(names).contains(s@));
                    return true;
                }
                i = i + 1;
            }
            assert(!name_seqs(names).contains(s@));
            false
        },
        None => false,
    }
}

fn metas_have_marker(metas: &Vec<MetaModel>, marker: &str) -> (r: bool)
    ensures
        r == exists|j: int| 0 <= j < metas@.len() && is_ident(#[trigger] metas@[j].ident, marker@),
{
    let mut k: usize = 0;
    while k < metas.len()
        invariant
            0 <= k <= metas@.len(),
            forall|j: int| 0 <= j < k ==> !is_ident(#[trigger] metas@[j].ident, marker@),
        decreases metas@.len() - k,
    {
        if ident_is(&metas[k].ident, marker) {
            return true;
        }
        k = k + 1;
    }
    false
}

/// The options that the attribute contributes to [`named_metas`].
pub open spec fn attr_metas(a: AttrModel, names: Seq<Seq<char>>) -> Seq<MetaModel> {
    if attr_named(a, names) {
        match a.args {
            Ok(v) => v@,
            Err(_) => Seq::empty(),
        }
    } else {
        Seq::empty()
    }
}

/// Does the field carry a bare clap marker such as `#[arg(skip)]` or
/// `#[command(flatten)]`?
pub fn has_clap_marker(attrs: &Vec<AttrModel>, names: &[&str], marker: &str) -> (r: bool)
    ensures
        r == has_marker(attrs@, name_seqs(names), marker@),
{
    let ghost ns = name_seqs(names);
    let mut i: usize = 0;
    while i < attrs.len()
        invariant
            ns == name_seqs(names),
            0 <= i <= attrs@.len(),
            forall|j: int| 0 <= j < named_metas(attrs@.take(i as int), ns).len()
                ==> !is_ident(#[trigger] named_metas(attrs@.take(i as int), ns)[j].ident, marker@),
        decreases attrs@.len() - i,
    {
        let a = &attrs[i];
        let ghost before = named_metas(attrs@.take(i as int), ns);
        let ghost all = named_metas(attrs@.take(i + 1), ns);
        proof {
            assert(attrs@.take(i + 1).drop_last() =~= attrs@.take(i as int));
            assert(all == before + attr_metas(*a, ns));
        }
        let found = if name_in(&a.ident, names) {
            match &a.args {
                Ok(metas) => metas_have_marker(metas, marker),
                Err(_) => false,
            }
        } else {
            false
        };
        if found {
            proof {
                let k = choose|k: int| 0 <= k < attr_metas(*a, ns).len() && is_ident(#[trigger] attr_metas(*a, ns)[k].ident, marker@);
                assert(all[before.len() + k] == attr_metas(*a, ns)[k]);
                lemma_named_metas_prefix(attrs@, ns, i + 1);
                assert(named_metas(attrs@, ns)[before.len() + k] == all[before.len() + k]);
            }
            return true;
        }
        proof {
            assert forall|j: int| 0 <= j < all.len() implies !is_ident(#[trigger] all[j].ident, marker@) by {
                if j >= before.len() {
                    assert(all[j] == attr_metas(*a, ns)[j - before.len()]);
                } else {
                    assert(all[j] == before[j]);
                }
            }
        }
        i = i + 1;
    }
    proof {
        assert(attrs@.take(attrs@.len() as int) =~= attrs@);
    }
    false
}

/// The options of a prefix of the attributes start the options of all of them.
proof fn lemma_named_metas_prefix(attrs: Seq<AttrModel>, names: Seq<Seq<char>>, i: int)
    requires
        0 <= i <= attrs.len(),
    ensures
        named_metas(attrs.take(i), names).len() <= named_metas(attrs, names).len(),
        forall|j: int| 0 <= j < named_metas(attrs.take(i), names).len()
            ==> #[trigger] named_metas(attrs, names)[j] == named_metas(attrs.take(i), names)[j],
    decreases attrs.len() - i,
{
    if i < attrs.len() {
        lemma_named_metas_prefix(attrs, names, i + 1);
        assert(attrs.take(i + 1).drop_last() =~= attrs.take(i));
    } else {
        assert(attrs.take(i) =~= attrs);
    }
}

/// The value of the first `id = "..."` option among `ms` from `i` on.
pub open spec fn first_id(ms: Seq<MetaModel>, i: int) -> Option<Seq<char>>
    decreases ms.len() - i,
{
    if i < 0 || i >= ms.len() {
        None
    } else if is_ident(ms[i].ident, "id"@) && (ms[i].kind matches MetaKind::NameValue(v) && peel(v) is Str) {
        match ms[i].kind {
            MetaKind::NameValue(v) => match peel(v) {
                ExprModel::Str(lit) => Some(lit.value@),
                _ => None,
            },
            _ => None,
        }
    } else {
        first_id(ms, i + 1)
    }
}

/// The id clap registers a field's argument under: the field name, unless an
/// `#[arg(id = "...")]` (or `#[clap(id = "...")]`) overrides it.
pub open spec fn arg_id(attrs: Seq<AttrModel>, field_name: Seq<char>) -> Seq<char> {
    match first_id(named_metas(attrs, seq!["arg"@, "clap"@]), 0) {
        Some(id) => id,
        None => field_name,
    }
}

/// `first_id` over a concatenation.
proof fn lemma_first_id_concat(a: Seq<MetaModel>, b: Seq<MetaModel>, i: int)
    requires
        0 <= i <= a.len(),
    ensures
        first_id(a + b, i) == match first_id(a, i) {
            Some(v) => Some(v),
            None => first_id(b, 0),
        },
    decreases a.len() + b.len() - i,
{
    if i < a.len() {
        assert((a + b)[i] == a[i]);
        lemma_first_id_concat(a, b, i + 1);
    } else {
        lemma_first_id_shift(a, b, 0);
    }
}

proof fn lemma_first_id_shift(a: Seq<MetaModel>, b: Seq<MetaModel>, k: int)
    requires
        0 <= k <= b.len(),
    ensures
        first_id(a + b, a.len() + k) == first_id(b, k),
    decreases b.len() - k,
{
    if k < b.len() {
        assert((a + b)[a.len() + k] == b[k]);
        lemma_first_id_shift(a, b, k + 1);
    }
}

fn metas_first_id(metas: &Vec<MetaModel>) -> (r: Option<&String>)
    ensures
        match first_id(metas@, 0) {
            Some(v) => r matches Some(s) && s@ == v,
            None => r is None,
        },
{
    let mut k: usize = 0;
    while k < metas.len()
        invariant
            0 <= k <= metas@.len(),
            first_id(metas@, 0) == first_id(metas@, k as int),
        decreases metas@.len() - k,
    {
        let m = &metas[k];
        if ident_is(&m.ident, "id") {
            if let MetaKind::NameValue(v) = &m.kind {
                if let ExprModel::Str(lit) = peel_groups(v) {
                    return Some(&lit.value);
                }
            }
        }
        k = k + 1;
    }
    None
}

/// The id clap registers a field's argument under.
pub fn clap_arg_id(attrs: &Vec<AttrModel>, field_name: &str) -> (r: String)
    ensures
        r@ == arg_id(attrs@, field_name@),
{
    let names: [&str; 2] = ["arg", "clap"];
    let ghost ns = seq!["arg"@, "clap"@];
    proof {
        assert(name_seqs(&names) =~= ns);
    }
    let mut i: usize = 0;
    while i < attrs.len()
        invariant
            ns == seq!["arg"@, "clap"@],
            name_seqs(&names) == ns,
            0 <= i <= attrs@.len(),
            first_id(named_metas(attrs@.take(i as int), ns), 0) is None,
        decreases attrs@.len() - i,
    {
        let a = &attrs[i];
        let ghost before = named_metas(attrs@.take(i as int), ns);
        let ghost all = named_metas(attrs@.take(i + 1), ns);
        proof {
            assert(attrs@.take(i + 1).drop_last() =~= attrs@.take(i as int));
            assert(all == before + attr_metas(*a, ns));
            lemma_first_id_concat(before, attr_metas(*a, ns), 0);
        }
        let found = if name_in(&a.ident, &names) {
            match &a.args {
                Ok(metas) => metas_first_id(metas),
                Err(_) => None,
            }
        } else {
            None
        };
        if let Some(id) = found {
            proof {
                lemma_named_metas_split(attrs@, ns, i + 1);
                lemma_first_id_concat(all, named_metas(attrs@, ns).skip(all.len() as int), 0);
            }
            return id.clone();
        }
        i = i + 1;
    }
    proof {
        assert(attrs@.take(attrs@.len() as int) =~= attrs@);
    }
    String::from_str(field_name)
}

/// The options of all the attributes are those of a prefix followed by the rest.
proof fn lemma_named_metas_split(attrs: Seq<AttrModel>, names: Seq<Seq<char>>, i: int)
    requires
        0 <= i <= attrs.len(),
    ensures
        named_metas(attrs, names) =~= named_metas(attrs.take(i), names)
            + named_metas(attrs, names).skip(named_metas(attrs.take(i), names).len() as int),
{
    lemma_named_metas_prefix(attrs, names, i);
}

// ---------------------------------------------------------------------------
// Nothing is silently ignored

/// Whether option `m` is one that struct `c` took up: a `file` or
/// `env_prefix` whose string literal is the one `c` holds.
pub open spec fn container_uses(c: Container, m: MetaModel) -> bool {
    ||| is_ident(m.ident, "file"@) && c.file is Some && expect_string(m, "file"@, "myapp.toml"@) == Ok::<LitModel, Seq<char>>(c.file->0)
    ||| is_ident(m.ident, "env_prefix"@) && c.env_prefix is Some && expect_string(m, "env_prefix"@, "MYAPP"@) == Ok::<LitModel, Seq<char>>(c.env_prefix->0)
}

/// Whether the options `ms` name `name` at most once.
pub open spec fn at_most_once(ms: Seq<MetaModel>, name: Seq<char>) -> bool {
    forall|i: int, j: int| 0 <= i < j < ms.len() ==> !(is_ident(#[trigger] ms[i].ident, name) && is_ident(#[trigger] ms[j].ident, name))
}

/// Whether some option of `ms` is named `name`.
pub open spec fn names_option(ms: Seq<MetaModel>, name: Seq<char>) -> bool {
    exists|j: int| 0 <= j < ms.len() && is_ident(#[trigger] ms[j].ident, name)
}

proof fn lemma_fold_container_ok(ms: Seq<MetaModel>)
    requires
        fold_container(ms) is Ok,
    ensures
        forall|j: int| 0 <= j < ms.len() ==> container_uses(fold_container(ms)->Ok_0, #[trigger] ms[j]),
        at_most_once(ms, "file"@),
        at_most_once(ms, "env_prefix"@),
        names_option(ms, "file"@) <==> fold_container(ms)->Ok_0.file is Some,
        names_option(ms, "env_prefix"@) <==> fold_container(ms)->Ok_0.env_prefix is Some,
    decreases ms.len(),
{
    if ms.len() > 0 {
        reveal_strlit("file");
        reveal_strlit("env_prefix");
        assert("file"@.len() == 4 && "env_prefix"@.len() == 10);
        assert("file"@ != "env_prefix"@);
        let prev = ms.drop_last();
        lemma_fold_container_ok(prev);
        let c0 = fold_container(prev)->Ok_0;
        let c = fold_container(ms)->Ok_0;
        let m = ms.last();
        assert forall|j: int| 0 <= j < prev.len() implies #[trigger] ms[j] == prev[j] by {}
        if is_ident(m.ident, "file"@) {
            assert(!names_option(prev, "file"@));
            assert forall|j: int| 0 <= j < ms.len() implies container_uses(c, #[trigger] ms[j]) by {
                if j < prev.len() {
                    assert(container_uses(c0, prev[j]));
                    assert(!is_ident(prev[j].ident, "file"@));
                }
            }
            assert(names_option(ms, "file"@)) by {
                assert(is_ident(ms[ms.len() - 1].ident, "file"@));
            }
            if names_option(ms, "env_prefix"@) {
                let j = choose|j: int| 0 <= j < ms.len() && is_ident(#[trigger] ms[j].ident, "env_prefix"@);
                assert(j < prev.len());
                assert(is_ident(prev[j].ident, "env_prefix"@));
            }
            if names_option(prev, "env_prefix"@) {
                let j = choose|j: int| 0 <= j < prev.len() && is_ident(#[trigger] prev[j].ident, "env_prefix"@);
                assert(is_ident(ms[j].ident, "env_prefix"@));
            }
        } else {
            assert(is_ident(m.ident, "env_prefix"@));
            assert(!names_option(prev, "env_prefix"@));
            assert forall|j: int| 0 <= j < ms.len() implies container_uses(c, #[trigger] ms[j]) by {
                if j < prev.len() {
                    assert(container_uses(c0, prev[j]));
                    assert(!is_ident(prev[j].ident, "env_prefix"@));
                }
            }
            assert(names_option(ms, "env_prefix"@)) by {
                assert(is_ident(ms[ms.len() - 1].ident, "env_prefix"@));
            }
            if names_option(ms, "file"@) {
                let j = choose|j: int| 0 <= j < ms.len() && is_ident(#[trigger] ms[j].ident, "file"@);
                assert(j < prev.len());
                assert(is_ident(prev[j].ident, "file"@));
            }
            if names_option(prev, "file"@) {
                let j = choose|j: int| 0 <= j < prev.len() && is_ident(#[trigger] prev[j].ident, "file"@);
                assert(is_ident(ms[j].ident, "file"@));
            }
        }
    }
}

/// Struct options are never silently ignored: when a struct's options are
/// accepted, every `#[layered(...)]` option on it is `file` or `env_prefix`
/// with a string literal, neither is given twice, and each one given is the
/// one the derive goes on to use.
pub proof fn law_container_options_all_used(attrs: Seq<AttrModel>)
    requires
        container_options(attrs) is Ok,
    ensures
        layered_metas(attrs) is Ok,
        forall|j: int| 0 <= j < layered_metas(attrs)->Ok_0.len()
            ==> container_uses(container_options(attrs)->Ok_0, #[trigger] layered_metas(attrs)->Ok_0[j]),
        at_most_once(layered_metas(attrs)->Ok_0, "file"@),
        at_most_once(layered_metas(attrs)->Ok_0, "env_prefix"@),
        names_option(layered_metas(attrs)->Ok_0, "file"@) <==> container_options(attrs)->Ok_0.file is Some,
        names_option(layered_metas(attrs)->Ok_0, "env_prefix"@) <==> container_options(attrs)->Ok_0.env_prefix is Some,
{
    lemma_fold_container_ok(layered_metas(attrs)->Ok_0);
}

/// Whether option `m` is a bare field marker.
pub open spec fn is_marker(m: MetaModel) -> bool {
    &&& m.kind is Path
    &&& is_ident(m.ident, "no_cli"@) || is_ident(m.ident, "no_file"@) || is_ident(m.ident, "no_env"@)
}

proof fn lemma_fold_field_ok(ms: Seq<MetaModel>)
    requires
        fold_field(ms) is Ok,
    ensures
        forall|j: int| 0 <= j < ms.len() ==> is_marker(#[trigger] ms[j]),
        at_most_once(ms, "no_cli"@),
        at_most_once(ms, "no_file"@),
        at_most_once(ms, "no_env"@),
        names_option(ms, "no_cli"@) <==> fold_field(ms)->Ok_0.no_cli,
        names_option(ms, "no_file"@) <==> fold_field(ms)->Ok_0.no_file,
        names_option(ms, "no_env"@) <==> fold_field(ms)->Ok_0.no_env,
    decreases ms.len(),
{
    if ms.len() > 0 {
        reveal_strlit("no_cli");
        reveal_strlit("no_file");
        reveal_strlit("no_env");
        assert("no_cli"@.len() == 6 && "no_file"@.len() == 7);
        assert("no_cli"@ != "no_file"@);
        assert("no_cli"@[3] != "no_env"@[3]);
        assert("no_cli"@ != "no_env"@);
        assert("no_env"@.len() == 6);
        assert("no_file"@ != "no_env"@);
        let prev = ms.drop_last();
        lemma_fold_field_ok(prev);
        let m = ms.last();
        assert forall|j: int| 0 <= j < prev.len() implies #[trigger] ms[j] == prev[j] by {}
        assert(is_ident(ms[ms.len() - 1].ident, "no_cli"@) == is_ident(m.ident, "no_cli"@));
        assert forall|name: Seq<char>| names_option(prev, name) implies names_option(ms, name) by {
            let j = choose|j: int| 0 <= j < prev.len() && is_ident(#[trigger] prev[j].ident, name);
            assert(is_ident(ms[j].ident, name));
        }
        assert forall|name: Seq<char>| names_option(ms, name) && !is_ident(m.ident, name) implies names_option(prev, name) by {
            let j = choose|j: int| 0 <= j < ms.len() && is_ident(#[trigger] ms[j].ident, name);
            assert(j < prev.len());
            assert(is_ident(prev[j].ident, name));
        }
        if is_ident(m.ident, "no_cli"@) {
            assert(names_option(ms, "no_cli"@)) by {
                assert(is_ident(ms[ms.len() - 1].ident, "no_cli"@));
            }
        } else if is_ident(m.ident, "no_file"@) {
            assert(names_option(ms, "no_file"@)) by {
                assert(is_ident(ms[ms.len() - 1].ident, "no_file"@));
            }
        } else {
            assert(names_option(ms, "no_env"@)) by {
                assert(is_ident(ms[ms.len() - 1].ident, "no_env"@));
            }
        }
    }
}

/// Field markers are never silently ignored: when a field's markers are
/// accepted, every `#[layered(...)]` option on it is a bare `no_cli`,
/// `no_file` or `no_env`, none is given twice, and a marker is in effect
/// exactly when it is given.
pub proof fn law_field_markers_all_used(attrs: Seq<AttrModel>)
    requires
        field_options(attrs) is Ok,
    ensures
        layered_metas(attrs) is Ok,
        forall|j: int| 0 <= j < layered_metas(attrs)->Ok_0.len() ==> is_marker(#[trigger] layered_metas(attrs)->Ok_0[j]),
        at_most_once(layered_metas(attrs)->Ok_0, "no_cli"@),
        at_most_once(layered_metas(attrs)->Ok_0, "no_file"@),
        at_most_once(layered_metas(attrs)->Ok_0, "no_env"@),
        names_option(layered_metas(attrs)->Ok_0, "no_cli"@) <==> field_options(attrs)->Ok_0.no_cli,
        names_option(layered_metas(attrs)->Ok_0, "no_file"@) <==> field_options(attrs)->Ok_0.no_file,
        names_option(layered_metas(attrs)->Ok_0, "no_env"@) <==> field_options(attrs)->Ok_0.no_env,
{
    lemma_fold_field_ok(layered_metas(attrs)->Ok_0);
}

/// No character from `i` on is refused exactly when every one of them is an
/// environment name character.
proof fn lemma_first_non_env_char_none(v: Seq<char>, i: int)
    requires
        0 <= i <= v.len(),
    ensures
        first_non_env_char(v, i) is None <==> forall|j: int| i <= j < v.len() ==> is_env_name_char(#[trigger] v[j]),
    decreases v.len() - i,
{
    if i < v.len() {
        lemma_first_non_env_char_none(v, i + 1);
    }
}

/// An `env_prefix` is accepted exactly when it is non-empty, consists of ASCII
/// letters, ASCII digits and underscores only, and does not start with a digit;
/// so `MY_APP` is accepted and its fields read `MY_APP_...`.
pub proof fn law_env_prefix_accepted(v: Seq<char>)
    ensures
        prefix_problem(v) is None <==> {
            &&& v.len() > 0
            &&& forall|i: int| 0 <= i < v.len() ==> {
                let c = #[trigger] v[i];
                ('0' <= c && c <= '9') || ('a' <= c && c <= 'z') || ('A' <= c && c <= 'Z') || c == '_'
            }
            &&& !('0' <= v[0] && v[0] <= '9')
        },
{
    lemma_first_non_env_char_none(v, 0);
}

} // verus!
