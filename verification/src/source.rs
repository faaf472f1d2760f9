//! The config-file and environment layers, and decoding values out of them.

use vstd::prelude::*;
use crate::error::{LayeredError, SourceLayer};
use crate::text::str_eq;
use serde::de::{DeserializeOwned, IntoDeserializer};

verus! {

#[verifier::external_type_specification]
#[verifier::external_body]
pub struct ExTomlValue(toml::Value);

/// What `toml::from_str` makes of a document read as a table, reduced to plain
/// values: on success, each top-level key in key order, with the byte offset at
/// which its value starts, the value's text when it is a string, and the value
/// written out as TOML; on failure, the byte offset of the error where the
/// parser gives one, and its message.
pub uninterp spec fn toml_table_outline(content: Seq<char>) -> Result<Seq<(Seq<char>, nat, Option<Seq<char>>, Seq<char>)>, (Option<nat>, Seq<char>)>;

/// One top-level entry of a parsed TOML file.
#[derive(Debug)]
pub struct TomlEntry {
    /// The key.
    pub key: String,
    /// Byte offset at which the value starts.
    pub start: usize,
    /// The value's text, when the value is a string.
    pub text: Option<String>,
    /// The value written out as TOML.
    pub rendered: String,
    /// The value, kept for decoding.
    pub value: toml::Value,
}

/// A TOML syntax error.
#[derive(Debug)]
pub struct TomlSyntaxError {
    /// Byte offset of the error, where the parser gives one.
    pub offset: Option<usize>,
    /// The parser's message.
    pub message: String,
}

/// An optional string as an optional sequence of characters.
pub open spec fn opt_text(o: Option<String>) -> Option<Seq<char>> {
    match o {
        Some(s) => Some(s@),
        None => None,
    }
}

/// Key, value offset, string text and TOML form of a parsed entry.
pub open spec fn entry_outline(e: TomlEntry) -> (Seq<char>, nat, Option<Seq<char>>, Seq<char>) {
    (e.key@, e.start as nat, opt_text(e.text), e.rendered@)
}

/// Keys, value offsets, string texts and TOML forms of parsed entries.
pub open spec fn entries_outline(es: Seq<TomlEntry>) -> Seq<(Seq<char>, nat, Option<Seq<char>>, Seq<char>)> {
    es.map_values(|e: TomlEntry| entry_outline(e))
}

/// A parse result reduced to plain values.
pub open spec fn parsed_outline(parsed: Result<Vec<TomlEntry>, TomlSyntaxError>) -> Result<Seq<(Seq<char>, nat, Option<Seq<char>>, Seq<char>)>, (Option<nat>, Seq<char>)> {
    match parsed {
        Ok(es) => Ok(entries_outline(es@)),
        Err(e) => Err((
            match e.offset {
                Some(o) => Some(o as nat),
                None => None,
            },
            e.message@,
        )),
    }
}

/// Parses `content` as a TOML table, keeping where each value starts.
///
/// Wraps `toml::from_str` into a `BTreeMap<String, toml::Spanned<toml::Value>>`,
/// and reduces each value to plain values: its text through `toml::Value::as_str`,
/// and the value written out through `<toml::Value as Display>`. What it finds
/// is named by [`toml_table_outline`].
#[verifier::external_body]
fn parse_toml_table(content: &str) -> (r: Result<Vec<TomlEntry>, TomlSyntaxError>)
    ensures
        parsed_outline(r) == toml_table_outline(content@),
{
    match toml::from_str::<std::collections::BTreeMap<String, toml::Spanned<toml::Value>>>(content) {
        Ok(table) => Ok(table.into_iter().map(|(key, v)| TomlEntry {
            key,
            start: v.span().start,
            text: v.get_ref().as_str().map(|s| s.to_string()),
            rendered: v.get_ref().to_string(),
            value: v.into_inner(),
        }).collect()),
        Err(e) => Err(TomlSyntaxError { offset: e.span().map(|span| span.start), message: e.message().to_string() }),
    }
}

/// Decodes `raw` read as a TOML value expression, such as `8080`, `true` or
/// `["a", "b"]`; `None` when that fails.
///
/// Runs `T::deserialize` over `toml::de::ValueDeserializer::new(raw)`. What
/// comes out depends on `T`'s `Deserialize` impl, so nothing is stated of it.
#[verifier::external_body]
fn decode_expression<T: DeserializeOwned>(raw: &str) -> Option<T> {
    T::deserialize(toml::de::ValueDeserializer::new(raw)).ok()
}

/// Decodes `raw` taken as a plain string; on failure, the decoder's message.
///
/// Runs `T::deserialize` over `toml::Value::String(raw)`. What comes out depends
/// on `T`'s `Deserialize` impl, so nothing is stated of it.
#[verifier::external_body]
fn decode_plain_string<T: DeserializeOwned>(raw: &str) -> Result<T, String> {
    T::deserialize(toml::Value::String(raw.to_string()).into_deserializer())
        .map_err(|e: toml::de::Error| e.message().to_string())
}

/// Decodes a value parsed out of a TOML file; on failure, the decoder's message.
///
/// Runs `T::deserialize` over a copy of `value`. What comes out depends on
/// `T`'s `Deserialize` impl, so nothing is stated of it.
#[verifier::external_body]
fn decode_value<T: DeserializeOwned>(value: &toml::Value) -> Result<T, String> {
    T::deserialize(value.clone().into_deserializer())
        .map_err(|e: toml::de::Error| e.message().to_string())
}

/// How a value is shown in an error: a string as its own text, anything
/// else as TOML.
pub open spec fn shown(text: Option<Seq<char>>, rendered: Seq<char>) -> Seq<char> {
    match text {
        Some(t) => t,
        None => rendered,
    }
}

/// Render a value the way the user wrote it, so `port = "foo"` reports `foo`
/// rather than `"foo"`.
fn display_value(entry: &TomlEntry) -> (r: String)
    ensures
        r@ == shown(opt_text(entry.text), entry.rendered@),
{
    match &entry.text {
        Some(s) => s.clone(),
        None => entry.rendered.clone(),
    }
}

/// A decoder's outcome, its message as characters.
pub open spec fn decoded_view<T>(d: Result<T, String>) -> Result<T, Seq<char>> {
    match d {
        Ok(v) => Ok(v),
        Err(m) => Err(m@),
    }
}

/// What an environment value decodes to, given the outcome of reading `raw` as
/// a TOML value expression and that of taking it as a plain string: the first
/// that succeeds, else an error against the variable carrying the plain
/// decoder's message.
pub open spec fn env_decision<T>(
    var: Seq<char>,
    field: Seq<char>,
    raw: Seq<char>,
    expression: Option<T>,
    plain: Result<T, Seq<char>>,
    r: Result<T, LayeredError>,
) -> bool {
    match expression {
        Some(v) => r == Ok::<T, LayeredError>(v),
        None => match plain {
            Ok(v) => r == Ok::<T, LayeredError>(v),
            Err(m) => match r {
                Err(LayeredError::Invalid { field: f, value, layer: SourceLayer::EnvVar(v), message }) =>
                    f@ == field && value@ == raw && v@ == var && message@ == m,
                _ => false,
            },
        },
    }
}

/// Settles an environment value once it has been decoded: `expression` is the
/// outcome of reading `raw` as a TOML value expression, `plain` that of taking
/// it as a plain string.
pub fn settle_env<T>(var: &str, field: &str, raw: &str, expression: Option<T>, plain: Result<T, String>) -> (r: Result<T, LayeredError>)
    ensures
        env_decision(var@, field@, raw@, expression, decoded_view(plain), r),
{
    match expression {
        Some(value) => Ok(value),
        None => match plain {
            Ok(value) => Ok(value),
            Err(message) => Err(LayeredError::Invalid {
                field: field.to_owned(),
                value: raw.to_owned(),
                layer: SourceLayer::EnvVar(var.to_owned()),
                message,
            }),
        },
    }
}

/// Calls `f` on `a`, so that what comes back is known to be an outcome that
/// `f` can give on `a`.
fn call_on<A, R, F: Fn(A) -> R>(f: F, a: A) -> (r: R)
    requires
        f.requires((a,)),
    ensures
        f.ensures((a,), r),
{
    f(a)
}

/// Whether `out` is an outcome that reading `raw` as a TOML value expression
/// into `T` can give.
pub closed spec fn expression_decodes<T: DeserializeOwned>(raw: Seq<char>, out: Option<T>) -> bool {
    exists|s: &str| s@ == raw && #[trigger] call_ensures(decode_expression::<T>, (s,), out)
}

/// Whether `out` is an outcome that taking `raw` as a plain string and
/// decoding it into `T` can give, its message as characters.
pub closed spec fn plain_decodes<T: DeserializeOwned>(raw: Seq<char>, out: Result<T, Seq<char>>) -> bool {
    exists|s: &str, d: Result<T, String>|
        s@ == raw && decoded_view(d) == out && #[trigger] call_ensures(decode_plain_string::<T>, (s,), d)
}

/// What decoding `raw`, the value of the variable `var`, into `field` gives:
/// the outcome of reading it as a TOML value expression when that succeeds,
/// else the outcome of taking it as a plain string, an error against the
/// variable when that fails too.
pub open spec fn env_outcome<T: DeserializeOwned>(var: Seq<char>, field: Seq<char>, raw: Seq<char>, r: Result<T, LayeredError>) -> bool {
    exists|expression: Option<T>, plain: Result<T, Seq<char>>|
        #![trigger env_decision(var, field, raw, expression, plain, r)]
        {
            &&& expression_decodes(raw, expression)
            &&& expression is None ==> plain_decodes(raw, plain)
            &&& env_decision(var, field, raw, expression, plain, r)
        }
}

/// Decode `raw`, the value of the environment variable `var`, into `field`'s type.
///
/// The value is first read as a TOML value expression, so `8080`, `true` and
/// `["a", "b"]` decode to the types one would expect. If that fails, it is
/// taken as a bare string, so `MYAPP_NAME=hello` works without quoting. A
/// value that decodes neither way is reported against the variable.
pub fn from_env<T: DeserializeOwned>(var: &str, field: &str, raw: &str) -> (r: Result<T, LayeredError>)
    ensures
        env_outcome(var@, field@, raw@, r),
{
    let expression = call_on(decode_expression::<T>, raw);
    proof {
        assert(expression_decodes(raw@, expression));
    }
    match expression {
        Some(value) => {
            let r = Ok(value);
            proof {
                let plain = Err::<T, Seq<char>>(Seq::empty());
                assert(env_decision(var@, field@, raw@, Some(value), plain, r));
                assert(expression_decodes(raw@, expression) && (expression is None ==> plain_decodes(raw@, plain)));
            }
            r
        },
        None => {
            let plain = call_on(decode_plain_string::<T>, raw);
            let ghost p = decoded_view(plain);
            proof {
                assert(plain_decodes(raw@, p));
            }
            let r = settle_env(var, field, raw, None, plain);
            proof {
                assert(env_decision(var@, field@, raw@, None, p, r));
            }
            r
        },
    }
}

/// Index of the first entry of `s` from `i` on whose key is `k`, or -1.
pub open spec fn find_key_from(s: Seq<(Seq<char>, nat, Option<Seq<char>>, Seq<char>)>, k: Seq<char>, i: int) -> int
    decreases s.len() - i,
{
    if i < 0 || i >= s.len() {
        -1
    } else if s[i].0 == k {
        i
    } else {
        find_key_from(s, k, i + 1)
    }
}

/// Index of the first entry of `s` whose key is `k`, or -1.
pub open spec fn find_key(s: Seq<(Seq<char>, nat, Option<Seq<char>>, Seq<char>)>, k: Seq<char>) -> int {
    find_key_from(s, k, 0)
}

/// The error for a file at `path` whose text `content` does not parse, the
/// parser giving `offset` and `message`: its line and column are those of the
/// offset (the start of the file when the parser names none).
pub open spec fn parse_failure(e: LayeredError, path: Seq<char>, content: Seq<char>, offset: Option<nat>, message: Seq<char>) -> bool {
    match e {
        LayeredError::Parse { path: p, line, column, message: m } => {
            let o: nat = match offset {
                Some(o) => o,
                None => 0,
            };
            &&& p@ == path
            &&& m@ == message
            &&& line as nat == crate::position::position_spec(content, o).0
            &&& column as nat == crate::position::position_spec(content, o).1
        },
        _ => false,
    }
}

/// The outcome of reading a config file from disk.
#[derive(Debug)]
pub enum FileRead {
    /// The file's content.
    Read(String),
    /// There is no file at the path.
    Missing,
    /// The file exists but could not be read.
    Failed(std::io::Error),
}

/// A parsed TOML configuration file, retaining where each value starts so a
/// bad value can be attributed to an exact line.
#[derive(Debug)]
pub struct ConfigFile {
    path: String,
    content: String,
    values: Vec<TomlEntry>,
}

impl ConfigFile {
    #[verifier::type_invariant]
    closed spec fn inv(self) -> bool {
        vstd::utf8::encode_utf8(self.content@).len() < usize::MAX
    }

    /// Path of the file.
    pub closed spec fn path(&self) -> Seq<char> {
        self.path@
    }

    /// Text of the file.
    pub closed spec fn content(&self) -> Seq<char> {
        self.content@
    }

    /// Top-level keys, in key order, with the byte offsets at which their
    /// values start, their texts when they are strings, and their TOML forms.
    pub closed spec fn entries(&self) -> Seq<(Seq<char>, nat, Option<Seq<char>>, Seq<char>)> {
        entries_outline(self.values@)
    }

    /// Whether the file sets `field`.
    pub open spec fn sets(&self, field: Seq<char>) -> bool {
        find_key(self.entries(), field) >= 0
    }

    /// 1-based line on which the value of `field` starts.
    pub open spec fn line_of(&self, field: Seq<char>) -> nat {
        crate::position::position_spec(self.content(), self.entries()[find_key(self.entries(), field)].1).0
    }

    /// What `get` returns for `field` once its value has been decoded into
    /// `decoded`: the value, or the decoder's message reported against the
    /// field, its value as shown, the file and the line on which it starts.
    pub open spec fn decision<T>(&self, field: Seq<char>, decoded: Result<T, Seq<char>>, r: Result<T, LayeredError>) -> bool {
        match decoded {
            Ok(v) => r == Ok::<T, LayeredError>(v),
            Err(m) => match r {
                Err(LayeredError::Invalid { field: f, value, layer: SourceLayer::ConfigFile { path, line }, message }) =>
                    f@ == field && value@ == self.shown_value(field) && path@ == self.path()
                        && line as nat == self.line_of(field) && message@ == m,
                _ => false,
            },
        }
    }

    /// Whether `d` is an outcome that decoding the value stored under `field`
    /// into `T` can give.
    pub closed spec fn value_decodes<T: DeserializeOwned>(&self, field: Seq<char>, d: Result<T, String>) -> bool {
        call_ensures(decode_value::<T>, (&self.values@[find_key(self.entries(), field)].value,), d)
    }

    /// What `get` gives for `field`, which the file sets: the outcome of
    /// decoding the value stored under `field`, settled by [`ConfigFile::decision`].
    pub open spec fn file_outcome<T: DeserializeOwned>(&self, field: Seq<char>, r: Result<T, LayeredError>) -> bool {
        exists|d: Result<T, String>|
            #![trigger self.decision(field, decoded_view(d), r)]
            self.value_decodes(field, d) && self.decision(field, decoded_view(d), r)
    }

    /// How the value of `field` is shown in an error.
    pub open spec fn shown_value(&self, field: Seq<char>) -> Seq<char> {
        let e = self.entries()[find_key(self.entries(), field)];
        shown(e.2, e.3)
    }

    /// Builds the file from what the TOML parser made of `content`: a syntax
    /// error becomes [`LayeredError::Parse`] at the error's line and column
    /// (the start of the file where the parser names no position).
    pub fn from_parsed(path: String, content: String, parsed: Result<Vec<TomlEntry>, TomlSyntaxError>) -> (r: Result<ConfigFile, LayeredError>)
        requires
            vstd::utf8::encode_utf8(content@).len() < usize::MAX,
        ensures
            match parsed_outline(parsed) {
                Ok(es) => r matches Ok(f) && f.path() == path@ && f.content() == content@ && f.entries() == es,
                Err((offset, message)) => r matches Err(e) && parse_failure(e, path@, content@, offset, message),
            },
    {
        match parsed {
            Ok(values) => Ok(ConfigFile { path, content, values }),
            Err(e) => {
                let offset = match e.offset {
                    Some(o) => o,
                    None => 0,
                };
                let (line, column) = crate::position::position_of(content.as_str(), offset);
                Err(LayeredError::Parse { path, line, column, message: e.message })
            },
        }
    }

    /// Parses `content`, the text of the file at `path`.
    ///
    /// # Errors
    ///
    /// [`LayeredError::Parse`] if it is not valid TOML.
    pub fn parse(path: String, content: String) -> (r: Result<ConfigFile, LayeredError>)
        requires
            vstd::utf8::encode_utf8(content@).len() < usize::MAX,
        ensures
            match toml_table_outline(content@) {
                Ok(es) => r matches Ok(f) && f.path() == path@ && f.content() == content@ && f.entries() == es,
                Err((offset, message)) => r matches Err(e) && parse_failure(e, path@, content@, offset, message),
            },
    {
        let parsed = parse_toml_table(content.as_str());
        ConfigFile::from_parsed(path, content, parsed)
    }

    /// Builds the file layer from the outcome of reading the file at `path`.
    ///
    /// A missing file yields `Ok(None)`: config files are optional. Any other
    /// failure to read is a real error, since silently ignoring an unreadable
    /// file would hide a misconfiguration.
    ///
    /// # Errors
    ///
    /// [`LayeredError::Io`] if the file exists but could not be read, or
    /// [`LayeredError::Parse`] if it is not valid TOML.
    pub fn from_read(path: String, read: FileRead) -> (r: Result<Option<ConfigFile>, LayeredError>)
        requires
            read matches FileRead::Read(c) ==> vstd::utf8::encode_utf8(c@).len() < usize::MAX,
        ensures
            match read {
                FileRead::Missing => r matches Ok(None),
                FileRead::Failed(s) => r matches Err(LayeredError::Io { path: p, source }) && p@ == path@ && source == s,
                FileRead::Read(c) => match toml_table_outline(c@) {
                    Ok(es) => r matches Ok(Some(f)) && f.path() == path@ && f.content() == c@ && f.entries() == es,
                    Err((offset, message)) => r matches Err(e) && parse_failure(e, path@, c@, offset, message),
                },
            },
    {
        match read {
            FileRead::Missing => Ok(None),
            FileRead::Failed(source) => Err(LayeredError::Io { path, source }),
            FileRead::Read(content) => match ConfigFile::parse(path, content) {
                Ok(f) => Ok(Some(f)),
                Err(e) => Err(e),
            },
        }
    }

    /// Index of the entry that sets `field`, if the file sets it.
    fn find(&self, field: &str) -> (r: Option<usize>)
        ensures
            match r {
                Some(i) => i as int == find_key(self.entries(), field@) && i < self.values@.len(),
                None => find_key(self.entries(), field@) == -1,
            },
    {
        let ghost s = self.entries();
        let mut i: usize = 0;
        while i < self.values.len()
            invariant
                s == self.entries(),
                s.len() == self.values@.len(),
                0 <= i <= s.len(),
                find_key_from(s, field@, i as int) == find_key(s, field@),
            decreases s.len() - i,
        {
            assert(s[i as int] == entry_outline(self.values@[i as int]));
            if str_eq(self.values[i].key.as_str(), field) {
                return Some(i);
            }
            i = i + 1;
        }
        None
    }

    /// Whether the file sets `field`.
    pub fn contains(&self, field: &str) -> (r: bool)
        ensures
            r == self.sets(field@),
    {
        self.find(field).is_some()
    }

    fn settle_at<T>(&self, field: &str, i: usize, decoded: Result<T, String>) -> (r: Result<T, LayeredError>)
        requires
            i as int == find_key(self.entries(), field@),
            i < self.values@.len(),
        ensures
            self.decision(field@, decoded_view(decoded), r),
    {
        proof {
            use_type_invariant(self);
        }
        match decoded {
            Ok(v) => Ok(v),
            Err(message) => {
                let entry = &self.values[i];
                assert(self.entries()[i as int] == entry_outline(*entry));
                let (line, _) = crate::position::position_of(self.content.as_str(), entry.start);
                Err(LayeredError::Invalid {
                    field: field.to_owned(),
                    value: display_value(entry),
                    layer: SourceLayer::ConfigFile { path: self.path.clone(), line },
                    message,
                })
            },
        }
    }

    /// Settles the value of `field`, which the file sets, once it has been
    /// decoded into `decoded`.
    pub fn settle_decoded<T>(&self, field: &str, decoded: Result<T, String>) -> (r: Result<T, LayeredError>)
        requires
            self.sets(field@),
        ensures
            self.decision(field@, decoded_view(decoded), r),
    {
        let i = self.find(field).unwrap();
        self.settle_at(field, i, decoded)
    }

    /// Decode `field` from this file, if the file sets it.
    ///
    /// A value that cannot be decoded is reported against the file and the
    /// line on which the value starts.
    pub fn get<T: DeserializeOwned>(&self, field: &str) -> (r: Option<Result<T, LayeredError>>)
        ensures
            r is Some <==> self.sets(field@),
            r matches Some(x) ==> self.file_outcome(field@, x),
    {
        let i = match self.find(field) {
            Some(i) => i,
            None => return None,
        };
        let decoded = call_on(decode_value::<T>, &self.values[i].value);
        let ghost d = decoded;
        let x = self.settle_at(field, i, decoded);
        proof {
            assert(self.value_decodes(field@, d));
            assert(self.decision(field@, decoded_view(d), x));
        }
        Some(x)
    }
}

/// An environment value is decoded from the variable's own value: a success is
/// an outcome of reading that value as a TOML value expression, or, where that
/// fails, of taking it as a plain string; a failure comes only when both fail,
/// and is reported against the variable with the value as it was set.
pub proof fn law_env_result_is_a_decoding_of_the_value<T: DeserializeOwned>(
    var: Seq<char>,
    field: Seq<char>,
    raw: Seq<char>,
    r: Result<T, LayeredError>,
)
    requires
        env_outcome(var, field, raw, r),
    ensures
        r matches Ok(x) ==> expression_decodes(raw, Some(x))
            || (expression_decodes(raw, None::<T>) && plain_decodes(raw, Ok::<T, Seq<char>>(x))),
        r matches Err(e) ==> expression_decodes(raw, None::<T>) && match e {
            LayeredError::Invalid { field: f, value, layer: SourceLayer::EnvVar(v), message } =>
                f@ == field && value@ == raw && v@ == var && plain_decodes(raw, Err::<T, Seq<char>>(message@)),
            _ => false,
        },
{
}

/// A value read from the file is decoded from the value stored under the
/// field's own key: a success is an outcome of decoding that value, and a
/// failure carries the decoder's message on that value, against the field, the
/// file and the line on which the value starts.
pub proof fn law_file_value_is_decoded_from_its_own_key<T: DeserializeOwned>(
    f: &ConfigFile,
    field: Seq<char>,
    r: Result<T, LayeredError>,
)
    requires
        f.file_outcome(field, r),
    ensures
        r matches Ok(x) ==> f.value_decodes(field, Ok::<T, String>(x)),
        r matches Err(e) ==> match e {
            LayeredError::Invalid { field: fl, value, layer: SourceLayer::ConfigFile { path, line }, message } =>
                fl@ == field && value@ == f.shown_value(field) && path@ == f.path() && line as nat == f.line_of(field)
                    && exists|m: String| m@ == message@ && f.value_decodes(field, Err::<T, String>(m)),
            _ => false,
        },
{
    let d = choose|d: Result<T, String>| f.value_decodes(field, d) && f.decision(field, decoded_view(d), r);
    if r is Ok {
        assert(d == Ok::<T, String>(r->Ok_0));
    }
    if let Err(m) = d {
        assert(f.value_decodes(field, Err::<T, String>(m)));
    }
}

} // verus!
