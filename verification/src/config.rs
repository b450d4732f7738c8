//! The settings of a run, read from the head of the plan document.

use vstd::prelude::*;
use crate::error::{Error, ErrorKind};
use crate::interpolator::{resolve_spec, Environment, Interpolator};
use crate::text::{chars_of, format_i64, parse_i64, parse_i64_spec, string_of};
use crate::actions::request::pairs;
use crate::value::{
    Context, Json, Value, array_field, entries_model, field, items_model, object_field, strings,
    text_field,
};

verus! {

/// How many iterations a plan has that says nothing of it.
pub const NITERATIONS: i64 = 1;

/// The ramp-up of a plan that says nothing of it, in seconds.
pub const NRAMPUP: i64 = 0;

/// The settings of a run.
#[derive(Debug, PartialEq, Eq)]
pub struct Config {
    pub base: String,
    pub concurrency: i64,
    pub iterations: i64,
    pub relaxed_interpolations: bool,
    pub no_check_certificate: bool,
    pub rampup: i64,
    pub quiet: bool,
    pub nanosec: bool,
    pub timeout: u64,
    pub verbose: bool,
    /// Headers that every request carries, unless it sets them itself.
    pub default_headers: Vec<(String, String)>,
    /// The response headers that are copied into the store, by name.
    pub copy_headers: Vec<String>,
}

/// The members among the first `n` of `entries` whose value is a string, as
/// names and values.
pub open spec fn text_members(entries: Seq<(Seq<char>, Json)>, n: nat) -> Seq<
    (Seq<char>, Seq<char>),
>
    decreases n,
{
    if n == 0 || n > entries.len() {
        Seq::empty()
    } else {
        let head = text_members(entries, (n - 1) as nat);
        match entries[n - 1].1 {
            Json::Text(v) => head.push((entries[n - 1].0, v)),
            _ => head,
        }
    }
}

/// The strings among the first `n` of `items`.
pub open spec fn text_items(items: Seq<Json>, n: nat) -> Seq<Seq<char>>
    decreases n,
{
    if n == 0 || n > items.len() {
        Seq::empty()
    } else {
        let head = text_items(items, (n - 1) as nat);
        match items[n - 1] {
            Json::Text(v) => head.push(v),
            _ => head,
        }
    }
}

/// The headers that the document gives to every request: the members of
/// `default_headers` that are strings.
pub open spec fn default_headers_spec(doc: Json) -> Seq<(Seq<char>, Seq<char>)> {
    match object_field(doc, "default_headers"@) {
        Some(entries) => text_members(entries, entries.len()),
        None => Seq::empty(),
    }
}

/// The names of the response headers to copy into the store: the items of
/// `copy_headers` that are strings.
pub open spec fn copy_headers_spec(doc: Json) -> Seq<Seq<char>> {
    match array_field(doc, "copy_headers"@) {
        Some(items) => text_items(items, items.len()),
        None => Seq::empty(),
    }
}

/// The headers that the document gives to every request.
pub fn read_default_headers(config_doc: &Value) -> (r: Vec<(String, String)>)
    ensures
        pairs(r@) == default_headers_spec(config_doc@),
{
    let mut out: Vec<(String, String)> = Vec::new();
    match config_doc.get_mapping("default_headers") {
        Some(entries) => {
            let mut i: usize = 0;
            assert(pairs(out@) =~= Seq::<(Seq<char>, Seq<char>)>::empty());
            while i < entries.len()
                invariant
                    i <= entries.len(),
                    pairs(out@) == text_members(entries_model(entries@), i as nat),
                decreases entries.len() - i,
            {
                let ghost before = pairs(out@);
                match &entries[i].1 {
                    Value::Text(v) => {
                        out.push((entries[i].0.clone(), v.clone()));
                        assert(pairs(out@) =~= before.push((entries@[i as int].0@, v@)));
                    },
                    _ => {},
                }
                i += 1;
            }
        },
        None => {
            assert(pairs(out@) =~= Seq::<(Seq<char>, Seq<char>)>::empty());
        },
    }
    out
}

/// The names of the response headers to copy into the store.
pub fn read_copy_headers(config_doc: &Value) -> (r: Vec<String>)
    ensures
        strings(r@) == copy_headers_spec(config_doc@),
{
    let mut out: Vec<String> = Vec::new();
    match config_doc.get_sequence("copy_headers") {
        Some(items) => {
            let mut i: usize = 0;
            assert(strings(out@) =~= Seq::<Seq<char>>::empty());
            while i < items.len()
                invariant
                    i <= items.len(),
                    strings(out@) == text_items(items_model(items@), i as nat),
                decreases items.len() - i,
            {
                let ghost before = strings(out@);
                match &items[i] {
                    Value::Text(v) => {
                        out.push(v.clone());
                        assert(strings(out@) =~= before.push(v@));
                    },
                    _ => {},
                }
                i += 1;
            }
        },
        None => {
            assert(strings(out@) =~= Seq::<Seq<char>>::empty());
        },
    }
    out
}

/// The number that the setting `name` asks for: the member itself where it is
/// a whole number; where it is a string, that string resolved against the
/// environment and read as a number.
pub open spec fn number_asked(doc: Json, env: Seq<(Seq<char>, Seq<char>)>, name: Seq<char>)
    -> Option<i64> {
    match field(doc, name) {
        Some(Json::Integer(n)) => Some(n),
        Some(Json::Text(t)) => match resolve_spec(t, Seq::empty(), env, false) {
            Ok(s) => parse_i64_spec(s),
            Err(_) => None,
        },
        _ => None,
    }
}

/// The value of the numeric setting `name`: the number asked for, or `default`
/// where none is asked for or it is negative.
pub open spec fn number_setting(
    doc: Json,
    env: Seq<(Seq<char>, Seq<char>)>,
    name: Seq<char>,
    default: i64,
) -> i64 {
    match number_asked(doc, env, name) {
        Some(n) => if n < 0 {
            default
        } else {
            n
        },
        None => default,
    }
}

/// The value of the text setting `name`: the member where it is a string,
/// resolved strictly against the environment, or `default` where it is none.
pub open spec fn text_setting(
    doc: Json,
    env: Seq<(Seq<char>, Seq<char>)>,
    name: Seq<char>,
    default: Seq<char>,
) -> Result<Seq<char>, (ErrorKind, Seq<char>)> {
    match text_field(doc, name) {
        Some(t) => resolve_spec(t, Seq::empty(), env, true),
        None => Ok(default),
    }
}

impl Config {
    /// The settings that the document `config_doc` and the flags ask for.
    ///
    /// Fails where the base address names an unknown variable, and where the
    /// concurrency is higher than the number of iterations.
    pub fn new(
        config_doc: &Value,
        env: &Environment,
        relaxed_interpolations: bool,
        no_check_certificate: bool,
        quiet: bool,
        nanosec: bool,
        timeout: u64,
        verbose: bool,
    ) -> (r: Result<Config, Error>)
        ensures
            match r {
                Ok(c) => {
                    &&& c.iterations == number_setting(
                        config_doc@,
                        env@,
                        "iterations"@,
                        NITERATIONS,
                    )
                    &&& c.concurrency == number_setting(
                        config_doc@,
                        env@,
                        "concurrency"@,
                        c.iterations,
                    )
                    &&& c.rampup == number_setting(config_doc@, env@, "rampup"@, NRAMPUP)
                    &&& text_setting(config_doc@, env@, "base"@, ""@) == Ok::<
                        Seq<char>,
                        (ErrorKind, Seq<char>),
                    >(c.base@)
                    &&& c.concurrency <= c.iterations
                    &&& c.relaxed_interpolations == relaxed_interpolations
                    &&& c.no_check_certificate == no_check_certificate
                    &&& c.quiet == quiet
                    &&& c.nanosec == nanosec
                    &&& c.timeout == timeout
                    &&& c.verbose == verbose
                    &&& pairs(c.default_headers@) == default_headers_spec(config_doc@)
                    &&& strings(c.copy_headers@) == copy_headers_spec(config_doc@)
                },
                Err(e) => {
                    let iterations = number_setting(
                        config_doc@,
                        env@,
                        "iterations"@,
                        NITERATIONS,
                    );
                    let concurrency = number_setting(
                        config_doc@,
                        env@,
                        "concurrency"@,
                        iterations,
                    );
                    match text_setting(config_doc@, env@, "base"@, ""@) {
                        Err(f) => e@ == f,
                        Ok(_) => concurrency > iterations && e@ == (
                            ErrorKind::ConcurrencyTooHigh,
                            crate::text::decimal_text(concurrency as int),
                        ),
                    }
                },
            },
    {
        let context = Context::new();
        let interpolator = Interpolator::new(&context, env);

        let iterations = read_i64_configuration(config_doc, &interpolator, "iterations", NITERATIONS);
        let concurrency = read_i64_configuration(config_doc, &interpolator, "concurrency", iterations);
        let rampup = read_i64_configuration(config_doc, &interpolator, "rampup", NRAMPUP);
        let base = match read_str_configuration(config_doc, &interpolator, "base", "") {
            Ok(base) => base,
            Err(e) => {
                return Err(e);
            },
        };

        if concurrency > iterations {
            let detail = string_of(&format_i64(concurrency));
            return Err(Error::new(ErrorKind::ConcurrencyTooHigh, detail));
        }
        Ok(
            Config {
                base,
                concurrency,
                iterations,
                relaxed_interpolations,
                no_check_certificate,
                rampup,
                quiet,
                nanosec,
                timeout,
                verbose,
                default_headers: read_default_headers(config_doc),
                copy_headers: read_copy_headers(config_doc),
            },
        )
    }
}

/// The value of the text setting `name` of the document.
pub fn read_str_configuration(
    config_doc: &Value,
    interpolator: &Interpolator,
    name: &str,
    default: &str,
) -> (r: Result<String, Error>)
    requires
        interpolator.store() == Seq::<(Seq<char>, Json)>::empty(),
    ensures
        match r {
            Ok(s) => text_setting(config_doc@, interpolator.environment(), name@, default@)
                == Ok::<Seq<char>, (ErrorKind, Seq<char>)>(s@),
            Err(e) => text_setting(config_doc@, interpolator.environment(), name@, default@)
                == Err::<Seq<char>, (ErrorKind, Seq<char>)>(e@),
        },
{
    match config_doc.get_str(name) {
        Some(value) => interpolator.resolve(value.as_str(), true),
        None => Ok(default.to_owned()),
    }
}

/// The value of the numeric setting `name` of the document.
pub fn read_i64_configuration(
    config_doc: &Value,
    interpolator: &Interpolator,
    name: &str,
    default: i64,
) -> (r: i64)
    requires
        interpolator.store() == Seq::<(Seq<char>, Json)>::empty(),
    ensures
        r == number_setting(config_doc@, interpolator.environment(), name@, default),
{
    let value = match config_doc.get(name) {
        Some(Value::Integer(n)) => Some(*n),
        Some(Value::Text(key)) => match interpolator.resolve(key.as_str(), false) {
            Ok(s) => parse_i64(&chars_of(s.as_str())),
            Err(_) => None,
        },
        _ => None,
    };
    match value {
        Some(value) => {
            if value < 0 {
                default
            } else {
                value
            }
        },
        None => default,
    }
}

} // verus!
