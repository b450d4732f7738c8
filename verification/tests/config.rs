use drill::config::Config;
use drill::error::ErrorKind;
use drill::interpolator::Environment;
use drill::value::Value;

fn text(s: &str) -> Value {
    Value::Text(s.to_string())
}

fn object(members: Vec<(&str, Value)>) -> Value {
    Value::Object(members.into_iter().map(|(k, v)| (k.to_string(), v)).collect())
}

fn env() -> Environment {
    Environment { vars: vec![("HOST".to_string(), "example.org".to_string()), ("N".to_string(), "7".to_string())] }
}

#[test]
fn settings_are_read_from_the_document() {
    let doc = object(vec![("base", text("http://localhost:9000")), ("iterations", Value::Integer(10)), ("concurrency", Value::Integer(4)), ("rampup", Value::Integer(2))]);
    let config = Config::new(&doc, &env(), true, false, true, false, 15, true).unwrap();
    assert_eq!(config.base, "http://localhost:9000");
    assert_eq!((config.iterations, config.concurrency, config.rampup), (10, 4, 2));
    assert_eq!((config.relaxed_interpolations, config.no_check_certificate, config.quiet, config.nanosec, config.timeout, config.verbose), (true, false, true, false, 15, true));
}

#[test]
fn defaults_apply_where_a_setting_is_missing_or_unusable() {
    let empty = Config::new(&object(vec![]), &env(), false, false, false, false, 10, false).unwrap();
    assert_eq!((empty.base.as_str(), empty.iterations, empty.concurrency, empty.rampup), ("", 1, 1, 0));
    let only_iterations = Config::new(&object(vec![("iterations", Value::Integer(5))]), &env(), false, false, false, false, 10, false).unwrap();
    assert_eq!((only_iterations.iterations, only_iterations.concurrency), (5, 5));
    let negative = object(vec![("iterations", Value::Integer(-3)), ("concurrency", Value::Integer(-1)), ("rampup", text("soon")), ("base", Value::Integer(3))]);
    let config = Config::new(&negative, &env(), false, false, false, false, 10, false).unwrap();
    assert_eq!((config.base.as_str(), config.iterations, config.concurrency, config.rampup), ("", 1, 1, 0));
    assert_eq!(Config::new(&Value::Null, &env(), false, false, false, false, 10, false).unwrap().iterations, 1);
}

#[test]
fn settings_may_name_environment_variables() {
    let doc = object(vec![("base", text("http://{{ HOST }}/api")), ("iterations", text("{{ N }}")), ("concurrency", text("+3")), ("rampup", text("{{ MISSING }}"))]);
    let config = Config::new(&doc, &env(), false, false, false, false, 10, false).unwrap();
    assert_eq!(config.base, "http://example.org/api");
    assert_eq!((config.iterations, config.concurrency, config.rampup), (7, 3, 0));
}

#[test]
fn unknown_variable_in_base_is_an_error() {
    let doc = object(vec![("base", text("http://{{ NOWHERE }}"))]);
    let err = Config::new(&doc, &env(), true, false, false, false, 10, false).unwrap_err();
    assert_eq!((err.kind, err.detail.as_str()), (ErrorKind::UnknownVariable, "NOWHERE"));
}

#[test]
fn concurrency_above_iterations_is_an_error() {
    let doc = object(vec![("iterations", Value::Integer(2)), ("concurrency", Value::Integer(3))]);
    let err = Config::new(&doc, &env(), false, false, false, false, 10, false).unwrap_err();
    assert_eq!((err.kind, err.detail.as_str()), (ErrorKind::ConcurrencyTooHigh, "3"));
    let equal = object(vec![("iterations", Value::Integer(3)), ("concurrency", Value::Integer(3))]);
    assert!(Config::new(&equal, &env(), false, false, false, false, 10, false).is_ok());
    let default_one = object(vec![("concurrency", Value::Integer(2))]);
    assert_eq!(Config::new(&default_one, &env(), false, false, false, false, 10, false).unwrap_err().kind, ErrorKind::ConcurrencyTooHigh);
}
