use drill::error::ErrorKind;
use drill::interpolator::{has_interpolation, Environment, Interpolator};
use drill::value::{Context, Value};

fn text(s: &str) -> Value {
    Value::Text(s.to_string())
}

fn object(members: Vec<(&str, Value)>) -> Value {
    Value::Object(members.into_iter().map(|(k, v)| (k.to_string(), v)).collect())
}

#[test]
fn interpolates_variables() {
    let mut context: Context = Context::new();
    let env = Environment::new();

    context.insert(String::from("user_Id"), text("12"));
    context.insert(String::from("Transfer-Encoding"), text("chunked"));

    let interpolator = Interpolator::new(&context, &env);
    let url = String::from("http://example.com/users/{{ user_Id }}/view/{{ user_Id }}/{{ Transfer-Encoding }}");
    let interpolated = interpolator.resolve(&url, true);
    assert!(interpolated.is_ok());

    assert_eq!(interpolated.unwrap(), "http://example.com/users/12/view/12/chunked");
}

#[test]
fn interpolates_variables_nested() {
    let mut context: Context = Context::new();
    let env = Environment::new();

    context.insert(String::from("Null"), Value::Null);
    context.insert(String::from("Bool"), Value::Bool(true));
    context.insert(String::from("Number"), Value::Integer(12));
    context.insert(String::from("String"), text("string"));
    context.insert(String::from("Array"), Value::Array(vec![text("a"), text("b"), text("c")]));
    context.insert(String::from("Object"), object(vec![("this", text("that"))]));
    context.insert(
        String::from("Nested"),
        object(vec![(
            "this",
            object(vec![(
                "that",
                object(vec![(
                    "those",
                    Value::Array(vec![
                        object(vec![("wow", Value::Integer(1))]),
                        object(vec![("so", Value::Integer(2))]),
                        object(vec![("deee", object(vec![("eeee", text("eeep"))]))]),
                    ]),
                )]),
            )]),
        )]),
    );
    context.insert(
        String::from("ArrayNested"),
        Value::Array(vec![object(vec![(
            "a",
            Value::Array(vec![
                object(vec![]),
                object(vec![
                    ("aa", Value::Integer(2)),
                    ("aaa", Value::Array(vec![object(vec![("aaaa", Value::Integer(123)), ("$aaaa", text("$123"))])])),
                ]),
            ]),
        )])]),
    );

    let interpolator = Interpolator::new(&context, &env);

    let bool = interpolator.resolve("{{ Bool }}", true);
    assert_eq!(bool.is_ok(), true);
    assert_eq!(bool.unwrap(), "true".to_string());

    let number = interpolator.resolve("{{ Number }}", true);
    assert_eq!(number.is_ok(), true);
    assert_eq!(number.unwrap(), "12".to_string());

    let string = interpolator.resolve("{{ String }}", true);
    assert_eq!(string.is_ok(), true);
    assert_eq!(string.unwrap(), "string".to_string());

    let array = interpolator.resolve("{{ Array }}", true);
    assert_eq!(array.is_ok(), true);
    assert_eq!(array.unwrap(), "[\"a\",\"b\",\"c\"]".to_string());

    let object = interpolator.resolve("{{ Object }}", true);
    assert_eq!(object.is_ok(), true);
    assert_eq!(object.unwrap(), "{\"this\":\"that\"}".to_string());

    let nested = interpolator.resolve("{{ Nested.this.that.those[2].deee.eeee }}", true);
    assert_eq!(nested.is_ok(), true);
    assert_eq!(nested.unwrap(), "eeep".to_string());

    let array_nested = interpolator.resolve("{{ ArrayNested[0].a[1].aaa[0].aaaa }}", true);
    assert_eq!(array_nested.is_ok(), true);
    assert_eq!(array_nested.unwrap(), "123".to_string());

    let array_nested_dollar = interpolator.resolve("{{ ArrayNested[0].a[1].aaa[0].$aaaa }}", true);
    assert_eq!(array_nested_dollar.is_ok(), true);
    assert_eq!(array_nested_dollar.unwrap(), "$123".to_string());
}

#[test]
fn interpolates_missing_variable() {
    let context: Context = Context::new();
    let env = Environment::new();

    let interpolator = Interpolator::new(&context, &env);
    let url = String::from("/users/{{ userId }}");
    let result = interpolator.resolve(&url, true);
    assert_eq!(result.is_err(), true);
}

#[test]
fn interpolates_relaxed() {
    let context: Context = Context::new();
    let env = Environment::new();

    let interpolator = Interpolator::new(&context, &env);
    let url = String::from("/users/{{ userId }}");
    let interpolated = interpolator.resolve(&url, false);
    assert_eq!(interpolated.is_ok(), true);

    assert_eq!(interpolated.unwrap(), "/users/");
}

#[test]
fn interpolates_numnamed_variables() {
    let mut context: Context = Context::new();
    let env = Environment::new();

    context.insert(String::from("zip5"), text("90210"));

    let interpolator = Interpolator::new(&context, &env);
    let url = String::from("http://example.com/postalcode/{{ zip5 }}/view/{{ zip5 }}");
    let interpolated = interpolator.resolve(&url, true);
    assert_eq!(interpolated.is_ok(), true);

    assert_eq!(interpolated.unwrap(), "http://example.com/postalcode/90210/view/90210");
}

#[test]
fn interpolates_bad_numnamed_variable_names() {
    let mut context: Context = Context::new();
    let env = Environment::new();

    context.insert(String::from("5digitzip"), text("90210"));

    let interpolator = Interpolator::new(&context, &env);
    let url = String::from("http://example.com/postalcode/{{ 5digitzip }}/view/{{ 5digitzip }}");
    let interpolated = interpolator.resolve(&url, true);
    assert!(interpolated.is_err());

    assert_eq!(interpolated.unwrap_err().message(), "Invalid variable name in http://example.com/postalcode/{{ 5digitzip }}/view/{{ 5digitzip }}");
}

#[test]
fn interpolates_environment_variables() {
    let env = Environment { vars: vec![(String::from("FOO"), String::from("BAR"))] };

    let context: Context = Context::new();
    let interpolator = Interpolator::new(&context, &env);
    let url = String::from("http://example.com/postalcode/{{ FOO }}");
    let interpolated = interpolator.resolve(&url, true);
    assert_eq!(interpolated.is_ok(), true);

    assert_eq!(interpolated.unwrap(), "http://example.com/postalcode/BAR");
}

#[test]
fn template_without_interpolation_is_unchanged() {
    let context: Context = Context::new();
    let env = Environment::new();
    let interpolator = Interpolator::new(&context, &env);
    for template in ["", "plain", "/api/users.json", "{\"a\": 1}", "a { b } c", "}}{", "a {{ b", "}} {{", "{{}", "{ { a } }", "{{ a }"] {
        assert_eq!(interpolator.resolve(template, true).unwrap(), template);
        assert_eq!(interpolator.resolve(template, false).unwrap(), template);
    }
}

#[test]
fn nested_member_is_resolved() {
    let mut context: Context = Context::new();
    let env = Environment::new();
    context.insert(String::from("a"), object(vec![("b", Value::Integer(5))]));
    context.insert(String::from("other"), text("x"));
    let interpolator = Interpolator::new(&context, &env);
    assert_eq!(interpolator.resolve("{{ a.b }}", true).unwrap(), "5");
}

#[test]
fn unknown_path_fails_when_strict_and_is_empty_when_relaxed() {
    let mut context: Context = Context::new();
    let env = Environment::new();
    context.insert(String::from("a"), object(vec![("b", Value::Integer(5))]));
    let interpolator = Interpolator::new(&context, &env);
    for path in ["{{ nope }}", "{{ a.c }}", "{{ a.b.c }}", "{{a[0]}}"] {
        let strict = interpolator.resolve(path, true);
        assert_eq!(strict.unwrap_err().kind, ErrorKind::UnknownVariable);
        assert_eq!(interpolator.resolve(path, false).unwrap(), "");
    }
    let err = interpolator.resolve("x{{ a.c }}y{{ zz }}", true).unwrap_err();
    assert_eq!(err.detail, "a.c");
    assert_eq!(err.message(), "Unknown 'a.c' variable!");
}

#[test]
fn malformed_interpolation_when_relaxed_gives_empty_text() {
    let context: Context = Context::new();
    let env = Environment::new();
    let interpolator = Interpolator::new(&context, &env);
    for template in ["/x/{{ 5digitzip }}", "{{}}", "{{ }}", "{{ a b }}", "{{ _a }}", "{{ x }{{ 1y}}", "{{ \u{e9} }}"] {
        assert_eq!(interpolator.resolve(template, false).unwrap(), "", "{:?}", template);
        let err = interpolator.resolve(template, true).unwrap_err();
        assert_eq!((err.kind, err.detail.as_str()), (ErrorKind::InvalidVariableName, template));
    }
}

#[test]
fn store_wins_over_environment() {
    let env = Environment { vars: vec![(String::from("FOO"), String::from("BAR")), (String::from("FOO"), String::from("BAZ"))] };
    let mut context: Context = Context::new();
    assert_eq!(Interpolator::new(&context, &env).resolve("{{FOO}}", true).unwrap(), "BAR");
    context.insert(String::from("FOO"), Value::Null);
    assert_eq!(Interpolator::new(&context, &env).resolve("{{FOO}}", true).unwrap(), "");
}

#[test]
fn interpolation_is_found_by_the_same_grammar() {
    let re = regex::Regex::new(r"\{\{ *([a-zA-Z]+[a-zA-Z\-\._\$0-9\[\]]*) *\}\}").unwrap();
    let samples = [
        "", "{{ a }}", "{{a}}", "{{  a  }}", "{{ 5a }}", "{{ a b }}", "{{{ a }}}", "{{ a }", "{ a }}", "{{ a.b[0].$c-d_e }}", "x{{ item }}y",
        "{{ }}", "{{}}", "{{ a\t}}", "{{ \u{e9} }}", "{{ a\u{e9} }}", "{{{{ a }}", "{{ a }}{{ b }}", "{{ a{{ b }}", "{{ _a }}", "{{ a] }}",
    ];
    for s in samples {
        assert_eq!(has_interpolation(s), re.is_match(s), "{:?}", s);
    }
}

#[test]
fn replacement_agrees_with_the_pattern() {
    let re = regex::Regex::new(r"\{\{ *([a-zA-Z]+[a-zA-Z\-\._\$0-9\[\]]*) *\}\}").unwrap();
    let mut context: Context = Context::new();
    let env = Environment::new();
    context.insert(String::from("a"), text("<A>"));
    context.insert(String::from("b"), text("<B>"));
    let interpolator = Interpolator::new(&context, &env);
    let samples = ["{{ a }}", "{{a}}{{b}}", "{{{ a }}}", "{{ a }} and {{ 5a }} and {{  b}}", "{{ a{{ b }}", "{{{{ a }}", "z{{ a }{{b}}", "{{ a }}}}", "z{{ a }", "no braces"];
    for s in samples {
        let expected = re.replace_all(s, |caps: &regex::Captures| match &caps[1] {
            "a" => "<A>".to_string(),
            "b" => "<B>".to_string(),
            _ => String::new(),
        });
        assert_eq!(interpolator.resolve(s, false).unwrap(), expected, "{:?}", s);
    }
}

#[test]
fn unknown_variables_are_listed_in_order() {
    let mut context: Context = Context::new();
    let env = Environment { vars: vec![(String::from("HOME"), String::from("/root"))] };
    context.insert(String::from("a"), object(vec![("b", Value::Integer(5))]));
    let interpolator = Interpolator::new(&context, &env);
    assert_eq!(interpolator.unknown_variables("{{ a.b }}{{ x }} {{ HOME }} {{ a.c }}{{ 5x }}{{x}}"), vec!["x", "a.c", "x"]);
    assert_eq!(interpolator.unknown_variables("nothing {{ to }"), Vec::<String>::new());
    assert_eq!(interpolator.unknown_variables(""), Vec::<String>::new());
}
