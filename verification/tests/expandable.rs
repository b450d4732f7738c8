use drill::actions::{Request, Step};
use drill::error::ErrorKind;
use drill::expandable::nested;
use drill::expandable::{multi_csv_request, multi_file_request, multi_iter_request, multi_request, pick, resolve_path};
use drill::reader::Files;
use drill::tags::Tags;
use drill::value::Value;

fn text(s: &str) -> Value {
    Value::Text(s.to_string())
}

fn object(members: Vec<(&str, Value)>) -> Value {
    Value::Object(members.into_iter().map(|(k, v)| (k.to_string(), v)).collect())
}

fn numbers(ns: &[i64]) -> Value {
    Value::Array(ns.iter().map(|n| Value::Integer(*n)).collect())
}

// name: foobar / request: { url: <url> } / <more>
fn entry(url: &str, more: Vec<(&str, Value)>) -> Value {
    let mut members = vec![("name", text("foobar")), ("request", object(vec![("url", text(url))]))];
    members.extend(more);
    object(members)
}

fn requests(benchmark: &[Step]) -> Vec<&Request> {
    benchmark
        .iter()
        .map(|s| match s {
            Step::Request(r) => r,
            _ => panic!("Expected a request"),
        })
        .collect()
}

fn fixtures() -> Files {
    let mut files = Files::new();
    files.tables.push((
        "example/./fixtures/users.csv".to_string(),
        b'"',
        vec![object(vec![("id", text("70")), ("name", text("Bart"))]), object(vec![("id", text("73")), ("name", text("Lisa"))])],
    ));
    files.lines.push(("example/./fixtures/texts.txt".to_string(), vec![text("one"), text("two"), text("three")]));
    files.documents.push((
        "example/comments.yml".to_string(),
        vec![Value::Array(vec![
            object(vec![("name", text("Fetch comments")), ("request", object(vec![("url", text("/api/comments.json"))]))]),
            object(vec![("name", text("Wait")), ("delay", object(vec![("seconds", Value::Integer(1))]))]),
        ])],
    ));
    files
}

#[test]
fn should_return_the_configured_value() {
    let item = entry("/api/{{ item }}", vec![("pick", Value::Integer(2)), ("with_items", numbers(&[1, 2, 3]))]);
    let pick = pick(&item, item.get("with_items").and_then(|v| v.as_sequence()).unwrap());

    assert_eq!(pick.unwrap(), 2);
}

#[test]
fn should_return_the_with_items_length_if_unset() {
    let item = entry("/api/{{ item }}", vec![("with_items", numbers(&[1, 2, 3]))]);
    let pick = pick(&item, item.get("with_items").and_then(|v| v.as_sequence()).unwrap());

    assert_eq!(pick.unwrap(), 3);
}

#[test]
fn should_panic_for_negative_values() {
    let item = entry("/api/{{ item }}", vec![("pick", Value::Integer(-1)), ("with_items", numbers(&[1, 2, 3]))]);
    let err = pick(&item, item.get("with_items").and_then(|v| v.as_sequence()).unwrap()).unwrap_err();
    assert_eq!(err.message(), "pick option should not be negative, but was -1");
}

#[test]
fn should_panic_for_values_greater_than_the_items_list() {
    let item = entry("/api/{{ item }}", vec![("pick", Value::Integer(4)), ("with_items", numbers(&[1, 2, 3]))]);
    let err = pick(&item, item.get("with_items").and_then(|v| v.as_sequence()).unwrap()).unwrap_err();
    assert_eq!(err.message(), "pick option should not be greater than the provided items, but was 4");
}

#[test]
fn multi_request_expand_multi() {
    let doc = entry("/api/{{ item }}", vec![("with_items", numbers(&[1, 2, 3]))]);
    let mut benchmark: Vec<Step> = Vec::new();

    multi_request::expand(&doc, &mut benchmark, &Files::new()).unwrap();

    assert!(multi_request::is_that_you(&doc));
    assert_eq!(benchmark.len(), 3);
}

#[test]
fn multi_request_expand_multi_should_limit_requests_using_the_pick_option() {
    let doc = entry("/api/{{ item }}", vec![("pick", Value::Integer(2)), ("with_items", numbers(&[1, 2, 3]))]);
    let mut benchmark: Vec<Step> = Vec::new();

    multi_request::expand(&doc, &mut benchmark, &Files::new()).unwrap();

    assert!(multi_request::is_that_you(&doc));
    assert_eq!(benchmark.len(), 2);
}

#[test]
fn multi_request_expand_multi_should_work_with_pick_and_shuffle() {
    let doc = entry("/api/{{ item }}", vec![("pick", Value::Integer(1)), ("shuffle", Value::Bool(true)), ("with_items", numbers(&[1, 2, 3]))]);
    let mut benchmark: Vec<Step> = Vec::new();

    multi_request::expand(&doc, &mut benchmark, &Files::new()).unwrap();

    assert!(multi_request::is_that_you(&doc));
    assert_eq!(benchmark.len(), 1);
}

#[test]
fn multi_request_runtime_expand() {
    let doc = entry("/api/{{ item }}", vec![("with_items", Value::Array(vec![Value::Integer(1), Value::Integer(2), text("foo{{ memory }}")]))]);
    let mut benchmark: Vec<Step> = Vec::new();

    let err = multi_request::expand(&doc, &mut benchmark, &Files::new()).unwrap_err();
    assert_eq!(err.kind, ErrorKind::InterpolatedItem);
    assert!(benchmark.is_empty());
}

#[test]
fn multi_csv_request_expand_multi() {
    let doc = entry("/api/{{ item.id }}", vec![("with_items_from_csv", text("./fixtures/users.csv"))]);
    let mut benchmark: Vec<Step> = Vec::new();

    multi_csv_request::expand("example/benchmark.yml", &doc, &mut benchmark, &fixtures()).unwrap();

    assert!(multi_csv_request::is_that_you(&doc));
    assert_eq!(benchmark.len(), 2);
}

#[test]
fn multi_csv_request_expand_multi_should_limit_requests_using_the_pick_option() {
    let doc = entry("/api/{{ item }}", vec![("pick", Value::Integer(2)), ("with_items_from_csv", text("./fixtures/users.csv"))]);
    let mut benchmark: Vec<Step> = Vec::new();

    multi_csv_request::expand("example/benchmark.yml", &doc, &mut benchmark, &fixtures()).unwrap();

    assert!(multi_csv_request::is_that_you(&doc));
    assert_eq!(benchmark.len(), 2);
}

#[test]
fn multi_csv_request_expand_multi_should_work_with_pick_and_shuffle() {
    let doc = entry("/api/{{ item }}", vec![("pick", Value::Integer(1)), ("shuffle", Value::Bool(true)), ("with_items_from_csv", text("./fixtures/users.csv"))]);
    let mut benchmark: Vec<Step> = Vec::new();

    multi_csv_request::expand("example/benchmark.yml", &doc, &mut benchmark, &fixtures()).unwrap();

    assert!(multi_csv_request::is_that_you(&doc));
    assert_eq!(benchmark.len(), 1);
}

#[test]
fn multi_csv_request_runtime_expand() {
    let doc = entry("/api/{{ item.id }}", vec![("with_items_from_csv", text("./fixtures/{{ memory }}.csv"))]);
    let mut benchmark: Vec<Step> = Vec::new();

    let err = multi_csv_request::expand("example/benchmark.yml", &doc, &mut benchmark, &fixtures()).unwrap_err();
    assert_eq!(err.message(), "Interpolations not supported in 'with_items_from_csv' property!");
}

#[test]
fn multi_file_request_expand_multi() {
    let doc = entry("/api/{{ item.id }}", vec![("with_items_from_file", text("./fixtures/texts.txt"))]);
    let mut benchmark: Vec<Step> = Vec::new();

    multi_file_request::expand("example/benchmark.yml", &doc, &mut benchmark, &fixtures()).unwrap();

    assert!(multi_file_request::is_that_you(&doc));
    assert_eq!(benchmark.len(), 3);
}

#[test]
fn multi_file_request_expand_multi_should_limit_requests_using_the_pick_option() {
    let doc = entry("/api/{{ item }}", vec![("pick", Value::Integer(2)), ("with_items_from_file", text("./fixtures/texts.txt"))]);
    let mut benchmark: Vec<Step> = Vec::new();

    multi_file_request::expand("example/benchmark.yml", &doc, &mut benchmark, &fixtures()).unwrap();

    assert!(multi_file_request::is_that_you(&doc));
    assert_eq!(benchmark.len(), 2);
}

#[test]
fn multi_file_request_expand_multi_should_work_with_pick_and_shuffle() {
    let doc = entry("/api/{{ item }}", vec![("pick", Value::Integer(1)), ("shuffle", Value::Bool(true)), ("with_items_from_file", text("./fixtures/texts.txt"))]);
    let mut benchmark: Vec<Step> = Vec::new();

    multi_file_request::expand("example/benchmark.yml", &doc, &mut benchmark, &fixtures()).unwrap();

    assert!(multi_file_request::is_that_you(&doc));
    assert_eq!(benchmark.len(), 1);
}

fn range_entry(start: Value, step: Value, stop: Value, more: Vec<(&str, Value)>) -> Value {
    let mut all = vec![("with_items_range", object(vec![("start", start), ("step", step), ("stop", stop)]))];
    all.extend(more);
    entry("/api/{{ item }}", all)
}

#[test]
fn expand_multi_range() {
    let doc = range_entry(Value::Integer(2), Value::Integer(2), Value::Integer(20), vec![]);
    let mut benchmark: Vec<Step> = Vec::new();

    let result = multi_iter_request::expand(&doc, &mut benchmark, &Files::new());
    assert!(result.is_ok());

    assert!(multi_iter_request::is_that_you(&doc));
    assert_eq!(benchmark.len(), 10);
}

#[test]
fn expand_multi_range_should_limit_requests_using_the_pick_option() {
    let doc = range_entry(Value::Integer(2), Value::Integer(2), Value::Integer(20), vec![("pick", Value::Integer(3))]);
    let mut benchmark: Vec<Step> = Vec::new();

    let result = multi_iter_request::expand(&doc, &mut benchmark, &Files::new());
    assert!(result.is_ok());

    assert!(multi_iter_request::is_that_you(&doc));
    assert_eq!(benchmark.len(), 3);
}

#[test]
fn multi_iter_request_invalid_expand() {
    let doc = range_entry(Value::Integer(1), Value::Integer(2), text("foo"), vec![]);
    let mut benchmark: Vec<Step> = Vec::new();

    let result = multi_iter_request::expand(&doc, &mut benchmark, &Files::new());
    assert!(result.is_err());
}

#[test]
fn multi_iter_request_runtime_expand() {
    let doc = range_entry(Value::Integer(1), Value::Integer(2), text("{{ memory }}"), vec![]);
    let mut benchmark: Vec<Step> = Vec::new();

    let result = multi_iter_request::expand(&doc, &mut benchmark, &Files::new());
    assert!(result.is_err());
}

#[test]
fn expand_include() {
    let doc = object(vec![("name", text("Include comment")), ("include", text("comments.yml"))]);
    let mut benchmark: Vec<Step> = Vec::new();

    let result = nested::expand("example/benchmark.yml", &doc, &mut benchmark, &Tags::new(None, None).unwrap(), &fixtures(), nested::DEPTH_LIMIT);

    assert!(result.is_ok());
    assert!(nested::is_that_you(&doc));
    assert_eq!(benchmark.len(), 2);
}

#[test]
fn include_invalid_expand() {
    let doc = object(vec![("name", text("Include comment")), ("include", text("{{ memory }}.yml"))]);
    let mut benchmark: Vec<Step> = Vec::new();
    let result = nested::expand("example/benchmark.yml", &doc, &mut benchmark, &Tags::new(None, None).unwrap(), &fixtures(), nested::DEPTH_LIMIT);
    assert_eq!(result.unwrap_err().message(), "Interpolations not supported in 'include' property!");
}

#[test]
fn each_item_gets_its_request_with_item_and_index() {
    let doc = entry("/api/{{ item }}", vec![("with_items", numbers(&[1, 2, 3]))]);
    let mut benchmark: Vec<Step> = Vec::new();
    multi_request::expand(&doc, &mut benchmark, &Files::new()).unwrap();
    let made = requests(&benchmark);
    assert_eq!(made.len(), 3);
    for (i, request) in made.iter().enumerate() {
        assert_eq!(request.index, Some(i as u32));
        assert_eq!(request.with_item, Some(Value::Integer(i as i64 + 1)));
        assert_eq!(request.url, "/api/{{ item }}");
        assert_eq!(request.name, "foobar");
    }
}

#[test]
fn pick_keeps_the_first_items_and_refuses_bad_counts() {
    let picked = entry("/", vec![("pick", Value::Integer(2)), ("with_items", numbers(&[1, 2, 3]))]);
    let mut benchmark: Vec<Step> = Vec::new();
    multi_request::expand(&picked, &mut benchmark, &Files::new()).unwrap();
    let items: Vec<_> = requests(&benchmark).iter().map(|r| r.with_item.clone().unwrap()).collect();
    assert_eq!(items, vec![Value::Integer(1), Value::Integer(2)]);

    let too_many = entry("/", vec![("pick", Value::Integer(4)), ("with_items", numbers(&[1, 2, 3]))]);
    assert_eq!(multi_request::expand(&too_many, &mut benchmark, &Files::new()).unwrap_err().kind, ErrorKind::PickTooLarge);
    let negative = entry("/", vec![("pick", Value::Integer(-1)), ("with_items", numbers(&[1, 2, 3]))]);
    assert_eq!(multi_request::expand(&negative, &mut benchmark, &Files::new()).unwrap_err().kind, ErrorKind::NegativePick);
    assert_eq!(benchmark.len(), 2);

    let none = entry("/", vec![("pick", Value::Integer(0)), ("with_items", numbers(&[1, 2, 3]))]);
    multi_request::expand(&none, &mut benchmark, &Files::new()).unwrap();
    assert_eq!(benchmark.len(), 2);
    let all = entry("/", vec![("pick", Value::Integer(3)), ("with_items", numbers(&[1, 2, 3]))]);
    multi_request::expand(&all, &mut benchmark, &Files::new()).unwrap();
    assert_eq!(benchmark.len(), 5);
}

#[test]
fn shuffle_keeps_every_item_once() {
    let source: Vec<i64> = (1..=40).collect();
    let doc = entry("/", vec![("shuffle", Value::Bool(true)), ("with_items", numbers(&source))]);
    let mut benchmark: Vec<Step> = Vec::new();
    multi_request::expand(&doc, &mut benchmark, &Files::new()).unwrap();
    let made = requests(&benchmark);
    let mut items: Vec<i64> = made.iter().map(|r| r.with_item.as_ref().unwrap().as_i64().unwrap()).collect();
    let indexes: Vec<u32> = made.iter().map(|r| r.index.unwrap()).collect();
    assert_eq!(indexes, (0..40).collect::<Vec<u32>>());
    assert_ne!(items, source);
    items.sort();
    assert_eq!(items, source);
    let unshuffled = entry("/", vec![("shuffle", Value::Bool(false)), ("with_items", numbers(&source))]);
    let mut plain: Vec<Step> = Vec::new();
    multi_request::expand(&unshuffled, &mut plain, &Files::new()).unwrap();
    let kept: Vec<i64> = requests(&plain).iter().map(|r| r.with_item.as_ref().unwrap().as_i64().unwrap()).collect();
    assert_eq!(kept, source);
}

#[test]
fn ranges_count_from_start_to_stop_in_steps() {
    let items = |start: i64, step: i64, stop: i64| -> Vec<i64> { multi_iter_request::range(start, step, stop).iter().map(|v| v.as_i64().unwrap()).collect() };
    assert_eq!(items(2, 2, 20), vec![2, 4, 6, 8, 10, 12, 14, 16, 18, 20]);
    assert_eq!(items(1, 3, 8), vec![1, 4, 7]);
    assert_eq!(items(5, 1, 5), vec![5]);
    assert_eq!(items(5, 1, 4), Vec::<i64>::new());
    assert_eq!(items(0, 1, 4), Vec::<i64>::new());
    assert_eq!(items(-2, 1, 4), Vec::<i64>::new());
    assert_eq!(items(3, -1, 9), vec![3]);
    assert_eq!(items(i64::MAX - 2, 2, i64::MAX), vec![i64::MAX - 2, i64::MAX]);
    assert_eq!(items(1, i64::MAX, i64::MAX), vec![1]);
    assert_eq!(items(1, 0, 5), Vec::<i64>::new());
}

#[test]
fn range_bounds_are_checked_in_order() {
    let kind = |doc: &Value| multi_iter_request::expand(doc, &mut Vec::new(), &Files::new()).unwrap_err();
    let no_start = entry("/", vec![("with_items_range", object(vec![("stop", Value::Integer(3))]))]);
    assert_eq!((kind(&no_start).kind, kind(&no_start).detail.as_str()), (ErrorKind::MissingBound, "start"));
    let no_stop = entry("/", vec![("with_items_range", object(vec![("start", Value::Integer(3))]))]);
    assert_eq!((kind(&no_stop).kind, kind(&no_stop).detail.as_str()), (ErrorKind::MissingBound, "stop"));
    let templated = range_entry(text("x"), text("{{ a }}"), text("{{ b }}"), vec![]);
    assert_eq!((kind(&templated).kind, kind(&templated).detail.as_str()), (ErrorKind::InterpolationNotSupported, "step"));
    let not_number = range_entry(text("x"), Value::Integer(1), text("{{ b"), vec![]);
    assert_eq!((kind(&not_number).kind, kind(&not_number).detail.as_str()), (ErrorKind::BoundNotNumber, "start"));
    let zero = range_entry(Value::Integer(1), Value::Integer(0), Value::Integer(9), vec![]);
    assert_eq!(kind(&zero).kind, ErrorKind::InvalidStep);
    let default_step = entry("/", vec![("with_items_range", object(vec![("start", Value::Integer(3)), ("stop", Value::Integer(5))]))]);
    let mut benchmark: Vec<Step> = Vec::new();
    multi_iter_request::expand(&default_step, &mut benchmark, &Files::new()).unwrap();
    let items: Vec<_> = requests(&benchmark).iter().map(|r| r.with_item.clone().unwrap()).collect();
    assert_eq!(items, vec![Value::Integer(3), Value::Integer(4), Value::Integer(5)]);
    let too_many = range_entry(Value::Integer(1), Value::Integer(1), Value::Integer(3), vec![("pick", Value::Integer(4))]);
    assert_eq!(kind(&too_many).kind, ErrorKind::PickTooLarge);
}

#[test]
fn csv_source_names_file_and_quote() {
    let plain = entry("/", vec![("with_items_from_csv", text("a.csv"))]);
    assert_eq!(multi_csv_request::source(&plain).unwrap(), ("a.csv".to_string(), b'"'));
    let quoted = entry("/", vec![("with_items_from_csv", object(vec![("file_name", text("a.csv")), ("quote_char", text("'x"))]))]);
    assert_eq!(multi_csv_request::source(&quoted).unwrap(), ("a.csv".to_string(), b'\''));
    let default = entry("/", vec![("with_items_from_csv", object(vec![("file_name", text("a.csv")), ("quote_char", Value::Integer(1))]))]);
    assert_eq!(multi_csv_request::source(&default).unwrap(), ("a.csv".to_string(), b'"'));
    let nameless = entry("/", vec![("with_items_from_csv", object(vec![("quote_char", text("'"))]))]);
    assert_eq!(multi_csv_request::source(&nameless).unwrap_err().kind, ErrorKind::MissingField);
    for bad in ["", "\u{e9}"] {
        let doc = entry("/", vec![("with_items_from_csv", object(vec![("file_name", text("a.csv")), ("quote_char", text(bad))]))]);
        assert_eq!(multi_csv_request::source(&doc).unwrap_err().kind, ErrorKind::InvalidQuote);
    }
    let missing = multi_csv_request::expand("plans/main.yml", &quoted, &mut Vec::new(), &fixtures()).unwrap_err();
    assert_eq!((missing.kind, missing.detail.as_str()), (ErrorKind::MissingTable(b'\''), "plans/a.csv"));
    let lines = entry("/", vec![("with_items_from_file", text("/abs/lines.txt"))]);
    let missing = multi_file_request::expand("plans/main.yml", &lines, &mut Vec::new(), &fixtures()).unwrap_err();
    assert_eq!((missing.kind, missing.detail.as_str()), (ErrorKind::MissingLines, "/abs/lines.txt"));
}

#[test]
fn paths_are_taken_beside_the_parent() {
    assert_eq!(resolve_path("example/benchmark.yml", "comments.yml"), "example/comments.yml");
    assert_eq!(resolve_path("benchmark.yml", "comments.yml"), "comments.yml");
    assert_eq!(resolve_path("/a/b/c.yml", "../d.yml"), "/a/b/../d.yml");
    assert_eq!(resolve_path("/a/b/c.yml", "/etc/d.yml"), "/etc/d.yml");
    assert_eq!(resolve_path("", "d.yml"), "d.yml");
    assert_eq!(resolve_path("a/", ""), "a/");
}

fn plan_files() -> Files {
    let mut files = fixtures();
    files.documents.push((
        "example/benchmark.yml".to_string(),
        vec![object(vec![
            ("base", text("http://localhost:9000")),
            (
                "plan",
                Value::Array(vec![
                    object(vec![("name", text("first")), ("request", object(vec![("url", text("/1"))]))]),
                    object(vec![("name", text("spliced")), ("include", text("comments.yml"))]),
                    entry("/api/{{ item }}", vec![("with_items", numbers(&[7, 8]))]),
                    object(vec![("name", text("hidden")), ("tags", Value::Array(vec![text("never")])), ("request", object(vec![("url", text("/never"))]))]),
                    object(vec![("name", text("set")), ("assign", object(vec![("key", text("k")), ("value", text("v"))]))]),
                    object(vec![("name", text("same")), ("assert", object(vec![("key", text("k")), ("value", text("v"))]))]),
                    object(vec![("name", text("run")), ("exec", object(vec![("command", text("echo hi"))])), ("assign", text("out"))]),
                ]),
            ),
        ])],
    ));
    files
}

#[test]
fn documents_compile_in_order_with_splices_in_place() {
    let mut benchmark: Vec<Step> = Vec::new();
    let tags = Tags::new(None, None).unwrap();
    nested::expand_from_filepath("example/benchmark.yml", &mut benchmark, Some("plan"), &tags, &plan_files(), nested::DEPTH_LIMIT).unwrap();
    let names: Vec<&str> = benchmark.iter().map(|s| s.name().as_str()).collect();
    assert_eq!(names, vec!["first", "Fetch comments", "Wait", "foobar", "foobar", "set", "same", "run"]);
    assert!(matches!(benchmark[2], Step::Delay(_)));
    assert!(matches!(benchmark[5], Step::Assign(_)));
    assert!(matches!(benchmark[6], Step::Assert(_)));
    assert!(matches!(benchmark[7], Step::Exec(_)));
}

#[test]
fn missing_documents_are_named() {
    let mut benchmark: Vec<Step> = Vec::new();
    let tags = Tags::new(None, None).unwrap();
    let err = nested::expand_from_filepath("nowhere.yml", &mut benchmark, Some("plan"), &tags, &plan_files(), nested::DEPTH_LIMIT).unwrap_err();
    assert_eq!((err.kind, err.detail.as_str()), (ErrorKind::MissingDocument, "nowhere.yml"));
    let mut files = plan_files();
    files.documents.retain(|d| d.0 != "example/comments.yml");
    let err = nested::expand_from_filepath("example/benchmark.yml", &mut benchmark, Some("plan"), &tags, &files, nested::DEPTH_LIMIT).unwrap_err();
    assert_eq!((err.kind, err.detail.as_str()), (ErrorKind::MissingDocument, "example/comments.yml"));
    assert!(benchmark.is_empty());
    let err = nested::expand_from_filepath("example/benchmark.yml", &mut benchmark, Some("steps"), &tags, &plan_files(), nested::DEPTH_LIMIT).unwrap_err();
    assert_eq!((err.kind, err.detail.as_str()), (ErrorKind::MissingAccessor, "steps"));
    let err = nested::expand_from_filepath("example/benchmark.yml", &mut benchmark, None, &tags, &plan_files(), nested::DEPTH_LIMIT).unwrap_err();
    assert_eq!(err.kind, ErrorKind::NotASequence);
}

#[test]
fn unknown_nodes_and_cycles_are_refused() {
    let tags = Tags::new(None, None).unwrap();
    let mut files = Files::new();
    files.documents.push(("a.yml".to_string(), vec![Value::Array(vec![object(vec![("name", text("odd")), ("sleep", Value::Integer(1))])])]));
    let err = nested::expand_from_filepath("a.yml", &mut Vec::new(), None, &tags, &files, nested::DEPTH_LIMIT).unwrap_err();
    assert_eq!(err.kind, ErrorKind::UnknownNode);
    assert_eq!(err.detail, "{\"name\":\"odd\",\"sleep\":1}");
    let mut cycle = Files::new();
    cycle.documents.push(("a.yml".to_string(), vec![Value::Array(vec![object(vec![("include", text("b.yml"))])])]));
    cycle.documents.push(("b.yml".to_string(), vec![Value::Array(vec![object(vec![("include", text("a.yml"))])])]));
    let err = nested::expand_from_filepath("a.yml", &mut Vec::new(), None, &tags, &cycle, nested::DEPTH_LIMIT).unwrap_err();
    assert_eq!(err.kind, ErrorKind::IncludeTooDeep);
}

#[test]
fn tag_filters_apply_while_compiling() {
    let names = |tags: &Tags| -> Vec<String> {
        let mut benchmark: Vec<Step> = Vec::new();
        nested::expand_from_filepath("tagged.yml", &mut benchmark, None, tags, &tagged_files(), nested::DEPTH_LIMIT).unwrap();
        benchmark.iter().map(|s| s.name().clone()).collect()
    };
    assert_eq!(names(&Tags::new(None, None).unwrap()), vec!["plain", "a", "always"]);
    assert_eq!(names(&Tags::new(Some("never"), None).unwrap()), vec!["never", "always"]);
    assert_eq!(names(&Tags::new(Some("unrelated"), None).unwrap()), vec!["always"]);
    assert_eq!(names(&Tags::new(Some("a"), None).unwrap()), vec!["a", "always"]);
    assert_eq!(names(&Tags::new(None, Some("always,a")).unwrap()), vec!["plain"]);
}

fn tagged_files() -> Files {
    let tagged = |name: &str, tags: Vec<&str>| {
        let mut members = vec![("name", text(name)), ("request", object(vec![("url", text("/"))]))];
        if !tags.is_empty() {
            members.push(("tags", Value::Array(tags.into_iter().map(text).collect())));
        }
        object(members)
    };
    let mut files = Files::new();
    files.documents.push(("tagged.yml".to_string(), vec![Value::Array(vec![tagged("plain", vec![]), tagged("a", vec!["a"]), tagged("never", vec!["never"]), tagged("always", vec!["always"])])]));
    files
}
