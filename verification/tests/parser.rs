use drill::config::Config;
use drill::interpolator::Environment;
use drill::reader::read_yaml_doc_accessor;
use drill::value::Value;

fn text(s: &str) -> Value {
    Value::Text(s.to_string())
}

fn object(members: Vec<(&str, Value)>) -> Value {
    Value::Object(members.into_iter().map(|(k, v)| (k.to_string(), v)).collect())
}

fn id(n: i64) -> Value {
    object(vec![("id", Value::Integer(n))])
}

// base: 'http://localhost:9000' / iterations: 10000 / plan: <plan>
fn benchmark(plan: Vec<Value>) -> Value {
    object(vec![("base", text("http://localhost:9000")), ("iterations", Value::Integer(10000)), ("plan", Value::Array(plan))])
}

#[test]
fn happy_path() {
    let doc = benchmark(vec![
        object(vec![("name", text("Fetch users")), ("request", object(vec![("url", text("/api/users.json"))]))]),
        object(vec![
            ("name", text("Fetch some users by hash")),
            ("assign", text("fetchuser")),
            ("request", Value::Null),
            ("url", text("/api/users/{{ item.id }}")),
            ("shuffle", Value::Bool(true)),
            ("with_items", Value::Array(vec![id(70), id(73), id(75)])),
        ]),
    ]);

    let benchmark_config = match Config::new(&doc, &Environment::new(), false, false, false, false, 10, false) {
        Ok(config) => config,
        Err(err) => panic!("Failed to parse YAML: {}", err.message()),
    };

    assert_eq!(benchmark_config.base, "http://localhost:9000");
    assert_eq!(benchmark_config.iterations, 10000);
}

#[test]
fn deserialize_with_items_nums() {
    let doc = benchmark(vec![object(vec![("name", text("With items list")), ("with_items", Value::Array(vec![Value::Integer(70), Value::Integer(73), Value::Integer(75)]))])]);

    let plan = read_yaml_doc_accessor(&doc, Some("plan")).unwrap();
    assert!(plan[0].get_sequence("with_items").is_some(), "Array of numbers not parsed");

    let nums: Vec<i64> = plan[0]
        .get_sequence("with_items")
        .unwrap()
        .iter()
        .map(|elem| match elem.as_i64() {
            Some(num) => num,
            _ => panic!("Expected number"),
        })
        .collect();
    assert_eq!(nums.as_slice().len(), 3, "Array of numbers not fully parsed");

    let expect = [70, 73, 75];

    for item in nums.into_iter().enumerate() {
        assert_eq!(expect[item.0], item.1, "Item element does not match");
    }
}

#[test]
fn deserialize_with_items_maps() {
    let doc = benchmark(vec![object(vec![("name", text("With items map")), ("with_items", Value::Array(vec![id(70), id(73), id(75)]))])]);

    let plan = read_yaml_doc_accessor(&doc, Some("plan")).unwrap();
    assert!(plan[0].get_sequence("with_items").is_some(), "Array of maps not parsed");

    let nums: Vec<Vec<(String, Value)>> = plan[0]
        .get_sequence("with_items")
        .unwrap()
        .iter()
        .map(|elem| match elem.as_mapping() {
            Some(map) => map.clone(),
            _ => panic!("Expected map"),
        })
        .collect();
    assert_eq!(nums.as_slice().len(), 3, "Array of maps not fully parsed");

    let expect = [70, 73, 75];

    for item in nums.into_iter().enumerate() {
        let to_compare = Value::Object(item.1);
        assert_eq!(to_compare.as_mapping().unwrap().len(), 1, "Map size does not match");

        assert_eq!(
            expect[item.0],
            match to_compare.get_i64("id") {
                Some(id) => id,
                _ => panic!("Expected number"),
            },
            "Item element does not match"
        );
    }
}
