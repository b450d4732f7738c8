use drill::actions::{Body, Request};
use drill::error::ErrorKind;
use drill::reader::Files;
use drill::value::Value;

fn text(s: &str) -> Value {
    Value::Text(s.to_string())
}

fn object(members: Vec<(&str, Value)>) -> Value {
    Value::Object(members.into_iter().map(|(k, v)| (k.to_string(), v)).collect())
}

fn request_entry(method: &str, body: Option<Value>) -> Value {
    let mut request = vec![("url", text("http://example.com")), ("method", text(method))];
    if let Some(body) = body {
        request.push(("body", body));
    }
    object(vec![("name", text("test_request")), ("request", object(request))])
}

fn create_yaml_request_with_string_body(body_content: &str) -> Value {
    request_entry("POST", Some(text(body_content)))
}

fn create_yaml_request_with_hex_body(hex_content: &str) -> Value {
    request_entry("POST", Some(object(vec![("hex", text(hex_content))])))
}

fn create_yaml_request_with_file_body(file_path: &str) -> Value {
    request_entry("POST", Some(object(vec![("file", text(file_path))])))
}

fn files_with(path: &str, content: &[u8]) -> Files {
    let mut files = Files::new();
    files.bytes.push((path.to_string(), content.to_vec()));
    files
}

#[test]
fn test_body_template_string() {
    let yaml = create_yaml_request_with_string_body("Hello, World!");
    let request = Request::new(&yaml, None, None, &Files::new()).unwrap();

    match request.body {
        Some(Body::Template(content)) => {
            assert_eq!(content, "Hello, World!");
        }
        _ => panic!("Expected Body::Template"),
    }
}

#[test]
fn test_body_hex() {
    let yaml = create_yaml_request_with_hex_body("48656c6c6f");
    let request = Request::new(&yaml, None, None, &Files::new()).unwrap();

    match request.body {
        Some(Body::Binary(data)) => {
            assert_eq!(data, b"Hello");
        }
        _ => panic!("Expected Body::Binary"),
    }
}

#[test]
fn test_body_hex_empty() {
    let yaml = create_yaml_request_with_hex_body("");
    let request = Request::new(&yaml, None, None, &Files::new()).unwrap();

    match request.body {
        Some(Body::Binary(data)) => {
            assert_eq!(data, b"");
        }
        _ => panic!("Expected Body::Binary with empty data"),
    }
}

#[test]
fn test_body_hex_complex() {
    let yaml = create_yaml_request_with_hex_body("48656c6c6f2c20576f726c6421");
    let request = Request::new(&yaml, None, None, &Files::new()).unwrap();

    match request.body {
        Some(Body::Binary(data)) => {
            assert_eq!(data, b"Hello, World!");
        }
        _ => panic!("Expected Body::Binary"),
    }
}

#[test]
fn test_body_file() {
    let test_content = b"Test file content";
    let file_path = "/tmp/body.txt";
    let yaml = create_yaml_request_with_file_body(file_path);

    let request = Request::new(&yaml, None, None, &files_with(file_path, test_content)).unwrap();

    match request.body {
        Some(Body::Binary(data)) => {
            assert_eq!(data, test_content);
        }
        _ => panic!("Expected Body::Binary"),
    }
}

#[test]
fn test_body_file_empty() {
    let file_path = "/tmp/empty.txt";
    let yaml = create_yaml_request_with_file_body(file_path);

    let request = Request::new(&yaml, None, None, &files_with(file_path, b"")).unwrap();

    match request.body {
        Some(Body::Binary(data)) => {
            assert_eq!(data, b"");
        }
        _ => panic!("Expected Body::Binary with empty data"),
    }
}

#[test]
fn test_body_file_binary_data() {
    let binary_content = vec![0x00, 0x01, 0x02, 0xFF, 0xFE, 0xFD];
    let file_path = "/tmp/binary.bin";
    let yaml = create_yaml_request_with_file_body(file_path);

    let request = Request::new(&yaml, None, None, &files_with(file_path, &binary_content)).unwrap();

    match request.body {
        Some(Body::Binary(data)) => {
            assert_eq!(data, binary_content);
        }
        _ => panic!("Expected Body::Binary"),
    }
}

#[test]
fn test_body_file_large_content() {
    let large_content: Vec<u8> = (0..10000).map(|i| (i % 256) as u8).collect();
    let file_path = "/tmp/large.bin";
    let yaml = create_yaml_request_with_file_body(file_path);

    let request = Request::new(&yaml, None, None, &files_with(file_path, &large_content)).unwrap();

    match request.body {
        Some(Body::Binary(data)) => {
            assert_eq!(data.len(), 10000);
            assert_eq!(data, large_content);
        }
        _ => panic!("Expected Body::Binary"),
    }
}

#[test]
fn test_body_none_for_get() {
    let yaml = request_entry("GET", None);
    let request = Request::new(&yaml, None, None, &Files::new()).unwrap();

    assert!(request.body.is_none());
}

#[test]
fn test_body_none_for_delete() {
    let yaml = request_entry("DELETE", None);
    let request = Request::new(&yaml, None, None, &Files::new()).unwrap();

    assert!(request.body.is_none());
}

#[test]
fn test_body_hex_uppercase() {
    let yaml = create_yaml_request_with_hex_body("48656C6C6F");
    let request = Request::new(&yaml, None, None, &Files::new()).unwrap();

    match request.body {
        Some(Body::Binary(data)) => {
            assert_eq!(data, b"Hello");
        }
        _ => panic!("Expected Body::Binary"),
    }
}

#[test]
fn test_body_hex_mixed_case() {
    let yaml = create_yaml_request_with_hex_body("48656c6C6F");
    let request = Request::new(&yaml, None, None, &Files::new()).unwrap();

    match request.body {
        Some(Body::Binary(data)) => {
            assert_eq!(data, b"Hello");
        }
        _ => panic!("Expected Body::Binary"),
    }
}

#[test]
fn test_body_hex_invalid() {
    let yaml = create_yaml_request_with_hex_body("InvalidHexString!");
    let err = Request::new(&yaml, None, None, &Files::new()).unwrap_err();
    assert_eq!(err.kind, ErrorKind::InvalidHex);
    assert_eq!(err.detail, "InvalidHexString!");
}

#[test]
fn test_body_file_not_found() {
    let yaml = create_yaml_request_with_file_body("/nonexistent/path/to/file.txt");
    let err = Request::new(&yaml, None, None, &Files::new()).unwrap_err();
    assert_eq!(err.kind, ErrorKind::MissingBytes);
    assert_eq!(err.detail, "/nonexistent/path/to/file.txt");
}

#[test]
fn test_body_priority_string_over_hex() {
    let yaml = create_yaml_request_with_string_body("48656c6c6f");
    let request = Request::new(&yaml, None, None, &Files::new()).unwrap();

    match request.body {
        Some(Body::Template(content)) => {
            assert_eq!(content, "48656c6c6f");
        }
        _ => panic!("Expected Body::Template when body is a string"),
    }
}

#[test]
fn test_body_put_method() {
    let yaml = request_entry("PUT", Some(text("PUT body content")));
    let request = Request::new(&yaml, None, None, &Files::new()).unwrap();

    match request.body {
        Some(Body::Template(content)) => {
            assert_eq!(content, "PUT body content");
        }
        _ => panic!("Expected Body::Template"),
    }
}

#[test]
fn test_body_patch_method() {
    let yaml = request_entry("PATCH", Some(object(vec![("hex", text("5061746368"))])));
    let request = Request::new(&yaml, None, None, &Files::new()).unwrap();

    match request.body {
        Some(Body::Binary(data)) => {
            assert_eq!(data, b"Patch");
        }
        _ => panic!("Expected Body::Binary"),
    }
}

#[test]
fn hex_digits_must_come_in_pairs() {
    for bad in ["4", "486", "4g", "\u{e9}", "48 65", "0x48"] {
        let err = Request::new(&create_yaml_request_with_hex_body(bad), None, None, &Files::new()).unwrap_err();
        assert_eq!(err.kind, ErrorKind::InvalidHex, "{:?}", bad);
    }
    let all = Request::new(&create_yaml_request_with_hex_body("00ff7F80aAbBcCdDeEfF0910"), None, None, &Files::new()).unwrap();
    assert_eq!(all.body, Some(Body::Binary(vec![0x00, 0xff, 0x7f, 0x80, 0xaa, 0xbb, 0xcc, 0xdd, 0xee, 0xff, 0x09, 0x10])));
}

#[test]
fn method_is_upper_cased_and_defaults_to_get() {
    let lower = Request::new(&request_entry("post", Some(text("b"))), None, None, &Files::new()).unwrap();
    assert_eq!(lower.method, "POST");
    assert_eq!(lower.body, Some(Body::Template("b".to_string())));
    let none = object(vec![("name", text("n")), ("request", object(vec![("url", text("/"))]))]);
    let request = Request::new(&none, Some(Value::Integer(7)), Some(3), &Files::new()).unwrap();
    assert_eq!(request.method, "GET");
    assert_eq!(request.url, "/");
    assert_eq!(request.with_item, Some(Value::Integer(7)));
    assert_eq!(request.index, Some(3));
    assert_eq!(request.assign, None);
    assert!(request.headers.is_empty());
}

#[test]
fn request_needs_name_url_body_and_string_headers() {
    let no_name = object(vec![("request", object(vec![("url", text("/"))]))]);
    assert_eq!(Request::new(&no_name, None, None, &Files::new()).unwrap_err().kind, ErrorKind::UnknownProperty);
    let no_request = object(vec![("name", text("n"))]);
    assert_eq!(Request::new(&no_request, None, None, &Files::new()).unwrap_err().kind, ErrorKind::MissingField);
    let no_url = object(vec![("name", text("n")), ("request", object(vec![]))]);
    assert_eq!(Request::new(&no_url, None, None, &Files::new()).unwrap_err().detail, "url");
    let map_name = object(vec![("name", object(vec![])), ("request", object(vec![("url", text("/"))]))]);
    assert_eq!(Request::new(&map_name, None, None, &Files::new()).unwrap_err().kind, ErrorKind::RequiredString);
    let map_assign = object(vec![("name", text("n")), ("assign", object(vec![])), ("request", object(vec![("url", text("/"))]))]);
    assert_eq!(Request::new(&map_assign, None, None, &Files::new()).unwrap_err().kind, ErrorKind::NotAString);
    assert_eq!(Request::new(&request_entry("POST", None), None, None, &Files::new()).unwrap_err().kind, ErrorKind::InvalidBody);
    assert_eq!(Request::new(&request_entry("POST", Some(Value::Integer(1))), None, None, &Files::new()).unwrap_err().kind, ErrorKind::InvalidBody);
    let headers = object(vec![
        ("name", text("n")),
        ("assign", text("kept")),
        ("request", object(vec![("url", Value::Integer(42)), ("headers", object(vec![("A", text("1")), ("B", text("{{ x }}"))]))])),
    ]);
    let request = Request::new(&headers, None, None, &Files::new()).unwrap();
    assert_eq!(request.url, "42");
    assert_eq!(request.assign, Some("kept".to_string()));
    assert_eq!(request.headers, vec![("A".to_string(), "1".to_string()), ("B".to_string(), "{{ x }}".to_string())]);
    let bad_header = object(vec![("name", text("n")), ("request", object(vec![("url", text("/")), ("headers", object(vec![("A", text("1")), ("B", Value::Integer(2))]))]))]);
    let err = Request::new(&bad_header, None, None, &Files::new()).unwrap_err();
    assert_eq!((err.kind, err.detail.as_str()), (ErrorKind::HeaderNotString, "B"));
}
