use drill::error::ErrorKind;
use drill::tags::{parse_tags, Tags};
use drill::value::Value;

fn text(s: &str) -> Value {
    Value::Text(s.to_string())
}

fn object(members: Vec<(&str, Value)>) -> Value {
    Value::Object(members.into_iter().map(|(k, v)| (k.to_string(), v)).collect())
}

// name: foo / request: { url: / } / tags: [...]
fn item_with_tags(tags: Option<Vec<&str>>) -> Value {
    let mut members = vec![("name", text("foo")), ("request", object(vec![("url", text("/"))]))];
    if let Some(tags) = tags {
        members.push(("tags", Value::Array(tags.into_iter().map(text).collect())));
    }
    object(members)
}

fn prepare_default_item() -> Value {
    item_with_tags(Some(vec!["tag1", "tag2"]))
}

#[test]
fn same_tags_and_skip_tags() {
    let err = Tags::new(Some("tag1"), Some("tag1")).unwrap_err();
    assert_eq!(err.kind, ErrorKind::ConflictingTags);
    assert_eq!(err.detail, "tag1");
}

#[test]
fn empty_tags_both() {
    let item = item_with_tags(None);
    let tags = Tags::new(None, None).unwrap();
    assert!(!tags.should_skip_item(&item));
}

#[test]
fn empty_tags() {
    let tags = Tags::new(None, None).unwrap();
    assert!(!tags.should_skip_item(&prepare_default_item()));
}

#[test]
fn tags_contains() {
    let tags = Tags::new(Some("tag1"), None).unwrap();
    assert!(!tags.should_skip_item(&prepare_default_item()));
}

#[test]
fn tags_contains_second() {
    let tags = Tags::new(Some("tag2"), None).unwrap();
    assert!(!tags.should_skip_item(&prepare_default_item()));
}

#[test]
fn tags_contains_both() {
    let tags = Tags::new(Some("tag1,tag2"), None).unwrap();
    assert!(!tags.should_skip_item(&prepare_default_item()));
}

#[test]
fn tags_not_contains() {
    let tags = Tags::new(Some("tag99"), None).unwrap();
    assert!(tags.should_skip_item(&prepare_default_item()));
}

#[test]
fn skip_tags_not_contains() {
    let tags = Tags::new(None, Some("tag99")).unwrap();
    assert!(!tags.should_skip_item(&prepare_default_item()));
}

#[test]
fn skip_tags_contains() {
    let tags = Tags::new(None, Some("tag1")).unwrap();
    assert!(tags.should_skip_item(&prepare_default_item()));
}

#[test]
fn skip_tags_contains_second() {
    let tags = Tags::new(None, Some("tag2")).unwrap();
    assert!(tags.should_skip_item(&prepare_default_item()));
}

#[test]
fn tags_contains_but_also_skip_tags_contains() {
    let tags = Tags::new(Some("tag1"), Some("tag2")).unwrap();
    assert!(tags.should_skip_item(&prepare_default_item()));
}

#[test]
fn never_skipped_by_default() {
    let item = item_with_tags(Some(vec!["never", "tag2"]));
    let tags = Tags::new(None, None).unwrap();
    assert!(tags.should_skip_item(&item));
}

#[test]
fn never_tag_skipped_even_when_other_tag_included() {
    let item = item_with_tags(Some(vec!["never", "tag2"]));
    let tags = Tags::new(Some("tag2"), None).unwrap();
    assert!(tags.should_skip_item(&item));
}

#[test]
fn include_never_tag() {
    let item = item_with_tags(Some(vec!["never", "tag2"]));
    let tags = Tags::new(Some("never"), None).unwrap();
    assert!(!tags.should_skip_item(&item));
}

#[test]
fn always_tag_included_by_default() {
    let item = item_with_tags(Some(vec!["always", "tag2"]));
    let tags = Tags::new(Some("tag99"), None).unwrap();
    assert!(!tags.should_skip_item(&item));
}

#[test]
fn skip_always_tag() {
    let item = item_with_tags(Some(vec!["always", "tag2"]));
    let tags = Tags::new(None, Some("always")).unwrap();
    assert!(tags.should_skip_item(&item));
}

#[test]
fn tag_lists_are_split_and_trimmed() {
    assert_eq!(parse_tags(" a , b,c\t"), vec!["a", "b", "c"]);
    assert_eq!(parse_tags(""), vec![""]);
    assert_eq!(parse_tags("one"), vec!["one"]);
    assert_eq!(parse_tags("a,,b"), vec!["a", "", "b"]);
    let tags = Tags::new(Some(" tag1 , tag9"), Some("x, y")).unwrap();
    assert_eq!(tags.tags, Some(vec!["tag1".to_string(), "tag9".to_string()]));
    assert_eq!(tags.skip_tags, Some(vec!["x".to_string(), "y".to_string()]));
    assert!(!tags.should_skip_item(&prepare_default_item()));
}

#[test]
fn never_wins_over_always_without_a_filter() {
    let item = item_with_tags(Some(vec!["always", "never"]));
    assert!(Tags::new(None, None).unwrap().should_skip_item(&item));
    assert!(Tags::new(Some("tag1"), None).unwrap().should_skip_item(&item));
    assert!(!Tags::new(Some("never"), None).unwrap().should_skip_item(&item));
}

#[test]
fn tags_that_are_no_strings_are_ignored() {
    let item = object(vec![("name", text("foo")), ("tags", Value::Array(vec![Value::Integer(1), Value::Null, text("tag1")]))]);
    assert!(!Tags::new(Some("tag1"), None).unwrap().should_skip_item(&item));
    assert!(Tags::new(Some("1"), None).unwrap().should_skip_item(&item));
    let not_a_list = object(vec![("name", text("foo")), ("tags", text("tag1"))]);
    assert!(Tags::new(Some("tag1"), None).unwrap().should_skip_item(&not_a_list));
    assert!(!Tags::new(None, Some("tag1")).unwrap().should_skip_item(&not_a_list));
}

#[test]
fn white_space_is_what_the_standard_library_says() {
    for n in 0..=0x10ffffu32 {
        if let Some(c) = char::from_u32(n) {
            let piece = format!("{}x{}", c, c);
            let trimmed = parse_tags(&piece);
            assert_eq!(trimmed[0] == "x", c.is_whitespace(), "U+{:04X}", n);
        }
    }
}
