use exiftool::{json_params, parse_json, preview_params, tag_params, JsonError};

fn b(s: &str) -> Vec<u8> {
    s.as_bytes().to_vec()
}

#[test]
fn json_params_prepends_flag() {
    let r = json_params(vec![b("-S"), b("a.jpg")]);
    assert_eq!(r, vec![b("-j"), b("-S"), b("a.jpg")]);
}

#[test]
fn tag_params_builds_selectors_and_appends_files() {
    let r = tag_params(
        vec![b("-fast")],
        vec![b("Author"), b("CreateDate")],
        vec![b("a.jpg"), b("b.jpg")],
    );
    assert_eq!(r, vec![b("-fast"), b("-Author"), b("-CreateDate"), b("a.jpg"), b("b.jpg")]);
}

#[test]
fn tag_params_empty_tags_and_files() {
    let r = tag_params(vec![b("-n")], vec![], vec![]);
    assert_eq!(r, vec![b("-n")]);
}

#[test]
fn preview_params_layout() {
    let r = preview_params(b("photo.jpg"));
    assert_eq!(r, vec![b("-b"), b("-PreviewImage"), b("photo.jpg")]);
}

#[test]
fn parse_json_structured_value() {
    // A child that emits [{"a":1}] before its terminator decodes to a
    // one-element list holding the mapping {a: 1}.
    let v = parse_json(&b("[{\"a\":1}]")).expect("well-formed JSON must parse");
    let expected: serde_json::Value = serde_json::from_str("[{\"a\":1}]").unwrap();
    assert_eq!(v, expected);
    let arr = v.as_array().expect("a list");
    assert_eq!(arr.len(), 1);
    let obj = arr[0].as_object().expect("a mapping");
    assert_eq!(obj.get("a").and_then(|x| x.as_i64()), Some(1));
}

#[test]
fn parse_json_rejects_malformed_output() {
    assert_eq!(parse_json(&b("[{\"a\":1}")).err(), Some(JsonError::Malformed));
    assert_eq!(parse_json(&b("")).err(), Some(JsonError::Malformed));
}

#[test]
fn parse_json_is_not_the_identity() {
    // The parsed value reflects JSON structure, not the raw bytes: two
    // spellings of one document parse to the same value.
    let v1 = parse_json(&b("{\"k\": 1}")).unwrap();
    let v2 = parse_json(&b("{ \"k\" :1 }")).unwrap();
    assert_eq!(v1, v2);
}
