use serde_json::Value;
use stela::script::script_safe_json;

fn post_json(slug: &str, title: &str, body: &str, published: bool) -> Value {
    let mut m = serde_json::Map::new();
    m.insert("slug".to_string(), Value::String(slug.to_string()));
    m.insert("title".to_string(), Value::String(title.to_string()));
    m.insert("body".to_string(), Value::String(body.to_string()));
    m.insert("published".to_string(), Value::Bool(published));
    Value::Object(m)
}

#[test]
fn a_post_cannot_break_out_of_the_editor_script_block() {
    let posts = Value::Array(vec![post_json(
        "x",
        "t",
        "</script><img src=x onerror=alert(1)>",
        true,
    )]);

    let json = script_safe_json(&serde_json::to_string(&posts).unwrap());

    assert!(
        !json.contains("</script"),
        "the script block can be closed: {json}"
    );
    assert!(json.contains("<\\/script"));
}

#[test]
fn every_close_sequence_is_escaped_and_nothing_else_changes() {
    assert_eq!(script_safe_json("a</b</"), "a<\\/b<\\/");
    assert_eq!(script_safe_json("<</"), "<<\\/");
    assert_eq!(script_safe_json("< / <x"), "< / <x");
    assert_eq!(script_safe_json(""), "");
}

#[test]
fn the_escape_reads_back_as_the_same_json() {
    let json = serde_json::to_string(&Value::String("a</b<\\/c".to_string())).unwrap();
    let safe = script_safe_json(&json);
    assert!(!safe.contains("</"));
    assert_eq!(safe.replace("<\\/", "</"), json);
}

#[test]
fn the_escaped_json_denotes_the_same_posts() {
    let posts = Value::Array(vec![
        post_json("x", "</title>", "</script><img src=x onerror=alert(1)>", true),
        post_json("y", "a\\/b", "<\\/ and \\</", false),
    ]);
    let json = serde_json::to_string(&posts).unwrap();
    let safe = script_safe_json(&json);
    assert!(!safe.contains("</"));
    // `\/` is an escape in JSON as in JavaScript: the text still reads as the same posts.
    let back: Value = serde_json::from_str(&safe).unwrap();
    assert_eq!(back, posts);
}
