use stela::post::{usable_posts, Post};
use stela::slug::slug_is_safe;

fn post(slug: &str, published: bool) -> Post {
    Post {
        slug: slug.to_string(),
        title: format!("title of {slug}"),
        body: "body".to_string(),
        published,
    }
}

#[test]
fn unusable_slugs_are_refused() {
    assert!(slug_is_safe("hello"));
    assert!(slug_is_safe("a-post_2"));

    // Path traversal — this one would write an asset outside /posts/.
    assert!(!slug_is_safe("../../etc/passwd"));
    assert!(!slug_is_safe("a/b"));
    // Would land unescaped in the feed or the page.
    assert!(!slug_is_safe("a<b"));
    assert!(!slug_is_safe("a&b"));
    assert!(!slug_is_safe("a b"));
    // Ambiguous or useless.
    assert!(!slug_is_safe(""));
    assert!(!slug_is_safe("Hello"));
    assert!(!slug_is_safe(&"x".repeat(201)));
}

#[test]
fn slug_length_limit_is_inclusive() {
    assert!(slug_is_safe(&"x".repeat(200)));
    assert!(slug_is_safe("0"));
    assert!(slug_is_safe("-"));
    assert!(!slug_is_safe("é"));
    assert!(!slug_is_safe("a.b"));
    assert!(!slug_is_safe("a%2f"));
}

#[test]
fn the_store_filter_keeps_order_and_drops_unsafe_slugs() {
    let stored = vec![
        post("b-post", true),
        post("../x", true),
        post("a-post", false),
        post("Upper", true),
        post("c", true),
    ];
    let usable = usable_posts(&stored);
    let slugs: Vec<&str> = usable.iter().map(|p| p.slug.as_str()).collect();
    assert_eq!(slugs, ["b-post", "a-post", "c"]);
    assert!(!usable[1].published);
    assert_eq!(usable[2].title, "title of c");
}
