use stela::feed::{published_feed, published_feed_now, rebuild_assets};
use stela::post::{usable_posts, Post};
use stela::reply::{html_reply, json_reply, rebuild_reply};
use stela::routes::admin_routes;
use stela::text::{decimal_string, trim_end_slashes};

fn post(slug: &str, body: &str, published: bool) -> Post {
    Post {
        slug: slug.to_string(),
        title: slug.to_uppercase(),
        body: body.to_string(),
        published,
    }
}

#[test]
fn the_feed_holds_published_posts_sorted_by_slug() {
    let stored = vec![
        post("zeta", "# Z", true),
        post("alpha", "*a*", true),
        post("draft", "d", false),
        post("beta", "b", true),
    ];
    let feed = published_feed(&stored, "https://blog.example/", "Mon, 1 Jan 2024 00:00:00 +0000");
    let slugs: Vec<&str> = feed.iter().map(|f| f.slug.as_str()).collect();
    assert_eq!(slugs, ["alpha", "beta", "zeta"]);
    assert_eq!(feed[0].url, "https://blog.example/posts/alpha");
    assert_eq!(feed[0].title, "ALPHA");
    assert_eq!(feed[0].body_html, "<p><em>a</em></p>\n");
    assert_eq!(feed[2].body_html.trim(), "<h1>Z</h1>");
    assert!(feed.iter().all(|f| f.published_rfc2822 == "Mon, 1 Jan 2024 00:00:00 +0000"));
}

#[test]
fn slugs_sort_by_bytes() {
    let stored = vec![post("b", "", true), post("a-b", "", true), post("a_b", "", true), post("a", "", true), post("ab", "", true)];
    let feed = published_feed(&stored, "http://x", "now");
    let slugs: Vec<&str> = feed.iter().map(|f| f.slug.as_str()).collect();
    let mut expected = vec!["b", "a-b", "a_b", "a", "ab"];
    expected.sort();
    assert_eq!(slugs, expected);
}

#[test]
fn urls_join_the_base_without_a_double_slash() {
    assert_eq!(trim_end_slashes("http://localhost:3000///"), "http://localhost:3000");
    assert_eq!(trim_end_slashes("http://localhost:3000"), "http://localhost:3000");
    assert_eq!(trim_end_slashes("///"), "");
    let feed = published_feed(&vec![post("p", "", true)], "http://localhost:3000//", "now");
    assert_eq!(feed[0].url, "http://localhost:3000/posts/p");
}

#[test]
fn a_rebuild_today_stamps_every_entry_with_one_date() {
    let stored = vec![post("a", "x", true), post("b", "y", true), post("c", "z", false)];
    let feed = published_feed_now(&stored, "http://x");
    assert_eq!(feed.len(), 2);
    assert!(!feed[0].published_rfc2822.is_empty());
    assert_eq!(feed[0].published_rfc2822, feed[1].published_rfc2822);
    // An RFC 2822 date ends with the zone offset.
    assert!(feed[0].published_rfc2822.ends_with("+0000"));
}

#[test]
fn a_rebuild_renders_three_pages_then_one_per_post() {
    let stored = vec![post("b", "", true), post("a", "", true), post("../evil", "", true)];
    let usable = usable_posts(&stored);
    let feed = published_feed(&usable, "http://x", "now");
    let jobs = rebuild_assets(&feed);
    let summary: Vec<(&str, &str, &str, Option<usize>)> = jobs
        .iter()
        .map(|j| (j.path.as_str(), j.template.as_str(), j.content_type.as_str(), j.post))
        .collect();
    assert_eq!(
        summary,
        [
            ("/index.html", "index.html", "text/html; charset=utf-8", None),
            ("/404.html", "404.html", "text/html; charset=utf-8", None),
            ("/rss.xml", "rss.xml", "application/xml; charset=utf-8", None),
            ("/posts/a", "post.html", "text/html; charset=utf-8", Some(0)),
            ("/posts/b", "post.html", "text/html; charset=utf-8", Some(1)),
        ]
    );
}

#[test]
fn the_rebuild_answer_reports_the_count() {
    let ok = rebuild_reply(Some(3));
    assert_eq!(ok.status, 200);
    assert_eq!(ok.content_type, "application/json");
    assert_eq!(ok.body, r#"{"rendered":3}"#);
    let failed = rebuild_reply(None);
    assert_eq!(failed.status, 500);
    assert_eq!(failed.body, r#"{"error":"rebuild failed"}"#);
}

#[test]
fn decimal_matches_format() {
    for n in [0u64, 7, 10, 43200, 1234567890, u64::MAX] {
        assert_eq!(decimal_string(n), format!("{n}"));
    }
}

#[test]
fn plain_replies_carry_their_content_type() {
    let page = html_reply(200, "<h1>x</h1>".to_string());
    assert_eq!(page.content_type, "text/html; charset=utf-8");
    assert_eq!(page.body, "<h1>x</h1>");
    let body = json_reply(500, "{}");
    assert_eq!((body.status, body.content_type.as_str()), (500, "application/json"));
}

#[test]
fn everything_administrative_hangs_off_the_admin_route() {
    let r = admin_routes("/secure-a7f3k29");
    assert_eq!(r.root, "/secure-a7f3k29");
    assert_eq!(r.login, "/secure-a7f3k29/login");
    assert_eq!(r.logout, "/secure-a7f3k29/logout");
    assert_eq!(r.rebuild, "/secure-a7f3k29/rebuild");
    assert_eq!(r.panel, "/secure-a7f3k29/panel");
    assert_eq!(r.data, "/secure-a7f3k29/data");
    assert_eq!(r.guarded, "/secure-a7f3k29/*");
}

#[test]
fn posts_with_the_same_slug_keep_their_store_order() {
    let mut first = post("same", "1", true);
    first.title = "first".to_string();
    let mut second = post("same", "2", true);
    second.title = "second".to_string();
    let stored = vec![post("z", "", true), first, post("a", "", true), second];
    let feed = published_feed(&stored, "http://x", "now");
    let titles: Vec<&str> = feed.iter().map(|f| f.title.as_str()).collect();
    assert_eq!(titles, ["A", "first", "second", "Z"]);
}

#[test]
fn the_rebuild_count_is_the_number_of_published_posts() {
    let stored = vec![post("a", "", true), post("b", "", false), post("c", "", true)];
    let feed = published_feed(&stored, "http://x", "now");
    assert_eq!(feed.len(), 2);
    assert_eq!(rebuild_reply(Some(feed.len() as u64)).body, r#"{"rendered":2}"#);
}
