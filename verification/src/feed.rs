use vstd::prelude::*;
use vstd::utf8::encode_utf8;

use crate::markdown::{commonmark_html, markdown_to_html};
use crate::order::{
    bytes_le, bytes_le_exec, lemma_bytes_le_reflexive, lemma_bytes_le_total, lemma_bytes_le_transitive,
};
use crate::post::{posts_view, Post, PostView};
use crate::text::{ends_with, trim_end_slashes, trim_trailing_slashes};

verus! {

broadcast use vstd::seq_lib::group_to_multiset_ensures;

/// A published post as the templates see it: what the index, the post page
/// and the feed render.
pub struct FeedPost {
    pub slug: String,
    pub title: String,
    /// Absolute address of the post's page.
    pub url: String,
    pub body_html: String,
    pub published_rfc2822: String,
}

/// What a feed entry holds, as plain values.
pub struct FeedPostView {
    pub slug: Seq<char>,
    pub title: Seq<char>,
    pub url: Seq<char>,
    pub body_html: Seq<char>,
    pub published_rfc2822: Seq<char>,
}

impl View for FeedPost {
    type V = FeedPostView;

    open spec fn view(&self) -> FeedPostView {
        FeedPostView {
            slug: self.slug@,
            title: self.title@,
            url: self.url@,
            body_html: self.body_html@,
            published_rfc2822: self.published_rfc2822@,
        }
    }
}

/// The views of a list of feed entries, in order.
pub open spec fn feed_views(feed: Seq<FeedPost>) -> Seq<FeedPostView> {
    feed.map_values(|f: FeedPost| f@)
}

/// Where a post lives on the site: the base URL without its trailing slashes,
/// then `/posts/`, then the slug.
pub open spec fn post_url(base_url: Seq<char>, slug: Seq<char>) -> Seq<char> {
    trim_trailing_slashes(base_url) + "/posts/"@ + slug
}

/// The feed entry that a post becomes when the site is built at `now`.
pub open spec fn feed_entry(p: PostView, base_url: Seq<char>, now: Seq<char>) -> FeedPostView {
    FeedPostView {
        slug: p.slug,
        title: p.title,
        url: post_url(base_url, p.slug),
        body_html: commonmark_html(p.body),
        published_rfc2822: now,
    }
}

/// The entries of the published posts, in store order.
pub open spec fn published_entries(stored: Seq<PostView>, base_url: Seq<char>, now: Seq<char>) -> Seq<FeedPostView> {
    stored.filter(|p: PostView| p.published).map_values(|p: PostView| feed_entry(p, base_url, now))
}

/// What entries are ordered by: the bytes of the slug.
pub open spec fn slug_key(f: FeedPostView) -> Seq<u8> {
    encode_utf8(f.slug)
}

/// Entries in ascending slug order.
pub open spec fn sorted_by_slug(feed: Seq<FeedPostView>) -> bool {
    forall|i: int, j: int|
        0 <= i < j < feed.len() ==> bytes_le(#[trigger] slug_key(feed[i]), #[trigger] slug_key(feed[j]))
}

/// `result` is `source` rearranged: `order[i]` is where `result[i]` stood in
/// `source`, each position is used once, and entries with the same slug keep
/// their relative order.
pub open spec fn stable_rearrangement(result: Seq<FeedPostView>, source: Seq<FeedPostView>, order: Seq<int>) -> bool {
    &&& order.len() == result.len()
    &&& result.len() == source.len()
    &&& forall|i: int| 0 <= i < result.len() ==> 0 <= #[trigger] order[i] < source.len() && result[i] == source[order[i]]
    &&& forall|i: int, j: int| 0 <= i < j < order.len() ==> #[trigger] order[i] != #[trigger] order[j]
    &&& forall|i: int, j: int|
        0 <= i < j < result.len() && #[trigger] result[i].slug == #[trigger] result[j].slug ==> order[i] < order[j]
}

proof fn lemma_published_entries_step(stored: Seq<PostView>, i: int, base_url: Seq<char>, now: Seq<char>)
    requires
        0 <= i < stored.len(),
    ensures
        published_entries(stored.take(i + 1), base_url, now) == if stored[i].published {
            published_entries(stored.take(i), base_url, now).push(feed_entry(stored[i], base_url, now))
        } else {
            published_entries(stored.take(i), base_url, now)
        },
{
    reveal_with_fuel(Seq::<_>::filter, 1);
    let pred = |p: PostView| p.published;
    let f = |p: PostView| feed_entry(p, base_url, now);
    assert(stored.take(i + 1).drop_last() =~= stored.take(i));
    assert(stored.take(i + 1).last() == stored[i]);
    let before = stored.take(i).filter(pred);
    if stored[i].published {
        assert(stored.take(i + 1).filter(pred) =~= before.push(stored[i]));
        assert(before.push(stored[i]).map_values(f) =~= before.map_values(f).push(f(stored[i])));
    } else {
        assert(stored.take(i + 1).filter(pred) =~= before);
    }
}

proof fn lemma_insert_to_multiset<A>(s: Seq<A>, k: int, x: A)
    requires
        0 <= k <= s.len(),
    ensures
        s.insert(k, x).to_multiset() =~= s.to_multiset().insert(x),
{
    let t = s.insert(k, x);
    assert(t.remove(k) =~= s);
    assert(t[k] == x);
    assert(t.contains(x));
    assert(s.to_multiset() =~= t.to_multiset().remove(x));
    assert(t.to_multiset().count(x) > 0);
}

/// The entry for one post.
fn entry_for(p: &Post, base_url: &str, now: &str) -> (f: FeedPost)
    ensures
        f@ == feed_entry(p@, base_url@, now@),
{
    let mut url = String::from_str(trim_end_slashes(base_url));
    url.append("/posts/");
    url.append(p.slug.as_str());
    FeedPost {
        slug: p.slug.clone(),
        title: p.title.clone(),
        url,
        body_html: markdown_to_html(p.body.as_str()),
        published_rfc2822: String::from_str(now),
    }
}

/// Puts `x` after every entry whose slug sorts no later than its own.
fn insert_by_slug(sorted: &mut Vec<FeedPost>, x: FeedPost) -> (k: usize)
    requires
        sorted_by_slug(feed_views(old(sorted)@)),
    ensures
        k <= old(sorted)@.len(),
        feed_views(final(sorted)@) == feed_views(old(sorted)@).insert(k as int, x@),
        forall|j: int|
            k <= j < old(sorted)@.len() ==> !bytes_le(
                #[trigger] slug_key(feed_views(old(sorted)@)[j]),
                slug_key(x@),
            ),
        sorted_by_slug(feed_views(final(sorted)@)),
        feed_views(final(sorted)@).to_multiset() =~= feed_views(old(sorted)@).to_multiset().insert(x@),
{
    let ghost v = feed_views(sorted@);
    let mut k = sorted.len();
    while k > 0 && !bytes_le_exec(sorted[k - 1].slug.as_str().as_bytes(), x.slug.as_str().as_bytes())
        invariant
            sorted@ == old(sorted)@,
            v == feed_views(sorted@),
            k <= sorted@.len(),
            forall|j: int| k <= j < v.len() ==> !bytes_le(#[trigger] slug_key(v[j]), slug_key(x@)),
        decreases k,
    {
        k = k - 1;
    }
    proof {
        assert forall|j: int| k <= j < v.len() implies bytes_le(slug_key(x@), #[trigger] slug_key(v[j])) by {
            lemma_bytes_le_total(slug_key(x@), slug_key(v[j]));
        }
        assert forall|j: int| 0 <= j < k implies bytes_le(#[trigger] slug_key(v[j]), slug_key(x@)) by {
            if j < k - 1 {
                lemma_bytes_le_transitive(slug_key(v[j]), slug_key(v[k - 1]), slug_key(x@));
            }
        }
    }
    let ghost xv = x@;
    sorted.insert(k, x);
    proof {
        let w = feed_views(sorted@);
        assert(w =~= v.insert(k as int, xv));
        lemma_insert_to_multiset(v, k as int, xv);
        assert forall|i: int, j: int| 0 <= i < j < w.len() implies bytes_le(
            #[trigger] slug_key(w[i]),
            #[trigger] slug_key(w[j]),
        ) by {
            if i < k && j == k {
            } else if i == k && j > k {
            } else if i < k && j > k {
                lemma_bytes_le_transitive(slug_key(w[i]), slug_key(xv), slug_key(w[j]));
            } else if i < k {
            } else {
            }
        }
    }
    k
}

/// The published posts as feed entries, built at `now` and ordered by slug.
///
/// Order and content are the feed's, the index's and the post pages': each
/// published post once, its URL under `base_url`, its markdown rendered. The
/// sort is stable: entries with the same slug keep their store order.
pub fn published_feed(stored: &Vec<Post>, base_url: &str, now: &str) -> (feed: Vec<FeedPost>)
    ensures
        sorted_by_slug(feed_views(feed@)),
        feed_views(feed@).to_multiset() =~= published_entries(posts_view(stored@), base_url@, now@).to_multiset(),
        exists|order: Seq<int>|
            stable_rearrangement(
                feed_views(feed@),
                published_entries(posts_view(stored@), base_url@, now@),
                order,
            ),
{
    let mut feed: Vec<FeedPost> = Vec::new();
    let ghost mut order: Seq<int> = Seq::empty();
    let n = stored.len();
    let mut i: usize = 0;
    let ghost all = posts_view(stored@);
    proof {
        reveal_with_fuel(Seq::<_>::filter, 1);
        assert(all.take(0) =~= Seq::<PostView>::empty());
        assert(feed_views(feed@) =~= Seq::<FeedPostView>::empty());
    }
    while i < n
        invariant
            n == stored.len(),
            i <= n,
            all == posts_view(stored@),
            sorted_by_slug(feed_views(feed@)),
            feed_views(feed@).to_multiset() =~= published_entries(all.take(i as int), base_url@, now@).to_multiset(),
            stable_rearrangement(feed_views(feed@), published_entries(all.take(i as int), base_url@, now@), order),
        decreases n - i,
    {
        let p = &stored[i];
        proof {
            lemma_published_entries_step(all, i as int, base_url@, now@);
        }
        if p.published {
            let entry = entry_for(p, base_url, now);
            let ghost xv = entry@;
            let ghost before = feed_views(feed@);
            let ghost source = published_entries(all.take(i as int), base_url@, now@);
            let k = insert_by_slug(&mut feed, entry);
            proof {
                let m = source.len() as int;
                let result = feed_views(feed@);
                let source2 = source.push(xv);
                let order2 = order.insert(k as int, m);
                assert(result =~= before.insert(k as int, xv));
                assert forall|a: int| 0 <= a < result.len() implies 0 <= #[trigger] order2[a] < source2.len()
                    && result[a] == source2[order2[a]] by {
                    if a < k {
                        assert(order2[a] == order[a]);
                    } else if a == k {
                    } else {
                        assert(order2[a] == order[a - 1]);
                    }
                }
                assert forall|a: int, b: int| 0 <= a < b < order2.len() implies #[trigger] order2[a] != #[trigger] order2[b] by {
                    if a < k && b < k {
                    } else if a < k && b == k {
                    } else if a < k {
                        assert(order2[b] == order[b - 1]);
                    } else if a == k {
                        assert(order2[b] == order[b - 1]);
                    } else {
                        assert(order2[a] == order[a - 1]);
                        assert(order2[b] == order[b - 1]);
                    }
                }
                assert forall|a: int, b: int|
                    0 <= a < b < result.len() && #[trigger] result[a].slug == #[trigger] result[b].slug implies order2[a] < order2[b] by {
                    if a < k && b < k {
                    } else if a < k && b == k {
                    } else if a < k {
                        assert(order2[b] == order[b - 1]);
                        assert(result[a] == before[a]);
                        assert(result[b] == before[b - 1]);
                    } else if a == k {
                        assert(result[b] == before[b - 1]);
                        assert(slug_key(result[b]) == slug_key(xv));
                        lemma_bytes_le_reflexive(slug_key(xv));
                        assert(!bytes_le(slug_key(before[b - 1]), slug_key(xv)));
                    } else {
                        assert(order2[a] == order[a - 1]);
                        assert(order2[b] == order[b - 1]);
                        assert(result[a] == before[a - 1]);
                        assert(result[b] == before[b - 1]);
                    }
                }
                order = order2;
                assert(stable_rearrangement(result, source2, order));
            }
        }
        i = i + 1;
    }
    proof {
        assert(all.take(n as int) =~= all);
    }
    feed
}

/// Calls `chrono::Utc::now` and renders the reading with `DateTime::to_rfc2822`.
/// Which date it is depends on the clock and is left unsaid. What every
/// reading holds, as chrono's `write_rfc2822` writes it for the UTC offset,
/// is stated: the string ends with ` +0000`. chrono panics on a clock before
/// year 0 or after year 9999.
#[verifier::external_body]
fn clock_rfc2822() -> (date: String)
    ensures
        ends_with(date@, " +0000"@),
{
    chrono::Utc::now().to_rfc2822()
}

/// The published posts as feed entries, built now and ordered by slug
/// (stably, as `published_feed` orders them).
///
/// There is no per-post date yet, so every entry carries the build time, an
/// RFC 2822 UTC date read from the clock. Like the clock it reads, this panics
/// when the machine's clock stands outside the years 0 to 9999; no `requires`
/// can rule that out.
pub fn published_feed_now(stored: &Vec<Post>, base_url: &str) -> (feed: Vec<FeedPost>)
    ensures
        sorted_by_slug(feed_views(feed@)),
        exists|now: Seq<char>, order: Seq<int>|
            ends_with(now, " +0000"@) && #[trigger] stable_rearrangement(
                feed_views(feed@),
                published_entries(posts_view(stored@), base_url@, now),
                order,
            ) && feed_views(feed@).to_multiset() == published_entries(
                posts_view(stored@),
                base_url@,
                now,
            ).to_multiset(),
{
    let now = clock_rfc2822();
    let feed = published_feed(stored, base_url, now.as_str());
    proof {
        let w = now@;
        let entries = published_entries(posts_view(stored@), base_url@, w);
        let order = choose|o: Seq<int>| stable_rearrangement(feed_views(feed@), entries, o);
        assert(stable_rearrangement(feed_views(feed@), entries, order));
        assert(feed_views(feed@).to_multiset() == entries.to_multiset());
    }
    feed
}

/// Content type of the rendered pages.
pub const HTML: &'static str = "text/html; charset=utf-8";

/// Content type of the feed.
pub const XML: &'static str = "application/xml; charset=utf-8";

/// Content type of the stylesheet.
pub const CSS: &'static str = "text/css; charset=utf-8";

/// One page to render and push into the asset store: under which path, from
/// which template, with which content type, and for which entry of the feed
/// if it is a post page.
pub struct AssetJob {
    pub path: String,
    pub template: String,
    pub content_type: String,
    pub post: Option<usize>,
}

/// What an asset job holds, as plain values.
pub struct AssetJobView {
    pub path: Seq<char>,
    pub template: Seq<char>,
    pub content_type: Seq<char>,
    pub post: Option<usize>,
}

impl View for AssetJob {
    type V = AssetJobView;

    open spec fn view(&self) -> AssetJobView {
        AssetJobView {
            path: self.path@,
            template: self.template@,
            content_type: self.content_type@,
            post: self.post,
        }
    }
}

/// The views of a list of asset jobs, in order.
pub open spec fn jobs_view(jobs: Seq<AssetJob>) -> Seq<AssetJobView> {
    jobs.map_values(|j: AssetJob| j@)
}

/// The asset path of a post's page.
pub open spec fn post_asset_path(slug: Seq<char>) -> Seq<char> {
    "/posts/"@ + slug
}

/// The page of the `i`-th feed entry.
pub open spec fn post_job(slug: Seq<char>, i: int) -> AssetJobView {
    AssetJobView {
        path: post_asset_path(slug),
        template: "post.html"@,
        content_type: HTML@,
        post: Some(i as usize),
    }
}

/// Every page a rebuild renders: the index, the not-found page and the feed,
/// then one page per entry, in the entries' order.
pub open spec fn rebuild_jobs(feed: Seq<FeedPostView>) -> Seq<AssetJobView> {
    seq![
        AssetJobView { path: "/index.html"@, template: "index.html"@, content_type: HTML@, post: None },
        AssetJobView { path: "/404.html"@, template: "404.html"@, content_type: HTML@, post: None },
        AssetJobView { path: "/rss.xml"@, template: "rss.xml"@, content_type: XML@, post: None },
    ] + Seq::new(feed.len(), |i: int| post_job(feed[i].slug, i))
}

fn job(path: &str, template: &str, content_type: &str, post: Option<usize>) -> (j: AssetJob)
    ensures
        j@ == (AssetJobView { path: path@, template: template@, content_type: content_type@, post }),
{
    AssetJob {
        path: String::from_str(path),
        template: String::from_str(template),
        content_type: String::from_str(content_type),
        post,
    }
}

/// The pages a rebuild renders for these feed entries.
pub fn rebuild_assets(feed: &Vec<FeedPost>) -> (jobs: Vec<AssetJob>)
    ensures
        jobs_view(jobs@) == rebuild_jobs(feed_views(feed@)),
{
    let mut jobs: Vec<AssetJob> = Vec::new();
    jobs.push(job("/index.html", "index.html", HTML, None));
    jobs.push(job("/404.html", "404.html", HTML, None));
    jobs.push(job("/rss.xml", "rss.xml", XML, None));
    let ghost target = rebuild_jobs(feed_views(feed@));
    proof {
        assert(jobs_view(jobs@) =~= target.take(3));
    }
    let n = feed.len();
    let mut i: usize = 0;
    while i < n
        invariant
            n == feed.len(),
            i <= n,
            target == rebuild_jobs(feed_views(feed@)),
            jobs_view(jobs@) == target.take(3 + i),
        decreases n - i,
    {
        let mut path = String::from_str("/posts/");
        path.append(feed[i].slug.as_str());
        let ghost before = jobs_view(jobs@);
        let j = job(path.as_str(), "post.html", HTML, Some(i));
        proof {
            assert(j@ == target[3 + i]);
        }
        jobs.push(j);
        proof {
            assert(jobs_view(jobs@) =~= before.push(j@));
            assert(target.take(3 + i + 1) =~= target.take(3 + i).push(target[3 + i]));
        }
        i = i + 1;
    }
    proof {
        assert(target.take(3 + n) =~= target);
    }
    jobs
}

} // verus!
