use vstd::prelude::*;

use crate::admin::{admitted, argon2_verify};
use crate::cookie::{
    first_session_value, next_separator, session_cookie_prefix, session_token_in, starts_with,
};
use crate::feed::{feed_entry, post_asset_path, published_entries, rebuild_jobs, FeedPostView, HTML, XML};
use crate::post::{is_usable, spec_usable_posts, PostView};
use crate::reply::{rebuild_reply_view, INTERNAL_SERVER_ERROR, JSON, OK};
use crate::routes::spec_admin_routes;
use crate::slug::{is_slug_char, spec_slug_is_safe};
use crate::text::{
    decimal, digit_char, is_white_space, lemma_trim_start_prefix, trim, trim_end, trim_start,
};
use crate::token::{hex_digit, hex_lower};

verus! {

broadcast use vstd::seq_lib::group_to_multiset_ensures;

/// A safe slug is a single path segment: its page lives at `/posts/<slug>`,
/// whose only slashes are the two of `/posts/` and which holds no dot, so it
/// cannot reach outside `/posts/`.
pub proof fn lemma_safe_slug_page_stays_in_posts(slug: Seq<char>)
    requires
        spec_slug_is_safe(slug),
    ensures
        ({
            let path = post_asset_path(slug);
            &&& starts_with(path, "/posts/"@)
            &&& forall|i: int| 0 <= i < path.len() && #[trigger] path[i] == '/' ==> i == 0 || i == 6
            &&& forall|i: int| 0 <= i < path.len() ==> #[trigger] path[i] != '.'
        }),
{
    reveal_strlit("/posts/");
    let path = post_asset_path(slug);
    assert(path.take(7) =~= "/posts/"@);
    assert forall|i: int| 0 <= i < path.len() && #[trigger] path[i] == '/' implies i == 0 || i == 6 by {
        if i >= 7 {
            assert(path[i] == slug[i - 7]);
            assert(is_slug_char(slug[i - 7]));
        }
    }
    assert forall|i: int| 0 <= i < path.len() implies #[trigger] path[i] != '.' by {
        if i >= 7 {
            assert(path[i] == slug[i - 7]);
            assert(is_slug_char(slug[i - 7]));
        }
    }
}

/// Every post that survives the store filter has a safe slug.
pub proof fn lemma_usable_posts_are_safe(stored: Seq<PostView>)
    ensures
        forall|i: int|
            0 <= i < spec_usable_posts(stored).len() ==> spec_slug_is_safe(
                #[trigger] spec_usable_posts(stored)[i].slug,
            ),
{
    assert forall|i: int| 0 <= i < spec_usable_posts(stored).len() implies spec_slug_is_safe(
        #[trigger] spec_usable_posts(stored)[i].slug,
    ) by {
        stored.lemma_filter_pred(|p: PostView| is_usable(p), i);
    }
}

/// A feed built from the posts the store filter let through holds only safe
/// slugs, so every post page a rebuild writes stays inside `/posts/`.
pub proof fn lemma_feed_slugs_are_safe(
    stored: Seq<PostView>,
    base_url: Seq<char>,
    now: Seq<char>,
    feed: Seq<FeedPostView>,
)
    requires
        feed.to_multiset() == published_entries(spec_usable_posts(stored), base_url, now).to_multiset(),
    ensures
        forall|i: int| 0 <= i < feed.len() ==> spec_slug_is_safe(#[trigger] feed[i].slug),
{
    let usable = spec_usable_posts(stored);
    let pred = |p: PostView| p.published;
    let published = usable.filter(pred);
    let entries = published_entries(usable, base_url, now);
    assert forall|i: int| 0 <= i < feed.len() implies spec_slug_is_safe(#[trigger] feed[i].slug) by {
        let x = feed[i];
        assert(feed.contains(x));
        assert(feed.to_multiset().count(x) > 0);
        assert(entries.contains(x));
        let j = choose|j: int| 0 <= j < entries.len() && entries[j] == x;
        assert(entries[j] == feed_entry(published[j], base_url, now));
        assert(published.contains(published[j]));
        usable.lemma_filter_contains_rev(pred, published[j]);
        let k = choose|k: int| 0 <= k < usable.len() && usable[k] == published[j];
        lemma_usable_posts_are_safe(stored);
        assert(spec_slug_is_safe(usable[k].slug));
    }
}

/// A rebuild renders exactly one page per published post: the feed holds as
/// many entries as there are published posts, which is the count a rebuild
/// reports.
pub proof fn lemma_feed_counts_published_posts(
    stored: Seq<PostView>,
    base_url: Seq<char>,
    now: Seq<char>,
    feed: Seq<FeedPostView>,
)
    requires
        feed.to_multiset() == published_entries(stored, base_url, now).to_multiset(),
    ensures
        feed.len() == stored.filter(|p: PostView| p.published).len(),
{
    assert(feed.len() == feed.to_multiset().len());
    assert(published_entries(stored, base_url, now).len() == published_entries(stored, base_url, now).to_multiset().len());
}

proof fn lemma_no_separator_from(s: Seq<char>, i: int)
    requires
        0 <= i <= s.len(),
        forall|j: int| i <= j < s.len() ==> #[trigger] s[j] != ';',
    ensures
        next_separator(s, i) == s.len(),
    decreases s.len() - i,
{
    if i < s.len() {
        lemma_no_separator_from(s, i + 1);
    }
}

/// A browser that sends back the session cookie it was given is recognised:
/// for a non-empty token with no `;` in it and no white space at its end, the
/// header `session_token=<token>` presents exactly that token.
pub proof fn lemma_session_cookie_roundtrip(token: Seq<char>)
    requires
        token.len() > 0,
        forall|i: int| 0 <= i < token.len() ==> #[trigger] token[i] != ';',
        !is_white_space(token.last()),
    ensures
        session_token_in(session_cookie_prefix() + token) == Some(token),
{
    reveal_strlit("session_token");
    reveal_strlit("=");
    let prefix = session_cookie_prefix();
    let h = prefix + token;
    assert(prefix.len() == 14);
    assert forall|j: int| 0 <= j < h.len() implies #[trigger] h[j] != ';' by {
        if j >= 14 {
            assert(h[j] == token[j - 14]);
        }
    }
    lemma_no_separator_from(h, 0);
    assert(h.subrange(0, h.len() as int) =~= h);
    assert(h.last() == token.last());
    assert(trim_end(h) == h);
    assert(h[0] == 's');
    assert(trim_start(h) == h);
    assert(trim(h) == h);
    assert(h.take(14) =~= prefix);
    assert(h.skip(14) =~= token);
    assert(first_session_value(h, 0) == Some(token));
}

/// A session token is lowercase hexadecimal, two digits per byte: it holds no
/// `;` and no white space, so it travels through a cookie unchanged.
pub proof fn lemma_hex_token_shape(bytes: Seq<u8>)
    ensures
        hex_lower(bytes).len() == 2 * bytes.len(),
        forall|i: int|
            0 <= i < hex_lower(bytes).len() ==> {
                let c = #[trigger] hex_lower(bytes)[i];
                ('0' <= c && c <= '9') || ('a' <= c && c <= 'f')
            },
    decreases bytes.len(),
{
    if bytes.len() > 0 {
        lemma_hex_token_shape(bytes.drop_last());
        let b = bytes.last();
        assert(b / 16 < 16 && b % 16 < 16);
        let hi = hex_digit((b / 16) as nat);
        let lo = hex_digit((b % 16) as nat);
        assert(('0' <= hi && hi <= '9') || ('a' <= hi && hi <= 'f'));
        assert(('0' <= lo && lo <= '9') || ('a' <= lo && lo <= 'f'));
    }
}

/// Every token made from random bytes, once set as the session cookie, is
/// read back from the browser's `Cookie` header.
pub proof fn lemma_new_token_is_recognised(bytes: Seq<u8>)
    requires
        bytes.len() > 0,
    ensures
        session_token_in(session_cookie_prefix() + hex_lower(bytes)) == Some(hex_lower(bytes)),
{
    let t = hex_lower(bytes);
    lemma_hex_token_shape(bytes);
    assert forall|i: int| 0 <= i < t.len() implies #[trigger] t[i] != ';' by {
        let c = t[i];
        assert(('0' <= c && c <= '9') || ('a' <= c && c <= 'f'));
    }
    let c = t[t.len() - 1];
    assert(('0' <= c && c <= '9') || ('a' <= c && c <= 'f'));
    lemma_session_cookie_roundtrip(t);
}

/// The configured admin can always sign in: a hash made from the admin's
/// password accepts that password together with the admin's name.
pub proof fn lemma_admin_can_sign_in(admin_user: Seq<char>, password: Seq<char>, hash: Seq<char>)
    requires
        argon2_verify(password, hash) == Some(true),
    ensures
        admitted(Some((admin_user, password)), admin_user, hash) == Some(admin_user),
{
}

/// A sign-in with any other name is refused, whatever the password.
pub proof fn lemma_other_names_are_refused(
    admin_user: Seq<char>,
    user: Seq<char>,
    password: Seq<char>,
    hash: Seq<char>,
)
    requires
        user != admin_user,
    ensures
        admitted(Some((user, password)), admin_user, hash) is None,
{
}

/// Everything administrative hangs off the admin route: each address other
/// than the editor itself starts with the route followed by `/`, which is
/// what the guard pattern `<route>/*` covers, and the sign-in is distinct
/// from every other address under it.
pub proof fn lemma_admin_routes_under_prefix(route: Seq<char>)
    ensures
        ({
            let r = spec_admin_routes(route);
            let prefix = route + "/"@;
            &&& starts_with(r.login, prefix)
            &&& starts_with(r.logout, prefix)
            &&& starts_with(r.rebuild, prefix)
            &&& starts_with(r.panel, prefix)
            &&& starts_with(r.data, prefix)
            &&& r.guarded == prefix + "*"@
            &&& r.login != r.logout && r.login != r.rebuild && r.login != r.panel && r.login != r.data
        }),
{
    reveal_strlit("/");
    reveal_strlit("*");
    reveal_strlit("/login");
    reveal_strlit("/logout");
    reveal_strlit("/rebuild");
    reveal_strlit("/panel");
    reveal_strlit("/data");
    reveal_strlit("/*");
    let r = spec_admin_routes(route);
    let prefix = route + "/"@;
    let n: int = route.len() as int;
    assert(r.login.take(n + 1) =~= prefix);
    assert(r.logout.take(n + 1) =~= prefix);
    assert(r.rebuild.take(n + 1) =~= prefix);
    assert(r.panel.take(n + 1) =~= prefix);
    assert(r.data.take(n + 1) =~= prefix);
    assert(r.guarded =~= prefix + "*"@);
    assert(r.login[n + 3] == 'g' && r.logout[n + 3] == 'g' && r.login.len() != r.logout.len());
    assert(r.login.len() != r.rebuild.len());
    assert(r.login[n + 1] != r.panel[n + 1]);
    assert(r.login.len() != r.data.len());
}

/// The store filter keeps a post exactly when its slug is safe, whatever else
/// the post holds or where the slug's safe characters sit: a lone post with a
/// safe slug is kept, one with an unsafe slug is dropped.
pub proof fn lemma_usable_posts_single(p: PostView)
    ensures
        spec_slug_is_safe(p.slug) ==> spec_usable_posts(seq![p]) == seq![p],
        !spec_slug_is_safe(p.slug) ==> spec_usable_posts(seq![p]) == Seq::<PostView>::empty(),
{
    reveal_with_fuel(Seq::<_>::filter, 2);
    assert(seq![p].drop_last() =~= Seq::<PostView>::empty());
}

/// The store filter works post by post and keeps store order: filtering two
/// stores one after the other is filtering each and putting the results in
/// the same order.
pub proof fn lemma_usable_posts_append(a: Seq<PostView>, b: Seq<PostView>)
    ensures
        spec_usable_posts(a + b) == spec_usable_posts(a) + spec_usable_posts(b),
{
    Seq::filter_distributes_over_add(a, b, |p: PostView| is_usable(p));
}

/// A post is among the usable ones exactly when it is stored and its slug is
/// safe.
pub proof fn lemma_usable_posts_members(stored: Seq<PostView>, p: PostView)
    ensures
        spec_usable_posts(stored).contains(p) <==> (stored.contains(p) && spec_slug_is_safe(p.slug)),
{
    let pred = |q: PostView| is_usable(q);
    if spec_usable_posts(stored).contains(p) {
        stored.lemma_filter_contains_rev(pred, p);
        let i = choose|i: int| 0 <= i < spec_usable_posts(stored).len() && spec_usable_posts(stored)[i] == p;
        stored.lemma_filter_pred(pred, i);
    }
    if stored.contains(p) && spec_slug_is_safe(p.slug) {
        let i = choose|i: int| 0 <= i < stored.len() && stored[i] == p;
        stored.lemma_filter_contains(pred, i);
    }
}

/// Whatever the feed, and in particular when no post is published, a rebuild
/// renders the index, the not-found page and the feed first, each from its
/// own template, then exactly one page per entry, at `/posts/<slug>`.
pub proof fn lemma_rebuild_renders_fixed_pages_then_posts(feed: Seq<FeedPostView>)
    ensures
        ({
            let jobs = rebuild_jobs(feed);
            &&& jobs.len() == 3 + feed.len()
            &&& jobs[0].path == "/index.html"@ && jobs[0].template == "index.html"@
            &&& jobs[0].content_type == HTML@ && jobs[0].post is None
            &&& jobs[1].path == "/404.html"@ && jobs[1].template == "404.html"@
            &&& jobs[1].content_type == HTML@ && jobs[1].post is None
            &&& jobs[2].path == "/rss.xml"@ && jobs[2].template == "rss.xml"@
            &&& jobs[2].content_type == XML@ && jobs[2].post is None
            &&& forall|i: int|
                0 <= i < feed.len() ==> {
                    &&& (#[trigger] jobs[3 + i]).path == "/posts/"@ + feed[i].slug
                    &&& jobs[3 + i].template == "post.html"@
                    &&& jobs[3 + i].content_type == HTML@
                    &&& jobs[3 + i].post == Some(i as usize)
                }
        }),
{
}

/// The value of a string of decimal digits, most significant first.
pub open spec fn digits_value(s: Seq<char>) -> int
    decreases s.len(),
{
    if s.len() == 0 {
        0
    } else {
        digits_value(s.drop_last()) * 10 + (s.last() as int - 48)
    }
}

/// `decimal(n)` is a non-empty string of ASCII digits whose value is `n`.
pub proof fn lemma_decimal_reads_back(n: nat)
    ensures
        decimal(n).len() > 0,
        forall|i: int| 0 <= i < decimal(n).len() ==> '0' <= #[trigger] decimal(n)[i] && decimal(n)[i] <= '9',
        digits_value(decimal(n)) == n,
    decreases n,
{
    if n < 10 {
        let s = decimal(n);
        assert(s.drop_last() =~= Seq::<char>::empty());
        assert(digit_char(n) as int == n + 48);
        assert(s.last() == digit_char(n));
        assert(digits_value(s.drop_last()) == 0);
        assert(digits_value(s) == digits_value(s.drop_last()) * 10 + (s.last() as int - 48));
    } else {
        lemma_decimal_reads_back(n / 10);
        let s = decimal(n);
        assert(s.drop_last() =~= decimal(n / 10));
        assert(digit_char(n % 10) as int == n % 10 + 48);
        assert((n / 10) * 10 + n % 10 == n);
        assert(s.last() == digit_char(n % 10));
        assert(digits_value(s) == digits_value(s.drop_last()) * 10 + (s.last() as int - 48));
    }
}

/// Every successful rebuild answers 200 with the number of pages rendered,
/// written in decimal, whatever that number is (none included); only a failed
/// rebuild answers 500.
pub proof fn lemma_rebuild_reply_reports_count(rendered: Option<u64>)
    ensures
        rebuild_reply_view(rendered).content_type == JSON@,
        rebuild_reply_view(rendered).set_cookie is None,
        rendered is Some <==> rebuild_reply_view(rendered).status == OK,
        rendered is None <==> rebuild_reply_view(rendered).status == INTERNAL_SERVER_ERROR,
        rendered matches Some(n) ==> {
            let body = rebuild_reply_view(rendered).body;
            let prefix = "{\"rendered\":"@;
            &&& body.take(prefix.len() as int) == prefix
            &&& body.last() == '}'
            &&& digits_value(body.subrange(prefix.len() as int, body.len() - 1)) == n
        },
{
    if let Some(n) = rendered {
        let body = rebuild_reply_view(rendered).body;
        let prefix = "{\"rendered\":"@;
        let d = decimal(n as nat);
        reveal_strlit("}");
        assert(body == prefix + d + "}"@);
        assert(body.take(prefix.len() as int) =~= prefix);
        assert(body.subrange(prefix.len() as int, body.len() - 1) =~= d);
        lemma_decimal_reads_back(n as nat);
    }
}

proof fn lemma_separator_at(s: Seq<char>, i: int, k: int)
    requires
        0 <= i <= k < s.len(),
        s[k] == ';',
        forall|j: int| i <= j < k ==> #[trigger] s[j] != ';',
    ensures
        next_separator(s, i) == k,
    decreases k - i,
{
    if i < k {
        lemma_separator_at(s, i + 1, k);
    }
}

/// A session part is found wherever a `;` ends the part before it, with or
/// without white space after the `;`: after a part that carries no session,
/// the header `<part>;<white space>session_token=<token>` presents the token.
pub proof fn lemma_session_cookie_after_another_part(
    part: Seq<char>,
    space: Seq<char>,
    token: Seq<char>,
)
    requires
        forall|i: int| 0 <= i < part.len() ==> #[trigger] part[i] != ';',
        !starts_with(trim(part), session_cookie_prefix()),
        forall|i: int| 0 <= i < space.len() ==> is_white_space(#[trigger] space[i]),
        token.len() > 0,
        forall|i: int| 0 <= i < token.len() ==> #[trigger] token[i] != ';',
        !is_white_space(token.last()),
    ensures
        session_token_in(part + ";"@ + space + session_cookie_prefix() + token) == Some(token),
{
    reveal_strlit("session_token");
    reveal_strlit("=");
    reveal_strlit(";");
    let prefix = session_cookie_prefix();
    assert(prefix.len() == 14);
    let r = space + prefix + token;
    let h = part + ";"@ + space + prefix + token;
    assert(h =~= part + (seq![';'] + r));
    let p = part.len() as int;
    assert(h[p] == ';');
    assert forall|j: int| 0 <= j < p implies #[trigger] h[j] != ';' by {
        assert(h[j] == part[j]);
    }
    lemma_separator_at(h, 0, p);
    assert(h.subrange(0, p) =~= part);
    assert forall|j: int| p + 1 <= j < h.len() implies #[trigger] h[j] != ';' by {
        let k = j - p - 1;
        assert(h[j] == r[k]);
        if k < space.len() {
            assert(r[k] == space[k]);
            assert(is_white_space(space[k]));
        } else if k < space.len() + 14 {
            assert(r[k] == prefix[k - space.len()]);
        } else {
            assert(r[k] == token[k - space.len() - 14]);
        }
    }
    lemma_no_separator_from(h, p + 1);
    assert(h.subrange(p + 1, h.len() as int) =~= r);
    assert(r.last() == token.last());
    assert(trim_end(r) == r);
    assert forall|j: int| 0 <= j < space.len() implies is_white_space(#[trigger] r[j]) by {
        assert(r[j] == space[j]);
    }
    lemma_trim_start_prefix(r, space.len() as int);
    let q = r.skip(space.len() as int);
    assert(q =~= prefix + token);
    assert(q[0] == 's');
    assert(trim_start(q) == q);
    assert(trim(r) == q);
    assert(q.take(14) =~= prefix);
    assert(q.skip(14) =~= token);
    assert(first_session_value(h, p + 1) == Some(token));
    assert(first_session_value(h, 0) == first_session_value(h, p + 1));
}

} // verus!
