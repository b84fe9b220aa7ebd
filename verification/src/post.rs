use vstd::prelude::*;

use crate::slug::{slug_is_safe, spec_slug_is_safe};

verus! {

/// A post. `slug` is the primary key because it is also the URL.
pub struct Post {
    pub slug: String,
    pub title: String,
    /// Markdown source, rendered to HTML at publish time.
    pub body: String,
    pub published: bool,
}

/// What a post holds, as plain values.
pub struct PostView {
    pub slug: Seq<char>,
    pub title: Seq<char>,
    pub body: Seq<char>,
    pub published: bool,
}

impl View for Post {
    type V = PostView;

    open spec fn view(&self) -> PostView {
        PostView {
            slug: self.slug@,
            title: self.title@,
            body: self.body@,
            published: self.published,
        }
    }
}

/// The views of a list of posts, in order.
pub open spec fn posts_view(posts: Seq<Post>) -> Seq<PostView> {
    posts.map_values(|p: Post| p@)
}

/// Whether a stored post can be served at all: its slug is safe.
pub open spec fn is_usable(p: PostView) -> bool {
    spec_slug_is_safe(p.slug)
}

/// The stored posts whose slug is safe, in store order.
pub open spec fn spec_usable_posts(stored: Seq<PostView>) -> Seq<PostView> {
    stored.filter(|p: PostView| is_usable(p))
}

impl Post {
    /// A field-by-field copy of the post.
    pub fn duplicate(&self) -> (copy: Post)
        ensures
            copy@ == self@,
    {
        Post {
            slug: self.slug.clone(),
            title: self.title.clone(),
            body: self.body.clone(),
            published: self.published,
        }
    }
}

/// Every stored post, unusable slugs dropped.
///
/// The slug arrives straight from the REST API and becomes an asset path, so
/// a post whose slug is not safe is never handed on.
pub fn usable_posts(stored: &Vec<Post>) -> (usable: Vec<Post>)
    ensures
        posts_view(usable@) == spec_usable_posts(posts_view(stored@)),
{
    let mut usable: Vec<Post> = Vec::new();
    let n = stored.len();
    let mut i: usize = 0;
    while i < n
        invariant
            n == stored.len(),
            i <= n,
            posts_view(usable@) == spec_usable_posts(posts_view(stored@).take(i as int)),
        decreases n - i,
    {
        let p = &stored[i];
        let ok = slug_is_safe(p.slug.as_str());
        proof {
            let all = posts_view(stored@);
            assert(all.take(i + 1).drop_last() =~= all.take(i as int));
            assert(all.take(i + 1).last() == p@);
            reveal_with_fuel(Seq::<_>::filter, 1);
        }
        if ok {
            let q = p.duplicate();
            let ghost before = usable@;
            usable.push(q);
            proof {
                assert(posts_view(usable@) =~= posts_view(before).push(q@));
            }
        }
        i = i + 1;
    }
    proof {
        assert(posts_view(stored@).take(n as int) =~= posts_view(stored@));
    }
    usable
}

} // verus!
