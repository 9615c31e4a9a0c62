//! Following the links of an encyclopedia page: which links lead to an
//! article, and which article read so far is the longest.

use vstd::prelude::*;
use vstd::slice::slice_subrange;

verus! {

/// An article and the length of its text.
pub struct Article {
    pub url: String,
    pub len: usize,
}

/// The prefix of a link that leads to an article: `/wiki/`.
pub open spec fn article_prefix() -> Seq<u8> {
    seq![47u8, 119u8, 105u8, 107u8, 105u8, 47u8]
}

/// The site that the links belong to, with the slash that ends it:
/// `https://en.wikipedia.org/`.
pub open spec fn site() -> Seq<u8> {
    seq![
        104u8, 116u8, 116u8, 112u8, 115u8, 58u8, 47u8, 47u8, 101u8, 110u8, 46u8, 119u8, 105u8,
        107u8, 105u8, 112u8, 101u8, 100u8, 105u8, 97u8, 46u8, 111u8, 114u8, 103u8, 47u8,
    ]
}

/// `href` begins with the article prefix.
pub open spec fn leads_to_article(href: Seq<u8>) -> bool {
    href.len() >= 6 && href.take(6) == article_prefix()
}

/// The address of the article that `href` leads to: the site, and `href`
/// without its leading slash.
pub open spec fn article_url(href: Seq<u8>) -> Seq<u8> {
    site() + href.skip(1)
}

/// The full address behind a link of the page, for the links that lead to
/// an article; `None` for every other link.
pub fn wiki_link(href: &[u8]) -> (r: Option<Vec<u8>>)
    ensures
        leads_to_article(href@) <==> r is Some,
        r matches Some(url) ==> url@ == article_url(href@),
{
    if href.len() < 6 || href[0] != 47 || href[1] != 119 || href[2] != 105 || href[3] != 107
        || href[4] != 105 || href[5] != 47 {
        proof {
            if href@.len() >= 6 {
                let head = href@.take(6);
                assert(head[0] == href@[0] && head[1] == href@[1] && head[2] == href@[2]);
                assert(head[3] == href@[3] && head[4] == href@[4] && head[5] == href@[5]);
            }
        }
        return None;
    }
    proof {
        assert(href@.take(6) =~= article_prefix());
    }
    let mut url: Vec<u8> = vec![
        104u8, 116u8, 116u8, 112u8, 115u8, 58u8, 47u8, 47u8, 101u8, 110u8, 46u8, 119u8, 105u8,
        107u8, 105u8, 112u8, 101u8, 100u8, 105u8, 97u8, 46u8, 111u8, 114u8, 103u8, 47u8,
    ];
    assert(url@ =~= site());
    let rest = slice_subrange(href, 1, href.len());
    let mut i: usize = 0;
    while i < rest.len()
        invariant
            i <= rest@.len(),
            rest@ == href@.skip(1),
            url@ == site() + rest@.take(i as int),
        decreases rest@.len() - i,
    {
        url.push(rest[i]);
        proof {
            assert(site() + rest@.take(i + 1) =~= (site() + rest@.take(i as int)).push(
                rest@[i as int],
            ));
        }
        i += 1;
    }
    proof {
        assert(rest@.take(i as int) =~= rest@);
    }
    Some(url)
}

impl Article {
    /// No article yet: an empty address and a length of zero.
    pub fn new() -> (r: Article)
        ensures
            r.url@ == Seq::<char>::empty(),
            r.len == 0,
    {
        Article { url: String::new(), len: 0 }
    }

    /// Takes note of an article of `len` bytes at `url`: it becomes the
    /// longest one if it is longer than the longest seen so far. Of two
    /// articles of the same length the earlier one stays.
    pub fn consider(&mut self, url: &String, len: usize)
        ensures
            len > old(self).len ==> final(self).len == len && final(self).url@ == url@,
            len <= old(self).len ==> *final(self) == *old(self),
    {
        if len > self.len {
            self.len = len;
            self.url = url.clone();
        }
    }
}

} // verus!
