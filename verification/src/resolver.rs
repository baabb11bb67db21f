//! Channel resolver: a process-lifetime cache from video URL to owning
//! channel id, and the extraction of the channel id from a fetched video
//! page. The page fetch is the application's; the markup lookup relies on
//! the scraper crate.

use vstd::prelude::*;
use crate::text::str_eq;

verus! {

/// What the platform's video page names as the owning channel: the `content`
/// attribute of the first `meta` element whose `itemprop` is `channelId`, or
/// nothing when the markup has no such element.
pub uninterp spec fn channel_meta_of(html: Seq<char>) -> Option<Seq<char>>;

/// Relies on scraper::Html::parse_document, Selector::parse and
/// Element::attr: what the selector finds in a fixed markup depends on that
/// markup alone.
#[verifier::external_body]
fn find_channel_meta(html: &str) -> (r: Option<String>)
    ensures
        r.deep_view() == channel_meta_of(html@),
{
    let document = scraper::Html::parse_document(html);
    let selector = scraper::Selector::parse(r#"meta[itemprop="channelId"]"#).ok()?;
    let elem = document.select(&selector).next()?;
    Some(elem.value().attr("content")?.to_string())
}

/// A URL is cached with this channel id.
pub open spec fn spec_cache_has(entries: Seq<(Seq<char>, Seq<char>)>, url: Seq<char>) -> bool {
    exists|i: int| 0 <= i < entries.len() && (#[trigger] entries[i]).0 == url
}

/// The index of a URL's cache entry; meaningful only when `spec_cache_has`
/// holds.
pub open spec fn spec_cache_index(entries: Seq<(Seq<char>, Seq<char>)>, url: Seq<char>) -> int {
    choose|i: int| 0 <= i < entries.len() && (#[trigger] entries[i]).0 == url
}

/// The process-lifetime video-URL-to-channel-id cache. A hit short-circuits
/// the network fetch entirely; resolution races are last-writer-wins.
pub struct ChannelCache {
    pub entries: Vec<(String, String)>,
}

impl ChannelCache {
    /// Cached URLs are unique.
    pub open spec fn wf(self) -> bool {
        forall|i: int, j: int|
            0 <= i < j < self.entries.deep_view().len() ==> (#[trigger] self.entries.deep_view()[i]).0
                != (#[trigger] self.entries.deep_view()[j]).0
    }

    /// An empty cache.
    pub fn new() -> (r: ChannelCache)
        ensures
            r.wf(),
            r.entries@.len() == 0,
    {
        ChannelCache { entries: Vec::new() }
    }

    /// The cached channel id of a URL, if any.
    pub fn get(&self, url: &str) -> (r: Option<String>)
        requires
            self.wf(),
        ensures
            match r {
                Some(c) => spec_cache_has(self.entries.deep_view(), url@) && c@
                    == self.entries.deep_view()[spec_cache_index(self.entries.deep_view(), url@)].1,
                None => !spec_cache_has(self.entries.deep_view(), url@),
            },
    {
        let len = self.entries.len();
        let mut i: usize = 0;
        while i < len
            invariant
                i <= len,
                len == self.entries@.len(),
                self.wf(),
                forall|k: int| 0 <= k < i ==> (#[trigger] self.entries.deep_view()[k]).0 != url@,
            decreases len - i,
        {
            if str_eq(self.entries[i].0.as_str(), url) {
                proof {
                    assert((self.entries.deep_view()[i as int]).0 == url@);
                    let j = spec_cache_index(self.entries.deep_view(), url@);
                    assert((self.entries.deep_view()[j]).0 == url@);
                    if j < i as int {
                        assert((self.entries.deep_view()[j]).0 != url@);
                    } else if (i as int) < j {
                        assert((self.entries.deep_view()[i as int]).0 != (
                        self.entries.deep_view()[j]).0);
                    }
                    assert(j == i as int);
                }
                return Some(self.entries[i].1.clone());
            }
            i = i + 1;
        }
        None
    }

    /// Cache a resolution, overwriting any earlier entry for the URL.
    pub fn insert(&mut self, url: &str, channel_id: String)
        requires
            old(self).wf(),
        ensures
            final(self).wf(),
            ({
                let e0 = old(self).entries.deep_view();
                let e1 = final(self).entries.deep_view();
                if spec_cache_has(e0, url@) {
                    let i = spec_cache_index(e0, url@);
                    &&& e1.len() == e0.len()
                    &&& forall|k: int| 0 <= k < e0.len() && k != i ==> e1[k] == e0[k]
                    &&& e1[i].0 == url@
                    &&& e1[i].1 == channel_id@
                } else {
                    &&& e1.len() == e0.len() + 1
                    &&& e1.take(e0.len() as int) == e0
                    &&& e1.last().0 == url@
                    &&& e1.last().1 == channel_id@
                }
            }),
    {
        let ghost e0 = old(self).entries.deep_view();
        let len = self.entries.len();
        let mut i: usize = 0;
        while i < len
            invariant
                i <= len,
                len == self.entries@.len(),
                old(self) == self,
                old(self).wf(),
                e0 == old(self).entries.deep_view(),
                forall|k: int| 0 <= k < i ==> (#[trigger] e0[k]).0 != url@,
            decreases len - i,
        {
            if str_eq(self.entries[i].0.as_str(), url) {
                proof {
                    assert((e0[i as int]).0 == url@);
                    let j = spec_cache_index(e0, url@);
                    assert((e0[j]).0 == url@);
                    if j < i as int {
                        assert((e0[j]).0 != url@);
                    } else if (i as int) < j {
                        assert((old(self).entries.deep_view()[i as int]).0 != (old(
                            self,
                        ).entries.deep_view()[j]).0);
                        assert((e0[i as int]).0 != (e0[j]).0);
                    }
                    assert(j == i as int);
                }
                self.entries[i] = (url.to_owned(), channel_id);
                proof {
                    let e1 = self.entries.deep_view();
                    assert(e1.len() == e0.len());
                    assert forall|k: int| 0 <= k < e0.len() && k != i implies e1[k] == e0[k] by {
                        assert(self.entries@[k] == old(self).entries@[k]);
                    }
                    assert(e1[i as int].0 == url@);
                    assert(e1[i as int].1 == channel_id@);
                    assert forall|a: int, b: int| 0 <= a < b < e1.len() implies (
                    #[trigger] e1[a]).0 != (#[trigger] e1[b]).0 by {
                        assert((old(self).entries.deep_view()[a]).0 != (old(
                            self,
                        ).entries.deep_view()[b]).0);
                        if a == i as int {
                            assert(e1[b] == e0[b]);
                        } else if b == i as int {
                            assert(e1[a] == e0[a]);
                        } else {
                            assert(e1[a] == e0[a]);
                            assert(e1[b] == e0[b]);
                        }
                    }
                }
                return ;
            }
            i = i + 1;
        }
        self.entries.push((url.to_owned(), channel_id));
        proof {
            let e1 = self.entries.deep_view();
            assert(e1.len() == e0.len() + 1);
            assert forall|k: int| 0 <= k < e0.len() implies e1[k] == e0[k] by {
                assert(self.entries@[k] == old(self).entries@[k]);
            }
            assert(e1.take(e0.len() as int) =~= e0);
            assert(e1.last().0 == url@);
            assert(e1.last().1 == channel_id@);
            assert forall|a: int, b: int| 0 <= a < b < e1.len() implies (#[trigger] e1[a]).0 != (
            #[trigger] e1[b]).0 by {
                if b < e0.len() {
                    assert((old(self).entries.deep_view()[a]).0 != (old(
                        self,
                    ).entries.deep_view()[b]).0);
                    assert(e1[a] == e0[a]);
                    assert(e1[b] == e0[b]);
                } else {
                    assert(e1[a] == e0[a]);
                    assert((e0[a]).0 != url@);
                }
            }
        }
    }

    /// Resolve a fetched video page: read the owning channel id out of the
    /// markup and cache it for the URL; a page without the marker resolves
    /// nothing and leaves the cache unchanged.
    pub fn resolve_from_page(&mut self, url: &str, html: &str) -> (r: Option<String>)
        requires
            old(self).wf(),
        ensures
            final(self).wf(),
            r.deep_view() == channel_meta_of(html@),
            channel_meta_of(html@) is None ==> *final(self) == *old(self),
            channel_meta_of(html@) matches Some(c) ==> {
                let e1 = final(self).entries.deep_view();
                spec_cache_has(e1, url@) && e1[spec_cache_index(e1, url@)].1 == c
            },
    {
        match find_channel_meta(html) {
            Some(channel_id) => {
                self.insert(url, channel_id.clone());
                proof {
                    let e0 = old(self).entries.deep_view();
                    let e1 = final(self).entries.deep_view();
                    if spec_cache_has(e0, url@) {
                        let i = spec_cache_index(e0, url@);
                        assert(e1[i].0 == url@);
                        self.lemma_cache_index_unique(url@, i);
                    } else {
                        assert(e1.last().0 == url@);
                        self.lemma_cache_index_unique(url@, e1.len() - 1);
                    }
                }
                Some(channel_id)
            },
            None => None,
        }
    }

    /// In a well-formed cache any index with the URL is the URL's index.
    pub proof fn lemma_cache_index_unique(self, url: Seq<char>, i: int)
        requires
            self.wf(),
            0 <= i < self.entries.deep_view().len(),
            self.entries.deep_view()[i].0 == url,
        ensures
            spec_cache_has(self.entries.deep_view(), url),
            spec_cache_index(self.entries.deep_view(), url) == i,
    {
        let j = spec_cache_index(self.entries.deep_view(), url);
        assert(self.entries.deep_view()[j].0 == url);
        if i < j {
            assert(self.entries.deep_view()[i].0 != self.entries.deep_view()[j].0);
        } else if j < i {
            assert(self.entries.deep_view()[j].0 != self.entries.deep_view()[i].0);
        }
    }
}

} // verus!
