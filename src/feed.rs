use vstd::prelude::*;

verus! {

/// A parsed RSS channel, held as is; nothing here looks inside it.
#[verifier::external_type_specification]
#[verifier::external_body]
pub struct ExChannel(rss::Channel);

/// One subscription: a URL and, once fetched, its parsed channel.
pub struct Feed {
    pub url: String,
    pub channel: Option<rss::Channel>,
}

impl Feed {
    /// A feed for `url` with no channel fetched yet.
    pub fn new(url: String) -> (f: Feed)
        ensures
            f.url@ == url@,
            f.channel is None,
    {
        Feed { url, channel: None }
    }

    /// True exactly while no channel is attached to the feed.
    pub fn is_loaded(&self) -> (r: bool)
        ensures
            r == self.channel is None,
    {
        self.channel.is_none()
    }
}

/// The URLs of a list of feeds, in order.
pub open spec fn urls(feeds: Seq<Feed>) -> Seq<Seq<char>> {
    feeds.map_values(|f: Feed| f.url@)
}

} // verus!
