//! The data carried through the cache pipeline: user records, tweet data,
//! liked-tweet pages as loaded from one cache file, and the merged
//! aggregate. Each executable type has a mathematical view that the
//! contracts of the rest of the library speak of.

use vstd::prelude::*;

verus! {

/// A social-media account: an identifier plus display metadata.
/// Immutable once loaded; owned by the user lookup table.
#[derive(Debug, PartialEq)]
pub struct UserRecord {
    pub id: String,
    pub name: String,
    pub username: String,
}

/// Mathematical image of a `UserRecord`: each field as its character sequence.
pub struct UserRecordView {
    pub id: Seq<char>,
    pub name: Seq<char>,
    pub username: Seq<char>,
}

impl View for UserRecord {
    type V = UserRecordView;

    open spec fn view(&self) -> UserRecordView {
        UserRecordView { id: self.id@, name: self.name@, username: self.username@ }
    }
}

impl Clone for UserRecord {
    fn clone(&self) -> (r: Self)
        ensures
            r@ == self@,
    {
        UserRecord { id: self.id.clone(), name: self.name.clone(), username: self.username.clone() }
    }
}

/// The view of an optional user record.
pub open spec fn opt_user_view(o: Option<UserRecord>) -> Option<UserRecordView> {
    match o {
        Some(u) => Some(u@),
        None => None,
    }
}

/// Clones an optional user record, keeping its view.
pub fn clone_opt_user(o: &Option<UserRecord>) -> (r: Option<UserRecord>)
    ensures
        opt_user_view(r) == opt_user_view(*o),
{
    match o {
        Some(u) => Some(u.clone()),
        None => None,
    }
}

/// One liked tweet: its author's identifier, its timestamp, and a slot
/// for the resolved author record, empty until a merge fills it.
#[derive(Debug, PartialEq)]
pub struct TweetDatum {
    pub author_id: String,
    pub created_at: u64,
    pub user: Option<UserRecord>,
}

/// Mathematical image of a `TweetDatum`.
pub struct TweetDatumView {
    pub author_id: Seq<char>,
    pub created_at: u64,
    pub user: Option<UserRecordView>,
}

impl View for TweetDatum {
    type V = TweetDatumView;

    open spec fn view(&self) -> TweetDatumView {
        TweetDatumView {
            author_id: self.author_id@,
            created_at: self.created_at,
            user: opt_user_view(self.user),
        }
    }
}

impl Clone for TweetDatum {
    fn clone(&self) -> (r: Self)
        ensures
            r@ == self@,
    {
        TweetDatum {
            author_id: self.author_id.clone(),
            created_at: self.created_at,
            user: clone_opt_user(&self.user),
        }
    }
}

/// The view of a sequence of tweet data.
pub open spec fn tweets_view(s: Seq<TweetDatum>) -> Seq<TweetDatumView> {
    s.map_values(|d: TweetDatum| d@)
}

/// One page of liked-tweet data as a single cache file holds it: an
/// optional subject user and an optional run of tweet data.
#[derive(Debug, PartialEq)]
pub struct TwitLikeResponse {
    pub user: Option<UserRecord>,
    pub data: Option<Vec<TweetDatum>>,
}

/// Mathematical image of a `TwitLikeResponse`.
pub struct PageView {
    pub user: Option<UserRecordView>,
    pub data: Option<Seq<TweetDatumView>>,
}

impl View for TwitLikeResponse {
    type V = PageView;

    open spec fn view(&self) -> PageView {
        PageView {
            user: opt_user_view(self.user),
            data: match self.data {
                Some(v) => Some(tweets_view(v@)),
                None => None,
            },
        }
    }
}

/// The merge result: one optional subject user plus every enriched tweet
/// datum from all matching pages.
#[derive(Debug, PartialEq)]
pub struct LikedTweets {
    pub user: Option<UserRecord>,
    pub tweets: Vec<TweetDatum>,
}

/// Mathematical image of a `LikedTweets`.
pub struct AggregateView {
    pub user: Option<UserRecordView>,
    pub tweets: Seq<TweetDatumView>,
}

impl View for LikedTweets {
    type V = AggregateView;

    open spec fn view(&self) -> AggregateView {
        AggregateView { user: opt_user_view(self.user), tweets: tweets_view(self.tweets@) }
    }
}

impl LikedTweets {
    /// An empty aggregate: no subject user, no tweets.
    pub fn new() -> (r: Self)
        ensures
            r@ == (AggregateView { user: None, tweets: Seq::<TweetDatumView>::empty() }),
    {
        let r = LikedTweets { user: None, tweets: Vec::new() };
        proof {
            assert(tweets_view(r.tweets@) =~= Seq::<TweetDatumView>::empty());
        }
        r
    }
}

} // verus!
