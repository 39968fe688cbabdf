//! The cache-load-and-merge pipeline's core: joining every cached
//! liked-tweet page of one username into a single aggregate, resolving
//! each tweet's author through the user lookup, classifying the
//! "nothing cached" condition, and ordering the result by timestamp.
//! Directory listing and file loading stay with the caller; this module
//! takes the loaded pages as values and promises exactly what comes out.

use vstd::prelude::*;
use vstd::string::StringExecFns;
use crate::lookup::UserIdLookup;
use crate::records::AggregateView;
use crate::records::LikedTweets;
use crate::records::PageView;
use crate::records::TweetDatum;
use crate::records::TweetDatumView;
use crate::records::TwitLikeResponse;
use crate::records::UserRecordView;
use crate::records::clone_opt_user;
use crate::records::opt_user_view;
use crate::records::tweets_view;
use crate::sorting::at_time;
use crate::sorting::lemma_sort_by_time_idempotent;
use crate::sorting::lemma_sort_by_time_len;
use crate::sorting::lemma_sort_by_time_multiset;
use crate::sorting::lemma_sort_by_time_sorted;
use crate::sorting::lemma_sort_by_time_stable;
use crate::sorting::sort_by_time;
use crate::sorting::sorted_by_time;

verus! {

/// Why a cache load could not produce an aggregate.
#[derive(Debug, PartialEq)]
pub enum CacheLoadError {
    /// No page file of the username held a single tweet: a recoverable,
    /// user-facing condition, distinct from any I/O failure. Carries the
    /// username it was raised for.
    NoTweets(String),
    /// A tweet's author identifier had no populated record in the user
    /// lookup: the cache is internally inconsistent, and no tweet may be
    /// silently dropped. Carries the offending author identifier.
    MissingAuthor(String),
}

impl CacheLoadError {
    /// The user-facing description of the failure, with its remediation
    /// hint where one exists.
    pub fn message(&self) -> (r: String)
        ensures
            r@ == match self {
                CacheLoadError::NoTweets(u) => "No tweets were found for user '"@ + u@
                    + "'. Did you mean to run `export` first?"@,
                CacheLoadError::MissingAuthor(a) => "Expected user data for "@ + a@,
            },
    {
        match self {
            CacheLoadError::NoTweets(u) => {
                let mut s = String::from_str("No tweets were found for user '");
                s.append(u.as_str());
                s.append("'. Did you mean to run `export` first?");
                proof {
                    assert(s@ =~= "No tweets were found for user '"@ + u@
                        + "'. Did you mean to run `export` first?"@);
                }
                s
            },
            CacheLoadError::MissingAuthor(a) => {
                let mut s = String::from_str("Expected user data for ");
                s.append(a.as_str());
                s
            },
        }
    }
}

/// The tweets one page carries; none when its data slot is empty.
pub open spec fn page_tweets(p: PageView) -> Seq<TweetDatumView> {
    match p.data {
        Some(s) => s,
        None => Seq::<TweetDatumView>::empty(),
    }
}

/// The view of a run of loaded pages.
pub open spec fn pages_view(s: Seq<TwitLikeResponse>) -> Seq<PageView> {
    s.map_values(|p: TwitLikeResponse| p@)
}

/// Every tweet the pages carry, page by page in listing order.
pub open spec fn all_tweets(pages: Seq<PageView>) -> Seq<TweetDatumView>
    decreases pages.len(),
{
    if pages.len() == 0 {
        Seq::<TweetDatumView>::empty()
    } else {
        all_tweets(pages.drop_last()) + page_tweets(pages.last())
    }
}

/// The sum of the per-page tweet counts.
pub open spec fn total_count(pages: Seq<PageView>) -> nat
    decreases pages.len(),
{
    if pages.len() == 0 {
        0
    } else {
        total_count(pages.drop_last()) + page_tweets(pages.last()).len()
    }
}

/// The subject user the aggregate adopts: the first one any page
/// carries, in page order.
pub open spec fn first_subject(pages: Seq<PageView>) -> Option<UserRecordView>
    decreases pages.len(),
{
    if pages.len() == 0 {
        None
    } else if first_subject(pages.drop_last()) is Some {
        first_subject(pages.drop_last())
    } else {
        pages.last().user
    }
}

/// Whether the lookup holds a populated record for `id`.
pub open spec fn resolves(m: Map<Seq<char>, Option<UserRecordView>>, id: Seq<char>) -> bool {
    m.contains_key(id) && m[id] is Some
}

/// The populated record the lookup holds for `id`.
pub open spec fn record_of(m: Map<Seq<char>, Option<UserRecordView>>, id: Seq<char>) -> UserRecordView
    recommends
        resolves(m, id),
{
    match m[id] {
        Some(u) => u,
        None => arbitrary(),
    }
}

/// Whether every tweet's author resolves to a populated record — the
/// referential integrity a merge demands.
pub open spec fn all_resolve(m: Map<Seq<char>, Option<UserRecordView>>, ts: Seq<TweetDatumView>) -> bool {
    forall|k: int| 0 <= k < ts.len() ==> #[trigger] resolves(m, ts[k].author_id)
}

/// A tweet datum with its resolved-author slot filled from the lookup.
pub open spec fn enriched(m: Map<Seq<char>, Option<UserRecordView>>, t: TweetDatumView) -> TweetDatumView {
    TweetDatumView {
        author_id: t.author_id,
        created_at: t.created_at,
        user: Some(record_of(m, t.author_id)),
    }
}

/// Every tweet enriched with its author's record.
pub open spec fn enrich_all(m: Map<Seq<char>, Option<UserRecordView>>, ts: Seq<TweetDatumView>) -> Seq<TweetDatumView> {
    ts.map_values(|t: TweetDatumView| enriched(m, t))
}

/// The author identifier of the first tweet, in page order, whose author
/// the lookup cannot resolve.
pub open spec fn first_missing(m: Map<Seq<char>, Option<UserRecordView>>, ts: Seq<TweetDatumView>) -> Seq<char>
    decreases ts.len(),
{
    if ts.len() == 0 {
        Seq::<char>::empty()
    } else if !resolves(m, ts.first().author_id) {
        ts.first().author_id
    } else {
        first_missing(m, ts.drop_first())
    }
}

/// The aggregate a successful merge returns: the first subject user any
/// page carried, and every tweet enriched and stably sorted ascending by
/// timestamp.
pub open spec fn merged_aggregate(m: Map<Seq<char>, Option<UserRecordView>>, pages: Seq<PageView>) -> AggregateView {
    AggregateView {
        user: first_subject(pages),
        tweets: sort_by_time(enrich_all(m, all_tweets(pages))),
    }
}

/// Collecting tweets distributes over splitting the page run.
proof fn lemma_all_tweets_add(a: Seq<PageView>, b: Seq<PageView>)
    ensures
        all_tweets(a + b) == all_tweets(a) + all_tweets(b),
    decreases b.len(),
{
    if b.len() == 0 {
        assert(a + b =~= a);
        assert(all_tweets(a) + all_tweets(b) =~= all_tweets(a));
    } else {
        lemma_all_tweets_add(a, b.drop_last());
        assert((a + b).drop_last() =~= a + b.drop_last());
        assert((a + b).last() == b.last());
        assert(b.drop_last().push(b.last()) =~= b);
        assert(all_tweets(a) + all_tweets(b.drop_last()) + page_tweets(b.last())
            =~= all_tweets(a) + all_tweets(b));
    }
}

proof fn lemma_all_tweets_snoc(pages: Seq<PageView>, i: int)
    requires
        0 <= i < pages.len(),
    ensures
        all_tweets(pages.take(i + 1)) == all_tweets(pages.take(i)) + page_tweets(pages[i]),
{
    assert(pages.take(i + 1).drop_last() =~= pages.take(i));
    assert(pages.take(i + 1).last() == pages[i]);
}

proof fn lemma_total_count_all_tweets(pages: Seq<PageView>)
    ensures
        all_tweets(pages).len() == total_count(pages),
    decreases pages.len(),
{
    if pages.len() != 0 {
        lemma_total_count_all_tweets(pages.drop_last());
    }
}

proof fn lemma_first_missing_at(m: Map<Seq<char>, Option<UserRecordView>>, ts: Seq<TweetDatumView>, k: int)
    requires
        0 <= k < ts.len(),
        forall|j: int| 0 <= j < k ==> #[trigger] resolves(m, ts[j].author_id),
        !resolves(m, ts[k].author_id),
    ensures
        first_missing(m, ts) == ts[k].author_id,
    decreases k,
{
    if k == 0 {
        assert(ts.first() == ts[0]);
    } else {
        assert(resolves(m, ts[0].author_id));
        assert(ts.first() == ts[0]);
        let tail = ts.drop_first();
        assert forall|j: int| 0 <= j < k - 1 implies #[trigger] resolves(m, tail[j].author_id) by {
            assert(tail[j] == ts[j + 1]);
        }
        assert(tail[k - 1] == ts[k]);
        lemma_first_missing_at(m, tail, k - 1);
    }
}

/// Merges loaded liked-tweet pages into one aggregate. Success is owed
/// exactly when every author resolves and at least one tweet is present;
/// otherwise the error names the condition: the first unresolvable
/// author, or the username no tweets were cached for. Nothing partial is
/// ever returned.
pub fn merge_cached_pages(pages: &Vec<TwitLikeResponse>, lookup: &UserIdLookup, username: &str) -> (r: Result<
    LikedTweets,
    CacheLoadError,
>)
    ensures
        ({
            let m = lookup@;
            let ts = all_tweets(pages_view(pages@));
            match r {
                Ok(agg) => all_resolve(m, ts) && ts.len() > 0 && agg@ == merged_aggregate(
                    m,
                    pages_view(pages@),
                ),
                Err(CacheLoadError::NoTweets(u)) => all_resolve(m, ts) && ts.len() == 0 && u@
                    == username@,
                Err(CacheLoadError::MissingAuthor(a)) => !all_resolve(m, ts) && a@
                    == first_missing(m, ts),
            }
        }),
{
    let ghost m = lookup@;
    let ghost pv = pages_view(pages@);
    let ghost full_ts = all_tweets(pv);
    let mut agg = LikedTweets::new();
    let n = pages.len();
    let mut i: usize = 0;
    proof {
        assert(pv.take(0) =~= Seq::<PageView>::empty());
    }
    while i < n
        invariant
            i <= n,
            n == pages.len(),
            m == lookup@,
            pv == pages_view(pages@),
            full_ts == all_tweets(pv),
            opt_user_view(agg.user) == first_subject(pv.take(i as int)),
            all_resolve(m, all_tweets(pv.take(i as int))),
            tweets_view(agg.tweets@) == enrich_all(m, all_tweets(pv.take(i as int))),
        decreases n - i,
    {
        let ghost base = all_tweets(pv.take(i as int));
        let page = &pages[i];
        proof {
            assert(pv[i as int] == page@);
        }
        if agg.user.is_none() {
            agg.user = clone_opt_user(&page.user);
        }
        proof {
            assert(pv.take(i + 1).drop_last() =~= pv.take(i as int));
            assert(pv.take(i + 1).last() == pv[i as int]);
            assert(opt_user_view(agg.user) == first_subject(pv.take(i + 1)));
        }
        let ghost pts = page_tweets(pv[i as int]);
        match &page.data {
            Some(data) => {
                proof {
                    assert(pts == tweets_view(data@));
                }
                let dn = data.len();
                let mut jj: usize = 0;
                proof {
                    assert(base + pts.take(0) =~= base);
                }
                while jj < dn
                    invariant
                        jj <= dn,
                        dn == data@.len(),
                        m == lookup@,
                        pts == tweets_view(data@),
                        all_resolve(m, base + pts.take(jj as int)),
                        tweets_view(agg.tweets@) == enrich_all(m, base + pts.take(jj as int)),
                        pv == pages_view(pages@),
                        full_ts == all_tweets(pv),
                        0 <= i < pv.len(),
                        base == all_tweets(pv.take(i as int)),
                        pts == page_tweets(pv[i as int]),
                        opt_user_view(agg.user) == first_subject(pv.take(i + 1)),
                    decreases dn - jj,
                {
                    let datum = &data[jj];
                    proof {
                        assert(pts[jj as int] == datum@);
                    }
                    match lookup.resolve(datum.author_id.as_str()) {
                        Some(found_user) => {
                            let ghost before = tweets_view(agg.tweets@);
                            agg.tweets.push(
                                TweetDatum {
                                    author_id: datum.author_id.clone(),
                                    created_at: datum.created_at,
                                    user: Some(found_user),
                                },
                            );
                            jj = jj + 1;
                            proof {
                                let done = base + pts.take(jj as int);
                                assert(done.drop_last() =~= base + pts.take(jj - 1));
                                assert(done.last() == pts[jj - 1]);
                                assert(tweets_view(agg.tweets@) =~= before.push(
                                    agg.tweets@.last()@,
                                ));
                                assert(agg.tweets@.last()@ == enriched(m, pts[jj - 1]));
                                assert(enrich_all(m, done) =~= enrich_all(m, done.drop_last()).push(
                                    enriched(m, done.last()),
                                ));
                                assert forall|k: int| 0 <= k < done.len() implies #[trigger]
                                    resolves(m, done[k].author_id) by {
                                    if k < done.len() - 1 {
                                        assert(done[k] == (base + pts.take(jj - 1))[k]);
                                    }
                                }
                            }
                        },
                        None => {
                            proof {
                                let done = base + pts.take(jj as int);
                                let k = done.len();
                                lemma_all_tweets_snoc(pv, i as int);
                                assert(pv =~= pv.take(i + 1) + pv.skip(i + 1));
                                lemma_all_tweets_add(pv.take(i + 1), pv.skip(i + 1));
                                assert(pts =~= pts.take(jj as int) + pts.skip(jj as int));
                                assert(full_ts == all_tweets(pv.take(i + 1)) + all_tweets(
                                    pv.skip(i + 1),
                                ));
                                assert(all_tweets(pv.take(i + 1)) =~= done + pts.skip(jj as int));
                                assert(full_ts =~= done + pts.skip(jj as int) + all_tweets(
                                    pv.skip(i + 1),
                                ));
                                assert(full_ts[k as int] == pts[jj as int]);
                                assert forall|j: int| 0 <= j < k implies #[trigger]
                                    resolves(m, full_ts[j].author_id) by {
                                    assert(full_ts[j] == done[j]);
                                }
                                assert(!resolves(m, full_ts[k as int].author_id));
                                lemma_first_missing_at(m, full_ts, k as int);
                            }
                            return Err(CacheLoadError::MissingAuthor(datum.author_id.clone()));
                        },
                    }
                }
                proof {
                    assert(pts.take(dn as int) =~= pts);
                    lemma_all_tweets_snoc(pv, i as int);
                }
            },
            None => {
                proof {
                    assert(pts =~= Seq::<TweetDatumView>::empty());
                    assert(base + pts =~= base);
                    lemma_all_tweets_snoc(pv, i as int);
                }
            },
        }
        i = i + 1;
    }
    proof {
        assert(pv.take(n as int) =~= pv);
    }
    if agg.tweets.len() == 0 {
        proof {
            assert(tweets_view(agg.tweets@).len() == 0);
            assert(enrich_all(m, full_ts).len() == full_ts.len());
        }
        return Err(CacheLoadError::NoTweets(String::from_str(username)));
    }
    agg.sort_by_date();
    proof {
        assert(enrich_all(m, full_ts).len() == full_ts.len());
    }
    Ok(agg)
}

/// The fallback around loading the user lookup: a loaded table is handed
/// through unchanged; where none could be loaded, a fresh empty one
/// takes its place, so the caller never fails.
pub fn lookup_or_empty(loaded: Option<UserIdLookup>) -> (r: UserIdLookup)
    ensures
        match loaded {
            Some(l) => r@ == l@,
            None => r@ == Map::<Seq<char>, Option<UserRecordView>>::empty(),
        },
{
    match loaded {
        Some(l) => l,
        None => UserIdLookup::new(),
    }
}

/// The name of the cache directory under the configured working root.
pub open spec fn cache_dirname() -> Seq<char> {
    seq!['.', 'c', 'a', 'c', 'h', 'e']
}

/// The cache root: `.cache` under the configured working directory.
pub fn get_cache_directory_path(base: &str) -> (r: String)
    ensures
        r@ == base@ + seq!['/'] + cache_dirname(),
{
    let mut r = String::from_str(base);
    r.append("/.cache");
    proof {
        reveal_strlit("/.cache");
        assert("/.cache"@ =~= seq!['/'] + cache_dirname());
        assert(r@ =~= base@ + seq!['/'] + cache_dirname());
    }
    r
}

/// The path of one cache file: the cache root, a separator, the name.
pub fn get_cache_file_path(base: &str, filename: &str) -> (r: String)
    ensures
        r@ == base@ + seq!['/'] + cache_dirname() + seq!['/'] + filename@,
{
    let mut r = get_cache_directory_path(base);
    r.append("/");
    r.append(filename);
    proof {
        reveal_strlit("/");
        assert("/"@ =~= seq!['/']);
        assert(r@ =~= base@ + seq!['/'] + cache_dirname() + seq!['/'] + filename@);
    }
    r
}

/// The aggregate's tweet count equals the sum of the per-page counts:
/// a merge neither drops nor duplicates a tweet.
pub proof fn lemma_merge_count(m: Map<Seq<char>, Option<UserRecordView>>, pages: Seq<PageView>)
    ensures
        merged_aggregate(m, pages).tweets.len() == total_count(pages),
{
    lemma_sort_by_time_len(enrich_all(m, all_tweets(pages)));
    lemma_total_count_all_tweets(pages);
}

/// The aggregate's sequence is sorted ascending by timestamp.
pub proof fn lemma_merge_sorted(m: Map<Seq<char>, Option<UserRecordView>>, pages: Seq<PageView>)
    ensures
        sorted_by_time(merged_aggregate(m, pages).tweets),
{
    lemma_sort_by_time_sorted(enrich_all(m, all_tweets(pages)));
}

/// The aggregate is a permutation of the pages' enriched tweets: as
/// multisets the two are the same.
pub proof fn lemma_merge_permutation(m: Map<Seq<char>, Option<UserRecordView>>, pages: Seq<PageView>)
    ensures
        merged_aggregate(m, pages).tweets.to_multiset() == enrich_all(m, all_tweets(pages)).to_multiset(),
{
    lemma_sort_by_time_multiset(enrich_all(m, all_tweets(pages)));
}

/// Ties are stable: among the tweets carrying any one timestamp, the
/// aggregate keeps the pages' order exactly.
pub proof fn lemma_merge_stable(m: Map<Seq<char>, Option<UserRecordView>>, pages: Seq<PageView>, v: u64)
    ensures
        merged_aggregate(m, pages).tweets.filter(at_time(v)) == enrich_all(
            m,
            all_tweets(pages),
        ).filter(at_time(v)),
{
    lemma_sort_by_time_stable(enrich_all(m, all_tweets(pages)), v);
}

/// Merging an unchanged cache twice changes nothing: the aggregate is a
/// function of the page contents and the lookup alone, and its sequence
/// is a fixed point of the sort.
pub proof fn lemma_merge_idempotent(
    m: Map<Seq<char>, Option<UserRecordView>>,
    pages: Seq<PageView>,
    r1: AggregateView,
    r2: AggregateView,
)
    requires
        r1 == merged_aggregate(m, pages),
        r2 == merged_aggregate(m, pages),
    ensures
        r1 == r2,
        sort_by_time(r1.tweets) == r1.tweets,
{
    lemma_sort_by_time_idempotent(enrich_all(m, all_tweets(pages)));
}

} // verus!
