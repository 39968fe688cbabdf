//! Ordering of the merged aggregate: a stable ascending-by-timestamp sort,
//! given as a spec-level insertion sort together with the laws that make
//! it the right one — the result is sorted, it is a permutation of its
//! input, ties keep their input order, and sorting a sorted sequence
//! changes nothing.

use vstd::prelude::*;
use crate::records::LikedTweets;
use crate::records::TweetDatum;
use crate::records::TweetDatumView;
use crate::records::tweets_view;

verus! {

/// Ascending by timestamp.
pub open spec fn sorted_by_time(s: Seq<TweetDatumView>) -> bool {
    forall|i: int, j: int| 0 <= i < j < s.len() ==> s[i].created_at <= s[j].created_at
}

/// Where a stable sort places `t` within the already-sorted `s`: after
/// every element whose timestamp is at most `t`'s own.
pub open spec fn insert_by_time(t: TweetDatumView, s: Seq<TweetDatumView>) -> Seq<TweetDatumView>
    decreases s.len(),
{
    if s.len() == 0 {
        seq![t]
    } else if s.last().created_at <= t.created_at {
        s.push(t)
    } else {
        insert_by_time(t, s.drop_last()).push(s.last())
    }
}

/// The stable ascending-by-timestamp ordering of `s`: insertion sort,
/// one element at a time from the left.
pub open spec fn sort_by_time(s: Seq<TweetDatumView>) -> Seq<TweetDatumView>
    decreases s.len(),
{
    if s.len() == 0 {
        Seq::<TweetDatumView>::empty()
    } else {
        insert_by_time(s.last(), sort_by_time(s.drop_last()))
    }
}

/// Picks out the tweets carrying one particular timestamp.
pub open spec fn at_time(v: u64) -> spec_fn(TweetDatumView) -> bool {
    |t: TweetDatumView| t.created_at == v
}

proof fn lemma_insert_by_time_len(t: TweetDatumView, s: Seq<TweetDatumView>)
    ensures
        insert_by_time(t, s).len() == s.len() + 1,
    decreases s.len(),
{
    if s.len() != 0 && !(s.last().created_at <= t.created_at) {
        lemma_insert_by_time_len(t, s.drop_last());
    }
}

/// Sorting never adds or drops a tweet: the lengths agree.
pub proof fn lemma_sort_by_time_len(s: Seq<TweetDatumView>)
    ensures
        sort_by_time(s).len() == s.len(),
    decreases s.len(),
{
    if s.len() != 0 {
        lemma_sort_by_time_len(s.drop_last());
        lemma_insert_by_time_len(s.last(), sort_by_time(s.drop_last()));
    }
}

proof fn lemma_insert_by_time_multiset(t: TweetDatumView, s: Seq<TweetDatumView>)
    ensures
        insert_by_time(t, s).to_multiset() == s.to_multiset().insert(t),
    decreases s.len(),
{
    broadcast use vstd::seq_lib::group_to_multiset_ensures;

    if s.len() == 0 {
        assert(seq![t] =~= Seq::<TweetDatumView>::empty().push(t));
        assert(Seq::<TweetDatumView>::empty().push(t).to_multiset()
            =~= Seq::<TweetDatumView>::empty().to_multiset().insert(t));
    } else if s.last().created_at <= t.created_at {
        assert(s.push(t).to_multiset() =~= s.to_multiset().insert(t));
    } else {
        lemma_insert_by_time_multiset(t, s.drop_last());
        assert(s =~= s.drop_last().push(s.last()));
        assert(insert_by_time(t, s).to_multiset()
            =~= insert_by_time(t, s.drop_last()).to_multiset().insert(s.last()));
        assert(s.to_multiset() =~= s.drop_last().to_multiset().insert(s.last()));
        assert(s.drop_last().to_multiset().insert(t).insert(s.last())
            =~= s.drop_last().to_multiset().insert(s.last()).insert(t));
    }
}

/// The sorted sequence is a permutation of the input: as multisets the
/// two are the same.
pub proof fn lemma_sort_by_time_multiset(s: Seq<TweetDatumView>)
    ensures
        sort_by_time(s).to_multiset() == s.to_multiset(),
    decreases s.len(),
{
    broadcast use vstd::seq_lib::group_to_multiset_ensures;

    if s.len() != 0 {
        lemma_sort_by_time_multiset(s.drop_last());
        lemma_insert_by_time_multiset(s.last(), sort_by_time(s.drop_last()));
        assert(s =~= s.drop_last().push(s.last()));
        assert(s.to_multiset() =~= s.drop_last().to_multiset().insert(s.last()));
    }
}

proof fn lemma_insert_by_time_sorted(t: TweetDatumView, s: Seq<TweetDatumView>)
    requires
        sorted_by_time(s),
    ensures
        sorted_by_time(insert_by_time(t, s)),
    decreases s.len(),
{
    if s.len() == 0 {
    } else if s.last().created_at <= t.created_at {
    } else {
        assert(sorted_by_time(s.drop_last()));
        lemma_insert_by_time_sorted(t, s.drop_last());
        lemma_insert_by_time_len(t, s.drop_last());
        let r = insert_by_time(t, s.drop_last()).push(s.last());
        // every element of the recursive insertion is either an element of
        // `s.drop_last()` or `t` itself, and both stay at or below `s.last()`
        lemma_insert_by_time_elements(t, s.drop_last());
        assert forall|i: int, j: int| 0 <= i < j < r.len() implies
            r[i].created_at <= r[j].created_at by {
            if j < r.len() - 1 {
                assert(sorted_by_time(insert_by_time(t, s.drop_last())));
            }
        }
    }
}

/// Every element of an insertion result is the inserted element or one of
/// the original elements.
proof fn lemma_insert_by_time_elements(t: TweetDatumView, s: Seq<TweetDatumView>)
    ensures
        forall|i: int| 0 <= i < insert_by_time(t, s).len() ==>
            insert_by_time(t, s)[i] == t || s.contains(#[trigger] insert_by_time(t, s)[i]),
    decreases s.len(),
{
    if s.len() == 0 {
    } else if s.last().created_at <= t.created_at {
    } else {
        lemma_insert_by_time_elements(t, s.drop_last());
        lemma_insert_by_time_len(t, s.drop_last());
        assert forall|i: int| 0 <= i < insert_by_time(t, s).len() implies
            insert_by_time(t, s)[i] == t || s.contains(#[trigger] insert_by_time(t, s)[i]) by {
            let r = insert_by_time(t, s);
            if i < r.len() - 1 {
                let inner = insert_by_time(t, s.drop_last());
                assert(r[i] == inner[i]);
                if inner[i] != t {
                    let k = choose|k: int| 0 <= k < s.drop_last().len() && s.drop_last()[k] == inner[i];
                    assert(s[k] == inner[i]);
                }
            } else {
                assert(r[i] == s.last());
                assert(s[s.len() - 1] == s.last());
            }
        }
    }
}

/// The sort's first law: its result is ascending by timestamp.
pub proof fn lemma_sort_by_time_sorted(s: Seq<TweetDatumView>)
    ensures
        sorted_by_time(sort_by_time(s)),
    decreases s.len(),
{
    if s.len() != 0 {
        lemma_sort_by_time_sorted(s.drop_last());
        lemma_insert_by_time_sorted(s.last(), sort_by_time(s.drop_last()));
    }
}

proof fn lemma_filter_push(s: Seq<TweetDatumView>, pred: spec_fn(TweetDatumView) -> bool, t: TweetDatumView)
    ensures
        s.push(t).filter(pred) == if pred(t) { s.filter(pred).push(t) } else { s.filter(pred) },
{
    reveal(Seq::filter);
    assert(s.push(t).drop_last() =~= s);
    assert(s.push(t).last() == t);
}

proof fn lemma_insert_by_time_filter(t: TweetDatumView, s: Seq<TweetDatumView>, v: u64)
    ensures
        insert_by_time(t, s).filter(at_time(v)) == if t.created_at == v {
            s.filter(at_time(v)).push(t)
        } else {
            s.filter(at_time(v))
        },
    decreases s.len(),
{
    reveal(Seq::filter);
    if s.len() == 0 {
        assert(seq![t] =~= Seq::<TweetDatumView>::empty().push(t));
        lemma_filter_push(Seq::<TweetDatumView>::empty(), at_time(v), t);
        assert(Seq::<TweetDatumView>::empty().filter(at_time(v)) =~= Seq::<TweetDatumView>::empty());
    } else if s.last().created_at <= t.created_at {
        lemma_filter_push(s, at_time(v), t);
    } else {
        lemma_insert_by_time_filter(t, s.drop_last(), v);
        lemma_filter_push(insert_by_time(t, s.drop_last()), at_time(v), s.last());
        assert(s =~= s.drop_last().push(s.last()));
        lemma_filter_push(s.drop_last(), at_time(v), s.last());
        // s.last().created_at > t.created_at, so if t carries v the last element does not
    }
}

/// The sort's second law, stability: among the tweets carrying any one
/// timestamp, the input order is kept exactly.
pub proof fn lemma_sort_by_time_stable(s: Seq<TweetDatumView>, v: u64)
    ensures
        sort_by_time(s).filter(at_time(v)) == s.filter(at_time(v)),
    decreases s.len(),
{
    reveal(Seq::filter);
    if s.len() != 0 {
        lemma_sort_by_time_stable(s.drop_last(), v);
        lemma_insert_by_time_filter(s.last(), sort_by_time(s.drop_last()), v);
        assert(s =~= s.drop_last().push(s.last()));
        lemma_filter_push(s.drop_last(), at_time(v), s.last());
    }
}

/// Sorting an already-sorted sequence gives it back unchanged.
pub proof fn lemma_sort_by_time_of_sorted(s: Seq<TweetDatumView>)
    requires
        sorted_by_time(s),
    ensures
        sort_by_time(s) == s,
    decreases s.len(),
{
    if s.len() != 0 {
        assert(sorted_by_time(s.drop_last()));
        lemma_sort_by_time_of_sorted(s.drop_last());
        if s.len() == 1 {
            assert(insert_by_time(s.last(), s.drop_last()) =~= s);
        } else {
            assert(s.drop_last().last().created_at <= s.last().created_at);
            assert(s.drop_last().push(s.last()) =~= s);
        }
    }
}

/// The sort is idempotent: a second pass over its own result is a no-op.
pub proof fn lemma_sort_by_time_idempotent(s: Seq<TweetDatumView>)
    ensures
        sort_by_time(sort_by_time(s)) == sort_by_time(s),
{
    lemma_sort_by_time_sorted(s);
    lemma_sort_by_time_of_sorted(sort_by_time(s));
}

proof fn lemma_insert_by_time_position(t: TweetDatumView, s: Seq<TweetDatumView>, j: int)
    requires
        sorted_by_time(s),
        0 <= j <= s.len(),
        forall|k: int| 0 <= k < j ==> s[k].created_at <= t.created_at,
        j < s.len() ==> s[j].created_at > t.created_at,
    ensures
        insert_by_time(t, s) == s.insert(j, t),
    decreases s.len(),
{
    if s.len() == 0 {
        assert(insert_by_time(t, s) =~= s.insert(0, t));
    } else if s.last().created_at <= t.created_at {
        // the timestamp at any candidate j below the end would sit between
        // two ordered elements, so only j == s.len() is possible
        if j < s.len() {
            assert(s[j].created_at <= s[s.len() - 1].created_at);
            assert(false);
        }
        assert(s.push(t) =~= s.insert(s.len() as int, t));
    } else {
        if j == s.len() {
            assert(s[s.len() - 1].created_at <= t.created_at);
            assert(false);
        }
        assert(sorted_by_time(s.drop_last()));
        lemma_insert_by_time_position(t, s.drop_last(), j);
        lemma_insert_by_time_len(t, s.drop_last());
        assert(insert_by_time(t, s.drop_last()).push(s.last()) =~= s.insert(j, t));
    }
}

/// Sorts a run of tweet data ascending by timestamp, stably.
pub fn sorted_tweets(input: Vec<TweetDatum>) -> (r: Vec<TweetDatum>)
    ensures
        tweets_view(r@) == sort_by_time(tweets_view(input@)),
{
    let ghost full = tweets_view(input@);
    let mut acc: Vec<TweetDatum> = Vec::new();
    let n = input.len();
    let mut i: usize = 0;
    proof {
        assert(tweets_view(acc@) =~= Seq::<TweetDatumView>::empty());
        assert(full.take(0) =~= Seq::<TweetDatumView>::empty());
    }
    while i < n
        invariant
            i <= n,
            n == input.len(),
            full == tweets_view(input@),
            tweets_view(acc@) == sort_by_time(full.take(i as int)),
            sorted_by_time(tweets_view(acc@)),
        decreases n - i,
    {
        let t = input[i].clone();
        let mut j: usize = 0;
        while j < acc.len() && acc[j].created_at <= t.created_at
            invariant
                j <= acc.len(),
                t@ == full[i as int],
                i < n,
                n == input.len(),
                full == tweets_view(input@),
                tweets_view(acc@) == sort_by_time(full.take(i as int)),
                sorted_by_time(tweets_view(acc@)),
                forall|k: int| 0 <= k < j ==> tweets_view(acc@)[k].created_at <= t@.created_at,
            decreases acc.len() - j,
        {
            assert(tweets_view(acc@)[j as int] == acc@[j as int]@);
            j = j + 1;
        }
        let ghost before = tweets_view(acc@);
        proof {
            assert(j < acc.len() ==> before[j as int] == acc@[j as int]@);
        }
        acc.insert(j, t);
        i = i + 1;
        proof {
            lemma_insert_by_time_position(t@, before, j as int);
            assert(tweets_view(acc@) =~= before.insert(j as int, t@));
            assert(full.take(i as int).drop_last() =~= full.take(i - 1));
            assert(full.take(i as int).last() == full[i - 1]);
            lemma_insert_by_time_sorted(t@, before);
        }
    }
    proof {
        assert(full.take(n as int) =~= full);
    }
    acc
}

impl LikedTweets {
    /// Reorders the aggregate's tweets ascending by timestamp, stably;
    /// the subject user is untouched.
    pub fn sort_by_date(&mut self)
        ensures
            final(self)@.user == old(self)@.user,
            final(self)@.tweets == sort_by_time(old(self)@.tweets),
    {
        let mut run: Vec<TweetDatum> = Vec::new();
        core::mem::swap(&mut run, &mut self.tweets);
        let run = sorted_tweets(run);
        self.tweets = run;
    }
}

} // verus!
