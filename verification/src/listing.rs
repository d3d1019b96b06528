//! Listing every post, newest first (the order of the older page service).

use vstd::prelude::*;

use crate::model::BlogPost;

verus! {

broadcast use vstd::seq_lib::group_seq_properties;

/// The position a post created at `t` takes in a newest-first listing:
/// after every post at least as new, before the first older one.
pub open spec fn first_older(sorted: Seq<BlogPost>, t: i64) -> int
    decreases sorted.len(),
{
    if sorted.len() == 0 {
        0
    } else if sorted[0].created_at < t {
        0
    } else {
        1 + first_older(sorted.skip(1), t)
    }
}

/// `posts` newest first by creation date; posts created at the same second
/// keep their order (a stable sort).
pub open spec fn newest_first_seq(posts: Seq<BlogPost>) -> Seq<BlogPost>
    decreases posts.len(),
{
    if posts.len() == 0 {
        Seq::empty()
    } else {
        let sorted = newest_first_seq(posts.drop_last());
        sorted.insert(first_older(sorted, posts.last().created_at), posts.last())
    }
}

/// Whether `s` runs from the newest creation date to the oldest.
pub open spec fn is_newest_first(s: Seq<BlogPost>) -> bool {
    forall|i: int, j: int| 0 <= i < j < s.len() ==> s[i].created_at >= s[j].created_at
}

proof fn lemma_first_older_bounds(sorted: Seq<BlogPost>, t: i64)
    ensures
        0 <= first_older(sorted, t) <= sorted.len(),
        forall|m: int| 0 <= m < first_older(sorted, t) ==> sorted[m].created_at >= t,
        first_older(sorted, t) < sorted.len() ==> sorted[first_older(sorted, t)].created_at < t,
    decreases sorted.len(),
{
    if sorted.len() > 0 && sorted[0].created_at >= t {
        let rest = sorted.skip(1);
        lemma_first_older_bounds(rest, t);
        assert forall|m: int| 0 <= m < first_older(sorted, t) implies sorted[m].created_at >= t by {
            if m > 0 {
                assert(sorted[m] == rest[m - 1]);
            }
        }
        if first_older(sorted, t) < sorted.len() {
            assert(sorted[first_older(sorted, t)] == rest[first_older(rest, t)]);
        }
    }
}

/// Listing newest first reorders the posts, keeping every one of them, so
/// that creation dates never increase down the list.
pub proof fn lemma_newest_first_sorts(posts: Seq<BlogPost>)
    ensures
        newest_first_seq(posts).to_multiset() == posts.to_multiset(),
        is_newest_first(newest_first_seq(posts)),
    decreases posts.len(),
{
    if posts.len() > 0 {
        let init = posts.drop_last();
        let p = posts.last();
        lemma_newest_first_sorts(init);
        let sorted = newest_first_seq(init);
        let k = first_older(sorted, p.created_at);
        lemma_first_older_bounds(sorted, p.created_at);
        let r = sorted.insert(k, p);
        assert(r.to_multiset() == sorted.to_multiset().insert(p));
        assert(posts =~= init.push(p));
        assert(posts.to_multiset() == init.to_multiset().insert(p));
        assert forall|i: int, j: int| 0 <= i < j < r.len() implies r[i].created_at >= r[j].created_at by {
            if j < k {
                assert(r[i] == sorted[i] && r[j] == sorted[j]);
            } else if j == k {
                assert(r[i] == sorted[i]);
            } else if i < k {
                assert(r[i] == sorted[i] && r[j] == sorted[j - 1]);
            } else if i == k {
                assert(r[j] == sorted[j - 1]);
                assert(sorted[k].created_at < p.created_at);
                if j - 1 > k {
                    assert(sorted[k].created_at >= sorted[j - 1].created_at);
                }
            } else {
                assert(r[i] == sorted[i - 1] && r[j] == sorted[j - 1]);
            }
        }
    }
}

/// Every post, newest first by creation date; posts created at the same
/// second keep their order.
pub fn newest_first(posts: Vec<BlogPost>) -> (res: Vec<BlogPost>)
    ensures
        res@ == newest_first_seq(posts@),
{
    let ghost all = posts@;
    let mut res: Vec<BlogPost> = Vec::new();
    for post in iter: posts.into_iter()
        invariant
            iter.seq() == all,
            res@ == newest_first_seq(all.take(iter.index() as int)),
    {
        let ghost i = iter.index();
        let ghost sorted = res@;
        proof {
            assert(all.take(i + 1).drop_last() =~= all.take(i as int));
            assert(all.take(i + 1).last() == post);
        }
        let t = post.created_at;
        let mut k: usize = 0;
        while k < res.len() && res[k].created_at >= t
            invariant
                res@ == sorted,
                k <= res@.len(),
                first_older(sorted, t) == k + first_older(sorted.skip(k as int), t),
            decreases res@.len() - k,
        {
            assert(sorted.skip(k as int).skip(1) =~= sorted.skip(k + 1));
            assert(sorted.skip(k as int)[0] == sorted[k as int]);
            k = k + 1;
        }
        proof {
            if k < res@.len() {
                assert(sorted.skip(k as int)[0] == sorted[k as int]);
            }
        }
        res.insert(k, post);
    }
    assert(all.take(all.len() as int) =~= all);
    res
}

} // verus!
