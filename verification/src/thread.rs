//! The comments under a post, oldest first.
//!
//! Comments without a date come last. Comments of the same moment keep the
//! order in which they were read.

use crate::api::public::CommentWithAgent;
use crate::ranking::{
    as_ints,
    lemma_rank_order_is_ranking,
    precedes,
    rank_top,
    ranking,
    top_ranked,
    RankKey,
};
use vstd::prelude::*;

verus! {

/// The comments made on one post, in the order read.
pub open spec fn on_post(rows: Seq<CommentWithAgent>, post_id: i32) -> Seq<CommentWithAgent> {
    rows.filter(|comment: CommentWithAgent| comment.post_id == post_id)
}

/// How early a comment stands: the negated date, so that an older comment
/// ranks higher, and below every date where there is none.
pub open spec fn earliness(created_at: Option<i64>) -> int {
    match created_at {
        Some(at) => -(at as int),
        None => i64::MIN as int,
    }
}

/// The key by which a comment is ranked: the older, the better.
pub open spec fn age_key(created_at: Option<i64>) -> RankKey {
    RankKey { major: earliness(created_at) as i128, minor: 0 }
}

/// The keys of all comments.
pub open spec fn age_keys(comments: Seq<CommentWithAgent>) -> Seq<RankKey> {
    comments.map_values(|comment: CommentWithAgent| age_key(comment.created_at))
}

/// The comments from the oldest to the most recent, undated ones last.
pub open spec fn oldest_first(comments: Seq<CommentWithAgent>) -> Seq<CommentWithAgent> {
    ranking(age_keys(comments)).map_values(|i: int| comments[i])
}

/// The comments under a post as they are listed.
pub open spec fn comments_on(rows: Seq<CommentWithAgent>, post_id: i32) -> Seq<CommentWithAgent> {
    oldest_first(on_post(rows, post_id))
}

/// The comments at the given positions.
pub open spec fn chosen(rows: Seq<CommentWithAgent>, positions: Seq<usize>) -> Seq<
    CommentWithAgent,
> {
    Seq::new(positions.len(), |j: int| rows[positions[j] as int])
}

/// Listing loses and adds nothing: every comment is listed, and the list
/// is as long as the comments are many. A dated comment never follows an
/// undated one, and of two dated comments the older is listed first.
pub proof fn lemma_oldest_first_is_ordered(comments: Seq<CommentWithAgent>)
    ensures
        oldest_first(comments).len() == comments.len(),
        forall|i: int|
            0 <= i < comments.len() ==> oldest_first(comments).contains(#[trigger] comments[i]),
        forall|a: int, b: int|
            #![trigger oldest_first(comments)[a], oldest_first(comments)[b]]
            0 <= a < b < comments.len() ==> match (
                oldest_first(comments)[a].created_at,
                oldest_first(comments)[b].created_at,
            ) {
                (Some(first), Some(second)) => first <= second,
                (None, Some(_)) => false,
                _ => true,
            },
{
    let keys = age_keys(comments);
    let order = ranking(keys);
    let listed = oldest_first(comments);
    lemma_rank_order_is_ranking(keys, keys.len());
    assert forall|i: int| 0 <= i < comments.len() implies listed.contains(
        #[trigger] comments[i],
    ) by {
        assert(order.contains(i));
        let k = choose|k: int| 0 <= k < order.len() && order[k] == i;
        assert(listed[k] == comments[i]);
    }
    assert forall|a: int, b: int|
        #![trigger listed[a], listed[b]]
        0 <= a < b < comments.len() implies match (listed[a].created_at, listed[b].created_at) {
        (Some(first), Some(second)) => first <= second,
        (None, Some(_)) => false,
        _ => true,
    } by {
        assert(precedes(keys, order[a], order[b]));
        assert(listed[a] == comments[order[a]] && listed[b] == comments[order[b]]);
        assert(keys[order[a]] == age_key(comments[order[a]].created_at));
        assert(keys[order[b]] == age_key(comments[order[b]].created_at));
    }
}

/// Reading one more comment extends the comments on a post by it, or not
/// at all.
proof fn lemma_on_post_next(rows: Seq<CommentWithAgent>, next: CommentWithAgent, post_id: i32)
    ensures
        on_post(rows.push(next), post_id) == if next.post_id == post_id {
            on_post(rows, post_id).push(next)
        } else {
            on_post(rows, post_id)
        },
{
    reveal(Seq::filter);
    assert(rows.push(next).drop_last() =~= rows);
}

fn copy_comment(comment: &CommentWithAgent) -> (copy: CommentWithAgent)
    ensures
        copy == *comment,
{
    CommentWithAgent {
        id: comment.id,
        agent_id: comment.agent_id,
        agent_name: comment.agent_name.clone(),
        post_id: comment.post_id,
        content: comment.content.clone(),
        created_at: comment.created_at,
    }
}

/// Lists the comments made on `post_id`, oldest first.
pub fn list_comments(rows: &Vec<CommentWithAgent>, post_id: i32) -> (listed: Vec<CommentWithAgent>)
    ensures
        listed@ == comments_on(rows@, post_id),
{
    let mut positions: Vec<usize> = Vec::new();
    let mut keys: Vec<RankKey> = Vec::new();
    let mut i: usize = 0;
    assert(rows@.take(0) =~= Seq::<CommentWithAgent>::empty());
    assert(chosen(rows@, positions@) =~= on_post(rows@.take(0), post_id)) by {
        reveal(Seq::filter);
    }
    while i < rows.len()
        invariant
            i <= rows.len(),
            keys.len() == positions.len(),
            forall|j: int| 0 <= j < positions.len() ==> #[trigger] positions[j] < i,
            forall|j: int|
                0 <= j < positions.len() ==> #[trigger] keys@[j] == age_key(
                    rows@[positions[j] as int].created_at,
                ),
            chosen(rows@, positions@) == on_post(rows@.take(i as int), post_id),
        decreases rows.len() - i,
    {
        proof {
            lemma_on_post_next(rows@.take(i as int), rows@[i as int], post_id);
            assert(rows@.take(i as int).push(rows@[i as int]) =~= rows@.take(i + 1));
        }
        let ghost before = positions@;
        if rows[i].post_id == post_id {
            let major: i128 = match rows[i].created_at {
                Some(at) => -(at as i128),
                None => i64::MIN as i128,
            };
            positions.push(i);
            keys.push(RankKey { major, minor: 0 });
            assert(chosen(rows@, positions@) =~= chosen(rows@, before).push(rows@[i as int]));
        }
        i += 1;
    }
    assert(rows@.take(i as int) =~= rows@);
    let ghost comments = on_post(rows@, post_id);
    assert(keys@ =~= age_keys(comments)) by {
        assert forall|j: int| 0 <= j < keys.len() implies keys@[j] == age_keys(comments)[j] by {
            assert(comments[j] == chosen(rows@, positions@)[j]);
        }
    }
    let order = rank_top(&keys, keys.len());
    let ghost top = top_ranked(keys@, keys.len() as nat);
    assert(top == ranking(keys@)) by {
        lemma_rank_order_is_ranking(keys@, keys@.len());
    }
    let mut listed: Vec<CommentWithAgent> = Vec::new();
    let mut k: usize = 0;
    while k < order.len()
        invariant
            k <= order.len(),
            keys.len() == positions.len(),
            forall|j: int| 0 <= j < positions.len() ==> #[trigger] positions[j] < rows.len(),
            forall|m: int| 0 <= m < order.len() ==> #[trigger] order[m] < keys.len(),
            comments == chosen(rows@, positions@),
            as_ints(order@) == top,
            listed.len() == k,
            forall|m: int| 0 <= m < k ==> #[trigger] listed@[m] == comments[top[m]],
        decreases order.len() - k,
    {
        assert(top[k as int] == order[k as int] as int) by {
            assert(as_ints(order@)[k as int] == order@[k as int] as int);
        }
        listed.push(copy_comment(&rows[positions[order[k]]]));
        k += 1;
    }
    assert(top.len() == order.len()) by {
        assert(as_ints(order@).len() == order@.len());
    }
    assert(listed@ =~= oldest_first(comments));
    listed
}

} // verus!
