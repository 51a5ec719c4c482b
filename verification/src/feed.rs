//! Feed assembly: engagement counts joined to posts, scored and ranked.
//!
//! The engagement of a post is counted from the stored likes, comments and
//! reposts that name it. A post that none of them names keeps its place
//! among the candidates with all counts at zero. The candidates are ranked
//! by score, the higher first; between equal scores the post created later
//! comes first; posts equal in both keep the order in which they were
//! read. A feed shows the best `FEED_LIMIT` of them.

use crate::api::public::{Comment, Follow, Like, Post, PostWithEngagement, Repost};
use crate::ranking::{
    as_ints,
    lemma_rank_order_is_ranking,
    lemma_ranking_depends_on_comparisons,
    lemma_top_ranked_is_best,
    precedes,
    rank_top,
    ranking,
    top_ranked,
    RankKey,
};
use crate::score::{engagement_score, score_micros};
use std::collections::HashMap;
use vstd::prelude::*;

verus! {

/// The largest number of posts a feed shows.
pub const FEED_LIMIT: usize = 100;

/// A stored post together with the name of its author.
#[derive(Clone, Debug, PartialEq, Eq)]
pub struct AuthoredPost {
    pub post: Post,
    pub agent_name: String,
}

/// What a feed is assembled from, as read from the store at one moment.
#[derive(Clone, Debug, PartialEq, Eq)]
pub struct FeedRows {
    pub posts: Vec<AuthoredPost>,
    pub likes: Vec<Like>,
    pub comments: Vec<Comment>,
    pub reposts: Vec<Repost>,
}

/// How many of `targets` name `post_id`.
pub open spec fn count_for(targets: Seq<i32>, post_id: i32) -> nat
    decreases targets.len(),
{
    if targets.len() == 0 {
        0
    } else {
        count_for(targets.drop_last(), post_id) + if targets.last() == post_id {
            1nat
        } else {
            0nat
        }
    }
}

/// What a tally holds for a post: its count, or zero where the tally does
/// not know the post.
pub open spec fn tallied(counts: Map<i32, u64>, post_id: i32) -> nat {
    if counts.contains_key(post_id) {
        counts[post_id] as nat
    } else {
        0
    }
}

/// The posts that the likes name, one per like.
pub open spec fn like_targets(likes: Seq<Like>) -> Seq<i32> {
    likes.map_values(|like: Like| like.post_id)
}

/// The posts that the comments name, one per comment.
pub open spec fn comment_targets(comments: Seq<Comment>) -> Seq<i32> {
    comments.map_values(|comment: Comment| comment.post_id)
}

/// The posts that the reposts name, one per repost.
pub open spec fn repost_targets(reposts: Seq<Repost>) -> Seq<i32> {
    reposts.map_values(|repost: Repost| repost.original_post_id)
}

impl FeedRows {
    /// Number of likes on a post.
    pub open spec fn likes_of(self, post_id: i32) -> nat {
        count_for(like_targets(self.likes@), post_id)
    }

    /// Number of comments on a post.
    pub open spec fn comments_of(self, post_id: i32) -> nat {
        count_for(comment_targets(self.comments@), post_id)
    }

    /// Number of reposts of a post.
    pub open spec fn reposts_of(self, post_id: i32) -> nat {
        count_for(repost_targets(self.reposts@), post_id)
    }

    /// A post joined with its engagement counts.
    pub open spec fn entry(self, authored: AuthoredPost) -> PostWithEngagement {
        PostWithEngagement {
            id: authored.post.id,
            agent_id: authored.post.agent_id,
            agent_name: authored.agent_name,
            content: authored.post.content,
            created_at: authored.post.created_at,
            likes_count: self.likes_of(authored.post.id) as u64,
            comments_count: self.comments_of(authored.post.id) as u64,
            reposts_count: self.reposts_of(authored.post.id) as u64,
        }
    }

    /// Every one of `posts` joined with its counts: one entry per post, in
    /// the same order.
    pub open spec fn entries(self, posts: Seq<AuthoredPost>) -> Seq<PostWithEngagement> {
        posts.map_values(|authored: AuthoredPost| self.entry(authored))
    }
}

/// The score of a feed entry at `now`.
pub open spec fn entry_score(entry: PostWithEngagement, now: i64) -> int {
    score_micros(
        entry.likes_count as nat,
        entry.comments_count as nat,
        entry.reposts_count as nat,
        entry.created_at as int,
        now as int,
    )
}

/// The key a feed entry is ranked by: its score, then its creation time.
pub open spec fn feed_key(entry: PostWithEngagement, now: i64) -> RankKey {
    RankKey { major: entry_score(entry, now) as i128, minor: entry.created_at }
}

/// The keys of all entries.
pub open spec fn feed_keys(entries: Seq<PostWithEngagement>, now: i64) -> Seq<RankKey> {
    entries.map_values(|entry: PostWithEngagement| feed_key(entry, now))
}

/// The best `limit` entries in rank order.
pub open spec fn ranked_feed(entries: Seq<PostWithEngagement>, now: i64, limit: nat) -> Seq<
    PostWithEngagement,
> {
    top_ranked(feed_keys(entries, now), limit).map_values(|i: int| entries[i])
}

/// The posts written by one agent, in the order read.
pub open spec fn posts_by(posts: Seq<AuthoredPost>, agent_id: i32) -> Seq<AuthoredPost> {
    posts.filter(|authored: AuthoredPost| authored.post.agent_id == agent_id)
}

/// The global feed: the best of all posts.
pub open spec fn global_feed(rows: FeedRows, now: i64) -> Seq<PostWithEngagement> {
    ranked_feed(rows.entries(rows.posts@), now, FEED_LIMIT as nat)
}

/// An agent's timeline: the best of the agent's own posts.
pub open spec fn timeline(rows: FeedRows, agent_id: i32, now: i64) -> Seq<PostWithEngagement> {
    ranked_feed(rows.entries(posts_by(rows.posts@, agent_id)), now, FEED_LIMIT as nat)
}

/// There is an edge from `follower` to `followed`.
pub open spec fn follows(edges: Seq<Follow>, follower: i32, followed: i32) -> bool {
    exists|k: int|
        0 <= k < edges.len() && #[trigger] edges[k].follower_id == follower
            && edges[k].followed_id == followed
}

/// The posts written by the agents that `viewer` follows, in the order
/// read.
pub open spec fn posts_followed_by(posts: Seq<AuthoredPost>, edges: Seq<Follow>, viewer: i32) -> Seq<
    AuthoredPost,
> {
    posts.filter(|authored: AuthoredPost| follows(edges, viewer, authored.post.agent_id))
}

/// The timeline of the agents that `viewer` follows: the best of their
/// posts.
pub open spec fn following_timeline(
    rows: FeedRows,
    edges: Seq<Follow>,
    viewer: i32,
    now: i64,
) -> Seq<PostWithEngagement> {
    ranked_feed(
        rows.entries(posts_followed_by(rows.posts@, edges, viewer)),
        now,
        FEED_LIMIT as nat,
    )
}

/// The posts at the given positions.
pub open spec fn picked(posts: Seq<AuthoredPost>, positions: Seq<usize>) -> Seq<AuthoredPost> {
    Seq::new(positions.len(), |j: int| posts[positions[j] as int])
}

/// A score always fits the key that carries it.
pub proof fn lemma_score_fits(entry: PostWithEngagement, now: i64)
    ensures
        feed_key(entry, now).major == entry_score(entry, now),
{
    let points = entry.likes_count + 2 * entry.comments_count + 3 * entry.reposts_count;
    assert(0 <= points * 3_600_000_000 <= 6 * 0x1_0000_0000_0000_0000 * 3_600_000_000)
        by (nonlinear_arith)
        requires
            0 <= points <= 6 * 0x1_0000_0000_0000_0000,
    ;
}

/// No target names the post: the count is zero.
pub proof fn lemma_count_of_unnamed(targets: Seq<i32>, post_id: i32)
    requires
        forall|k: int| 0 <= k < targets.len() ==> targets[k] != post_id,
    ensures
        count_for(targets, post_id) == 0,
    decreases targets.len(),
{
    if targets.len() > 0 {
        lemma_count_of_unnamed(targets.drop_last(), post_id);
    }
}

/// A count never exceeds the number of rows counted.
pub proof fn lemma_count_bounded(targets: Seq<i32>, post_id: i32)
    ensures
        count_for(targets, post_id) <= targets.len(),
    decreases targets.len(),
{
    if targets.len() > 0 {
        lemma_count_bounded(targets.drop_last(), post_id);
    }
}

/// A ranked feed holds `min(limit, candidates)` entries, each one of the
/// candidates, ordered by score, the higher first, and between equal
/// scores by creation time, the later first.
pub proof fn lemma_feed_is_ordered(entries: Seq<PostWithEngagement>, now: i64, limit: nat)
    ensures
        ranked_feed(entries, now, limit).len() == if limit < entries.len() {
            limit
        } else {
            entries.len()
        },
        forall|k: int|
            0 <= k < ranked_feed(entries, now, limit).len() ==> entries.contains(
                #[trigger] ranked_feed(entries, now, limit)[k],
            ),
        forall|a: int, b: int|
            #![trigger ranked_feed(entries, now, limit)[a], ranked_feed(entries, now, limit)[b]]
            0 <= a < b < ranked_feed(entries, now, limit).len() ==> {
                let first = ranked_feed(entries, now, limit)[a];
                let second = ranked_feed(entries, now, limit)[b];
                entry_score(first, now) > entry_score(second, now) || (entry_score(first, now)
                    == entry_score(second, now) && first.created_at >= second.created_at)
            },
{
    let keys = feed_keys(entries, now);
    let top = top_ranked(keys, limit);
    let feed = ranked_feed(entries, now, limit);
    lemma_top_ranked_is_best(keys, limit);
    assert forall|k: int| 0 <= k < feed.len() implies entries.contains(#[trigger] feed[k]) by {
        assert(feed[k] == entries[top[k]]);
    }
    assert forall|a: int, b: int|
        #![trigger feed[a], feed[b]]
        0 <= a < b < feed.len() implies {
        let first = feed[a];
        let second = feed[b];
        entry_score(first, now) > entry_score(second, now) || (entry_score(first, now)
            == entry_score(second, now) && first.created_at >= second.created_at)
    } by {
        assert(precedes(keys, top[a], top[b]));
        assert(feed[a] == entries[top[a]] && feed[b] == entries[top[b]]);
        assert(keys[top[a]] == feed_key(entries[top[a]], now));
        assert(keys[top[b]] == feed_key(entries[top[b]], now));
        lemma_score_fits(feed[a], now);
        lemma_score_fits(feed[b], now);
    }
}

/// A feed shows the best: a candidate that is left out scores no higher
/// than any entry shown, and where it scores the same it was not created
/// later.
pub proof fn lemma_feed_shows_the_best(
    entries: Seq<PostWithEngagement>,
    now: i64,
    limit: nat,
    left_out: int,
    k: int,
)
    requires
        0 <= left_out < entries.len(),
        !top_ranked(feed_keys(entries, now), limit).contains(left_out),
        0 <= k < ranked_feed(entries, now, limit).len(),
    ensures
        ({
            let shown = ranked_feed(entries, now, limit)[k];
            let other = entries[left_out];
            entry_score(shown, now) > entry_score(other, now) || (entry_score(shown, now)
                == entry_score(other, now) && shown.created_at >= other.created_at)
        }),
{
    let keys = feed_keys(entries, now);
    let top = top_ranked(keys, limit);
    lemma_top_ranked_is_best(keys, limit);
    assert(precedes(keys, top[k], left_out)) by {
        assert(keys[left_out] == feed_key(entries[left_out], now));
    }
    assert(ranked_feed(entries, now, limit)[k] == entries[top[k]]);
    assert(keys[top[k]] == feed_key(entries[top[k]], now));
    assert(keys[left_out] == feed_key(entries[left_out], now));
    lemma_score_fits(entries[top[k]], now);
    lemma_score_fits(entries[left_out], now);
}

/// The order of a feed does not depend on the moment at which it is
/// assembled: every post decays at the same rate.
pub proof fn lemma_feed_ignores_the_clock(
    entries: Seq<PostWithEngagement>,
    now: i64,
    later: i64,
    limit: nat,
)
    ensures
        ranked_feed(entries, now, limit) == ranked_feed(entries, later, limit),
{
    let first = feed_keys(entries, now);
    let second = feed_keys(entries, later);
    assert forall|a: int, b: int|
        0 <= a < entries.len() && 0 <= b < entries.len() implies #[trigger] first[a].outranks(
        first[b],
    ) == second[a].outranks(second[b]) by {
        lemma_score_fits(entries[a], now);
        lemma_score_fits(entries[b], now);
        lemma_score_fits(entries[a], later);
        lemma_score_fits(entries[b], later);
    }
    lemma_ranking_depends_on_comparisons(first, second, entries.len());
}

/// Where no more than `limit` posts are candidates, every one of them is
/// in the feed.
pub proof fn lemma_feed_keeps_all(
    entries: Seq<PostWithEngagement>,
    now: i64,
    limit: nat,
    i: int,
)
    requires
        entries.len() <= limit,
        0 <= i < entries.len(),
    ensures
        ranked_feed(entries, now, limit).contains(entries[i]),
{
    let keys = feed_keys(entries, now);
    let top = top_ranked(keys, limit);
    lemma_rank_order_is_ranking(keys, keys.len());
    assert(top == ranking(keys));
    assert(top.contains(i));
    let k = choose|k: int| 0 <= k < top.len() && top[k] == i;
    assert(ranked_feed(entries, now, limit)[k] == entries[i]);
}

/// A post that no like, comment or repost names is still a candidate, with
/// all three counts at zero; and it is in the global feed whenever the
/// feed has room for every post.
pub proof fn lemma_unengaged_post_is_listed(rows: FeedRows, now: i64, i: int)
    requires
        0 <= i < rows.posts@.len(),
        forall|k: int| 0 <= k < rows.likes@.len() ==> rows.likes@[k].post_id != rows.posts@[i].post.id,
        forall|k: int|
            0 <= k < rows.comments@.len() ==> rows.comments@[k].post_id != rows.posts@[i].post.id,
        forall|k: int|
            0 <= k < rows.reposts@.len() ==> rows.reposts@[k].original_post_id
                != rows.posts@[i].post.id,
    ensures
        rows.entries(rows.posts@).len() == rows.posts@.len(),
        rows.entries(rows.posts@)[i].id == rows.posts@[i].post.id,
        rows.entries(rows.posts@)[i].likes_count == 0,
        rows.entries(rows.posts@)[i].comments_count == 0,
        rows.entries(rows.posts@)[i].reposts_count == 0,
        rows.posts@.len() <= FEED_LIMIT ==> global_feed(rows, now).contains(
            rows.entries(rows.posts@)[i],
        ),
{
    let id = rows.posts@[i].post.id;
    lemma_count_of_unnamed(like_targets(rows.likes@), id);
    lemma_count_of_unnamed(comment_targets(rows.comments@), id);
    lemma_count_of_unnamed(repost_targets(rows.reposts@), id);
    if rows.posts@.len() <= FEED_LIMIT {
        lemma_feed_keeps_all(rows.entries(rows.posts@), now, FEED_LIMIT as nat, i);
    }
}

/// With no posts there is nothing to show.
pub proof fn lemma_feed_of_no_posts(rows: FeedRows, agent_id: i32, now: i64)
    requires
        rows.posts@.len() == 0,
    ensures
        global_feed(rows, now) == Seq::<PostWithEngagement>::empty(),
        timeline(rows, agent_id, now) == Seq::<PostWithEngagement>::empty(),
{
    reveal(Seq::filter);
    lemma_feed_is_ordered(rows.entries(rows.posts@), now, FEED_LIMIT as nat);
    lemma_feed_is_ordered(rows.entries(posts_by(rows.posts@, agent_id)), now, FEED_LIMIT as nat);
    assert(global_feed(rows, now) =~= Seq::<PostWithEngagement>::empty());
    assert(timeline(rows, agent_id, now) =~= Seq::<PostWithEngagement>::empty());
}

/// Reading one more post extends the posts of the followed agents by it,
/// or not at all.
proof fn lemma_posts_followed_next(
    posts: Seq<AuthoredPost>,
    next: AuthoredPost,
    edges: Seq<Follow>,
    viewer: i32,
)
    ensures
        posts_followed_by(posts.push(next), edges, viewer) == if follows(
            edges,
            viewer,
            next.post.agent_id,
        ) {
            posts_followed_by(posts, edges, viewer).push(next)
        } else {
            posts_followed_by(posts, edges, viewer)
        },
{
    reveal(Seq::filter);
    assert(posts.push(next).drop_last() =~= posts);
}

/// Reading one more post extends an agent's posts by it, or not at all.
proof fn lemma_posts_by_next(posts: Seq<AuthoredPost>, next: AuthoredPost, agent_id: i32)
    ensures
        posts_by(posts.push(next), agent_id) == if next.post.agent_id == agent_id {
            posts_by(posts, agent_id).push(next)
        } else {
            posts_by(posts, agent_id)
        },
{
    reveal(Seq::filter);
    assert(posts.push(next).drop_last() =~= posts);
}

fn targets_of_likes(likes: &Vec<Like>) -> (targets: Vec<i32>)
    ensures
        targets@ == like_targets(likes@),
{
    let mut targets: Vec<i32> = Vec::new();
    let mut i: usize = 0;
    while i < likes.len()
        invariant
            i <= likes.len(),
            targets@ == like_targets(likes@.take(i as int)),
        decreases likes.len() - i,
    {
        targets.push(likes[i].post_id);
        assert(targets@ =~= like_targets(likes@.take(i + 1)));
        i += 1;
    }
    assert(likes@.take(i as int) =~= likes@);
    targets
}

fn targets_of_comments(comments: &Vec<Comment>) -> (targets: Vec<i32>)
    ensures
        targets@ == comment_targets(comments@),
{
    let mut targets: Vec<i32> = Vec::new();
    let mut i: usize = 0;
    while i < comments.len()
        invariant
            i <= comments.len(),
            targets@ == comment_targets(comments@.take(i as int)),
        decreases comments.len() - i,
    {
        targets.push(comments[i].post_id);
        assert(targets@ =~= comment_targets(comments@.take(i + 1)));
        i += 1;
    }
    assert(comments@.take(i as int) =~= comments@);
    targets
}

fn targets_of_reposts(reposts: &Vec<Repost>) -> (targets: Vec<i32>)
    ensures
        targets@ == repost_targets(reposts@),
{
    let mut targets: Vec<i32> = Vec::new();
    let mut i: usize = 0;
    while i < reposts.len()
        invariant
            i <= reposts.len(),
            targets@ == repost_targets(reposts@.take(i as int)),
        decreases reposts.len() - i,
    {
        targets.push(reposts[i].original_post_id);
        assert(targets@ =~= repost_targets(reposts@.take(i + 1)));
        i += 1;
    }
    assert(reposts@.take(i as int) =~= reposts@);
    targets
}

/// Counts in one pass how often each post is named.
pub fn tally(targets: &Vec<i32>) -> (counts: HashMap<i32, u64>)
    ensures
        forall|post_id: i32| tallied(counts@, post_id) == #[trigger] count_for(targets@, post_id),
{
    broadcast use vstd::std_specs::hash::group_hash_axioms;

    let mut counts: HashMap<i32, u64> = HashMap::new();
    let mut i: usize = 0;
    while i < targets.len()
        invariant
            i <= targets.len(),
            forall|post_id: i32|
                tallied(counts@, post_id) == #[trigger] count_for(
                    targets@.take(i as int),
                    post_id,
                ),
        decreases targets.len() - i,
    {
        let target = targets[i];
        let ghost before = counts@;
        let so_far = tallied_count(&counts, target);
        proof {
            lemma_count_bounded(targets@.take(i as int), target);
            assert(targets@.take(i + 1).drop_last() =~= targets@.take(i as int));
        }
        counts.insert(target, so_far + 1);
        assert forall|post_id: i32|
            tallied(counts@, post_id) == #[trigger] count_for(
                targets@.take(i + 1),
                post_id,
            ) by {
            assert(tallied(before, post_id) == count_for(targets@.take(i as int), post_id));
        }
        i += 1;
    }
    assert(targets@.take(i as int) =~= targets@);
    counts
}

/// Reads the count of a post off a tally: zero where the tally does not
/// know the post.
pub fn tallied_count(counts: &HashMap<i32, u64>, post_id: i32) -> (count: u64)
    ensures
        count == tallied(counts@, post_id),
{
    broadcast use vstd::std_specs::hash::group_hash_axioms;

    match counts.get(&post_id) {
        Some(count) => *count,
        None => 0,
    }
}

/// Joins the posts at `positions` with their counts, ranks them and keeps
/// the best `limit`.
fn assemble(rows: &FeedRows, positions: &Vec<usize>, now: i64, limit: usize) -> (feed: Vec<
    PostWithEngagement,
>)
    requires
        forall|j: int| 0 <= j < positions.len() ==> #[trigger] positions[j] < rows.posts.len(),
    ensures
        feed@ == ranked_feed(rows.entries(picked(rows.posts@, positions@)), now, limit as nat),
{
    let likes = tally(&targets_of_likes(&rows.likes));
    let comments = tally(&targets_of_comments(&rows.comments));
    let reposts = tally(&targets_of_reposts(&rows.reposts));
    let ghost candidates = picked(rows.posts@, positions@);
    let ghost entries = rows.entries(candidates);
    let mut keys: Vec<RankKey> = Vec::new();
    let mut like_counts: Vec<u64> = Vec::new();
    let mut comment_counts: Vec<u64> = Vec::new();
    let mut repost_counts: Vec<u64> = Vec::new();
    let mut j: usize = 0;
    while j < positions.len()
        invariant
            j <= positions.len(),
            forall|m: int| 0 <= m < positions.len() ==> #[trigger] positions[m] < rows.posts.len(),
            forall|id: i32| tallied(likes@, id) == #[trigger] rows.likes_of(id),
            forall|id: i32| tallied(comments@, id) == #[trigger] rows.comments_of(id),
            forall|id: i32| tallied(reposts@, id) == #[trigger] rows.reposts_of(id),
            candidates == picked(rows.posts@, positions@),
            entries == rows.entries(candidates),
            keys.len() == j,
            like_counts.len() == j,
            comment_counts.len() == j,
            repost_counts.len() == j,
            forall|m: int| 0 <= m < j ==> #[trigger] keys@[m] == feed_key(entries[m], now),
            forall|m: int|
                0 <= m < j ==> {
                    &&& #[trigger] like_counts@[m] == entries[m].likes_count
                    &&& comment_counts@[m] == entries[m].comments_count
                    &&& repost_counts@[m] == entries[m].reposts_count
                },
        decreases positions.len() - j,
    {
        let authored = &rows.posts[positions[j]];
        let l = tallied_count(&likes, authored.post.id);
        let c = tallied_count(&comments, authored.post.id);
        let r = tallied_count(&reposts, authored.post.id);
        assert(l == rows.likes_of(authored.post.id));
        assert(c == rows.comments_of(authored.post.id));
        assert(r == rows.reposts_of(authored.post.id));
        let score = engagement_score(l, c, r, authored.post.created_at, now);
        assert(candidates[j as int] == *authored);
        assert(entries[j as int] == rows.entry(*authored));
        keys.push(RankKey { major: score, minor: authored.post.created_at });
        like_counts.push(l);
        comment_counts.push(c);
        repost_counts.push(r);
        j += 1;
    }
    assert(keys@ =~= feed_keys(entries, now));
    let order = rank_top(&keys, limit);
    let ghost top = top_ranked(keys@, limit as nat);
    let mut feed: Vec<PostWithEngagement> = Vec::new();
    let mut k: usize = 0;
    while k < order.len()
        invariant
            k <= order.len(),
            forall|m: int| 0 <= m < positions.len() ==> #[trigger] positions[m] < rows.posts.len(),
            forall|m: int| 0 <= m < order.len() ==> #[trigger] order[m] < keys.len(),
            keys.len() == positions.len(),
            like_counts.len() == keys.len(),
            comment_counts.len() == keys.len(),
            repost_counts.len() == keys.len(),
            candidates == picked(rows.posts@, positions@),
            entries == rows.entries(candidates),
            forall|m: int|
                0 <= m < keys.len() ==> {
                    &&& #[trigger] like_counts@[m] == entries[m].likes_count
                    &&& comment_counts@[m] == entries[m].comments_count
                    &&& repost_counts@[m] == entries[m].reposts_count
                },
            as_ints(order@) == top,
            feed.len() == k,
            forall|m: int| 0 <= m < k ==> #[trigger] feed@[m] == entries[top[m]],
        decreases order.len() - k,
    {
        let at = order[k];
        let authored = &rows.posts[positions[at]];
        assert(top[k as int] == at as int) by {
            assert(as_ints(order@)[k as int] == order@[k as int] as int);
        }
        assert(candidates[at as int] == *authored);
        assert(entries[at as int] == rows.entry(*authored));
        let entry = PostWithEngagement {
            id: authored.post.id,
            agent_id: authored.post.agent_id,
            agent_name: authored.agent_name.clone(),
            content: authored.post.content.clone(),
            created_at: authored.post.created_at,
            likes_count: like_counts[at],
            comments_count: comment_counts[at],
            reposts_count: repost_counts[at],
        };
        feed.push(entry);
        k += 1;
    }
    assert(top.len() == order.len()) by {
        assert(as_ints(order@).len() == order@.len());
    }
    assert(feed@ =~= ranked_feed(entries, now, limit as nat));
    feed
}

/// Assembles the global feed from what was read at `now`.
pub fn rank_global_feed(rows: &FeedRows, now: i64) -> (feed: Vec<PostWithEngagement>)
    ensures
        feed@ == global_feed(*rows, now),
        feed.len() == if rows.posts.len() < FEED_LIMIT {
            rows.posts.len()
        } else {
            FEED_LIMIT
        },
{
    let mut positions: Vec<usize> = Vec::new();
    let mut i: usize = 0;
    while i < rows.posts.len()
        invariant
            i <= rows.posts.len(),
            positions.len() == i,
            forall|j: int| 0 <= j < i ==> #[trigger] positions[j] == j,
        decreases rows.posts.len() - i,
    {
        positions.push(i);
        i += 1;
    }
    assert(picked(rows.posts@, positions@) =~= rows.posts@);
    proof {
        lemma_feed_is_ordered(rows.entries(rows.posts@), now, FEED_LIMIT as nat);
    }
    assemble(rows, &positions, now, FEED_LIMIT)
}

/// Assembles the timeline of one agent from what was read at `now`.
pub fn rank_timeline(rows: &FeedRows, agent_id: i32, now: i64) -> (feed: Vec<PostWithEngagement>)
    ensures
        feed@ == timeline(*rows, agent_id, now),
        feed.len() <= FEED_LIMIT,
{
    let mut positions: Vec<usize> = Vec::new();
    let mut i: usize = 0;
    assert(rows.posts@.take(0) =~= Seq::<AuthoredPost>::empty());
    assert(picked(rows.posts@, positions@) =~= posts_by(rows.posts@.take(0), agent_id)) by {
        reveal(Seq::filter);
    }
    while i < rows.posts.len()
        invariant
            i <= rows.posts.len(),
            forall|j: int| 0 <= j < positions.len() ==> #[trigger] positions[j] < i,
            picked(rows.posts@, positions@) == posts_by(rows.posts@.take(i as int), agent_id),
        decreases rows.posts.len() - i,
    {
        proof {
            lemma_posts_by_next(rows.posts@.take(i as int), rows.posts@[i as int], agent_id);
            assert(rows.posts@.take(i as int).push(rows.posts@[i as int]) =~= rows.posts@.take(
                i + 1,
            ));
        }
        let ghost before = positions@;
        if rows.posts[i].post.agent_id == agent_id {
            positions.push(i);
            assert(picked(rows.posts@, positions@) =~= picked(rows.posts@, before).push(
                rows.posts@[i as int],
            ));
        }
        i += 1;
    }
    assert(rows.posts@.take(i as int) =~= rows.posts@);
    proof {
        lemma_feed_is_ordered(
            rows.entries(posts_by(rows.posts@, agent_id)),
            now,
            FEED_LIMIT as nat,
        );
    }
    assemble(rows, &positions, now, FEED_LIMIT)
}

/// Whether there is an edge from `follower` to `followed`.
pub fn is_following(edges: &Vec<Follow>, follower: i32, followed: i32) -> (found: bool)
    ensures
        found == follows(edges@, follower, followed),
{
    let mut i: usize = 0;
    while i < edges.len()
        invariant
            i <= edges.len(),
            forall|k: int|
                0 <= k < i ==> !(#[trigger] edges@[k].follower_id == follower
                    && edges@[k].followed_id == followed),
        decreases edges.len() - i,
    {
        if edges[i].follower_id == follower && edges[i].followed_id == followed {
            return true;
        }
        i += 1;
    }
    false
}

/// Assembles, from what was read at `now`, the timeline of the agents that
/// `viewer` follows.
pub fn rank_following_timeline(rows: &FeedRows, edges: &Vec<Follow>, viewer: i32, now: i64) -> (feed:
    Vec<PostWithEngagement>)
    ensures
        feed@ == following_timeline(*rows, edges@, viewer, now),
        feed.len() <= FEED_LIMIT,
{
    let mut positions: Vec<usize> = Vec::new();
    let mut i: usize = 0;
    assert(rows.posts@.take(0) =~= Seq::<AuthoredPost>::empty());
    assert(picked(rows.posts@, positions@) =~= posts_followed_by(
        rows.posts@.take(0),
        edges@,
        viewer,
    )) by {
        reveal(Seq::filter);
    }
    while i < rows.posts.len()
        invariant
            i <= rows.posts.len(),
            forall|j: int| 0 <= j < positions.len() ==> #[trigger] positions[j] < i,
            picked(rows.posts@, positions@) == posts_followed_by(
                rows.posts@.take(i as int),
                edges@,
                viewer,
            ),
        decreases rows.posts.len() - i,
    {
        proof {
            lemma_posts_followed_next(
                rows.posts@.take(i as int),
                rows.posts@[i as int],
                edges@,
                viewer,
            );
            assert(rows.posts@.take(i as int).push(rows.posts@[i as int]) =~= rows.posts@.take(
                i + 1,
            ));
        }
        let ghost before = positions@;
        if is_following(edges, viewer, rows.posts[i].post.agent_id) {
            positions.push(i);
            assert(picked(rows.posts@, positions@) =~= picked(rows.posts@, before).push(
                rows.posts@[i as int],
            ));
        }
        i += 1;
    }
    assert(rows.posts@.take(i as int) =~= rows.posts@);
    proof {
        lemma_feed_is_ordered(
            rows.entries(posts_followed_by(rows.posts@, edges@, viewer)),
            now,
            FEED_LIMIT as nat,
        );
    }
    assemble(rows, &positions, now, FEED_LIMIT)
}

} // verus!
