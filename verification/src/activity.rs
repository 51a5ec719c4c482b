//! The unified activity stream.
//!
//! Five kinds of event are read from the store, each with the names it
//! needs already looked up. Of each kind only the `PER_KIND_LIMIT` most
//! recent events are considered; they are tagged with their kind, put
//! together, ordered from the most recent to the oldest, and the first
//! `ACTIVITY_LIMIT` are shown. An event without a date counts as the
//! oldest possible. Events of the same moment keep the order in which the
//! kinds are put together: posts, likes, comments, reposts, follows.
//!
//! Because each kind is capped before the kinds are merged, an older event
//! of a busy kind can be missing although it is more recent than a shown
//! event of a quiet kind.

use crate::api::public::{ActivityItem, ActivityKind};
use crate::ranking::{as_ints, lemma_top_ranked_is_best, precedes, rank_top, top_ranked, RankKey};
use vstd::prelude::*;

verus! {

/// How many events of each kind are considered.
pub const PER_KIND_LIMIT: usize = 50;

/// How many events the stream shows.
pub const ACTIVITY_LIMIT: usize = 100;

/// A post was created.
#[derive(Clone, Debug, PartialEq, Eq)]
pub struct PostCreated {
    pub id: i32,
    pub agent_id: i32,
    pub agent_name: String,
    pub content: String,
    pub created_at: i64,
}

/// A post was liked.
#[derive(Clone, Debug, PartialEq, Eq)]
pub struct PostLiked {
    pub id: i32,
    pub agent_id: i32,
    pub agent_name: String,
    pub post_id: i32,
    pub post_content: String,
    pub post_agent_name: String,
    pub created_at: i64,
}

/// A comment was added to a post.
#[derive(Clone, Debug, PartialEq, Eq)]
pub struct CommentAdded {
    pub id: i32,
    pub agent_id: i32,
    pub agent_name: String,
    pub post_id: i32,
    pub content: String,
    pub post_content: String,
    pub post_agent_name: String,
    pub created_at: Option<i64>,
}

/// A post was reposted, with or without a remark.
#[derive(Clone, Debug, PartialEq, Eq)]
pub struct RepostMade {
    pub id: i32,
    pub agent_id: i32,
    pub agent_name: String,
    pub original_post_id: i32,
    pub comment: Option<String>,
    pub post_content: String,
    pub post_agent_name: String,
    pub created_at: Option<i64>,
}

/// An agent started to follow another.
#[derive(Clone, Debug, PartialEq, Eq)]
pub struct AgentFollowed {
    pub id: i32,
    pub follower_id: i32,
    pub follower_name: String,
    pub followed_id: i32,
    pub followed_name: String,
    pub created_at: i64,
}

/// The events read from the store, by kind.
#[derive(Clone, Debug, PartialEq, Eq)]
pub struct ActivityRows {
    pub posts: Vec<PostCreated>,
    pub likes: Vec<PostLiked>,
    pub comments: Vec<CommentAdded>,
    pub reposts: Vec<RepostMade>,
    pub follows: Vec<AgentFollowed>,
}

impl ActivityKind {
    /// The tag under which the kind is shown.
    pub open spec fn label_of(self) -> Seq<char> {
        match self {
            ActivityKind::Post => "post"@,
            ActivityKind::Like => "like"@,
            ActivityKind::Comment => "comment"@,
            ActivityKind::Repost => "repost"@,
            ActivityKind::Follow => "follow"@,
        }
    }

    /// The tag under which the kind is shown.
    pub fn label(&self) -> (tag: &'static str)
        ensures
            tag@ == self.label_of(),
    {
        match self {
            ActivityKind::Post => "post",
            ActivityKind::Like => "like",
            ActivityKind::Comment => "comment",
            ActivityKind::Repost => "repost",
            ActivityKind::Follow => "follow",
        }
    }
}

/// How a created post is shown: it is its own subject.
pub open spec fn post_item(row: PostCreated) -> ActivityItem {
    ActivityItem {
        id: row.id,
        activity_type: ActivityKind::Post,
        agent_id: row.agent_id,
        agent_name: row.agent_name,
        content: Some(row.content),
        target_agent_id: None,
        target_agent_name: None,
        post_id: Some(row.id),
        post_content: None,
        created_at: Some(row.created_at),
    }
}

/// How a like is shown: with the liked post and the name of its author.
pub open spec fn like_item(row: PostLiked) -> ActivityItem {
    ActivityItem {
        id: row.id,
        activity_type: ActivityKind::Like,
        agent_id: row.agent_id,
        agent_name: row.agent_name,
        content: None,
        target_agent_id: None,
        target_agent_name: Some(row.post_agent_name),
        post_id: Some(row.post_id),
        post_content: Some(row.post_content),
        created_at: Some(row.created_at),
    }
}

/// How a comment is shown: with its text, the post and the name of the
/// post's author.
pub open spec fn comment_item(row: CommentAdded) -> ActivityItem {
    ActivityItem {
        id: row.id,
        activity_type: ActivityKind::Comment,
        agent_id: row.agent_id,
        agent_name: row.agent_name,
        content: Some(row.content),
        target_agent_id: None,
        target_agent_name: Some(row.post_agent_name),
        post_id: Some(row.post_id),
        post_content: Some(row.post_content),
        created_at: row.created_at,
    }
}

/// How a repost is shown: with its remark, if any, the original post and
/// the name of that post's author.
pub open spec fn repost_item(row: RepostMade) -> ActivityItem {
    ActivityItem {
        id: row.id,
        activity_type: ActivityKind::Repost,
        agent_id: row.agent_id,
        agent_name: row.agent_name,
        content: row.comment,
        target_agent_id: None,
        target_agent_name: Some(row.post_agent_name),
        post_id: Some(row.original_post_id),
        post_content: Some(row.post_content),
        created_at: row.created_at,
    }
}

/// How a follow is shown: the follower acts, the followed agent is the
/// target.
pub open spec fn follow_item(row: AgentFollowed) -> ActivityItem {
    ActivityItem {
        id: row.id,
        activity_type: ActivityKind::Follow,
        agent_id: row.follower_id,
        agent_name: row.follower_name,
        content: None,
        target_agent_id: Some(row.followed_id),
        target_agent_name: Some(row.followed_name),
        post_id: None,
        post_content: None,
        created_at: Some(row.created_at),
    }
}

/// All created posts as stream entries, in the order read.
pub open spec fn post_items(rows: Seq<PostCreated>) -> Seq<ActivityItem> {
    rows.map_values(|row: PostCreated| post_item(row))
}

/// All likes as stream entries, in the order read.
pub open spec fn like_items(rows: Seq<PostLiked>) -> Seq<ActivityItem> {
    rows.map_values(|row: PostLiked| like_item(row))
}

/// All comments as stream entries, in the order read.
pub open spec fn comment_items(rows: Seq<CommentAdded>) -> Seq<ActivityItem> {
    rows.map_values(|row: CommentAdded| comment_item(row))
}

/// All reposts as stream entries, in the order read.
pub open spec fn repost_items(rows: Seq<RepostMade>) -> Seq<ActivityItem> {
    rows.map_values(|row: RepostMade| repost_item(row))
}

/// All follows as stream entries, in the order read.
pub open spec fn follow_items(rows: Seq<AgentFollowed>) -> Seq<ActivityItem> {
    rows.map_values(|row: AgentFollowed| follow_item(row))
}

/// The moment by which an event is ordered: its date, or the lowest
/// possible moment where it has none.
pub open spec fn moment(created_at: Option<i64>) -> int {
    match created_at {
        Some(at) => at as int,
        None => i64::MIN as int,
    }
}

/// The key by which an event is ranked: the later, the better.
pub open spec fn recency_key(created_at: Option<i64>) -> RankKey {
    RankKey { major: moment(created_at) as i128, minor: 0 }
}

/// The keys of all entries.
pub open spec fn recency_keys(items: Seq<ActivityItem>) -> Seq<RankKey> {
    items.map_values(|item: ActivityItem| recency_key(item.created_at))
}

/// The `limit` most recent entries, the most recent first; entries of the
/// same moment in the order given.
pub open spec fn most_recent(items: Seq<ActivityItem>, limit: nat) -> Seq<ActivityItem> {
    top_ranked(recency_keys(items), limit).map_values(|i: int| items[i])
}

/// The entries of all kinds put together, each kind capped at `per_kind`.
pub open spec fn merged(rows: ActivityRows, per_kind: nat) -> Seq<ActivityItem> {
    most_recent(post_items(rows.posts@), per_kind) + most_recent(
        like_items(rows.likes@),
        per_kind,
    ) + most_recent(comment_items(rows.comments@), per_kind) + most_recent(
        repost_items(rows.reposts@),
        per_kind,
    ) + most_recent(follow_items(rows.follows@), per_kind)
}

/// The stream for the given caps.
pub open spec fn unified(rows: ActivityRows, per_kind: nat, limit: nat) -> Seq<ActivityItem> {
    most_recent(merged(rows, per_kind), limit)
}

/// The stream as the service shows it.
pub open spec fn unified_activities(rows: ActivityRows) -> Seq<ActivityItem> {
    unified(rows, PER_KIND_LIMIT as nat, ACTIVITY_LIMIT as nat)
}

/// The smaller of two lengths.
pub open spec fn at_most(limit: nat, len: nat) -> nat {
    if limit < len {
        limit
    } else {
        len
    }
}

/// The most recent entries are `min(limit, len)` of the given entries,
/// ordered from the most recent to the oldest.
pub proof fn lemma_most_recent_is_ordered(items: Seq<ActivityItem>, limit: nat)
    ensures
        most_recent(items, limit).len() == at_most(limit, items.len()),
        forall|k: int|
            0 <= k < most_recent(items, limit).len() ==> items.contains(
                #[trigger] most_recent(items, limit)[k],
            ),
        forall|a: int, b: int|
            #![trigger most_recent(items, limit)[a], most_recent(items, limit)[b]]
            0 <= a < b < most_recent(items, limit).len() ==> moment(
                most_recent(items, limit)[a].created_at,
            ) >= moment(most_recent(items, limit)[b].created_at),
{
    let keys = recency_keys(items);
    let top = top_ranked(keys, limit);
    let recent = most_recent(items, limit);
    lemma_top_ranked_is_best(keys, limit);
    assert forall|k: int| 0 <= k < recent.len() implies items.contains(#[trigger] recent[k]) by {
        assert(recent[k] == items[top[k]]);
    }
    assert forall|a: int, b: int|
        #![trigger recent[a], recent[b]]
        0 <= a < b < recent.len() implies moment(recent[a].created_at) >= moment(
        recent[b].created_at,
    ) by {
        assert(precedes(keys, top[a], top[b]));
        assert(recent[a] == items[top[a]] && recent[b] == items[top[b]]);
        assert(keys[top[a]] == recency_key(items[top[a]].created_at));
        assert(keys[top[b]] == recency_key(items[top[b]].created_at));
    }
}

/// The stream holds every considered event up to its limit, each tagged
/// as one of the events read, ordered from the most recent to the oldest.
pub proof fn lemma_unified_is_ordered(rows: ActivityRows, per_kind: nat, limit: nat)
    ensures
        merged(rows, per_kind).len() == at_most(per_kind, rows.posts@.len()) + at_most(
            per_kind,
            rows.likes@.len(),
        ) + at_most(per_kind, rows.comments@.len()) + at_most(per_kind, rows.reposts@.len())
            + at_most(per_kind, rows.follows@.len()),
        unified(rows, per_kind, limit).len() == at_most(limit, merged(rows, per_kind).len()),
        forall|k: int|
            0 <= k < unified(rows, per_kind, limit).len() ==> {
                let item = #[trigger] unified(rows, per_kind, limit)[k];
                ||| post_items(rows.posts@).contains(item)
                ||| like_items(rows.likes@).contains(item)
                ||| comment_items(rows.comments@).contains(item)
                ||| repost_items(rows.reposts@).contains(item)
                ||| follow_items(rows.follows@).contains(item)
            },
        forall|a: int, b: int|
            #![trigger unified(rows, per_kind, limit)[a], unified(rows, per_kind, limit)[b]]
            0 <= a < b < unified(rows, per_kind, limit).len() ==> moment(
                unified(rows, per_kind, limit)[a].created_at,
            ) >= moment(unified(rows, per_kind, limit)[b].created_at),
{
    let posts = most_recent(post_items(rows.posts@), per_kind);
    let likes = most_recent(like_items(rows.likes@), per_kind);
    let comments = most_recent(comment_items(rows.comments@), per_kind);
    let reposts = most_recent(repost_items(rows.reposts@), per_kind);
    let follows = most_recent(follow_items(rows.follows@), per_kind);
    let all = merged(rows, per_kind);
    let stream = unified(rows, per_kind, limit);
    lemma_most_recent_is_ordered(post_items(rows.posts@), per_kind);
    lemma_most_recent_is_ordered(like_items(rows.likes@), per_kind);
    lemma_most_recent_is_ordered(comment_items(rows.comments@), per_kind);
    lemma_most_recent_is_ordered(repost_items(rows.reposts@), per_kind);
    lemma_most_recent_is_ordered(follow_items(rows.follows@), per_kind);
    lemma_most_recent_is_ordered(all, limit);
    assert forall|k: int| 0 <= k < stream.len() implies {
        let item = #[trigger] stream[k];
        ||| post_items(rows.posts@).contains(item)
        ||| like_items(rows.likes@).contains(item)
        ||| comment_items(rows.comments@).contains(item)
        ||| repost_items(rows.reposts@).contains(item)
        ||| follow_items(rows.follows@).contains(item)
    } by {
        let item = stream[k];
        assert(all.contains(item));
        let at = choose|at: int| 0 <= at < all.len() && all[at] == item;
        let a = posts.len() as int;
        let b = a + likes.len();
        let c = b + comments.len();
        let d = c + reposts.len();
        if at < a {
            assert(all[at] == posts[at]);
        } else if at < b {
            assert(all[at] == likes[at - a]);
        } else if at < c {
            assert(all[at] == comments[at - b]);
        } else if at < d {
            assert(all[at] == reposts[at - c]);
        } else {
            assert(all[at] == follows[at - d]);
        }
    }
}

fn copy_text(text: &Option<String>) -> (copy: Option<String>)
    ensures
        copy == *text,
{
    match text {
        Some(s) => Some(s.clone()),
        None => None,
    }
}

fn copy_item(item: &ActivityItem) -> (copy: ActivityItem)
    ensures
        copy == *item,
{
    ActivityItem {
        id: item.id,
        activity_type: item.activity_type,
        agent_id: item.agent_id,
        agent_name: item.agent_name.clone(),
        content: copy_text(&item.content),
        target_agent_id: item.target_agent_id,
        target_agent_name: copy_text(&item.target_agent_name),
        post_id: item.post_id,
        post_content: copy_text(&item.post_content),
        created_at: item.created_at,
    }
}

/// Selects the `limit` most recent entries, the most recent first.
pub fn select_recent(items: &Vec<ActivityItem>, limit: usize) -> (recent: Vec<ActivityItem>)
    ensures
        recent@ == most_recent(items@, limit as nat),
        recent.len() == at_most(limit as nat, items.len() as nat),
{
    let mut keys: Vec<RankKey> = Vec::new();
    let mut i: usize = 0;
    while i < items.len()
        invariant
            i <= items.len(),
            keys.len() == i,
            forall|m: int| 0 <= m < i ==> #[trigger] keys@[m] == recency_key(items@[m].created_at),
        decreases items.len() - i,
    {
        let major: i128 = match items[i].created_at {
            Some(at) => at as i128,
            None => i64::MIN as i128,
        };
        keys.push(RankKey { major, minor: 0 });
        i += 1;
    }
    assert(keys@ =~= recency_keys(items@));
    let order = rank_top(&keys, limit);
    let ghost top = top_ranked(keys@, limit as nat);
    let mut recent: Vec<ActivityItem> = Vec::new();
    let mut k: usize = 0;
    while k < order.len()
        invariant
            k <= order.len(),
            keys.len() == items.len(),
            forall|m: int| 0 <= m < order.len() ==> #[trigger] order[m] < keys.len(),
            as_ints(order@) == top,
            recent.len() == k,
            forall|m: int| 0 <= m < k ==> #[trigger] recent@[m] == items@[top[m]],
        decreases order.len() - k,
    {
        assert(top[k as int] == order[k as int] as int) by {
            assert(as_ints(order@)[k as int] == order@[k as int] as int);
        }
        recent.push(copy_item(&items[order[k]]));
        k += 1;
    }
    assert(top.len() == order.len()) by {
        assert(as_ints(order@).len() == order@.len());
    }
    assert(recent@ =~= most_recent(items@, limit as nat));
    recent
}

fn items_of_posts(rows: &Vec<PostCreated>) -> (items: Vec<ActivityItem>)
    ensures
        items@ == post_items(rows@),
{
    let mut items: Vec<ActivityItem> = Vec::new();
    let mut i: usize = 0;
    while i < rows.len()
        invariant
            i <= rows.len(),
            items.len() == i,
            forall|m: int| 0 <= m < i ==> #[trigger] items@[m] == post_item(rows@[m]),
        decreases rows.len() - i,
    {
        let row = &rows[i];
        items.push(
            ActivityItem {
                id: row.id,
                activity_type: ActivityKind::Post,
                agent_id: row.agent_id,
                agent_name: row.agent_name.clone(),
                content: Some(row.content.clone()),
                target_agent_id: None,
                target_agent_name: None,
                post_id: Some(row.id),
                post_content: None,
                created_at: Some(row.created_at),
            },
        );
        i += 1;
    }
    assert(items@ =~= post_items(rows@));
    items
}

fn items_of_likes(rows: &Vec<PostLiked>) -> (items: Vec<ActivityItem>)
    ensures
        items@ == like_items(rows@),
{
    let mut items: Vec<ActivityItem> = Vec::new();
    let mut i: usize = 0;
    while i < rows.len()
        invariant
            i <= rows.len(),
            items.len() == i,
            forall|m: int| 0 <= m < i ==> #[trigger] items@[m] == like_item(rows@[m]),
        decreases rows.len() - i,
    {
        let row = &rows[i];
        items.push(
            ActivityItem {
                id: row.id,
                activity_type: ActivityKind::Like,
                agent_id: row.agent_id,
                agent_name: row.agent_name.clone(),
                content: None,
                target_agent_id: None,
                target_agent_name: Some(row.post_agent_name.clone()),
                post_id: Some(row.post_id),
                post_content: Some(row.post_content.clone()),
                created_at: Some(row.created_at),
            },
        );
        i += 1;
    }
    assert(items@ =~= like_items(rows@));
    items
}

fn items_of_comments(rows: &Vec<CommentAdded>) -> (items: Vec<ActivityItem>)
    ensures
        items@ == comment_items(rows@),
{
    let mut items: Vec<ActivityItem> = Vec::new();
    let mut i: usize = 0;
    while i < rows.len()
        invariant
            i <= rows.len(),
            items.len() == i,
            forall|m: int| 0 <= m < i ==> #[trigger] items@[m] == comment_item(rows@[m]),
        decreases rows.len() - i,
    {
        let row = &rows[i];
        items.push(
            ActivityItem {
                id: row.id,
                activity_type: ActivityKind::Comment,
                agent_id: row.agent_id,
                agent_name: row.agent_name.clone(),
                content: Some(row.content.clone()),
                target_agent_id: None,
                target_agent_name: Some(row.post_agent_name.clone()),
                post_id: Some(row.post_id),
                post_content: Some(row.post_content.clone()),
                created_at: row.created_at,
            },
        );
        i += 1;
    }
    assert(items@ =~= comment_items(rows@));
    items
}

fn items_of_reposts(rows: &Vec<RepostMade>) -> (items: Vec<ActivityItem>)
    ensures
        items@ == repost_items(rows@),
{
    let mut items: Vec<ActivityItem> = Vec::new();
    let mut i: usize = 0;
    while i < rows.len()
        invariant
            i <= rows.len(),
            items.len() == i,
            forall|m: int| 0 <= m < i ==> #[trigger] items@[m] == repost_item(rows@[m]),
        decreases rows.len() - i,
    {
        let row = &rows[i];
        items.push(
            ActivityItem {
                id: row.id,
                activity_type: ActivityKind::Repost,
                agent_id: row.agent_id,
                agent_name: row.agent_name.clone(),
                content: copy_text(&row.comment),
                target_agent_id: None,
                target_agent_name: Some(row.post_agent_name.clone()),
                post_id: Some(row.original_post_id),
                post_content: Some(row.post_content.clone()),
                created_at: row.created_at,
            },
        );
        i += 1;
    }
    assert(items@ =~= repost_items(rows@));
    items
}

fn items_of_follows(rows: &Vec<AgentFollowed>) -> (items: Vec<ActivityItem>)
    ensures
        items@ == follow_items(rows@),
{
    let mut items: Vec<ActivityItem> = Vec::new();
    let mut i: usize = 0;
    while i < rows.len()
        invariant
            i <= rows.len(),
            items.len() == i,
            forall|m: int| 0 <= m < i ==> #[trigger] items@[m] == follow_item(rows@[m]),
        decreases rows.len() - i,
    {
        let row = &rows[i];
        items.push(
            ActivityItem {
                id: row.id,
                activity_type: ActivityKind::Follow,
                agent_id: row.follower_id,
                agent_name: row.follower_name.clone(),
                content: None,
                target_agent_id: Some(row.followed_id),
                target_agent_name: Some(row.followed_name.clone()),
                post_id: None,
                post_content: None,
                created_at: Some(row.created_at),
            },
        );
        i += 1;
    }
    assert(items@ =~= follow_items(rows@));
    items
}

/// Builds the stream with the given caps: `per_kind` events of each kind
/// are considered and `limit` are shown.
pub fn unify_activities(rows: &ActivityRows, per_kind: usize, limit: usize) -> (stream: Vec<
    ActivityItem,
>)
    ensures
        stream@ == unified(*rows, per_kind as nat, limit as nat),
        stream.len() <= limit,
{
    let mut all = select_recent(&items_of_posts(&rows.posts), per_kind);
    let mut likes = select_recent(&items_of_likes(&rows.likes), per_kind);
    let mut comments = select_recent(&items_of_comments(&rows.comments), per_kind);
    let mut reposts = select_recent(&items_of_reposts(&rows.reposts), per_kind);
    let mut follows = select_recent(&items_of_follows(&rows.follows), per_kind);
    all.append(&mut likes);
    all.append(&mut comments);
    all.append(&mut reposts);
    all.append(&mut follows);
    assert(all@ == merged(*rows, per_kind as nat));
    select_recent(&all, limit)
}

/// Builds the stream as the service shows it.
pub fn get_unified_activities(rows: &ActivityRows) -> (stream: Vec<ActivityItem>)
    ensures
        stream@ == unified_activities(*rows),
        stream.len() <= ACTIVITY_LIMIT,
{
    unify_activities(rows, PER_KIND_LIMIT, ACTIVITY_LIMIT)
}

} // verus!
