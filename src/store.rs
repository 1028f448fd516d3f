use vstd::prelude::*;

use crate::delivery::{distinct_inboxes, has_text, plan_deliveries, DeliveryJob, QueuedDelivery};
use crate::error::FederationError;
use crate::user::Model;

verus! {


/// A follow from `source` to `target`, pending until accepted.
pub struct FollowRow {
    pub uri: String,
    pub source: u128,
    pub target: u128,
    pub accepted: bool,
}

/// A reaction of `actor` on the post at `post`.
pub struct ReactionRow {
    pub uri: String,
    pub actor: u128,
    pub post: String,
    pub content: String,
}

/// A post by the user `author`.
pub struct PostRow {
    pub uri: String,
    pub author: u128,
    pub content: String,
}

/// A row stored under a canonical URI.
pub trait Keyed {
    spec fn key(&self) -> Seq<char>;
}

impl Keyed for FollowRow {
    open spec fn key(&self) -> Seq<char> {
        self.uri@
    }
}

impl Keyed for ReactionRow {
    open spec fn key(&self) -> Seq<char> {
        self.uri@
    }
}

impl Keyed for PostRow {
    open spec fn key(&self) -> Seq<char> {
        self.uri@
    }
}

/// No two rows share a canonical URI.
pub open spec fn keys_unique<T: Keyed>(s: Seq<T>) -> bool {
    forall|i: int, j: int| 0 <= i < j < s.len() ==> #[trigger] s[i].key() != #[trigger] s[j].key()
}

/// Whether some row has canonical URI `k`.
pub open spec fn has_key<T: Keyed>(s: Seq<T>, k: Seq<char>) -> bool {
    exists|i: int| 0 <= i < s.len() && #[trigger] s[i].key() == k
}

/// Appending a row under a URI that no row has keeps the URIs unique.
pub proof fn lemma_unique_push<T: Keyed>(s: Seq<T>, x: T)
    requires
        keys_unique(s),
        !has_key(s, x.key()),
    ensures
        keys_unique(s.push(x)),
{
    let t = s.push(x);
    assert forall|a: int, b: int| 0 <= a < b < t.len() implies #[trigger] t[a].key()
        != #[trigger] t[b].key() by {
        assert(t[a] == s[a]);
        if b < s.len() {
            assert(t[b] == s[b]);
        }
    }
}

/// Replacing a row by one with the same URI keeps the URIs unique.
pub proof fn lemma_unique_update<T: Keyed>(s: Seq<T>, i: int, x: T)
    requires
        keys_unique(s),
        0 <= i < s.len(),
        x.key() == s[i].key(),
    ensures
        keys_unique(s.update(i, x)),
{
    let t = s.update(i, x);
    assert forall|a: int, b: int| 0 <= a < b < t.len() implies #[trigger] t[a].key()
        != #[trigger] t[b].key() by {
        assert(t[a].key() == s[a].key());
        assert(t[b].key() == s[b].key());
    }
}

/// Removing a row keeps the URIs unique and leaves none with its URI.
pub proof fn lemma_unique_remove<T: Keyed>(s: Seq<T>, i: int)
    requires
        keys_unique(s),
        0 <= i < s.len(),
    ensures
        keys_unique(s.remove(i)),
        !has_key(s.remove(i), s[i].key()),
{
    let t = s.remove(i);
    assert forall|a: int, b: int| 0 <= a < b < t.len() implies #[trigger] t[a].key()
        != #[trigger] t[b].key() by {
        if a < i {
            if b < i {
                assert(t[b] == s[b]);
            } else {
                assert(t[b] == s[b + 1]);
            }
            assert(t[a] == s[a]);
        } else {
            assert(t[a] == s[a + 1]);
            assert(t[b] == s[b + 1]);
        }
    }
    if has_key(t, s[i].key()) {
        let k = choose|k: int| 0 <= k < t.len() && #[trigger] t[k].key() == s[i].key();
        if k < i {
            assert(t[k] == s[k]);
        } else {
            assert(t[k] == s[k + 1]);
        }
    }
}

/// The number of accepted follows whose target is `user`.
pub open spec fn followers_of(f: Seq<FollowRow>, user: u128) -> nat
    decreases f.len(),
{
    if f.len() == 0 {
        0
    } else {
        followers_of(f.drop_last(), user) + if f.last().accepted && f.last().target == user {
            1nat
        } else {
            0nat
        }
    }
}

/// The number of accepted follows whose source is `user`.
pub open spec fn following_of(f: Seq<FollowRow>, user: u128) -> nat
    decreases f.len(),
{
    if f.len() == 0 {
        0
    } else {
        following_of(f.drop_last(), user) + if f.last().accepted && f.last().source == user {
            1nat
        } else {
            0nat
        }
    }
}

/// The number of posts written by `user`.
pub open spec fn posts_of(p: Seq<PostRow>, user: u128) -> nat
    decreases p.len(),
{
    if p.len() == 0 {
        0
    } else {
        posts_of(p.drop_last(), user) + if p.last().author == user {
            1nat
        } else {
            0nat
        }
    }
}

/// A count of posts is no more than the number of posts.
pub proof fn lemma_post_count_bounded(p: Seq<PostRow>)
    ensures
        forall|u: u128| #[trigger] posts_of(p, u) <= p.len(),
    decreases p.len(),
{
    if p.len() > 0 {
        lemma_post_count_bounded(p.drop_last());
        assert forall|u: u128| #[trigger] posts_of(p, u) <= p.len() by {
            assert(posts_of(p.drop_last(), u) <= p.drop_last().len());
        }
    }
}

fn count_posts(p: &Vec<PostRow>, user: u128) -> (r: u64)
    ensures
        r == posts_of(p@, user),
{
    let mut c: u64 = 0;
    let mut i: usize = 0;
    while i < p.len()
        invariant
            i <= p.len(),
            c == posts_of(p@.take(i as int), user),
            c <= i,
        decreases p.len() - i,
    {
        assert(p@.take(i + 1).drop_last() == p@.take(i as int));
        if p[i].author == user {
            c = c + 1;
        }
        i = i + 1;
    }
    assert(p@.take(p.len() as int) == p@);
    c
}

/// A count of follows is no more than the number of follows.
pub proof fn lemma_counts_bounded(f: Seq<FollowRow>)
    ensures
        forall|u: u128| #[trigger] followers_of(f, u) <= f.len(),
        forall|u: u128| #[trigger] following_of(f, u) <= f.len(),
    decreases f.len(),
{
    if f.len() > 0 {
        lemma_counts_bounded(f.drop_last());
        assert forall|u: u128| #[trigger] followers_of(f, u) <= f.len() by {
            assert(followers_of(f.drop_last(), u) <= f.drop_last().len());
        }
        assert forall|u: u128| #[trigger] following_of(f, u) <= f.len() by {
            assert(following_of(f.drop_last(), u) <= f.drop_last().len());
        }
    }
}

pub open spec fn follow_has_uri(f: Seq<FollowRow>, uri: Seq<char>) -> bool {
    exists|i: int| 0 <= i < f.len() && #[trigger] f[i].uri@ == uri
}

pub open spec fn reaction_has_uri(r: Seq<ReactionRow>, uri: Seq<char>) -> bool {
    exists|i: int| 0 <= i < r.len() && #[trigger] r[i].uri@ == uri
}

/// Whether the reaction at `uri` was made by `actor`.
pub open spec fn reaction_by(r: Seq<ReactionRow>, uri: Seq<char>, actor: u128) -> bool {
    exists|i: int| 0 <= i < r.len() && #[trigger] r[i].uri@ == uri && r[i].actor == actor
}

/// No two follows share a canonical URI.
pub open spec fn follow_uris_unique(f: Seq<FollowRow>) -> bool {
    keys_unique(f)
}

/// No two reactions share a canonical URI.
pub open spec fn reaction_uris_unique(r: Seq<ReactionRow>) -> bool {
    keys_unique(r)
}

pub open spec fn post_has_uri(p: Seq<PostRow>, uri: Seq<char>) -> bool {
    exists|i: int| 0 <= i < p.len() && #[trigger] p[i].uri@ == uri
}

/// Whether the post at `uri` was written by `author`.
pub open spec fn post_by(p: Seq<PostRow>, uri: Seq<char>, author: u128) -> bool {
    exists|i: int| 0 <= i < p.len() && #[trigger] p[i].uri@ == uri && p[i].author == author
}

/// No two posts share a canonical URI.
pub open spec fn post_uris_unique(p: Seq<PostRow>) -> bool {
    keys_unique(p)
}

/// Every user row stays as it was but for its three counters.
pub open spec fn users_kept(old: Seq<Model>, new: Seq<Model>) -> bool {
    &&& new.len() == old.len()
    &&& forall|i: int|
        0 <= i < old.len() ==> #[trigger] new[i] == Model {
            follower_count: new[i].follower_count,
            following_count: new[i].following_count,
            post_count: new[i].post_count,
            ..old[i]
        }
}

/// `new` is `old` with `row` stored under its canonical URI: in place of the
/// row that had that URI, or appended where none had.
pub open spec fn follow_upserted(old: Seq<FollowRow>, new: Seq<FollowRow>, row: FollowRow) -> bool {
    if follow_has_uri(old, row.uri@) {
        exists|i: int| 0 <= i < old.len() && old[i].uri@ == row.uri@ && new == old.update(i, row)
    } else {
        new == old.push(row)
    }
}

/// `new` is `old` with `row` stored under its canonical URI.
pub open spec fn reaction_upserted(old: Seq<ReactionRow>, new: Seq<ReactionRow>, row: ReactionRow) -> bool {
    if reaction_has_uri(old, row.uri@) {
        exists|i: int| 0 <= i < old.len() && old[i].uri@ == row.uri@ && new == old.update(i, row)
    } else {
        new == old.push(row)
    }
}

/// `new` is `old` with `row` stored under its canonical URI.
pub open spec fn post_upserted(old: Seq<PostRow>, new: Seq<PostRow>, row: PostRow) -> bool {
    if post_has_uri(old, row.uri@) {
        exists|i: int| 0 <= i < old.len() && old[i].uri@ == row.uri@ && new == old.update(i, row)
    } else {
        new == old.push(row)
    }
}

/// The follow row with `accepted` set.
pub open spec fn accepted_row(r: FollowRow) -> FollowRow {
    FollowRow { accepted: true, ..r }
}

/// The local projection of users, follows and reactions.
pub struct Store {
    pub users: Vec<Model>,
    pub follows: Vec<FollowRow>,
    pub reactions: Vec<ReactionRow>,
    pub posts: Vec<PostRow>,
}

fn count_followers(f: &Vec<FollowRow>, user: u128) -> (r: u64)
    ensures
        r == followers_of(f@, user),
{
    let mut c: u64 = 0;
    let mut i: usize = 0;
    while i < f.len()
        invariant
            i <= f.len(),
            c == followers_of(f@.take(i as int), user),
            c <= i,
        decreases f.len() - i,
    {
        assert(f@.take(i + 1).drop_last() == f@.take(i as int));
        if f[i].accepted && f[i].target == user {
            c = c + 1;
        }
        i = i + 1;
    }
    assert(f@.take(f.len() as int) == f@);
    c
}

fn count_following(f: &Vec<FollowRow>, user: u128) -> (r: u64)
    ensures
        r == following_of(f@, user),
{
    let mut c: u64 = 0;
    let mut i: usize = 0;
    while i < f.len()
        invariant
            i <= f.len(),
            c == following_of(f@.take(i as int), user),
            c <= i,
        decreases f.len() - i,
    {
        assert(f@.take(i + 1).drop_last() == f@.take(i as int));
        if f[i].accepted && f[i].source == user {
            c = c + 1;
        }
        i = i + 1;
    }
    assert(f@.take(f.len() as int) == f@);
    c
}

/// The index of the first follow that targets `user`, if there is one.
pub fn first_follow_to(f: &Vec<FollowRow>, user: u128) -> (r: Option<usize>)
    ensures
        r is None <==> !has_follow_to(f@, user),
        r matches Some(i) ==> i < f@.len() && f@[i as int].target == user && forall|j: int|
            0 <= j < i ==> #[trigger] f@[j].target != user,
{
    let mut i: usize = 0;
    while i < f.len()
        invariant
            i <= f.len(),
            forall|j: int| 0 <= j < i ==> #[trigger] f@[j].target != user,
        decreases f.len() - i,
    {
        if f[i].target == user {
            return Some(i);
        }
        i = i + 1;
    }
    None
}

/// The index of the follow with canonical URI `uri`, if there is one.
pub fn find_follow(f: &Vec<FollowRow>, uri: &String) -> (r: Option<usize>)
    ensures
        r matches Some(i) ==> i < f@.len() && f@[i as int].uri@ == uri@,
        r is None <==> !follow_has_uri(f@, uri@),
{
    let mut i: usize = 0;
    while i < f.len()
        invariant
            i <= f.len(),
            forall|j: int| 0 <= j < i ==> #[trigger] f@[j].uri@ != uri@,
        decreases f.len() - i,
    {
        if f[i].uri == *uri {
            return Some(i);
        }
        i = i + 1;
    }
    None
}

/// The index of the post with canonical URI `uri`, if there is one.
pub fn find_post(p: &Vec<PostRow>, uri: &String) -> (o: Option<usize>)
    ensures
        o matches Some(i) ==> i < p@.len() && p@[i as int].uri@ == uri@,
        o is None <==> !post_has_uri(p@, uri@),
{
    let mut i: usize = 0;
    while i < p.len()
        invariant
            i <= p.len(),
            forall|j: int| 0 <= j < i ==> #[trigger] p@[j].uri@ != uri@,
        decreases p.len() - i,
    {
        if p[i].uri == *uri {
            return Some(i);
        }
        i = i + 1;
    }
    None
}

/// The index of the reaction with canonical URI `uri`, if there is one.
pub fn find_reaction(r: &Vec<ReactionRow>, uri: &String) -> (o: Option<usize>)
    ensures
        o matches Some(i) ==> i < r@.len() && r@[i as int].uri@ == uri@,
        o is None <==> !reaction_has_uri(r@, uri@),
{
    let mut i: usize = 0;
    while i < r.len()
        invariant
            i <= r.len(),
            forall|j: int| 0 <= j < i ==> #[trigger] r@[j].uri@ != uri@,
        decreases r.len() - i,
    {
        if r[i].uri == *uri {
            return Some(i);
        }
        i = i + 1;
    }
    None
}

/// Removing one follow keeps the canonical URIs unique, and leaves none with
/// the removed row's URI.
pub proof fn lemma_follow_remove(f: Seq<FollowRow>, i: int)
    requires
        follow_uris_unique(f),
        0 <= i < f.len(),
    ensures
        follow_uris_unique(f.remove(i)),
        !follow_has_uri(f.remove(i), f[i].uri@),
{
    lemma_unique_remove(f, i);
    let g = f.remove(i);
    if follow_has_uri(g, f[i].uri@) {
        let k = choose|k: int| 0 <= k < g.len() && #[trigger] g[k].uri@ == f[i].uri@;
        assert(g[k].key() == f[i].key());
    }
}

/// Whether `party` is the follow's target (where `as_target`) or source.
pub open spec fn follow_party(r: FollowRow, party: u128, as_target: bool) -> bool {
    if as_target {
        r.target == party
    } else {
        r.source == party
    }
}

/// Whether a follow with canonical URI `uri` has `party` as its target
/// (where `as_target`) or its source.
pub open spec fn follow_of(f: Seq<FollowRow>, uri: Seq<char>, party: u128, as_target: bool) -> bool {
    exists|i: int|
        0 <= i < f.len() && #[trigger] f[i].uri@ == uri && follow_party(f[i], party, as_target)
}

/// Whether some follow targets `user`.
pub open spec fn has_follow_to(f: Seq<FollowRow>, user: u128) -> bool {
    exists|i: int| 0 <= i < f.len() && #[trigger] f[i].target == user
}

/// The follow lifecycle. A Follow received for a URI not yet known appends a
/// pending row, which is the only row with that URI and changes no counter. An
/// Accept of that URI marks exactly that row accepted and adds one follower to
/// its target; an Undo or a Reject of it deletes that row and gives back the
/// table as it was before the Follow.
pub proof fn lemma_follow_lifecycle(f: Seq<FollowRow>, row: FollowRow)
    requires
        follow_uris_unique(f),
        !follow_has_uri(f, row.uri@),
        !row.accepted,
    ensures
        follow_uris_unique(f.push(row)),
        forall|i: int|
            0 <= i < f.len() + 1 && #[trigger] f.push(row)[i].uri@ == row.uri@ ==> i == f.len(),
        forall|u: u128| #[trigger] followers_of(f.push(row), u) == followers_of(f, u),
        forall|u: u128| #[trigger] following_of(f.push(row), u) == following_of(f, u),
        f.push(row).update(f.len() as int, accepted_row(row)) == f.push(accepted_row(row)),
        f.push(accepted_row(row))[f.len() as int].accepted,
        followers_of(f.push(accepted_row(row)), row.target) == followers_of(f, row.target) + 1,
        following_of(f.push(accepted_row(row)), row.source) == following_of(f, row.source) + 1,
        f.push(row).remove(f.len() as int) == f,
        !follow_has_uri(f.push(row).remove(f.len() as int), row.uri@),
{
    let g = f.push(row);
    assert(g.drop_last() == f);
    assert(f.push(accepted_row(row)).drop_last() == f);
    assert forall|a: int, b: int| 0 <= a < b < g.len() implies #[trigger] g[a].uri@
        != #[trigger] g[b].uri@ by {
        if b < f.len() {
            assert(f[a].key() != f[b].key());
        } else {
            assert(f[a].uri@ == g[a].uri@);
        }
    }
    assert forall|i: int| 0 <= i < f.len() + 1 && #[trigger] g[i].uri@ == row.uri@ implies i
        == f.len() by {
        if i < f.len() {
            assert(f[i].uri@ == row.uri@);
        }
    }
    assert(g.update(f.len() as int, accepted_row(row)) =~= f.push(accepted_row(row)));
    assert(g.remove(f.len() as int) =~= f);
}

/// The inbox that deliveries to a user go to: its shared inbox where it has
/// one, else its own.
pub open spec fn delivery_inbox(u: Model) -> Seq<char> {
    if u.shared_inbox@.len() > 0 {
        u.shared_inbox@
    } else {
        u.inbox@
    }
}

/// Whether `t` is the delivery inbox of some user row with local id `id`.
pub open spec fn is_user_inbox(users: Seq<Model>, id: u128, t: Seq<char>) -> bool {
    exists|j: int| 0 <= j < users.len() && #[trigger] users[j].id == id && delivery_inbox(users[j]) == t
}

/// Whether `t` is the delivery inbox of an accepted follower of `owner`.
pub open spec fn is_follower_inbox(
    users: Seq<Model>,
    follows: Seq<FollowRow>,
    owner: u128,
    t: Seq<char>,
) -> bool {
    exists|i: int|
        0 <= i < follows.len() && #[trigger] follows[i].accepted && follows[i].target == owner
            && is_user_inbox(users, follows[i].source, t)
}

fn delivery_inbox_of(u: &Model) -> (r: String)
    ensures
        r@ == delivery_inbox(*u),
{
    if !u.shared_inbox.as_str().is_empty() {
        u.shared_inbox.clone()
    } else {
        u.inbox.clone()
    }
}

/// Appends the delivery inbox of every user row with local id `id`.
fn push_user_inboxes(users: &Vec<Model>, id: u128, out: &mut Vec<String>)
    ensures
        forall|t: Seq<char>|
            has_text(final(out)@, t) <==> has_text(old(out)@, t) || is_user_inbox(users@, id, t),
{
    let ghost start = out@;
    let mut j: usize = 0;
    while j < users.len()
        invariant
            j <= users@.len(),
            forall|t: Seq<char>|
                has_text(out@, t) <==> has_text(start, t) || is_user_inbox(users@.take(j as int), id, t),
        decreases users@.len() - j,
    {
        let ghost before = out@;
        let ghost pre = users@.take(j as int);
        let ghost post = users@.take(j + 1);
        assert(forall|t: Seq<char>| #[trigger] has_text(before, t) <==> has_text(start, t) || is_user_inbox(pre, id, t));
        let hit = users[j].id == id;
        if hit {
            out.push(delivery_inbox_of(&users[j]));
        } else {
            assert(out@ == before);
        }
        assert forall|t: Seq<char>| has_text(out@, t) <==> has_text(start, t) || is_user_inbox(post, id, t) by {
            if has_text(out@, t) {
                let k = choose|k: int| 0 <= k < out@.len() && #[trigger] out@[k]@ == t;
                if k < before.len() {
                    assert(before[k]@ == t);
                    assert(has_text(before, t));
                    if !has_text(start, t) {
                        assert(is_user_inbox(pre, id, t));
                        let m = choose|m: int| 0 <= m < pre.len() && #[trigger] pre[m].id == id && delivery_inbox(pre[m]) == t;
                        assert(post[m].id == id);
                    }
                } else {
                    assert(hit);
                    assert(post[j as int] == users@[j as int]);
                    assert(post[j as int].id == id);
                    assert(delivery_inbox(post[j as int]) == t);
                }
            }
            if has_text(before, t) {
                let k = choose|k: int| 0 <= k < before.len() && #[trigger] before[k]@ == t;
                assert(out@[k]@ == t);
            }
            if is_user_inbox(pre, id, t) {
                let k = choose|k: int| 0 <= k < pre.len() && #[trigger] pre[k].id == id && delivery_inbox(pre[k]) == t;
                assert(post[k].id == id);
            }
            if is_user_inbox(post, id, t) {
                let k = choose|k: int| 0 <= k < post.len() && #[trigger] post[k].id == id && delivery_inbox(post[k]) == t;
                if k < j {
                    assert(pre[k].id == id);
                } else {
                    assert(out@[before.len() as int]@ == t);
                }
            }
        }
        j = j + 1;
        assert(users@.take(j as int) == post);
        assert forall|t: Seq<char>| has_text(out@, t) <==> has_text(start, t) || is_user_inbox(users@.take(j as int), id, t) by {
            assert(has_text(out@, t) <==> has_text(start, t) || is_user_inbox(post, id, t));
        }
    }
    assert(users@.take(users@.len() as int) == users@);
}

impl Store {
    /// The inboxes that a post of `owner` goes to: the delivery inbox of every
    /// accepted follower, each once.
    pub fn follower_inboxes(&self, owner: u128) -> (r: Vec<String>)
        ensures
            forall|a: int, b: int| 0 <= a < b < r@.len() ==> r@[a]@ != r@[b]@,
            forall|t: Seq<char>| has_text(r@, t) <==> is_follower_inbox(self.users@, self.follows@, owner, t),
    {
        let mut all: Vec<String> = Vec::new();
        let mut i: usize = 0;
        while i < self.follows.len()
            invariant
                i <= self.follows@.len(),
                forall|t: Seq<char>|
                    has_text(all@, t) <==> is_follower_inbox(
                        self.users@,
                        self.follows@.take(i as int),
                        owner,
                        t,
                    ),
            decreases self.follows@.len() - i,
        {
            let ghost before = all@;
            let ghost pre = self.follows@.take(i as int);
            let ghost post = self.follows@.take(i + 1);
            let accepted = self.follows[i].accepted;
            let target = self.follows[i].target;
            if accepted && target == owner {
                push_user_inboxes(&self.users, self.follows[i].source, &mut all);
            }
            assert forall|t: Seq<char>| has_text(all@, t) <==> is_follower_inbox(self.users@, post, owner, t) by {
                if has_text(all@, t) && !has_text(before, t) {
                    assert(is_user_inbox(self.users@, self.follows@[i as int].source, t));
                    assert(post[i as int].accepted);
                }
                if is_follower_inbox(self.users@, pre, owner, t) {
                    let k = choose|k: int|
                        0 <= k < pre.len() && #[trigger] pre[k].accepted && pre[k].target == owner
                            && is_user_inbox(self.users@, pre[k].source, t);
                    assert(post[k].accepted);
                }
                if is_follower_inbox(self.users@, post, owner, t) {
                    let k = choose|k: int|
                        0 <= k < post.len() && #[trigger] post[k].accepted && post[k].target == owner
                            && is_user_inbox(self.users@, post[k].source, t);
                    if k < i {
                        assert(pre[k].accepted);
                    }
                }
            }
            i = i + 1;
        }
        assert(self.follows@.take(self.follows@.len() as int) == self.follows@);
        distinct_inboxes(&all)
    }

    /// The delivery jobs, due at `now`, that a new post of `owner` needs: one
    /// per distinct delivery inbox of its accepted followers, so that followers
    /// behind one shared inbox get one job.
    pub fn plan_post_delivery(&self, owner: u128, now: u64) -> (r: Vec<QueuedDelivery>)
        ensures
            forall|i: int| 0 <= i < r@.len() ==> (#[trigger] r@[i]).job == DeliveryJob::new_spec(now),
            forall|i: int, j: int| 0 <= i < j < r@.len() ==> r@[i].inbox@ != r@[j].inbox@,
            forall|t: Seq<char>|
                (exists|i: int| 0 <= i < r@.len() && #[trigger] r@[i].inbox@ == t)
                    <==> is_follower_inbox(self.users@, self.follows@, owner, t),
    {
        let inboxes = self.follower_inboxes(owner);
        let r = plan_deliveries(&inboxes, now);
        assert forall|t: Seq<char>|
            (exists|i: int| 0 <= i < r@.len() && #[trigger] r@[i].inbox@ == t)
                <==> is_follower_inbox(self.users@, self.follows@, owner, t) by {
            assert((exists|i: int| 0 <= i < r@.len() && #[trigger] r@[i].inbox@ == t) <==> has_text(
                inboxes@,
                t,
            ));
            assert(has_text(inboxes@, t) <==> is_follower_inbox(self.users@, self.follows@, owner, t));
        }
        r
    }

    /// Each user's counters equal the counts of the follow table.
    pub open spec fn counters_match(&self) -> bool {
        forall|i: int|
            0 <= i < self.users@.len() ==> {
                &&& #[trigger] self.users@[i].follower_count == followers_of(
                    self.follows@,
                    self.users@[i].id,
                )
                &&& self.users@[i].following_count == following_of(self.follows@, self.users@[i].id)
                &&& self.users@[i].post_count == posts_of(self.posts@, self.users@[i].id)
            }
    }

    pub open spec fn wf(&self) -> bool {
        &&& self.counters_match()
        &&& follow_uris_unique(self.follows@)
        &&& reaction_uris_unique(self.reactions@)
        &&& post_uris_unique(self.posts@)
    }

    /// Whether a user row with local id `id` exists.
    pub open spec fn has_user(&self, id: u128) -> bool {
        exists|i: int| 0 <= i < self.users@.len() && #[trigger] self.users@[i].id == id
    }

    /// An empty store.
    pub fn new() -> (r: Store)
        ensures
            r.wf(),
            r.users@.len() == 0,
            r.follows@.len() == 0,
            r.reactions@.len() == 0,
            r.posts@.len() == 0,
    {
        Store { users: Vec::new(), follows: Vec::new(), reactions: Vec::new(), posts: Vec::new() }
    }

    /// Recomputes every user's counters from the follow table.
    pub fn refresh_counters(&mut self)
        ensures
            final(self).follows@ == old(self).follows@,
            final(self).reactions@ == old(self).reactions@,
            final(self).posts@ == old(self).posts@,
            users_kept(old(self).users@, final(self).users@),
            forall|i: int|
                0 <= i < old(self).users@.len() ==> #[trigger] final(self).users@[i] == (Model {
                    follower_count: followers_of(old(self).follows@, old(self).users@[i].id) as u64,
                    following_count: following_of(old(self).follows@, old(self).users@[i].id) as u64,
                    post_count: posts_of(old(self).posts@, old(self).users@[i].id) as u64,
                    ..old(self).users@[i]
                }),
            final(self).counters_match(),
    {
        let n_follows = self.follows.len();
        let n_posts = self.posts.len();
        let mut i: usize = 0;
        while i < self.users.len()
            invariant
                n_follows == self.follows@.len(),
                n_posts == self.posts@.len(),
                i <= self.users@.len(),
                self.follows@ == old(self).follows@,
                self.reactions@ == old(self).reactions@,
                self.posts@ == old(self).posts@,
                self.users@.len() == old(self).users@.len(),
                forall|j: int|
                    0 <= j < old(self).users@.len() ==> #[trigger] self.users@[j] == if j < i {
                        Model {
                            follower_count: followers_of(old(self).follows@, old(self).users@[j].id) as u64,
                            following_count: following_of(old(self).follows@, old(self).users@[j].id) as u64,
                            post_count: posts_of(old(self).posts@, old(self).users@[j].id) as u64,
                            ..old(self).users@[j]
                        }
                    } else {
                        old(self).users@[j]
                    },
            decreases self.users@.len() - i,
        {
            let id = self.users[i].id;
            let followers = count_followers(&self.follows, id);
            let following = count_following(&self.follows, id);
            self.users[i].follower_count = followers;
            self.users[i].following_count = following;
            let posts = count_posts(&self.posts, id);
            self.users[i].post_count = posts;
            i = i + 1;
        }
        proof {
            lemma_counts_bounded(self.follows@);
            lemma_post_count_bounded(self.posts@);
            assert forall|j: int| 0 <= j < self.users@.len() implies {
                &&& #[trigger] self.users@[j].follower_count == followers_of(
                    self.follows@,
                    self.users@[j].id,
                )
                &&& self.users@[j].following_count == following_of(self.follows@, self.users@[j].id)
                &&& self.users@[j].post_count == posts_of(self.posts@, self.users@[j].id)
            } by {
                let id = self.users@[j].id;
                assert(followers_of(self.follows@, id) <= self.follows@.len());
                assert(following_of(self.follows@, id) <= self.follows@.len());
                assert(posts_of(self.posts@, id) <= self.posts@.len());
                assert(n_follows <= u64::MAX);
                assert(n_posts <= u64::MAX);
            }
        }
    }

    /// Stores a follow under its canonical URI: a follow with that URI is
    /// replaced by it, else it is appended; counters are refreshed. Returns
    /// whether the row was appended rather than updated.
    pub fn insert_follow(&mut self, row: FollowRow) -> (r: bool)
        requires
            old(self).wf(),
        ensures
            final(self).wf(),
            r == !follow_has_uri(old(self).follows@, row.uri@),
            follow_upserted(old(self).follows@, final(self).follows@, row),
            final(self).reactions@ == old(self).reactions@,
            final(self).posts@ == old(self).posts@,
            users_kept(old(self).users@, final(self).users@),
    {
        match find_follow(&self.follows, &row.uri) {
            Some(i) => {
                let ghost before = self.follows@;
                self.follows.set(i, row);
                proof {
                    assert(self.follows@ == before.update(i as int, self.follows@[i as int]));
                    lemma_unique_update(before, i as int, self.follows@[i as int]);
                }
                self.refresh_counters();
                false
            },
            None => {
                let ghost before = self.follows@;
                self.follows.push(row);
                proof {
                    let x = self.follows@[before.len() as int];
                    assert(self.follows@ == before.push(x));
                    if has_key(before, x.key()) {
                        let k = choose|k: int| 0 <= k < before.len() && #[trigger] before[k].key() == x.key();
                        assert(before[k].uri@ == x.uri@);
                    }
                    lemma_unique_push(before, x);
                }
                self.refresh_counters();
                true
            },
        }
    }

    /// Marks accepted the follow with canonical URI `uri` whose target is the
    /// user `by`, the only party that may accept it; counters are refreshed.
    /// Returns whether there is such a follow; where there is none, nothing
    /// changes.
    pub fn accept_follow(&mut self, uri: &String, by: u128) -> (r: bool)
        requires
            old(self).wf(),
        ensures
            final(self).wf(),
            r == follow_of(old(self).follows@, uri@, by, true),
            r ==> exists|i: int|
                0 <= i < old(self).follows@.len() && old(self).follows@[i].uri@ == uri@
                    && old(self).follows@[i].target == by
                    && final(self).follows@ == old(self).follows@.update(
                    i,
                    accepted_row(old(self).follows@[i]),
                ),
            !r ==> final(self).follows@ == old(self).follows@,
            final(self).reactions@ == old(self).reactions@,
            final(self).posts@ == old(self).posts@,
            users_kept(old(self).users@, final(self).users@),
    {
        match self.find_follow_of(uri, by, true) {
            Some(i) => {
                let ghost before = self.follows@;
                self.follows[i].accepted = true;
                assert(self.follows@ =~= before.update(i as int, accepted_row(before[i as int])));
                proof {
                    assert(self.follows@ == before.update(i as int, self.follows@[i as int]));
                    lemma_unique_update(before, i as int, self.follows@[i as int]);
                }
                self.refresh_counters();
                true
            },
            None => false,
        }
    }

    /// The index of the follow with canonical URI `uri` whose target (where
    /// `as_target`) or source is `party`.
    fn find_follow_of(&self, uri: &String, party: u128, as_target: bool) -> (r: Option<usize>)
        requires
            self.wf(),
        ensures
            r is Some <==> follow_of(self.follows@, uri@, party, as_target),
            r matches Some(i) ==> i < self.follows@.len() && self.follows@[i as int].uri@ == uri@
                && follow_party(self.follows@[i as int], party, as_target),
    {
        match find_follow(&self.follows, uri) {
            Some(i) => {
                let hit = if as_target {
                    self.follows[i].target == party
                } else {
                    self.follows[i].source == party
                };
                if hit {
                    Some(i)
                } else {
                    assert(!follow_of(self.follows@, uri@, party, as_target)) by {
                        if follow_of(self.follows@, uri@, party, as_target) {
                            let k = choose|k: int|
                                0 <= k < self.follows@.len() && #[trigger] self.follows@[k].uri@
                                    == uri@ && follow_party(self.follows@[k], party, as_target);
                            if k < i {
                                assert(self.follows@[k].key() != self.follows@[i as int].key());
                            } else if k > i {
                                assert(self.follows@[i as int].key() != self.follows@[k].key());
                            }
                        }
                    }
                    None
                }
            },
            None => None,
        }
    }

    /// Deletes the follow with canonical URI `uri` whose target (where
    /// `as_target`, as for a Reject) or source (as for an Undo) is `party`;
    /// counters are refreshed. Returns whether there was such a follow; where
    /// there was none, nothing changes.
    pub fn remove_follow(&mut self, uri: &String, party: u128, as_target: bool) -> (r: bool)
        requires
            old(self).wf(),
        ensures
            final(self).wf(),
            r == follow_of(old(self).follows@, uri@, party, as_target),
            r ==> exists|i: int|
                0 <= i < old(self).follows@.len() && old(self).follows@[i].uri@ == uri@
                    && follow_party(old(self).follows@[i], party, as_target)
                    && final(self).follows@ == old(self).follows@.remove(i),
            r ==> !follow_has_uri(final(self).follows@, uri@),
            !r ==> final(self).follows@ == old(self).follows@,
            final(self).reactions@ == old(self).reactions@,
            final(self).posts@ == old(self).posts@,
            users_kept(old(self).users@, final(self).users@),
    {
        match self.find_follow_of(uri, party, as_target) {
            Some(i) => {
                proof {
                    lemma_follow_remove(self.follows@, i as int);
                }
                self.follows.remove(i);
                self.refresh_counters();
                true
            },
            None => false,
        }
    }

    /// Whether a user row with local id `id` has canonical URI `uri`.
    pub open spec fn user_has_uri(&self, id: u128, uri: Seq<char>) -> bool {
        exists|i: int|
            0 <= i < self.users@.len() && #[trigger] self.users@[i].id == id && self.users@[i].uri@
                == uri
    }

    pub fn is_user_uri(&self, id: u128, uri: &String) -> (r: bool)
        ensures
            r == self.user_has_uri(id, uri@),
    {
        let mut i: usize = 0;
        while i < self.users.len()
            invariant
                i <= self.users@.len(),
                forall|j: int|
                    0 <= j < i ==> !(#[trigger] self.users@[j].id == id && self.users@[j].uri@
                        == uri@),
            decreases self.users@.len() - i,
        {
            if self.users[i].id == id && self.users[i].uri == *uri {
                return true;
            }
            i = i + 1;
        }
        false
    }

    /// Whether a user row with local id `id` exists.
    pub fn user_exists(&self, id: u128) -> (r: bool)
        ensures
            r == self.has_user(id),
    {
        let mut i: usize = 0;
        while i < self.users.len()
            invariant
                i <= self.users@.len(),
                forall|j: int| 0 <= j < i ==> #[trigger] self.users@[j].id != id,
            decreases self.users@.len() - i,
        {
            if self.users[i].id == id {
                return true;
            }
            i = i + 1;
        }
        false
    }

    /// Marks every user row with local id `id` tombstoned, after its actor
    /// answered 410 Gone. Returns whether there was such a row.
    pub fn tombstone_user(&mut self, id: u128) -> (r: bool)
        requires
            old(self).wf(),
        ensures
            final(self).wf(),
            r == old(self).has_user(id),
            final(self).users@.len() == old(self).users@.len(),
            forall|i: int|
                0 <= i < old(self).users@.len() ==> #[trigger] final(self).users@[i] == if old(
                    self,
                ).users@[i].id == id {
                    Model { tombstoned: true, ..old(self).users@[i] }
                } else {
                    old(self).users@[i]
                },
            final(self).follows@ == old(self).follows@,
            final(self).reactions@ == old(self).reactions@,
            final(self).posts@ == old(self).posts@,
    {
        let mut found = false;
        let mut i: usize = 0;
        while i < self.users.len()
            invariant
                i <= self.users@.len(),
                old(self).wf(),
                self.users@.len() == old(self).users@.len(),
                self.follows@ == old(self).follows@,
                self.reactions@ == old(self).reactions@,
                self.posts@ == old(self).posts@,
                found == exists|j: int| 0 <= j < i && #[trigger] old(self).users@[j].id == id,
                forall|j: int|
                    0 <= j < old(self).users@.len() ==> #[trigger] self.users@[j] == if j < i
                        && old(self).users@[j].id == id {
                        Model { tombstoned: true, ..old(self).users@[j] }
                    } else {
                        old(self).users@[j]
                    },
            decreases self.users@.len() - i,
        {
            if self.users[i].id == id {
                self.users[i].tombstoned = true;
                found = true;
            }
            i = i + 1;
        }
        assert(self.counters_match()) by {
            assert forall|j: int| 0 <= j < self.users@.len() implies {
                &&& #[trigger] self.users@[j].follower_count == followers_of(
                    self.follows@,
                    self.users@[j].id,
                )
                &&& self.users@[j].following_count == following_of(self.follows@, self.users@[j].id)
                &&& self.users@[j].post_count == posts_of(self.posts@, self.users@[j].id)
            } by {
                assert(old(self).users@[j].follower_count == followers_of(old(self).follows@, old(self).users@[j].id));
            }
        }
        found
    }

    /// The owner follows the user `to_id`: a user that is not stored is not
    /// found; where a follow to that user exists already nothing changes and
    /// `Ok(false)` comes back; else a pending follow from `owner` with canonical
    /// URI `uri` is stored as `insert_follow` does, which tells whether it was
    /// appended.
    pub fn follow_user(&mut self, owner: u128, to_id: u128, uri: String) -> (r: Result<
        bool,
        FederationError,
    >)
        requires
            old(self).wf(),
        ensures
            final(self).wf(),
            r is Err <==> !old(self).has_user(to_id),
            r is Err ==> r == Err::<bool, FederationError>(FederationError::NotFound),
            old(self).has_user(to_id) && has_follow_to(old(self).follows@, to_id) ==> r == Ok::<
                bool,
                FederationError,
            >(false),
            old(self).has_user(to_id) && !has_follow_to(old(self).follows@, to_id) ==> r == Ok::<
                bool,
                FederationError,
            >(!follow_has_uri(old(self).follows@, uri@)),
            old(self).has_user(to_id) && !has_follow_to(old(self).follows@, to_id) ==> follow_upserted(
                old(self).follows@,
                final(self).follows@,
                FollowRow { uri, source: owner, target: to_id, accepted: false },
            ),
            !(old(self).has_user(to_id) && !has_follow_to(old(self).follows@, to_id))
                ==> final(self).follows@ == old(self).follows@,
            final(self).reactions@ == old(self).reactions@,
            final(self).posts@ == old(self).posts@,
            users_kept(old(self).users@, final(self).users@),
    {
        if !self.user_exists(to_id) {
            return Err(FederationError::NotFound);
        }
        let mut i: usize = 0;
        while i < self.follows.len()
            invariant
                i <= self.follows@.len(),
                old(self).wf(),
                old(self).has_user(to_id),
                self.follows@ == old(self).follows@,
                self.users@ == old(self).users@,
                self.reactions@ == old(self).reactions@,
                self.posts@ == old(self).posts@,
                forall|j: int| 0 <= j < i ==> #[trigger] self.follows@[j].target != to_id,
            decreases self.follows@.len() - i,
        {
            if self.follows[i].target == to_id {
                return Ok(false);
            }
            i = i + 1;
        }
        let inserted = self.insert_follow(
            FollowRow { uri, source: owner, target: to_id, accepted: false },
        );
        Ok(inserted)
    }

    /// The owner stops following the user `to_id`: the first follow that
    /// targets that user is deleted and handed back, so that an Undo can be
    /// sent for it; where there is none nothing changes.
    pub fn unfollow_user(&mut self, to_id: u128) -> (r: Option<FollowRow>)
        requires
            old(self).wf(),
        ensures
            final(self).wf(),
            r is None <==> !has_follow_to(old(self).follows@, to_id),
            r is None ==> final(self).follows@ == old(self).follows@,
            r matches Some(row) ==> exists|i: int|
                0 <= i < old(self).follows@.len() && old(self).follows@[i] == row && row.target
                    == to_id && (forall|j: int|
                    0 <= j < i ==> #[trigger] old(self).follows@[j].target != to_id)
                    && final(self).follows@ == old(self).follows@.remove(i),
            final(self).reactions@ == old(self).reactions@,
            final(self).posts@ == old(self).posts@,
            users_kept(old(self).users@, final(self).users@),
    {
        match first_follow_to(&self.follows, to_id) {
            Some(i) => {
                proof {
                    lemma_follow_remove(self.follows@, i as int);
                }
                let row = self.follows.remove(i);
                self.refresh_counters();
                Some(row)
            },
            None => None,
        }
    }

    /// Stores a reaction under its canonical URI: a reaction with that URI is
    /// replaced by it, else it is appended. Returns whether the row was
    /// appended rather than updated.
    pub fn insert_reaction(&mut self, row: ReactionRow) -> (r: bool)
        requires
            old(self).wf(),
        ensures
            final(self).wf(),
            r == !reaction_has_uri(old(self).reactions@, row.uri@),
            reaction_upserted(old(self).reactions@, final(self).reactions@, row),
            final(self).follows@ == old(self).follows@,
            final(self).users@ == old(self).users@,
            final(self).posts@ == old(self).posts@,
    {
        match find_reaction(&self.reactions, &row.uri) {
            Some(i) => {
                let ghost before = self.reactions@;
                self.reactions.set(i, row);
                proof {
                    assert(self.reactions@ == before.update(i as int, self.reactions@[i as int]));
                    lemma_unique_update(before, i as int, self.reactions@[i as int]);
                }
                false
            },
            None => {
                let ghost before = self.reactions@;
                self.reactions.push(row);
                proof {
                    let x = self.reactions@[before.len() as int];
                    assert(self.reactions@ == before.push(x));
                    if has_key(before, x.key()) {
                        let k = choose|k: int| 0 <= k < before.len() && #[trigger] before[k].key() == x.key();
                        assert(before[k].uri@ == x.uri@);
                    }
                    lemma_unique_push(before, x);
                }
                true
            },
        }
    }

    /// Deletes the reaction with canonical URI `uri` where the user `by` made
    /// it; a reaction of another user is left in place. Returns whether a
    /// reaction was deleted.
    pub fn remove_reaction(&mut self, uri: &String, by: u128) -> (r: bool)
        requires
            old(self).wf(),
        ensures
            final(self).wf(),
            r == reaction_by(old(self).reactions@, uri@, by),
            r ==> exists|i: int|
                0 <= i < old(self).reactions@.len() && old(self).reactions@[i].uri@ == uri@
                    && old(self).reactions@[i].actor == by
                    && final(self).reactions@ == old(self).reactions@.remove(i),
            !r ==> final(self).reactions@ == old(self).reactions@,
            r ==> !reaction_has_uri(final(self).reactions@, uri@),
            final(self).follows@ == old(self).follows@,
            final(self).users@ == old(self).users@,
            final(self).posts@ == old(self).posts@,
    {
        match find_reaction(&self.reactions, uri) {
            Some(i) => {
                if self.reactions[i].actor != by {
                    assert(!reaction_by(self.reactions@, uri@, by)) by {
                        if reaction_by(self.reactions@, uri@, by) {
                            let k = choose|k: int|
                                0 <= k < self.reactions@.len() && #[trigger] self.reactions@[k].uri@
                                    == uri@ && self.reactions@[k].actor == by;
                            if k < i {
                                assert(self.reactions@[k].key() != self.reactions@[i as int].key());
                            } else if k > i {
                                assert(self.reactions@[i as int].key() != self.reactions@[k].key());
                            }
                        }
                    }
                    return false;
                }
                let ghost before = self.reactions@;
                self.reactions.remove(i);
                proof {
                    lemma_unique_remove(before, i as int);
                }
                assert(!reaction_has_uri(self.reactions@, uri@)) by {
                    if reaction_has_uri(self.reactions@, uri@) {
                        let k = choose|k: int|
                            0 <= k < self.reactions@.len() && #[trigger] self.reactions@[k].uri@
                                == uri@;
                        assert(self.reactions@[k].key() == before[i as int].key());
                    }
                }
                true
            },
            None => false,
        }
    }

    /// Stores a post under its canonical URI: a post with that URI is replaced
    /// by it, else it is appended; counters are refreshed. Returns whether the
    /// row was appended rather than updated.
    pub fn insert_post(&mut self, row: PostRow) -> (r: bool)
        requires
            old(self).wf(),
        ensures
            final(self).wf(),
            r == !post_has_uri(old(self).posts@, row.uri@),
            post_upserted(old(self).posts@, final(self).posts@, row),
            final(self).follows@ == old(self).follows@,
            final(self).reactions@ == old(self).reactions@,
            users_kept(old(self).users@, final(self).users@),
    {
        match find_post(&self.posts, &row.uri) {
            Some(i) => {
                let ghost before = self.posts@;
                self.posts.set(i, row);
                proof {
                    assert(self.posts@ == before.update(i as int, self.posts@[i as int]));
                    lemma_unique_update(before, i as int, self.posts@[i as int]);
                }
                self.refresh_counters();
                false
            },
            None => {
                let ghost before = self.posts@;
                self.posts.push(row);
                proof {
                    let x = self.posts@[before.len() as int];
                    assert(self.posts@ == before.push(x));
                    if has_key(before, x.key()) {
                        let k = choose|k: int| 0 <= k < before.len() && #[trigger] before[k].key() == x.key();
                        assert(before[k].uri@ == x.uri@);
                    }
                    lemma_unique_push(before, x);
                }
                self.refresh_counters();
                true
            },
        }
    }

    /// Deletes the post at `uri` where `author` wrote it; a post of another
    /// author is left in place. Returns whether a post was deleted.
    pub fn remove_post_by(&mut self, uri: &String, author: u128) -> (r: bool)
        requires
            old(self).wf(),
        ensures
            final(self).wf(),
            r == post_by(old(self).posts@, uri@, author),
            r ==> exists|i: int|
                0 <= i < old(self).posts@.len() && old(self).posts@[i].uri@ == uri@ && old(
                    self,
                ).posts@[i].author == author && final(self).posts@ == old(self).posts@.remove(i),
            !r ==> final(self).posts@ == old(self).posts@,
            final(self).follows@ == old(self).follows@,
            final(self).reactions@ == old(self).reactions@,
            users_kept(old(self).users@, final(self).users@),
    {
        match find_post(&self.posts, uri) {
            Some(i) => {
                if self.posts[i].author != author {
                    assert(!post_by(self.posts@, uri@, author)) by {
                        if post_by(self.posts@, uri@, author) {
                            let k = choose|k: int|
                                0 <= k < self.posts@.len() && #[trigger] self.posts@[k].uri@
                                    == uri@ && self.posts@[k].author == author;
                            if k < i {
                                assert(self.posts@[k].key() != self.posts@[i as int].key());
                            } else if k > i {
                                assert(self.posts@[i as int].key() != self.posts@[k].key());
                            }
                        }
                    }
                    return false;
                }
                let ghost before = self.posts@;
                self.posts.remove(i);
                proof {
                    lemma_unique_remove(before, i as int);
                }
                self.refresh_counters();
                true
            },
            None => false,
        }
    }
}

} // verus!
