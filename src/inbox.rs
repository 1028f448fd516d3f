use vstd::prelude::*;

use crate::store::{
    accepted_row, follow_of, follow_party, reaction_by, follow_upserted, post_by, post_upserted, reaction_has_uri,
    reaction_upserted, users_kept, FollowRow, PostRow, ReactionRow, Store,
};
use crate::codec::{fields_view, parse, parse_spec, raw_view, Field, RawActivity};
use crate::error::FederationError;
use crate::uri::{url_parse, Uri};

verus! {

/// The activities that the node understands, with what each carries beyond
/// its id, actor and object.
pub enum ActivityKind {
    Follow,
    /// Acceptance of a follow; the object is that follow, from
    /// `follow_actor` to `follow_object`.
    Accept { follow_actor: String, follow_object: String },
    /// Rejection of a follow; the object is that follow.
    Reject { follow_actor: String, follow_object: String },
    /// Cancellation of a follow; the object is that follow.
    UndoFollow { follow_actor: String, follow_object: String },
    /// A reaction on the post that is the object.
    Like { content: String },
    /// Cancellation of a reaction; the object is that Like.
    UndoLike,
    /// A new post, which is the object.
    CreatePost { content: String },
    /// Retraction of the post that is the object.
    DeletePost,
    /// Any other type, which the node reads and does not act on.
    Other,
}

/// An inbound activity as the codec hands it over.
pub struct Activity {
    pub id: Uri,
    pub actor: Uri,
    pub object: Uri,
    pub kind: ActivityKind,
}

/// Whether the object of an activity of this kind is the actor's own, so that
/// its host is bound to the signer's too.
pub open spec fn object_owned_by_actor(kind: ActivityKind) -> bool {
    kind is UndoFollow || kind is UndoLike || kind is CreatePost || kind is DeletePost
}

/// Origin authority: the actor's, the id's and, where the actor owns the
/// object, the object's domain all equal the signing key's domain.
pub open spec fn authority_ok(key: Uri, a: Activity) -> bool {
    &&& a.actor@.1 == key@.1
    &&& a.id@.1 == key@.1
    &&& object_owned_by_actor(a.kind) ==> a.object@.1 == key@.1
}

/// What the inbox answered, and whether an Accept is to be sent back to the
/// actor's inbox once the change is stored.
#[derive(Clone, Copy, Debug, PartialEq, Eq, Structural)]
pub struct InboxReply {
    pub status: u16,
    pub send_accept: bool,
}

/// How long an applied activity's id is remembered, in seconds.
pub const SEEN_WINDOW_SECS: u64 = 86400;

/// How many applied activity ids are remembered at most.
pub const SEEN_CAPACITY: usize = 10000;

/// The id of an applied activity, with the time it was applied.
pub struct SeenEntry {
    pub id: String,
    pub at: u64,
}

/// Whether the activity `id` was applied within the window before `now`.
pub open spec fn seen_within(seen: Seq<SeenEntry>, id: Seq<char>, now: u64) -> bool {
    exists|i: int|
        0 <= i < seen.len() && #[trigger] seen[i].id@ == id && seen[i].at <= now && now
            - seen[i].at < SEEN_WINDOW_SECS
}

/// The remembered ids after `e` is recorded: the oldest is forgotten where
/// the memory is full.
pub open spec fn remember_spec(seen: Seq<SeenEntry>, e: SeenEntry) -> Seq<SeenEntry> {
    if seen.len() >= SEEN_CAPACITY {
        seen.drop_first().push(e)
    } else {
        seen.push(e)
    }
}

fn seen_recently(seen: &Vec<SeenEntry>, id: &String, now: u64) -> (r: bool)
    ensures
        r == seen_within(seen@, id@, now),
{
    let mut i: usize = 0;
    while i < seen.len()
        invariant
            i <= seen@.len(),
            forall|j: int|
                0 <= j < i ==> !(#[trigger] seen@[j].id@ == id@ && seen@[j].at <= now && now
                    - seen@[j].at < SEEN_WINDOW_SECS),
        decreases seen@.len() - i,
    {
        if seen[i].id == *id && seen[i].at <= now && now - seen[i].at < SEEN_WINDOW_SECS {
            return true;
        }
        i = i + 1;
    }
    false
}

/// The node's inbound state: its store, and the ids of the activities that it
/// has applied lately, oldest first.
pub struct InboxState {
    pub store: Store,
    pub seen: Vec<SeenEntry>,
}

impl InboxState {
    pub open spec fn wf(&self) -> bool {
        self.store.wf()
    }

    /// Two states hold the same rows and the same processed ids.
    pub open spec fn same(&self, other: InboxState) -> bool {
        &&& self.store.users@ == other.store.users@
        &&& self.store.follows@ == other.store.follows@
        &&& self.store.reactions@ == other.store.reactions@
        &&& self.store.posts@ == other.store.posts@
        &&& self.seen@ == other.seen@
    }

    /// An empty state.
    pub fn new() -> (r: InboxState)
        ensures
            r.wf(),
            r.store.users@.len() == 0,
            r.store.follows@.len() == 0,
            r.store.reactions@.len() == 0,
            r.store.posts@.len() == 0,
            r.seen@.len() == 0,
    {
        InboxState { store: Store::new(), seen: Vec::new() }
    }
}

/// What applying an activity of actor `actor` to the owner `owner` does to
/// the rows, as a relation between the store before and after.
pub open spec fn applied(old: Store, new: Store, a: Activity, actor: u128, owner: u128) -> bool {
    &&& users_kept(old.users@, new.users@)
    &&& !(a.kind is CreatePost || a.kind is DeletePost) ==> new.posts@ == old.posts@
    &&& match a.kind {
        ActivityKind::Follow => {
            let row = FollowRow { uri: a.id.href, source: actor, target: owner, accepted: false };
            &&& new.reactions@ == old.reactions@
            &&& follow_upserted(old.follows@, new.follows@, row)
        },
        ActivityKind::Accept { .. } => {
            &&& new.reactions@ == old.reactions@
            &&& !follow_of(old.follows@, a.object@.0, actor, true) ==> new.follows@ == old.follows@
            &&& follow_of(old.follows@, a.object@.0, actor, true) ==> exists|i: int|
                0 <= i < old.follows@.len() && old.follows@[i].uri@ == a.object@.0
                    && old.follows@[i].target == actor
                    && new.follows@ == old.follows@.update(i, accepted_row(old.follows@[i]))
        },
        ActivityKind::Reject { .. } | ActivityKind::UndoFollow { .. } => {
            let as_target = a.kind is Reject;
            &&& new.reactions@ == old.reactions@
            &&& !follow_of(old.follows@, a.object@.0, actor, as_target) ==> new.follows@
                == old.follows@
            &&& follow_of(old.follows@, a.object@.0, actor, as_target) ==> exists|i: int|
                0 <= i < old.follows@.len() && old.follows@[i].uri@ == a.object@.0
                    && follow_party(old.follows@[i], actor, as_target)
                    && new.follows@ == old.follows@.remove(i)
        },
        ActivityKind::Like { content } => {
            let row = ReactionRow { uri: a.id.href, actor, post: a.object.href, content };
            &&& new.follows@ == old.follows@
            &&& new.users@ == old.users@
            &&& reaction_upserted(old.reactions@, new.reactions@, row)
        },
        ActivityKind::UndoLike => {
            &&& new.follows@ == old.follows@
            &&& new.users@ == old.users@
            &&& !reaction_by(old.reactions@, a.object@.0, actor) ==> new.reactions@ == old.reactions@
            &&& reaction_by(old.reactions@, a.object@.0, actor) ==> exists|i: int|
                0 <= i < old.reactions@.len() && old.reactions@[i].uri@ == a.object@.0
                    && old.reactions@[i].actor == actor
                    && new.reactions@ == old.reactions@.remove(i)
        },
        ActivityKind::CreatePost { content } => {
            let row = PostRow { uri: a.object.href, author: actor, content };
            &&& new.follows@ == old.follows@
            &&& new.reactions@ == old.reactions@
            &&& post_upserted(old.posts@, new.posts@, row)
        },
        ActivityKind::DeletePost => {
            &&& new.follows@ == old.follows@
            &&& new.reactions@ == old.reactions@
            &&& !post_by(old.posts@, a.object@.0, actor) ==> new.posts@ == old.posts@
            &&& post_by(old.posts@, a.object@.0, actor) ==> exists|i: int|
                0 <= i < old.posts@.len() && old.posts@[i].uri@ == a.object@.0
                    && old.posts@[i].author == actor && new.posts@ == old.posts@.remove(i)
        },
        ActivityKind::Other => {
            &&& new.users@ == old.users@
            &&& new.follows@ == old.follows@
            &&& new.reactions@ == old.reactions@
        },
    }
}

/// What receiving an activity does: `signature_ok` tells whether its HTTP
/// signature verified against the key `key`, `actor` is the local row of its
/// resolved actor, `None` where resolution failed, and `object_resolved`
/// tells whether the object it refers to could be resolved to a local row.
pub open spec fn receive_post(
    old: InboxState,
    signature_ok: bool,
    key: Uri,
    a: Activity,
    actor: Option<u128>,
    object_resolved: bool,
    owner: u128,
    now: u64,
    new: InboxState,
    r: InboxReply,
) -> bool {
    &&& new.wf()
    &&& if !signature_ok {
        r == InboxReply { status: 401, send_accept: false } && new.same(old)
    } else if !authority_ok(key, a) {
        r == InboxReply { status: 400, send_accept: false } && new.same(old)
    } else if seen_within(old.seen@, a.id@.0, now) {
        r == InboxReply { status: 202, send_accept: false } && new.same(old)
    } else if actor is None || !object_resolved {
        r == InboxReply { status: 502, send_accept: false } && new.same(old)
    } else if a.kind is Follow && !old.store.user_has_uri(owner, a.object@.0) {
        r == InboxReply { status: 404, send_accept: false } && new.same(old)
    } else {
        &&& r == InboxReply { status: 202, send_accept: a.kind is Follow }
        &&& new.seen@ == remember_spec(old.seen@, SeenEntry { id: a.id.href, at: now })
        &&& applied(old.store, new.store, a, actor.unwrap(), owner)
    }
}

impl InboxState {
    /// Authenticates, checks and applies one inbound activity: a bad
    /// signature is refused with 401 and a foreign origin with 400, both
    /// leaving the state as it was; an activity already applied is answered
    /// 202 and not applied again; an actor or an object that could not be
    /// resolved gives 502; else the activity is applied, recorded, and answered 202, with an
    /// Accept to send where it was a Follow.
    pub fn receive(
        &mut self,
        signature_ok: bool,
        key: &Uri,
        a: Activity,
        actor: Option<u128>,
        object_resolved: bool,
        owner: u128,
        now: u64,
    ) -> (r: InboxReply)
        requires
            old(self).wf(),
        ensures
            receive_post(*old(self), signature_ok, *key, a, actor, object_resolved, owner, now, *final(self), r),
    {
        if !signature_ok {
            return InboxReply { status: 401, send_accept: false };
        }
        let owned = match a.kind {
            ActivityKind::UndoFollow { .. }
            | ActivityKind::UndoLike
            | ActivityKind::CreatePost { .. }
            | ActivityKind::DeletePost => true,
            _ => false,
        };
        if !(a.actor.same_domain(key) && a.id.same_domain(key) && (!owned
            || a.object.same_domain(key))) {
            return InboxReply { status: 400, send_accept: false };
        }
        if seen_recently(&self.seen, &a.id.href, now) {
            return InboxReply { status: 202, send_accept: false };
        }
        let actor_id = match actor {
            Some(x) => x,
            None => {
                return InboxReply { status: 502, send_accept: false };
            },
        };
        if !object_resolved {
            return InboxReply { status: 502, send_accept: false };
        }
        let is_follow = match a.kind {
            ActivityKind::Follow => true,
            _ => false,
        };
        if is_follow && !self.store.is_user_uri(owner, &a.object.href) {
            return InboxReply { status: 404, send_accept: false };
        }
        let id_text = a.id.href.clone();
        let mut send_accept = false;
        match a.kind {
            ActivityKind::Follow => {
                self.store.insert_follow(
                    FollowRow { uri: a.id.href, source: actor_id, target: owner, accepted: false },
                );
                send_accept = true;
            },
            ActivityKind::Accept { .. } => {
                self.store.accept_follow(&a.object.href, actor_id);
            },
            ActivityKind::Reject { .. } => {
                self.store.remove_follow(&a.object.href, actor_id, true);
            },
            ActivityKind::UndoFollow { .. } => {
                self.store.remove_follow(&a.object.href, actor_id, false);
            },
            ActivityKind::Like { content } => {
                self.store.insert_reaction(
                    ReactionRow { uri: a.id.href, actor: actor_id, post: a.object.href, content },
                );
            },
            ActivityKind::UndoLike => {
                self.store.remove_reaction(&a.object.href, actor_id);
            },
            ActivityKind::CreatePost { content } => {
                self.store.insert_post(PostRow { uri: a.object.href, author: actor_id, content });
            },
            ActivityKind::DeletePost => {
                self.store.remove_post_by(&a.object.href, actor_id);
            },
            ActivityKind::Other => {},
        }
        if self.seen.len() >= SEEN_CAPACITY {
            self.seen.remove(0);
        }
        self.seen.push(SeenEntry { id: id_text, at: now });
        InboxReply { status: 202, send_accept }
    }
}

/// Whether the members read as an activity whose URIs all parse.
pub open spec fn readable(f: Seq<Field>, raw: RawActivity) -> bool {
    &&& parse_spec(fields_view(f)) is Ok
    &&& url_parse(raw.id@) is Some
    &&& url_parse(raw.actor@) is Some
    &&& (raw.kind is Other || url_parse(raw.object@) is Some)
}

impl InboxState {
    /// The inbox endpoint: the signature is checked first (401), then the
    /// body is read (400 where it is malformed), and the activity is then
    /// received as `receive` does. A refused request leaves the state as it
    /// was.
    pub fn handle(
        &mut self,
        signature_ok: bool,
        key: &Uri,
        body: &Vec<Field>,
        actor: Option<u128>,
        object_resolved: bool,
        owner: u128,
        now: u64,
    ) -> (r: InboxReply)
        requires
            old(self).wf(),
        ensures
            final(self).wf(),
            !signature_ok ==> r == (InboxReply { status: 401, send_accept: false })
                && final(self).same(*old(self)),
            signature_ok && parse_spec(fields_view(body@)) is Err ==> r == (InboxReply {
                status: 400,
                send_accept: false,
            }) && final(self).same(*old(self)),
            signature_ok && parse_spec(fields_view(body@)) is Ok ==> exists|raw: RawActivity|
                parse_spec(fields_view(body@)) == Ok::<_, FederationError>(raw_view(raw)) && if readable(body@, raw) {
                    exists|a: Activity|
                        url_parse(raw.id@) == Some(a.id@) && url_parse(raw.actor@) == Some(
                            a.actor@,
                        ) && (raw.kind is Other ==> url_parse(raw.id@) == Some(a.object@)) && (
                        !(raw.kind is Other) ==> url_parse(raw.object@) == Some(a.object@))
                            && a.kind == raw.kind && receive_post(
                            *old(self),
                            signature_ok,
                            *key,
                            a,
                            actor,
                            object_resolved,
                            owner,
                            now,
                            *final(self),
                            r,
                        )
                } else {
                    r == (InboxReply { status: 400, send_accept: false })
                        && final(self).same(*old(self))
                },
    {
        if !signature_ok {
            return InboxReply { status: 401, send_accept: false };
        }
        let raw = match parse(body) {
            Ok(raw) => raw,
            Err(_) => {
                return InboxReply { status: 400, send_accept: false };
            },
        };
        let ghost raw0 = raw;
        match raw.into_activity() {
            Ok(a) => {
                let r = self.receive(signature_ok, key, a, actor, object_resolved, owner, now);
                assert(readable(body@, raw0));
                r
            },
            Err(_) => {
                assert(!readable(body@, raw0));
                InboxReply { status: 400, send_accept: false }
            },
        }
    }
}

/// Replaying an activity changes nothing while the replay falls within the
/// window after the activity was applied: the state is updated at most once
/// however often the same activity arrives, and a replay is answered 202.
pub proof fn lemma_replay_applies_once(
    st0: InboxState,
    signature_ok: bool,
    key: Uri,
    a: Activity,
    actor: Option<u128>,
    object_resolved: bool,
    owner: u128,
    t1: u64,
    st1: InboxState,
    r1: InboxReply,
    t2: u64,
    st2: InboxState,
    r2: InboxReply,
)
    requires
        receive_post(st0, signature_ok, key, a, actor, object_resolved, owner, t1, st1, r1),
        receive_post(st1, signature_ok, key, a, actor, object_resolved, owner, t2, st2, r2),
        r1.status == 202,
        !seen_within(st0.seen@, a.id@.0, t1),
        t1 <= t2 < t1 + SEEN_WINDOW_SECS,
    ensures
        st2.same(st1),
        r2 == (InboxReply { status: 202, send_accept: false }),
{
    let last = st1.seen@.len() - 1;
    assert(st1.seen@[last].id@ == a.id@.0);
    assert(st1.seen@[last].at == t1);
    assert(seen_within(st1.seen@, a.id@.0, t2));
}

/// A state that holds the same rows and ids as one in which `a` was applied
/// at `t1` is left as it is by a receipt of `a` at `t` within the window.
proof fn lemma_replay_step(
    st1: InboxState,
    s: InboxState,
    signature_ok: bool,
    key: Uri,
    a: Activity,
    actor: Option<u128>,
    object_resolved: bool,
    owner: u128,
    t1: u64,
    t: u64,
    s2: InboxState,
    r: InboxReply,
)
    requires
        signature_ok,
        authority_ok(key, a),
        st1.seen@.len() > 0,
        st1.seen@[st1.seen@.len() - 1].id@ == a.id@.0,
        st1.seen@[st1.seen@.len() - 1].at == t1,
        t1 <= t < t1 + SEEN_WINDOW_SECS,
        s.same(st1),
        receive_post(s, signature_ok, key, a, actor, object_resolved, owner, t, s2, r),
    ensures
        s2.same(st1),
        r == (InboxReply { status: 202, send_accept: false }),
{
    let last = st1.seen@.len() - 1;
    assert(s.seen@[last].id@ == a.id@.0);
    assert(seen_within(s.seen@, a.id@.0, t));
}

/// However many times the same request arrives within the window after the
/// first receipt applied it, every later receipt is answered 202 and leaves
/// the state as the first receipt left it.
pub proof fn lemma_replays_apply_once(
    states: Seq<InboxState>,
    replies: Seq<InboxReply>,
    times: Seq<u64>,
    signature_ok: bool,
    key: Uri,
    a: Activity,
    actor: Option<u128>,
    object_resolved: bool,
    owner: u128,
)
    requires
        states.len() == times.len() + 1,
        replies.len() == times.len(),
        times.len() >= 1,
        forall|k: int|
            0 <= k < times.len() ==> receive_post(
                #[trigger] states[k],
                signature_ok,
                key,
                a,
                actor,
                object_resolved,
                owner,
                times[k],
                states[k + 1],
                replies[k],
            ),
        replies[0].status == 202,
        !seen_within(states[0].seen@, a.id@.0, times[0]),
        forall|k: int| 0 <= k < times.len() ==> times[0] <= #[trigger] times[k] < times[0] + SEEN_WINDOW_SECS,
    ensures
        forall|k: int| 1 <= k < times.len() ==> #[trigger] replies[k] == (InboxReply { status: 202, send_accept: false }),
        forall|k: int| 1 <= k <= times.len() ==> (#[trigger] states[k]).same(states[1]),
    decreases times.len(),
{
    let st1 = states[1];
    assert(receive_post(states[0], signature_ok, key, a, actor, object_resolved, owner, times[0], states[1], replies[0]));
    assert(signature_ok && authority_ok(key, a));
    let last = st1.seen@.len() - 1;
    assert(st1.seen@[last].id@ == a.id@.0);
    if times.len() > 1 {
        let n = times.len() - 1;
        lemma_replays_apply_once(states.take(n + 1), replies.take(n), times.take(n), signature_ok, key, a, actor, object_resolved, owner);
        assert(states.take(n + 1)[n] == states[n]);
        assert(receive_post(states[n], signature_ok, key, a, actor, object_resolved, owner, times[n], states[n + 1], replies[n]));
        if n >= 1 {
            assert(states.take(n + 1)[n].same(states.take(n + 1)[1]));
        } else {
            assert(states[n].same(st1));
        }
        lemma_replay_step(st1, states[n], signature_ok, key, a, actor, object_resolved, owner, times[0], times[n], states[n + 1], replies[n]);
        assert forall|k: int| 1 <= k < times.len() implies #[trigger] replies[k] == (InboxReply { status: 202, send_accept: false }) by {
            if k < n {
                assert(replies.take(n)[k] == replies[k]);
            }
        }
        assert forall|k: int| 1 <= k <= times.len() implies (#[trigger] states[k]).same(states[1]) by {
            if k <= n {
                assert(states.take(n + 1)[k] == states[k]);
            }
        }
    }
}

/// An activity that fails the signature or the origin check leaves the state
/// as it was, and is answered 401 or 400.
pub proof fn lemma_rejected_leaves_state(
    st0: InboxState,
    signature_ok: bool,
    key: Uri,
    a: Activity,
    actor: Option<u128>,
    object_resolved: bool,
    owner: u128,
    now: u64,
    st1: InboxState,
    r: InboxReply,
)
    requires
        receive_post(st0, signature_ok, key, a, actor, object_resolved, owner, now, st1, r),
        !signature_ok || !authority_ok(key, a),
    ensures
        st1.same(st0),
        !signature_ok ==> r.status == 401,
        signature_ok ==> r.status == 400,
{
}

} // verus!
