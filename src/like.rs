use vstd::prelude::*;

use crate::delivery::{has_text, plan_deliveries, DeliveryJob, QueuedDelivery};
use crate::error::FederationError;
use crate::inbox::{Activity, ActivityKind};
use crate::store::{reaction_has_uri, reaction_upserted, ReactionRow, Store};
use crate::uri::{url_parse, verify_domains_match, Uri};

verus! {

/// A Like activity: `actor` reacts with `content` on the post `object`.
pub struct Like {
    pub id: Uri,
    pub actor: Uri,
    pub object: Uri,
    pub content: String,
}

/// A Like ready to be delivered, with the inboxes it goes to.
pub struct LikeDelivery {
    pub like: Like,
    pub inboxes: Vec<Uri>,
    /// The delivery jobs enqueued for it, one per inbox.
    pub jobs: Vec<QueuedDelivery>,
}

impl Like {
    pub fn id(&self) -> (r: &Uri)
        ensures
            r == &self.id,
    {
        &self.id
    }

    pub fn actor(&self) -> (r: &Uri)
        ensures
            r == &self.actor,
    {
        &self.actor
    }

    /// A Like is authentic only where its id lies on its actor's domain.
    pub fn verify(&self) -> (r: Result<(), FederationError>)
        ensures
            r is Ok <==> self.actor@.1 == self.id@.1,
            r is Err ==> r == Err::<(), FederationError>(FederationError::BadRequest),
    {
        verify_domains_match(&self.actor, &self.id)
    }

    /// Stores the reaction of the local user `actor` under this Like's id,
    /// replacing a reaction stored with that id before. Returns whether the
    /// reaction was new.
    pub fn receive(self, store: &mut Store, actor: u128) -> (r: bool)
        requires
            old(store).wf(),
        ensures
            final(store).wf(),
            r == !reaction_has_uri(old(store).reactions@, self.id@.0),
            reaction_upserted(
                old(store).reactions@,
                final(store).reactions@,
                ReactionRow {
                    uri: self.id.href,
                    actor,
                    post: self.object.href,
                    content: self.content,
                },
            ),
            final(store).follows@ == old(store).follows@,
            final(store).users@ == old(store).users@,
            final(store).posts@ == old(store).posts@,
    {
        store.insert_reaction(
            ReactionRow { uri: self.id.href, actor, post: self.object.href, content: self.content },
        )
    }

    /// Addresses the Like to the inbox of the liked post's author and enqueues
    /// its delivery job, due at `now`; an inbox that is no URL is an internal
    /// error.
    pub fn send(self, author_inbox: &str, now: u64) -> (r: Result<LikeDelivery, FederationError>)
        ensures
            r is Ok <==> url_parse(author_inbox@) is Some,
            r is Err ==> r == Err::<LikeDelivery, FederationError>(FederationError::Internal),
            r matches Ok(d) ==> {
                &&& d.like == self
                &&& d.inboxes@.len() == 1
                &&& url_parse(author_inbox@) == Some(d.inboxes@[0]@)
                &&& d.jobs@.len() == 1
                &&& d.jobs@[0].inbox@ == d.inboxes@[0]@.0
                &&& d.jobs@[0].job == DeliveryJob::new_spec(now)
            },
    {
        match Uri::parse(author_inbox) {
            Ok(inbox) => {
                let targets = vec![inbox.href.clone()];
                let jobs = plan_deliveries(&targets, now);
                proof {
                    assert(targets@[0]@ == inbox@.0);
                    assert(has_text(targets@, inbox@.0));
                    if jobs@.len() > 1 {
                        assert(has_text(targets@, jobs@[0].inbox@));
                        assert(has_text(targets@, jobs@[1].inbox@));
                    }
                    if jobs@.len() > 0 {
                        assert(has_text(targets@, jobs@[0].inbox@));
                    }
                }
                Ok(LikeDelivery { like: self, inboxes: vec![inbox], jobs })
            },
            Err(_) => Err(FederationError::Internal),
        }
    }

    /// The Like as an inbound activity.
    pub fn into_activity(self) -> (r: Activity)
        ensures
            r == (Activity {
                id: self.id,
                actor: self.actor,
                object: self.object,
                kind: ActivityKind::Like { content: self.content },
            }),
    {
        Activity {
            id: self.id,
            actor: self.actor,
            object: self.object,
            kind: ActivityKind::Like { content: self.content },
        }
    }
}

} // verus!
