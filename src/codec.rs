use vstd::prelude::*;
use vstd::string::StringExecFns;

use crate::error::FederationError;
use crate::inbox::{Activity, ActivityKind};
use crate::uri::{opt_view, url_parse, Uri};

verus! {

/// The JSON-LD context that every emitted activity carries.
pub open spec fn default_context() -> Seq<char> {
    "https://www.w3.org/ns/activitystreams"@
}

/// One member of an activity's JSON object, flattened: a key of the object
/// itself (`id`) or a dotted key of its embedded object (`object.id`), with
/// its text value.
pub struct Field {
    pub key: String,
    pub value: String,
}

pub open spec fn field_view(f: Field) -> (Seq<char>, Seq<char>) {
    (f.key@, f.value@)
}

pub open spec fn fields_view(f: Seq<Field>) -> Seq<(Seq<char>, Seq<char>)> {
    f.map_values(|x: Field| field_view(x))
}

/// The value of the first member with key `key` from position `i` on.
pub open spec fn lookup_from(f: Seq<(Seq<char>, Seq<char>)>, key: Seq<char>, i: int) -> Option<
    Seq<char>,
>
    decreases f.len() - i,
{
    if i < 0 || i >= f.len() {
        None
    } else if f[i].0 == key {
        Some(f[i].1)
    } else {
        lookup_from(f, key, i + 1)
    }
}

/// The value of the first member with key `key`.
pub open spec fn lookup_spec(f: Seq<(Seq<char>, Seq<char>)>, key: Seq<char>) -> Option<Seq<char>> {
    lookup_from(f, key, 0)
}

/// An activity as the codec reads it: its three URIs as texts, and its kind.
pub struct RawActivity {
    pub id: String,
    pub actor: String,
    pub object: String,
    pub kind: ActivityKind,
}

/// The kind of an activity, with what it carries as plain text.
pub enum KindView {
    Follow,
    Accept(Seq<char>, Seq<char>),
    Reject(Seq<char>, Seq<char>),
    UndoFollow(Seq<char>, Seq<char>),
    Like(Seq<char>),
    UndoLike,
    CreatePost(Seq<char>),
    DeletePost,
    Other,
}

pub open spec fn kind_view(k: ActivityKind) -> KindView {
    match k {
        ActivityKind::Follow => KindView::Follow,
        ActivityKind::Accept { follow_actor, follow_object } => KindView::Accept(
            follow_actor@,
            follow_object@,
        ),
        ActivityKind::Reject { follow_actor, follow_object } => KindView::Reject(
            follow_actor@,
            follow_object@,
        ),
        ActivityKind::UndoFollow { follow_actor, follow_object } => KindView::UndoFollow(
            follow_actor@,
            follow_object@,
        ),
        ActivityKind::Like { content } => KindView::Like(content@),
        ActivityKind::UndoLike => KindView::UndoLike,
        ActivityKind::CreatePost { content } => KindView::CreatePost(content@),
        ActivityKind::DeletePost => KindView::DeletePost,
        ActivityKind::Other => KindView::Other,
    }
}

/// The view of a raw activity: id, actor, object and kind.
pub type RawView = (Seq<char>, Seq<char>, Seq<char>, KindView);

pub open spec fn raw_view(a: RawActivity) -> RawView {
    (a.id@, a.actor@, a.object@, kind_view(a.kind))
}

/// An embedded Follow: its type, id, actor and object.
pub open spec fn follow_object_members(
    head: Seq<(Seq<char>, Seq<char>)>,
    id: Seq<char>,
    actor: Seq<char>,
    object: Seq<char>,
) -> Seq<(Seq<char>, Seq<char>)> {
    head.push(("object.type"@, "Follow"@)).push(("object.id"@, id)).push(
        ("object.actor"@, actor),
    ).push(("object.object"@, object))
}

/// The actor and object of an embedded Follow.
pub open spec fn follow_parts(f: Seq<(Seq<char>, Seq<char>)>) -> Option<(Seq<char>, Seq<char>)> {
    match (lookup_spec(f, "object.actor"@), lookup_spec(f, "object.object"@)) {
        (Some(a), Some(o)) => Some((a, o)),
        _ => None,
    }
}

/// The members that an activity is written as. The context comes first; an
/// Accept, a Reject, an Undo or a Create embeds its object, with the object's
/// type, and an embedded Follow its actor and object; a Like carries
/// its content, and a Create the post's. An activity that the node does not
/// act on is written with the generic type `Activity`.
pub open spec fn serialize_spec(a: RawView) -> Seq<(Seq<char>, Seq<char>)> {
    let ctx = ("@context"@, default_context());
    let head = |t: Seq<char>| seq![ctx, ("type"@, t), ("id"@, a.0), ("actor"@, a.1)];
    match a.3 {
        KindView::Follow => head("Follow"@).push(("object"@, a.2)),
        KindView::Accept(fa, fo) => follow_object_members(head("Accept"@), a.2, fa, fo),
        KindView::Reject(fa, fo) => follow_object_members(head("Reject"@), a.2, fa, fo),
        KindView::DeletePost => head("Delete"@).push(("object"@, a.2)),
        KindView::Other => head("Activity"@).push(("object"@, a.2)),
        KindView::UndoFollow(fa, fo) => follow_object_members(head("Undo"@), a.2, fa, fo),
        KindView::UndoLike => head("Undo"@).push(("object.type"@, "Like"@)).push(
            ("object.id"@, a.2),
        ),
        KindView::Like(c) => head("Like"@).push(("object"@, a.2)).push(("content"@, c)),
        KindView::CreatePost(c) => head("Create"@).push(("object.type"@, "Note"@)).push(
            ("object.id"@, a.2),
        ).push(("object.content"@, c)),
    }
}

/// The object's URI: the `object` member where it is a URI, else the
/// embedded object's id.
pub open spec fn object_spec(f: Seq<(Seq<char>, Seq<char>)>) -> Option<Seq<char>> {
    match lookup_spec(f, "object"@) {
        Some(o) => Some(o),
        None => lookup_spec(f, "object.id"@),
    }
}

/// How an activity is read. `type`, `id` and `actor` are required of every
/// activity, and the object of every kind that the node acts on, with a Like's
/// content, a Create's post content and an embedded Follow's actor and object;
/// a missing one is a bad request. Unknown types, an Accept or a Reject of
/// anything but a Follow, an Undo of anything but a Follow or a Like, and a
/// Create of anything but a Note are read as activities that the node does
/// not act on.
/// The context and members of no interest are ignored.
pub open spec fn parse_spec(f: Seq<(Seq<char>, Seq<char>)>) -> Result<RawView, FederationError> {
    let ty = lookup_spec(f, "type"@);
    let id = lookup_spec(f, "id"@);
    let actor = lookup_spec(f, "actor"@);
    let object = object_spec(f);
    if ty is None || id is None || actor is None {
        Err(FederationError::BadRequest)
    } else {
        let t = ty.unwrap();
        let inner = lookup_spec(f, "object.type"@);
        let kind: Option<KindView> = if t == "Follow"@ {
            Some(KindView::Follow)
        } else if (t == "Accept"@ || t == "Reject"@ || t == "Undo"@) && inner == Some("Follow"@) {
            match follow_parts(f) {
                Some(p) => Some(
                    if t == "Accept"@ {
                        KindView::Accept(p.0, p.1)
                    } else if t == "Reject"@ {
                        KindView::Reject(p.0, p.1)
                    } else {
                        KindView::UndoFollow(p.0, p.1)
                    },
                ),
                None => None,
            }
        } else if t == "Delete"@ {
            Some(KindView::DeletePost)
        } else if t == "Undo"@ && inner == Some("Like"@) {
            Some(KindView::UndoLike)
        } else if t == "Like"@ {
            match lookup_spec(f, "content"@) {
                Some(c) => Some(KindView::Like(c)),
                None => None,
            }
        } else if t == "Create"@ && inner == Some("Note"@) {
            match lookup_spec(f, "object.content"@) {
                Some(c) => Some(KindView::CreatePost(c)),
                None => None,
            }
        } else {
            Some(KindView::Other)
        };
        match kind {
            None => Err(FederationError::BadRequest),
            Some(KindView::Other) => Ok(
                (
                    id.unwrap(),
                    actor.unwrap(),
                    match object {
                        Some(o) => o,
                        None => Seq::empty(),
                    },
                    KindView::Other,
                ),
            ),
            Some(k) => match object {
                None => Err(FederationError::BadRequest),
                Some(o) => Ok((id.unwrap(), actor.unwrap(), o, k)),
            },
        }
    }
}

/// Reading what was written gives back the activity: every kind keeps its
/// id, actor, object and carried text, and the context is the first member.
pub proof fn lemma_round_trip(a: RawView)
    ensures
        parse_spec(serialize_spec(a)) == Ok::<RawView, FederationError>(a),
        serialize_spec(a)[0] == ("@context"@, default_context()),
{
    reveal_with_fuel(lookup_from, 10);
    reveal_strlit("@context");
    reveal_strlit("type");
    reveal_strlit("id");
    reveal_strlit("actor");
    reveal_strlit("object");
    reveal_strlit("object.id");
    reveal_strlit("object.type");
    reveal_strlit("object.content");
    reveal_strlit("object.actor");
    reveal_strlit("object.object");
    reveal_strlit("content");
    reveal_strlit("Follow");
    reveal_strlit("Accept");
    reveal_strlit("Reject");
    reveal_strlit("Delete");
    reveal_strlit("Undo");
    reveal_strlit("Like");
    reveal_strlit("Create");
    reveal_strlit("Note");
    reveal_strlit("Activity");
    assert("@context"@.len() == 8);
    assert("type"@.len() == 4);
    assert("id"@.len() == 2);
    assert("actor"@.len() == 5);
    assert("object"@.len() == 6);
    assert("object.id"@.len() == 9);
    assert("object.type"@.len() == 11);
    assert("object.content"@.len() == 14);
    assert("content"@.len() == 7);
    assert("object.actor"@.len() == 12);
    assert("object.object"@.len() == 13);
    assert("Follow"@.len() == 6);
    assert("Accept"@.len() == 6);
    assert("Reject"@.len() == 6);
    assert("Delete"@.len() == 6);
    assert("Undo"@.len() == 4);
    assert("Like"@.len() == 4);
    assert("Create"@.len() == 6);
    assert("Note"@.len() == 4);
    assert("Activity"@.len() == 8);
    assert("Follow"@[0] != "Accept"@[0] || "Follow"@[1] != "Accept"@[1]);
    assert("Follow"@[0] != "Reject"@[0] || "Follow"@[1] != "Reject"@[1]);
    assert("Follow"@[0] != "Delete"@[0] || "Follow"@[1] != "Delete"@[1]);
    assert("Follow"@[0] != "Create"@[0] || "Follow"@[1] != "Create"@[1]);
    assert("Accept"@[0] != "Reject"@[0] || "Accept"@[1] != "Reject"@[1]);
    assert("Accept"@[0] != "Delete"@[0] || "Accept"@[1] != "Delete"@[1]);
    assert("Accept"@[0] != "Create"@[0] || "Accept"@[1] != "Create"@[1]);
    assert("Reject"@[0] != "Delete"@[0] || "Reject"@[1] != "Delete"@[1]);
    assert("Reject"@[0] != "Create"@[0] || "Reject"@[1] != "Create"@[1]);
    assert("Delete"@[0] != "Create"@[0] || "Delete"@[1] != "Create"@[1]);
    assert("Undo"@[0] != "Like"@[0] || "Undo"@[1] != "Like"@[1]);
    assert("Undo"@[0] != "Note"@[0] || "Undo"@[1] != "Note"@[1]);
    assert("Like"@[0] != "Note"@[0] || "Like"@[1] != "Note"@[1]);

}

fn field(key: &str, value: String) -> (r: Field)
    ensures
        field_view(r) == (key@, value@),
{
    Field { key: String::from_str(key), value }
}

fn text(s: &str) -> (r: String)
    ensures
        r@ == s@,
{
    String::from_str(s)
}

/// Writes an activity as its members, the context first.
pub fn serialize(a: &RawActivity) -> (r: Vec<Field>)
    ensures
        fields_view(r@) == serialize_spec(raw_view(*a)),
        fields_view(r@)[0] == ("@context"@, default_context()),
{
    let ty = match &a.kind {
        ActivityKind::Follow => "Follow",
        ActivityKind::Accept { .. } => "Accept",
        ActivityKind::Reject { .. } => "Reject",
        ActivityKind::DeletePost => "Delete",
        ActivityKind::Other => "Activity",
        ActivityKind::UndoFollow { .. } | ActivityKind::UndoLike => "Undo",
        ActivityKind::Like { .. } => "Like",
        ActivityKind::CreatePost { .. } => "Create",
    };
    let mut v: Vec<Field> = Vec::new();
    v.push(field("@context", text("https://www.w3.org/ns/activitystreams")));
    v.push(field("type", text(ty)));
    v.push(field("id", a.id.clone()));
    v.push(field("actor", a.actor.clone()));
    match &a.kind {
        ActivityKind::Accept { follow_actor, follow_object }
        | ActivityKind::Reject { follow_actor, follow_object }
        | ActivityKind::UndoFollow { follow_actor, follow_object } => {
            v.push(field("object.type", text("Follow")));
            v.push(field("object.id", a.object.clone()));
            v.push(field("object.actor", follow_actor.clone()));
            v.push(field("object.object", follow_object.clone()));
        },
        ActivityKind::UndoLike => {
            v.push(field("object.type", text("Like")));
            v.push(field("object.id", a.object.clone()));
        },
        ActivityKind::CreatePost { content } => {
            v.push(field("object.type", text("Note")));
            v.push(field("object.id", a.object.clone()));
            v.push(field("object.content", content.clone()));
        },
        ActivityKind::Like { content } => {
            v.push(field("object", a.object.clone()));
            v.push(field("content", content.clone()));
        },
        _ => {
            v.push(field("object", a.object.clone()));
        },
    }
    assert(fields_view(v@) =~= serialize_spec(raw_view(*a)));
    v
}

/// The value of the first member with key `key`.
pub fn lookup(f: &Vec<Field>, key: &str) -> (r: Option<String>)
    ensures
        opt_view(r) == lookup_spec(fields_view(f@), key@),
{
    let ghost fv = fields_view(f@);
    let mut i: usize = 0;
    let k = text(key);
    while i < f.len()
        invariant
            i <= f@.len(),
            fv == fields_view(f@),
            k@ == key@,
            lookup_spec(fv, key@) == lookup_from(fv, key@, i as int),
        decreases f@.len() - i,
    {
        if f[i].key == k {
            return Some(f[i].value.clone());
        }
        i = i + 1;
    }
    None
}

fn is_text(s: &String, lit: &str) -> (r: bool)
    ensures
        r == (s@ == lit@),
{
    let t = text(lit);
    *s == t
}

fn opt_is(o: &Option<String>, lit: &str) -> (r: bool)
    ensures
        r == (opt_view(*o) == Some(lit@)),
{
    match o {
        Some(x) => is_text(x, lit),
        None => false,
    }
}

/// Reads an activity from its members.
pub fn parse(f: &Vec<Field>) -> (r: Result<RawActivity, FederationError>)
    ensures
        r is Err <==> parse_spec(fields_view(f@)) is Err,
        r is Err ==> r == Err::<RawActivity, FederationError>(FederationError::BadRequest),
        r matches Ok(x) ==> parse_spec(fields_view(f@)) == Ok::<RawView, FederationError>(
            raw_view(x),
        ),
{
    let ty = lookup(f, "type");
    let id = lookup(f, "id");
    let actor = lookup(f, "actor");
    let object = match lookup(f, "object") {
        Some(o) => Some(o),
        None => lookup(f, "object.id"),
    };
    let (t, id, actor) = match (ty, id, actor) {
        (Some(t), Some(id), Some(actor)) => (t, id, actor),
        _ => {
            return Err(FederationError::BadRequest);
        },
    };
    let inner = lookup(f, "object.type");
    let kind: Option<ActivityKind> = if is_text(&t, "Follow") {
        Some(ActivityKind::Follow)
    } else if (is_text(&t, "Accept") || is_text(&t, "Reject") || is_text(&t, "Undo")) && opt_is(
        &inner,
        "Follow",
    ) {
        match (lookup(f, "object.actor"), lookup(f, "object.object")) {
            (Some(follow_actor), Some(follow_object)) => Some(
                if is_text(&t, "Accept") {
                    ActivityKind::Accept { follow_actor, follow_object }
                } else if is_text(&t, "Reject") {
                    ActivityKind::Reject { follow_actor, follow_object }
                } else {
                    ActivityKind::UndoFollow { follow_actor, follow_object }
                },
            ),
            _ => None,
        }
    } else if is_text(&t, "Delete") {
        Some(ActivityKind::DeletePost)
    } else if is_text(&t, "Undo") && opt_is(&inner, "Like") {
        Some(ActivityKind::UndoLike)
    } else if is_text(&t, "Like") {
        match lookup(f, "content") {
            Some(c) => Some(ActivityKind::Like { content: c }),
            None => None,
        }
    } else if is_text(&t, "Create") && opt_is(&inner, "Note") {
        match lookup(f, "object.content") {
            Some(c) => Some(ActivityKind::CreatePost { content: c }),
            None => None,
        }
    } else {
        Some(ActivityKind::Other)
    };
    match kind {
        None => Err(FederationError::BadRequest),
        Some(ActivityKind::Other) => {
            let object = match object {
                Some(o) => o,
                None => String::new(),
            };
            Ok(RawActivity { id, actor, object, kind: ActivityKind::Other })
        },
        Some(k) => match object {
            None => Err(FederationError::BadRequest),
            Some(o) => Ok(RawActivity { id, actor, object: o, kind: k }),
        },
    }
}

impl RawActivity {
    /// Reads the activity's URIs. An activity that the node does not act on
    /// needs no object, and carries its id in that place.
    pub fn into_activity(self) -> (r: Result<Activity, FederationError>)
        ensures
            r is Ok <==> (url_parse(self.id@) is Some && url_parse(self.actor@) is Some && (
            self.kind is Other || url_parse(self.object@) is Some)),
            r is Err ==> r == Err::<Activity, FederationError>(FederationError::BadRequest),
            r matches Ok(x) ==> {
                &&& url_parse(self.id@) == Some(x.id@)
                &&& url_parse(self.actor@) == Some(x.actor@)
                &&& !(self.kind is Other) ==> url_parse(self.object@) == Some(x.object@)
                &&& self.kind is Other ==> url_parse(self.id@) == Some(x.object@)
                &&& x.kind == self.kind
            },
    {
        let id = Uri::parse(self.id.as_str())?;
        let actor = Uri::parse(self.actor.as_str())?;
        let object = match self.kind {
            ActivityKind::Other => Uri::parse(self.id.as_str())?,
            _ => Uri::parse(self.object.as_str())?,
        };
        Ok(Activity { id, actor, object, kind: self.kind })
    }
}

} // verus!
