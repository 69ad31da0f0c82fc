//! Schema-facing node types: lazy entity views over the store records.
//!
//! Each node wraps a stable id and defers its record fetch until a field is
//! first read ([`LazySlot`]); its cursor is derived from the id alone and
//! never settable on its own. Field reads require a filled slot — the caller
//! runs the one fetch when [`needs_fetch`] says so — and surface the slot's
//! memoized outcome, success or shared failure.
//!
//! [`needs_fetch`]: Challenge::needs_fetch

use vstd::prelude::*;

use crate::cursor::NodeId;
use crate::errors::FetchError;
use crate::errors::UnknownPostError;
use crate::lazy::LazySlot;
use crate::lazy::fill_spec;
use crate::models;
use crate::models::SchemaModel;
use crate::models::SchemaTable;
use crate::relay::RelayConnectionNode;

verus! {

/// A user node: a stable id plus the deferred user record.
pub struct User {
    pub db_id: i32,
    pub db_model: LazySlot<models::User>,
}

impl User {
    /// A view over the user with this id, fetched on first field read.
    pub fn new(db_id: i32) -> (r: User)
        ensures
            r.db_id == db_id,
            r.db_model.slot_view() is None,
    {
        User { db_id, db_model: LazySlot::new() }
    }

    /// A view over a record already at hand: no fetch will run for it.
    pub fn from_model(model: models::User) -> (r: User)
        ensures
            r.db_id == model.id,
            r.db_model.slot_view() == Some(Ok::<models::User, FetchError>(model)),
    {
        let db_id = model.id;
        User { db_id, db_model: LazySlot::from_value(model) }
    }

    /// The cursor identifying this node, derived from its id alone.
    pub fn id(&self) -> (r: NodeId)
        ensures
            r == NodeId(SchemaTable::Users, self.db_id),
    {
        NodeId(SchemaTable::Users, self.db_id)
    }

    /// Whether the one fetch for this view still has to run.
    pub fn needs_fetch(&self) -> (r: bool)
        ensures
            r == (self.db_model.slot_view() is None),
    {
        !self.db_model.is_filled()
    }

    /// Offers the fetch outcome to the view; a filled view ignores it.
    pub fn fill(&mut self, outcome: Result<models::User, FetchError>)
        ensures
            final(self).db_id == old(self).db_id,
            final(self).db_model.slot_view() == fill_spec(
                old(self).db_model.slot_view(),
                outcome,
            ),
    {
        self.db_model.fill(outcome)
    }

    /// The user's name, from the memoized record.
    pub fn name(&self) -> (r: Result<&String, &FetchError>)
        requires
            self.db_model.slot_view() is Some,
        ensures
            match self.db_model.slot_view() {
                Some(Ok(m)) => r matches Ok(v) && *v == m.name,
                Some(Err(e)) => r matches Err(err) && *err == e,
                None => false,
            },
    {
        match self.db_model.get() {
            Ok(m) => Ok(&m.name),
            Err(e) => Err(e),
        }
    }

    /// The user's profile text, from the memoized record.
    pub fn profile(&self) -> (r: Result<&String, &FetchError>)
        requires
            self.db_model.slot_view() is Some,
        ensures
            match self.db_model.slot_view() {
                Some(Ok(m)) => r matches Ok(v) && *v == m.profile,
                Some(Err(e)) => r matches Err(err) && *err == e,
                None => false,
            },
    {
        match self.db_model.get() {
            Ok(m) => Ok(&m.profile),
            Err(e) => Err(e),
        }
    }

    /// When the user was created, from the memoized record.
    pub fn created_at(&self) -> (r: Result<i64, &FetchError>)
        requires
            self.db_model.slot_view() is Some,
        ensures
            match self.db_model.slot_view() {
                Some(Ok(m)) => r == Ok::<i64, &FetchError>(m.created_at),
                Some(Err(e)) => r matches Err(err) && *err == e,
                None => false,
            },
    {
        match self.db_model.get() {
            Ok(m) => Ok(m.created_at),
            Err(e) => Err(e),
        }
    }

    /// When the user was last updated, if ever, from the memoized record.
    pub fn updated_at(&self) -> (r: Result<Option<i64>, &FetchError>)
        requires
            self.db_model.slot_view() is Some,
        ensures
            match self.db_model.slot_view() {
                Some(Ok(m)) => r == Ok::<Option<i64>, &FetchError>(m.updated_at),
                Some(Err(e)) => r matches Err(err) && *err == e,
                None => false,
            },
    {
        match self.db_model.get() {
            Ok(m) => Ok(m.updated_at),
            Err(e) => Err(e),
        }
    }

    /// When the user was deleted, if ever, from the memoized record.
    pub fn deleted_at(&self) -> (r: Result<Option<i64>, &FetchError>)
        requires
            self.db_model.slot_view() is Some,
        ensures
            match self.db_model.slot_view() {
                Some(Ok(m)) => r == Ok::<Option<i64>, &FetchError>(m.deleted_at),
                Some(Err(e)) => r matches Err(err) && *err == e,
                None => false,
            },
    {
        match self.db_model.get() {
            Ok(m) => Ok(m.deleted_at),
            Err(e) => Err(e),
        }
    }
}

impl RelayConnectionNode for User {
    open spec fn cursor_spec(&self) -> NodeId {
        NodeId(SchemaTable::Users, self.db_id)
    }

    fn cursor(&self) -> (r: NodeId) {
        self.id()
    }

    fn connection_type_name() -> (r: &'static str) {
        "UserConnection"
    }

    fn edge_type_name() -> (r: &'static str) {
        "UserConnectionEdge"
    }
}

/// A challenge-type node, small enough to carry its record eagerly.
pub struct ChallengeType {
    pub id: NodeId,
    pub name: String,
    pub description: String,
}

impl ChallengeType {
    /// Wraps a challenge-type record for the schema layer.
    pub fn from_model(model: models::ChallengeType) -> (r: ChallengeType)
        ensures
            r.id == NodeId(SchemaTable::ChallengeTypes, model.id as i32),
            r.name == model.name,
            r.description == model.description,
    {
        let id = NodeId(SchemaTable::ChallengeTypes, model.id as i32);
        ChallengeType { id, name: model.name, description: model.description }
    }

    /// The cursor identifying this node.
    pub fn id(&self) -> (r: &NodeId)
        ensures
            *r == self.id,
    {
        &self.id
    }

    /// The challenge type's name.
    pub fn name(&self) -> (r: &String)
        ensures
            *r == self.name,
    {
        &self.name
    }

    /// The challenge type's description.
    pub fn description(&self) -> (r: &String)
        ensures
            *r == self.description,
    {
        &self.description
    }
}

/// A challenge node: a stable post id plus the deferred joined record.
pub struct Challenge {
    pub db_id: i32,
    pub db_model: LazySlot<models::Challenge>,
}

impl Challenge {
    /// A view over the challenge with this post id, fetched on first read.
    pub fn new(db_id: i32) -> (r: Challenge)
        ensures
            r.db_id == db_id,
            r.db_model.slot_view() is None,
    {
        Challenge { db_id, db_model: LazySlot::new() }
    }

    /// A view over a record already at hand: no fetch will run for it.
    pub fn from_model(model: models::Challenge) -> (r: Challenge)
        ensures
            r.db_id == model.post.id,
            r.db_model.slot_view() == Some(Ok::<models::Challenge, FetchError>(model)),
    {
        let db_id = model.post.id;
        Challenge { db_id, db_model: LazySlot::from_value(model) }
    }

    /// The cursor identifying this node, derived from its id alone.
    pub fn id(&self) -> (r: NodeId)
        ensures
            r == NodeId(SchemaTable::Challenges, self.db_id),
    {
        NodeId(SchemaTable::Challenges, self.db_id)
    }

    /// Whether the one fetch for this view still has to run.
    pub fn needs_fetch(&self) -> (r: bool)
        ensures
            r == (self.db_model.slot_view() is None),
    {
        !self.db_model.is_filled()
    }

    /// Offers the fetch outcome to the view; a filled view ignores it.
    pub fn fill(&mut self, outcome: Result<models::Challenge, FetchError>)
        ensures
            final(self).db_id == old(self).db_id,
            final(self).db_model.slot_view() == fill_spec(
                old(self).db_model.slot_view(),
                outcome,
            ),
    {
        self.db_model.fill(outcome)
    }

    /// The challenge's title, from the memoized record.
    pub fn title(&self) -> (r: Result<&String, &FetchError>)
        requires
            self.db_model.slot_view() is Some,
        ensures
            match self.db_model.slot_view() {
                Some(Ok(m)) => r matches Ok(v) && *v == m.post.title,
                Some(Err(e)) => r matches Err(err) && *err == e,
                None => false,
            },
    {
        match self.db_model.get() {
            Ok(m) => Ok(&m.post.title),
            Err(e) => Err(e),
        }
    }

    /// The challenge's body, from the memoized record.
    pub fn body(&self) -> (r: Result<&String, &FetchError>)
        requires
            self.db_model.slot_view() is Some,
        ensures
            match self.db_model.slot_view() {
                Some(Ok(m)) => r matches Ok(v) && *v == m.post.body,
                Some(Err(e)) => r matches Err(err) && *err == e,
                None => false,
            },
    {
        match self.db_model.get() {
            Ok(m) => Ok(&m.post.body),
            Err(e) => Err(e),
        }
    }

    /// When the challenge was created, from the memoized record.
    pub fn created_at(&self) -> (r: Result<i64, &FetchError>)
        requires
            self.db_model.slot_view() is Some,
        ensures
            match self.db_model.slot_view() {
                Some(Ok(m)) => r == Ok::<i64, &FetchError>(m.post.created_at),
                Some(Err(e)) => r matches Err(err) && *err == e,
                None => false,
            },
    {
        match self.db_model.get() {
            Ok(m) => Ok(m.post.created_at),
            Err(e) => Err(e),
        }
    }

    /// When the challenge was last updated, if ever.
    pub fn updated_at(&self) -> (r: Result<Option<i64>, &FetchError>)
        requires
            self.db_model.slot_view() is Some,
        ensures
            match self.db_model.slot_view() {
                Some(Ok(m)) => r == Ok::<Option<i64>, &FetchError>(m.post.updated_at),
                Some(Err(e)) => r matches Err(err) && *err == e,
                None => false,
            },
    {
        match self.db_model.get() {
            Ok(m) => Ok(m.post.updated_at),
            Err(e) => Err(e),
        }
    }

    /// When the challenge was deleted, if ever.
    pub fn deleted_at(&self) -> (r: Result<Option<i64>, &FetchError>)
        requires
            self.db_model.slot_view() is Some,
        ensures
            match self.db_model.slot_view() {
                Some(Ok(m)) => r == Ok::<Option<i64>, &FetchError>(m.post.deleted_at),
                Some(Err(e)) => r matches Err(err) && *err == e,
                None => false,
            },
    {
        match self.db_model.get() {
            Ok(m) => Ok(m.post.deleted_at),
            Err(e) => Err(e),
        }
    }

    /// The challenge's author as a fresh lazy user view over the recorded
    /// author id; the user record itself is not fetched here.
    pub fn author(&self) -> (r: Result<User, &FetchError>)
        requires
            self.db_model.slot_view() is Some,
        ensures
            match self.db_model.slot_view() {
                Some(Ok(m)) => r matches Ok(u) && u.db_id == m.post.user_id
                    && u.db_model.slot_view() is None,
                Some(Err(e)) => r matches Err(err) && *err == e,
                None => false,
            },
    {
        match self.db_model.get() {
            Ok(m) => Ok(User::new(m.post.user_id)),
            Err(e) => Err(e),
        }
    }

    /// The challenge's type, wrapped from the joined record.
    pub fn challenge_type(&self) -> (r: Result<ChallengeType, &FetchError>)
        requires
            self.db_model.slot_view() is Some,
        ensures
            match self.db_model.slot_view() {
                Some(Ok(m)) => r matches Ok(t) && t.id == NodeId(
                    SchemaTable::ChallengeTypes,
                    m.challenge_type.id as i32,
                ) && t.name == m.challenge_type.name && t.description
                    == m.challenge_type.description,
                Some(Err(e)) => r matches Err(err) && *err == e,
                None => false,
            },
    {
        match self.db_model.get() {
            Ok(m) => Ok(ChallengeType::from_model(m.challenge_type.clone())),
            Err(e) => Err(e),
        }
    }
}

impl RelayConnectionNode for Challenge {
    open spec fn cursor_spec(&self) -> NodeId {
        NodeId(SchemaTable::Challenges, self.db_id)
    }

    fn cursor(&self) -> (r: NodeId) {
        self.id()
    }

    fn connection_type_name() -> (r: &'static str) {
        "ChallengeConnection"
    }

    fn edge_type_name() -> (r: &'static str) {
        "ChallengeConnectionEdge"
    }
}

/// A response node: a stable post id plus the deferred joined record.
pub struct Response {
    pub db_id: i32,
    pub db_model: LazySlot<models::Response>,
}

impl Response {
    /// A view over the response with this post id, fetched on first read.
    pub fn new(db_id: i32) -> (r: Response)
        ensures
            r.db_id == db_id,
            r.db_model.slot_view() is None,
    {
        Response { db_id, db_model: LazySlot::new() }
    }

    /// A view over a record already at hand: no fetch will run for it.
    pub fn from_model(model: models::Response) -> (r: Response)
        ensures
            r.db_id == model.post.id,
            r.db_model.slot_view() == Some(Ok::<models::Response, FetchError>(model)),
    {
        let db_id = model.post.id;
        Response { db_id, db_model: LazySlot::from_value(model) }
    }

    /// The cursor identifying this node, derived from its id alone.
    pub fn id(&self) -> (r: NodeId)
        ensures
            r == NodeId(SchemaTable::Responses, self.db_id),
    {
        NodeId(SchemaTable::Responses, self.db_id)
    }

    /// Whether the one fetch for this view still has to run.
    pub fn needs_fetch(&self) -> (r: bool)
        ensures
            r == (self.db_model.slot_view() is None),
    {
        !self.db_model.is_filled()
    }

    /// Offers the fetch outcome to the view; a filled view ignores it.
    pub fn fill(&mut self, outcome: Result<models::Response, FetchError>)
        ensures
            final(self).db_id == old(self).db_id,
            final(self).db_model.slot_view() == fill_spec(
                old(self).db_model.slot_view(),
                outcome,
            ),
    {
        self.db_model.fill(outcome)
    }

    /// The response's title, from the memoized record.
    pub fn title(&self) -> (r: Result<&String, &FetchError>)
        requires
            self.db_model.slot_view() is Some,
        ensures
            match self.db_model.slot_view() {
                Some(Ok(m)) => r matches Ok(v) && *v == m.post.title,
                Some(Err(e)) => r matches Err(err) && *err == e,
                None => false,
            },
    {
        match self.db_model.get() {
            Ok(m) => Ok(&m.post.title),
            Err(e) => Err(e),
        }
    }

    /// The response's body, from the memoized record.
    pub fn body(&self) -> (r: Result<&String, &FetchError>)
        requires
            self.db_model.slot_view() is Some,
        ensures
            match self.db_model.slot_view() {
                Some(Ok(m)) => r matches Ok(v) && *v == m.post.body,
                Some(Err(e)) => r matches Err(err) && *err == e,
                None => false,
            },
    {
        match self.db_model.get() {
            Ok(m) => Ok(&m.post.body),
            Err(e) => Err(e),
        }
    }

    /// When the response was created, from the memoized record.
    pub fn created_at(&self) -> (r: Result<i64, &FetchError>)
        requires
            self.db_model.slot_view() is Some,
        ensures
            match self.db_model.slot_view() {
                Some(Ok(m)) => r == Ok::<i64, &FetchError>(m.post.created_at),
                Some(Err(e)) => r matches Err(err) && *err == e,
                None => false,
            },
    {
        match self.db_model.get() {
            Ok(m) => Ok(m.post.created_at),
            Err(e) => Err(e),
        }
    }

    /// When the response was last updated, if ever.
    pub fn updated_at(&self) -> (r: Result<Option<i64>, &FetchError>)
        requires
            self.db_model.slot_view() is Some,
        ensures
            match self.db_model.slot_view() {
                Some(Ok(m)) => r == Ok::<Option<i64>, &FetchError>(m.post.updated_at),
                Some(Err(e)) => r matches Err(err) && *err == e,
                None => false,
            },
    {
        match self.db_model.get() {
            Ok(m) => Ok(m.post.updated_at),
            Err(e) => Err(e),
        }
    }

    /// When the response was deleted, if ever.
    pub fn deleted_at(&self) -> (r: Result<Option<i64>, &FetchError>)
        requires
            self.db_model.slot_view() is Some,
        ensures
            match self.db_model.slot_view() {
                Some(Ok(m)) => r == Ok::<Option<i64>, &FetchError>(m.post.deleted_at),
                Some(Err(e)) => r matches Err(err) && *err == e,
                None => false,
            },
    {
        match self.db_model.get() {
            Ok(m) => Ok(m.post.deleted_at),
            Err(e) => Err(e),
        }
    }

    /// The response's code listing, from the memoized record.
    pub fn code(&self) -> (r: Result<&String, &FetchError>)
        requires
            self.db_model.slot_view() is Some,
        ensures
            match self.db_model.slot_view() {
                Some(Ok(m)) => r matches Ok(v) && *v == m.data.code,
                Some(Err(e)) => r matches Err(err) && *err == e,
                None => false,
            },
    {
        match self.db_model.get() {
            Ok(m) => Ok(&m.data.code),
            Err(e) => Err(e),
        }
    }

    /// The id of the response's author, for a loader lookup.
    pub fn author_id(&self) -> (r: Result<i32, &FetchError>)
        requires
            self.db_model.slot_view() is Some,
        ensures
            match self.db_model.slot_view() {
                Some(Ok(m)) => r == Ok::<i32, &FetchError>(m.post.user_id),
                Some(Err(e)) => r matches Err(err) && *err == e,
                None => false,
            },
    {
        match self.db_model.get() {
            Ok(m) => Ok(m.post.user_id),
            Err(e) => Err(e),
        }
    }

    /// The id of the challenge this response answers, for a loader lookup.
    pub fn challenge_id(&self) -> (r: Result<i32, &FetchError>)
        requires
            self.db_model.slot_view() is Some,
        ensures
            match self.db_model.slot_view() {
                Some(Ok(m)) => r == Ok::<i32, &FetchError>(m.data.challenge_id),
                Some(Err(e)) => r matches Err(err) && *err == e,
                None => false,
            },
    {
        match self.db_model.get() {
            Ok(m) => Ok(m.data.challenge_id),
            Err(e) => Err(e),
        }
    }
}

impl RelayConnectionNode for Response {
    open spec fn cursor_spec(&self) -> NodeId {
        NodeId(SchemaTable::Responses, self.db_id)
    }

    fn cursor(&self) -> (r: NodeId) {
        self.id()
    }

    fn connection_type_name() -> (r: &'static str) {
        "ResponseConnection"
    }

    fn edge_type_name() -> (r: &'static str) {
        "ResponseConnectionEdge"
    }
}

/// A comment node: a stable id plus the deferred comment record.
pub struct Comment {
    pub db_id: i32,
    pub db_model: LazySlot<models::Comment>,
}

impl Comment {
    /// A view over the comment with this id, fetched on first field read.
    pub fn new(db_id: i32) -> (r: Comment)
        ensures
            r.db_id == db_id,
            r.db_model.slot_view() is None,
    {
        Comment { db_id, db_model: LazySlot::new() }
    }

    /// A view over a record already at hand: no fetch will run for it.
    pub fn from_model(model: models::Comment) -> (r: Comment)
        ensures
            r.db_id == model.id,
            r.db_model.slot_view() == Some(Ok::<models::Comment, FetchError>(model)),
    {
        let db_id = model.id;
        Comment { db_id, db_model: LazySlot::from_value(model) }
    }

    /// The cursor identifying this node, derived from its id alone.
    pub fn id(&self) -> (r: NodeId)
        ensures
            r == NodeId(SchemaTable::Comments, self.db_id),
    {
        NodeId(SchemaTable::Comments, self.db_id)
    }

    /// Whether the one fetch for this view still has to run.
    pub fn needs_fetch(&self) -> (r: bool)
        ensures
            r == (self.db_model.slot_view() is None),
    {
        !self.db_model.is_filled()
    }

    /// Offers the fetch outcome to the view; a filled view ignores it.
    pub fn fill(&mut self, outcome: Result<models::Comment, FetchError>)
        ensures
            final(self).db_id == old(self).db_id,
            final(self).db_model.slot_view() == fill_spec(
                old(self).db_model.slot_view(),
                outcome,
            ),
    {
        self.db_model.fill(outcome)
    }

    /// The comment's body, from the memoized record.
    pub fn body(&self) -> (r: Result<&String, &FetchError>)
        requires
            self.db_model.slot_view() is Some,
        ensures
            match self.db_model.slot_view() {
                Some(Ok(m)) => r matches Ok(v) && *v == m.body,
                Some(Err(e)) => r matches Err(err) && *err == e,
                None => false,
            },
    {
        match self.db_model.get() {
            Ok(m) => Ok(&m.body),
            Err(e) => Err(e),
        }
    }

    /// When the comment was created, from the memoized record.
    pub fn created_at(&self) -> (r: Result<i64, &FetchError>)
        requires
            self.db_model.slot_view() is Some,
        ensures
            match self.db_model.slot_view() {
                Some(Ok(m)) => r == Ok::<i64, &FetchError>(m.created_at),
                Some(Err(e)) => r matches Err(err) && *err == e,
                None => false,
            },
    {
        match self.db_model.get() {
            Ok(m) => Ok(m.created_at),
            Err(e) => Err(e),
        }
    }

    /// When the comment was last updated, if ever.
    pub fn updated_at(&self) -> (r: Result<Option<i64>, &FetchError>)
        requires
            self.db_model.slot_view() is Some,
        ensures
            match self.db_model.slot_view() {
                Some(Ok(m)) => r == Ok::<Option<i64>, &FetchError>(m.updated_at),
                Some(Err(e)) => r matches Err(err) && *err == e,
                None => false,
            },
    {
        match self.db_model.get() {
            Ok(m) => Ok(m.updated_at),
            Err(e) => Err(e),
        }
    }

    /// The id of the comment's author, for a loader lookup.
    pub fn author_id(&self) -> (r: Result<i32, &FetchError>)
        requires
            self.db_model.slot_view() is Some,
        ensures
            match self.db_model.slot_view() {
                Some(Ok(m)) => r == Ok::<i32, &FetchError>(m.user_id),
                Some(Err(e)) => r matches Err(err) && *err == e,
                None => false,
            },
    {
        match self.db_model.get() {
            Ok(m) => Ok(m.user_id),
            Err(e) => Err(e),
        }
    }

    /// The id of the post the comment belongs to, for subtype resolution.
    pub fn post_id(&self) -> (r: Result<i32, &FetchError>)
        requires
            self.db_model.slot_view() is Some,
        ensures
            match self.db_model.slot_view() {
                Some(Ok(m)) => r == Ok::<i32, &FetchError>(m.post_id),
                Some(Err(e)) => r matches Err(err) && *err == e,
                None => false,
            },
    {
        match self.db_model.get() {
            Ok(m) => Ok(m.post_id),
            Err(e) => Err(e),
        }
    }
}

impl RelayConnectionNode for Comment {
    open spec fn cursor_spec(&self) -> NodeId {
        NodeId(SchemaTable::Comments, self.db_id)
    }

    fn cursor(&self) -> (r: NodeId) {
        self.id()
    }

    fn connection_type_name() -> (r: &'static str) {
        "CommentConnection"
    }

    fn edge_type_name() -> (r: &'static str) {
        "CommentConnectionEdge"
    }
}

/// One of the two post subtypes, resolved from a bare post id.
pub enum PostValue {
    Challenge(Challenge),
    Response(Response),
}

/// Resolves which subtype a post id denotes, given the outcome of the two
/// point lookups: a challenge lookup takes priority over a response lookup,
/// and a post matching neither is unknown. A found record pre-fills the
/// node's view, so no second fetch runs for it.
pub fn resolve_post(
    post_id: i32,
    challenge: Option<models::Challenge>,
    response: Option<models::Response>,
) -> (r: Result<PostValue, UnknownPostError>)
    ensures
        challenge matches Some(m) ==> (r matches Ok(p) && p matches PostValue::Challenge(c)
            && c.db_id == m.post.id && c.db_model.slot_view() == Some(
            Ok::<models::Challenge, FetchError>(m),
        )),
        challenge is None ==> (response matches Some(m) ==> (r matches Ok(p) && p matches
            PostValue::Response(n) && n.db_id == m.post.id && n.db_model.slot_view() == Some(
            Ok::<models::Response, FetchError>(m),
        ))),
        challenge is None && response is None ==> r == Err::<PostValue, UnknownPostError>(
            UnknownPostError { post_id },
        ),
{
    match challenge {
        Some(m) => Ok(PostValue::Challenge(Challenge::from_model(m))),
        None => match response {
            Some(m) => Ok(PostValue::Response(Response::from_model(m))),
            None => Err(UnknownPostError { post_id }),
        },
    }
}

/// Any node a global lookup can resolve, tagged by its collection.
pub enum NodeValue {
    Challenge(Challenge),
    User(User),
    ChallengeType(ChallengeType),
    Comment(Comment),
    Response(Response),
}

/// The interface every node satisfies: an identity cursor.
pub struct Node {
    pub id: NodeId,
}

/// Wraps a record a global lookup returned as the matching node value, with
/// the node's view pre-filled so no second fetch runs for it.
pub fn node_value_from_model(model: SchemaModel) -> (r: NodeValue)
    ensures
        match model {
            SchemaModel::Challenge(m) => r matches NodeValue::Challenge(c) && c.db_id
                == m.post.id && c.db_model.slot_view() == Some(
                Ok::<models::Challenge, FetchError>(m),
            ),
            SchemaModel::User(m) => r matches NodeValue::User(u) && u.db_id == m.id
                && u.db_model.slot_view() == Some(Ok::<models::User, FetchError>(m)),
            SchemaModel::ChallengeType(m) => r matches NodeValue::ChallengeType(t) && t.id
                == NodeId(SchemaTable::ChallengeTypes, m.id as i32) && t.name == m.name
                && t.description == m.description,
            SchemaModel::Comment(m) => r matches NodeValue::Comment(c) && c.db_id == m.id
                && c.db_model.slot_view() == Some(Ok::<models::Comment, FetchError>(m)),
            SchemaModel::Response(m) => r matches NodeValue::Response(n) && n.db_id
                == m.post.id && n.db_model.slot_view() == Some(
                Ok::<models::Response, FetchError>(m),
            ),
        },
{
    match model {
        SchemaModel::Challenge(m) => NodeValue::Challenge(Challenge::from_model(m)),
        SchemaModel::User(m) => NodeValue::User(User::from_model(m)),
        SchemaModel::ChallengeType(m) => NodeValue::ChallengeType(ChallengeType::from_model(m)),
        SchemaModel::Comment(m) => NodeValue::Comment(Comment::from_model(m)),
        SchemaModel::Response(m) => NodeValue::Response(Response::from_model(m)),
    }
}

} // verus!
