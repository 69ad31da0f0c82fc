//! The top-level query operations the schema layer calls.

use vstd::prelude::*;

use crate::cursor::NodeId;
use crate::errors::FetchError;
use crate::errors::RelayError;
use crate::models;
use crate::models::SchemaTable;
use crate::nodes::Challenge;
use crate::nodes::NodeValue;
use crate::nodes::node_value_from_model;
use crate::relay::RelayConnection;
use crate::relay::build_connection;
use crate::relay::has_next_spec;
use crate::relay::has_prev_spec;
use crate::relay::relay_connection_closure_args;
use crate::relay::sliced;
use crate::repo::DEFAULT_PAGE_LIMIT;
use crate::repo::RangeQuery;
use crate::repo::RowOrder;
use crate::repo::Store;
use crate::repo::find_by_range;
use crate::repo::has_row;
use crate::repo::range_result;

verus! {

/// The root query object of the API.
pub struct Query;

/// The range query a "newest challenges" call issues: exclusive id bounds
/// from the cursors, a fetch limit one past the requested page size (the
/// default page of 25 when none is requested), rows newest first.
pub open spec fn newest_challenges_query(
    first: Option<i32>,
    after: Option<NodeId>,
    before: Option<NodeId>,
) -> RangeQuery {
    RangeQuery {
        after_id: match after {
            Some(n) => n.1,
            None => 0i32,
        },
        before_id: match before {
            Some(n) => n.1,
            None => i32::MAX,
        },
        limit: match first {
            Some(f) => (f + 1) as i64,
            None => DEFAULT_PAGE_LIMIT as i64,
        },
        order: RowOrder::NewestFirst,
    }
}

impl Query {
    /// The API version the server reports.
    pub fn api_version() -> (r: &'static str)
        ensures
            r@ == "0.1"@,
    {
        "0.1"
    }

    /// The global node lookup: resolves a cursor to its node, whatever field
    /// it originated from, dispatching on the decoded collection tag. An id
    /// with no row is an absent result, never a failure; a found row comes
    /// back wrapped as its collection's node with the view pre-filled.
    pub fn node(store: &Store, id: NodeId) -> (r: Option<NodeValue>)
        ensures
            match id.0 {
                SchemaTable::Challenges => (r is Some <==> has_row(store.challenges@, id.1)) && (
                r matches Some(v) ==> v matches NodeValue::Challenge(c) && c.db_id == id.1
                    && (exists|m: models::Challenge|
                    store.challenges@.contains(m) && #[trigger] c.db_model.slot_view() == Some(
                        Ok::<models::Challenge, FetchError>(m),
                    ))),
                SchemaTable::Responses => (r is Some <==> has_row(store.responses@, id.1)) && (
                r matches Some(v) ==> v matches NodeValue::Response(c) && c.db_id == id.1
                    && (exists|m: models::Response|
                    store.responses@.contains(m) && #[trigger] c.db_model.slot_view() == Some(
                        Ok::<models::Response, FetchError>(m),
                    ))),
                SchemaTable::Comments => (r is Some <==> has_row(store.comments@, id.1)) && (
                r matches Some(v) ==> v matches NodeValue::Comment(c) && c.db_id == id.1 && (
                exists|m: models::Comment|
                    store.comments@.contains(m) && #[trigger] c.db_model.slot_view() == Some(
                        Ok::<models::Comment, FetchError>(m),
                    ))),
                SchemaTable::ChallengeTypes => (r is Some <==> has_row(
                    store.challenge_types@,
                    id.1,
                )) && (r matches Some(v) ==> v matches NodeValue::ChallengeType(t) && t.id
                    == NodeId(SchemaTable::ChallengeTypes, id.1)),
                SchemaTable::Users => (r is Some <==> has_row(store.users@, id.1)) && (
                r matches Some(v) ==> v matches NodeValue::User(c) && c.db_id == id.1 && (exists|
                    m: models::User,
                |
                    store.users@.contains(m) && #[trigger] c.db_model.slot_view() == Some(
                        Ok::<models::User, FetchError>(m),
                    ))),
            },
    {
        let table = id.0;
        match table.find(store, id.1) {
            Some(model) => Some(node_value_from_model(model)),
            None => None,
        }
    }

    /// The "newest challenges" page. Negative pagination arguments and
    /// boundary cursors naming any other collection are rejected before any
    /// store access; otherwise the relay arguments become an id-bounded,
    /// newest-first range query with one sentinel row, the candidates are
    /// sliced to the requested page, and each surviving row is wrapped as a
    /// lazy challenge node whose cursor is its post id.
    pub fn newest_challenges(
        store: &Store,
        first: Option<i32>,
        after: Option<NodeId>,
        last: Option<i32>,
        before: Option<NodeId>,
    ) -> (r: Result<RelayConnection<Challenge>, RelayError>)
        requires
            store.challenges@.len() <= i32::MAX as int,
        ensures
            (r is Ok <==> (first matches Some(f) ==> f >= 0) && (last matches Some(l) ==> l
                >= 0) && (after matches Some(n) ==> n.0 == SchemaTable::Challenges) && (
            before matches Some(n) ==> n.0 == SchemaTable::Challenges)),
            r matches Err(e) ==> e == RelayError::InvalidArgument,
            r matches Ok(conn) ==> {
                let rows = range_result(
                    store.challenges@,
                    newest_challenges_query(first, after, before),
                );
                let page = sliced(rows, first, last);
                &&& conn.edges@.len() == page.len()
                &&& forall|j: int|
                    0 <= j < page.len() ==> (#[trigger] conn.edges@[j]).node.db_id
                        == page[j].post.id && conn.edges@[j].node.db_model.slot_view() == Some(
                        Ok::<models::Challenge, FetchError>(page[j]),
                    )
                &&& conn.page_info.has_next_page == has_next_spec(rows.len() as int, first)
                &&& conn.page_info.has_previous_page == has_prev_spec(rows.len() as int, last)
                &&& conn.page_info.start_cursor == (if page.len() == 0 {
                    None::<NodeId>
                } else {
                    Some(NodeId(SchemaTable::Challenges, page[0].post.id))
                })
                &&& conn.page_info.end_cursor == (if page.len() == 0 {
                    None::<NodeId>
                } else {
                    Some(NodeId(SchemaTable::Challenges, page[page.len() - 1].post.id))
                })
            },
    {
        if let Some(f) = first {
            if f < 0 {
                return Err(RelayError::InvalidArgument);
            }
        }
        if let Some(l) = last {
            if l < 0 {
                return Err(RelayError::InvalidArgument);
            }
        }
        if let Some(n) = after {
            if !matches!(n.0, SchemaTable::Challenges) {
                return Err(RelayError::InvalidArgument);
            }
        }
        if let Some(n) = before {
            if !matches!(n.0, SchemaTable::Challenges) {
                return Err(RelayError::InvalidArgument);
            }
        }
        let (after_id, before_id, limit) = relay_connection_closure_args(first, after, before);
        let q = RangeQuery::new(after_id, before_id, limit, RowOrder::NewestFirst);
        proof {
            assert(q == newest_challenges_query(first, after, before));
        }
        let mut rows = find_by_range(&store.challenges, &q);
        let ghost rows_seq = rows@;
        let mut nodes: Vec<Challenge> = Vec::new();
        while rows.len() > 0
            invariant
                nodes@.len() + rows@.len() == rows_seq.len(),
                rows@ == rows_seq.skip(nodes@.len() as int),
                forall|j: int|
                    0 <= j < nodes@.len() ==> (#[trigger] nodes@[j]).db_id == rows_seq[j].post.id
                        && nodes@[j].db_model.slot_view() == Some(
                        Ok::<models::Challenge, FetchError>(rows_seq[j]),
                    ),
            decreases rows@.len(),
        {
            let m = rows.remove(0);
            proof {
                assert(m == rows_seq[nodes@.len() as int]);
                assert(rows@ =~= rows_seq.skip(nodes@.len() as int + 1));
            }
            nodes.push(Challenge::from_model(m));
        }
        let ghost nodes_seq = nodes@;
        let built = build_connection(first, last, nodes)?;
        let (page_info, edges) = built;
        proof {
            let rows_spec = range_result(
                store.challenges@,
                newest_challenges_query(first, after, before),
            );
            assert(rows_seq == rows_spec);
            let page = sliced(rows_spec, first, last);
            let node_page = sliced(nodes_seq, first, last);
            assert(edges@.map_values(|e: crate::relay::RelayEdge<Challenge>| e.node)
                == node_page);
            assert forall|j: int| 0 <= j < page.len() implies (#[trigger] edges@[j]).node.db_id
                == page[j].post.id && edges@[j].node.db_model.slot_view() == Some(
                Ok::<models::Challenge, FetchError>(page[j]),
            ) by {
                assert(edges@.map_values(|e: crate::relay::RelayEdge<Challenge>| e.node)[j]
                    == edges@[j].node);
                assert(node_page[j] == nodes_seq[crate::relay::page_start(
                    nodes_seq.len() as int,
                    first,
                    last,
                ) + j]);
            }
        }
        Ok(RelayConnection::new(edges, page_info))
    }
}

} // verus!
