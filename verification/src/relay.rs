//! Relay-style connection building: argument validation, cursor-bound
//! translation, and the connection slicer.

use vstd::prelude::*;

use crate::cursor::NodeId;
use crate::errors::RelayError;

verus! {

/// To return objects inside a connection, they must implement this trait.
pub trait RelayConnectionNode {
    /// The cursor this node is identified by.
    spec fn cursor_spec(&self) -> NodeId;

    /// Returns the cursor associated with this node.
    fn cursor(&self) -> (r: NodeId)
        ensures
            r == self.cursor_spec(),
    ;

    /// The type name connections over these nodes have in the API.
    fn connection_type_name() -> &'static str;

    /// The type name edges containing these nodes have in the API.
    fn edge_type_name() -> &'static str;
}

/// What an edge exposes: its node, and the node's cursor.
pub trait RelayConnectionEdge<N: RelayConnectionNode> {
    /// The node this edge carries.
    spec fn node_spec(&self) -> N;

    fn node(&self) -> (r: &N)
        ensures
            *r == self.node_spec(),
    ;

    fn cursor(&self) -> (r: NodeId)
        ensures
            r == self.node_spec().cursor_spec(),
    ;
}

/// An edge of a connection: one node, with its cursor derived from it.
pub struct RelayEdge<N> {
    pub node: N,
}

impl<N: RelayConnectionNode> RelayConnectionEdge<N> for RelayEdge<N> {
    open spec fn node_spec(&self) -> N {
        self.node
    }

    fn node(&self) -> (r: &N) {
        &self.node
    }

    fn cursor(&self) -> (r: NodeId) {
        self.node.cursor()
    }
}

/// Page-navigation metadata, recomputed for every query.
#[derive(Clone, Copy, Debug, PartialEq, Eq)]
pub struct RelayConnectionPageInfo {
    pub has_previous_page: bool,
    pub has_next_page: bool,
    pub start_cursor: Option<NodeId>,
    pub end_cursor: Option<NodeId>,
}

/// A connection: the page's edges plus its navigation metadata.
pub struct RelayConnection<N> {
    pub edges: Vec<RelayEdge<N>>,
    pub page_info: RelayConnectionPageInfo,
}

impl<N> RelayConnection<N> {
    /// Assembles a connection from its parts.
    pub fn new(edges: Vec<RelayEdge<N>>, page_info: RelayConnectionPageInfo) -> (r: Self)
        ensures
            r.edges == edges,
            r.page_info == page_info,
    {
        RelayConnection { edges, page_info }
    }
}

/// Validates that a pagination argument is non-negative, as every `first` or
/// `last` argument must be.
pub fn check_ge_zero(val: i32) -> (r: Result<i32, RelayError>)
    ensures
        val >= 0 ==> r == Ok::<i32, RelayError>(val),
        val < 0 ==> r == Err::<i32, RelayError>(RelayError::InvalidArgument),
{
    if val < 0 {
        Err(RelayError::InvalidArgument)
    } else {
        Ok(val)
    }
}

/// Translates relay arguments into store-level range arguments: `after` and
/// `before` become exclusive id bounds, and `first` becomes a fetch limit one
/// past the page size, so that the extra row signals a further page.
pub fn relay_connection_closure_args(
    first: Option<i32>,
    after: Option<NodeId>,
    before: Option<NodeId>,
) -> (r: (Option<i32>, Option<i32>, Option<i64>))
    ensures
        (match after {
            Some(n) => r.0 == Some(n.1),
            None => r.0 is None,
        }),
        (match before {
            Some(n) => r.1 == Some(n.1),
            None => r.1 is None,
        }),
        (match first {
            Some(f) => r.2 == Some((f + 1) as i64),
            None => r.2 is None,
        }),
{
    let after_id: Option<i32> = match after {
        Some(n) => Some(n.1),
        None => None,
    };
    let before_id: Option<i32> = match before {
        Some(n) => Some(n.1),
        None => None,
    };
    let limit: Option<i64> = match first {
        Some(f) => Some((f as i64) + 1),
        None => None,
    };
    (after_id, before_id, limit)
}

/// Where the page window ends: at `first` when given and smaller, else at the
/// end of the candidates.
pub open spec fn page_end(len: int, first: Option<i32>) -> int {
    match first {
        Some(f) => if (f as int) < len {
            f as int
        } else {
            len
        },
        None => len,
    }
}

/// Where the page window starts: far enough in that at most `last` of the
/// first-limited nodes remain.
pub open spec fn page_start(len: int, first: Option<i32>, last: Option<i32>) -> int {
    let end = page_end(len, first);
    match last {
        Some(l) => if end - (l as int) > 0 {
            end - (l as int)
        } else {
            0
        },
        None => 0,
    }
}

/// The page a slicer call keeps: take the first `first` nodes, then keep the
/// trailing `last` of those.
pub open spec fn sliced<T>(nodes: Seq<T>, first: Option<i32>, last: Option<i32>) -> Seq<T> {
    nodes.subrange(
        page_start(nodes.len() as int, first, last),
        page_end(nodes.len() as int, first),
    )
}

/// A further page exists exactly when `first` was given and more candidates
/// than `first` came back.
pub open spec fn has_next_spec(len: int, first: Option<i32>) -> bool {
    match first {
        Some(f) => len > f as int,
        None => false,
    }
}

/// A previous page exists exactly when `last` was given and more candidates
/// than `last` came back.
pub open spec fn has_prev_spec(len: int, last: Option<i32>) -> bool {
    match last {
        Some(l) => len > l as int,
        None => false,
    }
}

/// Slices an ordered, already range-filtered candidate list down to the
/// requested page and derives the page metadata.
///
/// Fails exactly when a given `first` or `last` is negative; no store access
/// happens in that case. On success the edges are the window
/// `[page_start, page_end)` of the candidates in their input order, and the
/// boundary cursors are the first and last edge's cursors.
pub fn build_connection<N: RelayConnectionNode>(
    first: Option<i32>,
    last: Option<i32>,
    nodes: Vec<N>,
) -> (r: Result<(RelayConnectionPageInfo, Vec<RelayEdge<N>>), RelayError>)
    requires
        nodes@.len() <= i32::MAX as int,
    ensures
        (r is Ok <==> (first matches Some(f) ==> f >= 0) && (last matches Some(l) ==> l >= 0)),
        r matches Err(e) ==> e == RelayError::InvalidArgument,
        r matches Ok(p) ==> {
            &&& p.1@.len() == sliced(nodes@, first, last).len()
            &&& p.1@.map_values(|e: RelayEdge<N>| e.node) == sliced(nodes@, first, last)
            &&& p.0.has_next_page == has_next_spec(nodes@.len() as int, first)
            &&& p.0.has_previous_page == has_prev_spec(nodes@.len() as int, last)
            &&& p.0.start_cursor == (if p.1@.len() == 0 {
                None::<NodeId>
            } else {
                Some(p.1@[0].node.cursor_spec())
            })
            &&& p.0.end_cursor == (if p.1@.len() == 0 {
                None::<NodeId>
            } else {
                Some(p.1@[p.1@.len() - 1].node.cursor_spec())
            })
        },
{
    let ghost orig = nodes@;
    let mut nodes = nodes;
    let edges_len: i32 = nodes.len() as i32;

    let first_checked: Option<i32> = match first {
        Some(f) => Some(check_ge_zero(f)?),
        None => None,
    };
    let last_checked: Option<i32> = match last {
        Some(l) => Some(check_ge_zero(l)?),
        None => None,
    };

    let has_previous_page: bool = match last_checked {
        Some(l) => edges_len > l,
        None => false,
    };
    let has_next_page: bool = match first_checked {
        Some(f) => edges_len > f,
        None => false,
    };

    let first_eff: i32 = match first_checked {
        Some(f) => f,
        None => edges_len,
    };
    let last_eff: i32 = match last_checked {
        Some(l) => l,
        None => edges_len,
    };

    let end: i32 = if edges_len < first_eff {
        edges_len
    } else {
        first_eff
    };
    let skip: i32 = if end - last_eff > 0 {
        end - last_eff
    } else {
        0
    };
    proof {
        assert(end as int == page_end(orig.len() as int, first));
        assert(skip as int == page_start(orig.len() as int, first, last));
    }

    let end_u: usize = end as usize;
    let skip_u: usize = skip as usize;

    let mut dropped: usize = 0;
    while dropped < skip_u
        invariant
            dropped <= skip_u,
            skip_u <= end_u <= orig.len(),
            nodes@ == orig.skip(dropped as int),
        decreases skip_u - dropped,
    {
        let _discarded = nodes.remove(0);
        dropped = dropped + 1;
        proof {
            assert(nodes@ =~= orig.skip(dropped as int));
        }
    }

    let mut edges: Vec<RelayEdge<N>> = Vec::new();
    let mut taken: usize = 0;
    while taken < end_u - skip_u
        invariant
            taken <= end_u - skip_u,
            skip_u <= end_u <= orig.len(),
            nodes@ == orig.skip((skip_u + taken) as int),
            edges@.len() == taken,
            forall|x: int| 0 <= x < taken ==> #[trigger] edges@[x].node == orig[skip_u + x],
        decreases end_u - skip_u - taken,
    {
        let n = nodes.remove(0);
        edges.push(RelayEdge { node: n });
        taken = taken + 1;
        proof {
            assert(nodes@ =~= orig.skip((skip_u + taken) as int));
        }
    }
    proof {
        assert(edges@.map_values(|e: RelayEdge<N>| e.node) =~= sliced(orig, first, last));
    }

    let start_cursor: Option<NodeId> = if edges.len() == 0 {
        None
    } else {
        Some(edges.get(0).unwrap().node.cursor())
    };
    let end_cursor: Option<NodeId> = if edges.len() == 0 {
        None
    } else {
        Some(edges.get(edges.len() - 1).unwrap().node.cursor())
    };

    Ok((
        RelayConnectionPageInfo {
            has_previous_page,
            has_next_page,
            start_cursor,
            end_cursor,
        },
        edges,
    ))
}

/// Slicing is idempotent: feeding a sliced page back through the slicer with
/// the same `first` and `last` returns the page unchanged, so the edge list
/// and its boundary cursors are stable.
pub proof fn lemma_slice_idempotent<T>(nodes: Seq<T>, first: Option<i32>, last: Option<i32>)
    requires
        first matches Some(f) ==> f >= 0,
        last matches Some(l) ==> l >= 0,
    ensures
        sliced(sliced(nodes, first, last), first, last) == sliced(nodes, first, last),
{
    let s1 = sliced(nodes, first, last);
    let len = nodes.len() as int;
    assert(s1.len() == page_end(len, first) - page_start(len, first, last));
    assert(page_end(s1.len() as int, first) == s1.len() as int);
    assert(page_start(s1.len() as int, first, last) == 0);
    assert(sliced(s1, first, last) =~= s1);
}

/// A `first` of zero keeps nothing, while a further page exists exactly when
/// any candidates existed; without `last`, no previous page is reported.
pub proof fn lemma_first_zero<T>(nodes: Seq<T>)
    ensures
        sliced(nodes, Some(0i32), None::<i32>) == Seq::<T>::empty(),
        has_next_spec(nodes.len() as int, Some(0i32)) == (nodes.len() > 0),
        !has_prev_spec(nodes.len() as int, None::<i32>),
{
    assert(sliced(nodes, Some(0i32), None::<i32>) =~= Seq::<T>::empty());
}

} // verus!
