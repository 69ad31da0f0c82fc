//! Repository query shapes, and their meaning over an in-memory store.
//!
//! The persistence store is an external collaborator: what the library pins
//! down is the shape of each query — exclusive id bounds with their defaults,
//! the fetch limit, the order — and exactly which rows a conforming answer
//! holds. The functions here give those shapes their executable meaning over
//! in-memory row lists; the transport layer translates the same shapes to the
//! store's own query language.

use vstd::prelude::*;

use crate::models;
use crate::models::SchemaModel;
use crate::models::SchemaTable;

verus! {

/// The fetch limit used when no page size is requested.
pub const DEFAULT_PAGE_LIMIT: i64 = 25;

/// The order rows come back in: ascending id, or newest first.
///
/// Cursors bound ranges by id even for the newest-first order, so pages are
/// positionally consistent only because ids are assigned monotonically with
/// creation time; under that invariant, newest first coincides with
/// descending id. See [`Store::wf`].
#[derive(Clone, Copy, Debug, PartialEq, Eq, Structural)]
pub enum RowOrder {
    IdAscending,
    NewestFirst,
}

/// A range query over one collection: exclusive id bounds, a row limit, and
/// the row order.
#[derive(Clone, Copy, Debug, PartialEq, Eq, Structural)]
pub struct RangeQuery {
    pub after_id: i32,
    pub before_id: i32,
    pub limit: i64,
    pub order: RowOrder,
}

impl RangeQuery {
    /// Builds a range query from optional cursor bounds and fetch limit,
    /// applying the defaults: the domain minimum, the domain maximum, and a
    /// page of 25 rows.
    pub fn new(
        after: Option<i32>,
        before: Option<i32>,
        limit: Option<i64>,
        order: RowOrder,
    ) -> (r: RangeQuery)
        ensures
            r.after_id == (match after {
                Some(a) => a,
                None => 0i32,
            }),
            r.before_id == (match before {
                Some(b) => b,
                None => i32::MAX,
            }),
            r.limit == (match limit {
                Some(l) => l,
                None => DEFAULT_PAGE_LIMIT as i64,
            }),
            r.order == order,
    {
        RangeQuery {
            after_id: match after {
                Some(a) => a,
                None => 0,
            },
            before_id: match before {
                Some(b) => b,
                None => i32::MAX,
            },
            limit: match limit {
                Some(l) => l,
                None => DEFAULT_PAGE_LIMIT,
            },
            order,
        }
    }
}

/// Whether a row id falls inside a query's exclusive bounds.
pub open spec fn in_range(q: RangeQuery, id: i32) -> bool {
    q.after_id < id && id < q.before_id
}

/// A row of some collection, keyed by the id its cursor carries.
pub trait StoreRecord: Sized {
    /// The id this row is keyed by.
    spec fn rid_spec(&self) -> i32;

    /// Returns the id this row is keyed by.
    fn rid(&self) -> (r: i32)
        ensures
            r == self.rid_spec(),
    ;

    /// Returns an exact copy of the row.
    fn duplicate(&self) -> (r: Self)
        ensures
            r == *self,
    ;
}

impl StoreRecord for models::User {
    open spec fn rid_spec(&self) -> i32 {
        self.id
    }

    fn rid(&self) -> (r: i32) {
        self.id
    }

    fn duplicate(&self) -> (r: Self) {
        self.clone()
    }
}

impl StoreRecord for models::Post {
    open spec fn rid_spec(&self) -> i32 {
        self.id
    }

    fn rid(&self) -> (r: i32) {
        self.id
    }

    fn duplicate(&self) -> (r: Self) {
        self.clone()
    }
}

impl StoreRecord for models::Challenge {
    open spec fn rid_spec(&self) -> i32 {
        self.post.id
    }

    fn rid(&self) -> (r: i32) {
        self.post.id
    }

    fn duplicate(&self) -> (r: Self) {
        self.clone()
    }
}

impl StoreRecord for models::Response {
    open spec fn rid_spec(&self) -> i32 {
        self.post.id
    }

    fn rid(&self) -> (r: i32) {
        self.post.id
    }

    fn duplicate(&self) -> (r: Self) {
        self.clone()
    }
}

impl StoreRecord for models::Comment {
    open spec fn rid_spec(&self) -> i32 {
        self.id
    }

    fn rid(&self) -> (r: i32) {
        self.id
    }

    fn duplicate(&self) -> (r: Self) {
        self.clone()
    }
}

impl StoreRecord for models::ChallengeType {
    open spec fn rid_spec(&self) -> i32 {
        self.id as i32
    }

    fn rid(&self) -> (r: i32) {
        self.id as i32
    }

    fn duplicate(&self) -> (r: Self) {
        self.clone()
    }
}

/// Whether some row of the list is keyed by `id`.
pub open spec fn has_row<R: StoreRecord>(rows: Seq<R>, id: i32) -> bool {
    exists|j: int| 0 <= j < rows.len() && (#[trigger] rows[j]).rid_spec() == id
}

/// A point lookup: the first row keyed by `id`, if any.
pub fn find_by_id<R: StoreRecord>(rows: &Vec<R>, id: i32) -> (r: Option<&R>)
    ensures
        (r is Some <==> has_row(rows@, id)),
        r matches Some(x) ==> x.rid_spec() == id && rows@.contains(*x),
{
    let mut j: usize = 0;
    while j < rows.len()
        invariant
            j <= rows@.len(),
            forall|x: int| 0 <= x < j ==> (#[trigger] rows@[x]).rid_spec() != id,
        decreases rows@.len() - j,
    {
        let row = rows.get(j).unwrap();
        if row.rid() == id {
            return Some(row);
        }
        j = j + 1;
    }
    None
}

/// An id-set lookup: for every row whose id the set holds, the pair of that
/// id and the row, in row order. Ids absent from the store are simply absent
/// from the answer, never an error.
pub fn find_by_id_set<R: StoreRecord>(rows: &Vec<R>, ids: &Vec<i32>) -> (r: Vec<(i32, R)>)
    ensures
        r@.map_values(|p: (i32, R)| p.1) == rows@.filter(
            |x: R| ids@.contains(x.rid_spec()),
        ),
        forall|j: int| 0 <= j < r@.len() ==> (#[trigger] r@[j]).0 == r@[j].1.rid_spec(),
{
    let ghost pred = |x: R| ids@.contains(x.rid_spec());
    let mut out: Vec<(i32, R)> = Vec::new();
    proof {
        reveal(Seq::filter);
        assert(rows@.take(0).filter(pred) =~= Seq::<R>::empty());
    }
    let mut j: usize = 0;
    while j < rows.len()
        invariant
            j <= rows@.len(),
            out@.map_values(|p: (i32, R)| p.1) == rows@.take(j as int).filter(pred),
            forall|x: int| 0 <= x < out@.len() ==> (#[trigger] out@[x]).0 == out@[x].1.rid_spec(),
            pred == (|x: R| ids@.contains(x.rid_spec())),
        decreases rows@.len() - j,
    {
        let row = rows.get(j).unwrap();
        proof {
            reveal(Seq::filter);
            assert(rows@.take(j as int + 1).drop_last() =~= rows@.take(j as int));
            assert(rows@.take(j as int + 1).last() == rows@[j as int]);
        }
        if contains_key(ids, row.rid()) {
            out.push((row.rid(), row.duplicate()));
            proof {
                reveal(Seq::filter);
                assert(out@.map_values(|p: (i32, R)| p.1) =~= rows@.take(j as int + 1).filter(
                    pred,
                ));
            }
        } else {
            proof {
                reveal(Seq::filter);
                assert(out@.map_values(|p: (i32, R)| p.1) =~= rows@.take(j as int + 1).filter(
                    pred,
                ));
            }
        }
        j = j + 1;
    }
    proof {
        assert(rows@.take(rows@.len() as int) =~= rows@);
    }
    out
}

/// The rows a conforming store returns for a range query: the in-range rows
/// in the requested order, cut off at the limit. The extra sentinel row a
/// caller asked for (limit one past the page size) is part of this answer;
/// trimming it is the slicer's business.
pub open spec fn range_result<R: StoreRecord>(rows: Seq<R>, q: RangeQuery) -> Seq<R> {
    let matched = rows.filter(|x: R| in_range(q, x.rid_spec()));
    let ordered = match q.order {
        RowOrder::IdAscending => matched,
        RowOrder::NewestFirst => matched.reverse(),
    };
    ordered.take(
        if q.limit < ordered.len() {
            q.limit as int
        } else {
            ordered.len() as int
        },
    )
}

/// A range lookup over rows kept in ascending id order: the in-range rows in
/// the query's order, at most `limit` of them.
pub fn find_by_range<R: StoreRecord>(rows: &Vec<R>, q: &RangeQuery) -> (r: Vec<R>)
    requires
        q.limit >= 0,
    ensures
        r@ == range_result(rows@, *q),
        r@.len() <= rows@.len(),
{
    let ghost pred = |x: R| in_range(*q, x.rid_spec());
    let mut matched: Vec<R> = Vec::new();
    proof {
        reveal(Seq::filter);
        assert(rows@.take(0).filter(pred) =~= Seq::<R>::empty());
    }
    let mut j: usize = 0;
    while j < rows.len()
        invariant
            j <= rows@.len(),
            matched@.len() <= j,
            matched@ == rows@.take(j as int).filter(pred),
            pred == (|x: R| in_range(*q, x.rid_spec())),
        decreases rows@.len() - j,
    {
        let row = rows.get(j).unwrap();
        proof {
            reveal(Seq::filter);
            assert(rows@.take(j as int + 1).drop_last() =~= rows@.take(j as int));
            assert(rows@.take(j as int + 1).last() == rows@[j as int]);
        }
        let rid = row.rid();
        if q.after_id < rid && rid < q.before_id {
            matched.push(row.duplicate());
        }
        proof {
            reveal(Seq::filter);
            assert(matched@ =~= rows@.take(j as int + 1).filter(pred));
        }
        j = j + 1;
    }
    proof {
        assert(rows@.take(rows@.len() as int) =~= rows@);
    }
    let ghost full = rows@.filter(pred);
    proof {
        assert(full.take(full.len() as int) =~= full);
    }
    match q.order {
        RowOrder::IdAscending => {
            while (matched.len() as u64) > (q.limit as u64)
                invariant
                    q.limit >= 0,
                    full.len() <= rows@.len(),
                    matched@.len() <= full.len(),
                    matched@ == full.take(matched@.len() as int),
                    matched@.len() >= q.limit || matched@.len() == full.len(),
                decreases matched@.len(),
            {
                let _discarded = matched.pop();
                proof {
                    assert(full.take(matched@.len() as int + 1).drop_last() =~= full.take(
                        matched@.len() as int,
                    ));
                }
            }
            proof {
                assert(matched@ =~= range_result(rows@, *q));
            }
            matched
        },
        RowOrder::NewestFirst => {
            let mut out: Vec<R> = Vec::new();
            while matched.len() > 0 && (out.len() as u64) < (q.limit as u64)
                invariant
                    q.limit >= 0,
                    full.len() <= rows@.len(),
                    matched@.len() <= full.len(),
                    matched@ == full.take(matched@.len() as int),
                    out@.len() + matched@.len() == full.len(),
                    out@.len() <= q.limit,
                    forall|x: int|
                        0 <= x < out@.len() ==> #[trigger] out@[x] == full[full.len() - 1 - x],
                decreases matched@.len(),
            {
                let item = matched.pop().unwrap();
                proof {
                    assert(full.take(matched@.len() as int + 1).drop_last() =~= full.take(
                        matched@.len() as int,
                    ));
                    assert(item == full[matched@.len() as int]);
                }
                out.push(item);
            }
            proof {
                assert(out@ =~= range_result(rows@, *q));
            }
            out
        },
    }
}

/// Whether a buffered id list holds `id`.
fn contains_key(v: &Vec<i32>, id: i32) -> (r: bool)
    ensures
        r == v@.contains(id),
{
    let mut j: usize = 0;
    while j < v.len()
        invariant
            j <= v@.len(),
            forall|x: int| 0 <= x < j ==> v@[x] != id,
        decreases v@.len() - j,
    {
        if *v.get(j).unwrap() == id {
            return true;
        }
        j = j + 1;
    }
    false
}

/// An in-memory image of the persistence store: each collection's rows in
/// ascending id order.
pub struct Store {
    pub users: Vec<models::User>,
    pub posts: Vec<models::Post>,
    pub challenges: Vec<models::Challenge>,
    pub responses: Vec<models::Response>,
    pub comments: Vec<models::Comment>,
    pub challenge_types: Vec<models::ChallengeType>,
}

/// Row ids are unique and ascending in row order.
pub open spec fn rows_ordered<R: StoreRecord>(rows: Seq<R>) -> bool {
    forall|x: int, y: int|
        0 <= x < y < rows.len() ==> (#[trigger] rows[x]).rid_spec() < (
        #[trigger] rows[y]).rid_spec()
}

impl Store {
    /// Every collection keeps its rows in ascending id order, and ids are
    /// assigned monotonically with creation time: a row created later never
    /// has a smaller id. This is the invariant that makes id-bounded cursors
    /// positionally consistent with the newest-first display order.
    pub open spec fn wf(&self) -> bool {
        &&& rows_ordered(self.users@)
        &&& rows_ordered(self.posts@)
        &&& rows_ordered(self.challenges@)
        &&& rows_ordered(self.responses@)
        &&& rows_ordered(self.comments@)
        &&& rows_ordered(self.challenge_types@)
        &&& forall|x: int, y: int|
            0 <= x < y < self.challenges@.len() ==> (#[trigger] self.challenges@[x]).post.created_at
                <= (#[trigger] self.challenges@[y]).post.created_at
    }

    /// An empty store.
    pub fn new() -> (r: Store)
        ensures
            r.wf(),
            r.users@.len() == 0 && r.posts@.len() == 0 && r.challenges@.len() == 0
                && r.responses@.len() == 0 && r.comments@.len() == 0 && r.challenge_types@.len()
                == 0,
    {
        Store {
            users: Vec::new(),
            posts: Vec::new(),
            challenges: Vec::new(),
            responses: Vec::new(),
            comments: Vec::new(),
            challenge_types: Vec::new(),
        }
    }
}

impl SchemaTable {
    /// Resolves a primary key against the collection this table names,
    /// wrapping the found row; an absent key is an absent result, never an
    /// error. Challenge-type ids are compared through their stored width, so
    /// a key outside that width finds nothing rather than a wrong row.
    pub fn find(&self, store: &Store, primary_key: i32) -> (r: Option<SchemaModel>)
        ensures
            match *self {
                SchemaTable::Challenges => (r is Some <==> has_row(
                    store.challenges@,
                    primary_key,
                )) && (r matches Some(m) ==> m matches SchemaModel::Challenge(c) && c.post.id
                    == primary_key && store.challenges@.contains(c)),
                SchemaTable::Responses => (r is Some <==> has_row(
                    store.responses@,
                    primary_key,
                )) && (r matches Some(m) ==> m matches SchemaModel::Response(c) && c.post.id
                    == primary_key && store.responses@.contains(c)),
                SchemaTable::Comments => (r is Some <==> has_row(
                    store.comments@,
                    primary_key,
                )) && (r matches Some(m) ==> m matches SchemaModel::Comment(c) && c.id
                    == primary_key && store.comments@.contains(c)),
                SchemaTable::ChallengeTypes => (r is Some <==> has_row(
                    store.challenge_types@,
                    primary_key,
                )) && (r matches Some(m) ==> m matches SchemaModel::ChallengeType(c) && c.id as i32
                    == primary_key && store.challenge_types@.contains(c)),
                SchemaTable::Users => (r is Some <==> has_row(store.users@, primary_key)) && (
                r matches Some(m) ==> m matches SchemaModel::User(c) && c.id == primary_key
                    && store.users@.contains(c)),
            },
    {
        match self {
            SchemaTable::Challenges => match find_by_id(&store.challenges, primary_key) {
                Some(row) => Some(SchemaModel::Challenge(row.duplicate())),
                None => None,
            },
            SchemaTable::Responses => match find_by_id(&store.responses, primary_key) {
                Some(row) => Some(SchemaModel::Response(row.duplicate())),
                None => None,
            },
            SchemaTable::Comments => match find_by_id(&store.comments, primary_key) {
                Some(row) => Some(SchemaModel::Comment(row.duplicate())),
                None => None,
            },
            SchemaTable::ChallengeTypes => match find_by_id(&store.challenge_types, primary_key) {
                Some(row) => Some(SchemaModel::ChallengeType(row.duplicate())),
                None => None,
            },
            SchemaTable::Users => match find_by_id(&store.users, primary_key) {
                Some(row) => Some(SchemaModel::User(row.duplicate())),
                None => None,
            },
        }
    }
}

} // verus!
