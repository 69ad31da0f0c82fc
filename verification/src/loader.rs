//! The per-request batched, memoizing loader.
//!
//! One cache exists per entity type per request. Point lookups issued while
//! no fetch is in flight buffer into a pending batch; the batch is handed to
//! the store as one id-set fetch, and its outcome fills the cache: one entry
//! per id, filled at most once for the life of the request. A failed bulk
//! fetch fills every id of the batch with the same shared failure.

use vstd::prelude::*;

use std::collections::HashMap;

use crate::errors::FetchError;
use crate::models::Challenge;
use crate::models::ChallengeType;
use crate::models::Comment;
use crate::models::Post;
use crate::models::Response;
use crate::models::User;

verus! {

broadcast use vstd::std_specs::hash::group_hash_axioms;

/// The resolved outcome a cache holds for one id.
#[derive(Debug, PartialEq)]
pub enum CacheEntry<V> {
    /// The store returned a record for this id.
    Found(V),
    /// The store's answer did not mention this id.
    NotFound,
    /// The whole batch containing this id failed; the error is shared by
    /// every id of that batch.
    Failed(FetchError),
}

/// How a pending set grows on a lookup: an id already resolved or already
/// buffered joins no new batch.
pub open spec fn enqueue_spec<V>(
    cache: Map<i32, CacheEntry<V>>,
    pending: Seq<i32>,
    id: i32,
) -> Seq<i32> {
    if cache.contains_key(id) || pending.contains(id) {
        pending
    } else {
        pending.push(id)
    }
}

/// The record the first row carrying `id` holds, if any.
pub open spec fn row_lookup<V>(rows: Seq<(i32, V)>, id: i32) -> Option<V>
    decreases rows.len(),
{
    if rows.len() == 0 {
        None
    } else if rows.first().0 == id {
        Some(rows.first().1)
    } else {
        row_lookup(rows.drop_first(), id)
    }
}

/// What a successful bulk fetch resolves one id to: its record where one came
/// back, not-found where the answer omits the id.
pub open spec fn resolved_entry<V>(rows: Seq<(i32, V)>, id: i32) -> CacheEntry<V> {
    match row_lookup(rows, id) {
        Some(v) => CacheEntry::Found(v),
        None => CacheEntry::NotFound,
    }
}

/// What one batch outcome resolves one id to: a per-id entry on success, the
/// one shared failure on a failed fetch.
pub open spec fn batch_entry<V>(
    fetched: Result<Vec<(i32, V)>, FetchError>,
    id: i32,
) -> CacheEntry<V> {
    match fetched {
        Ok(rows) => resolved_entry(rows@, id),
        Err(e) => CacheEntry::Failed(e),
    }
}

/// Requesting the same id again while it is already buffered adds nothing:
/// concurrent lookups of one id coalesce into a single batch member.
pub proof fn lemma_duplicate_requests_coalesce<V>(
    cache: Map<i32, CacheEntry<V>>,
    pending: Seq<i32>,
    id: i32,
)
    ensures
        enqueue_spec(cache, enqueue_spec(cache, pending, id), id) == enqueue_spec(
            cache,
            pending,
            id,
        ),
{
    if !cache.contains_key(id) && !pending.contains(id) {
        assert(enqueue_spec(cache, pending, id).contains(id)) by {
            assert(enqueue_spec(cache, pending, id)[pending.len() as int] == id);
        }
    }
}

/// When the bulk fetch fails, every id of the batch resolves to the same
/// failure: each pending caller observes one shared outcome.
pub proof fn lemma_failed_batch_shared<V>(
    fetched: Result<Vec<(i32, V)>, FetchError>,
    id1: i32,
    id2: i32,
)
    requires
        fetched is Err,
    ensures
        batch_entry(fetched, id1) == batch_entry(fetched, id2),
{
}

/// A request-scoped cache for one entity type: resolved entries keyed by id,
/// plus the ids buffered for the next batch.
pub struct BatchCache<V> {
    cache: HashMap<i32, CacheEntry<V>>,
    pending: Vec<i32>,
}

impl<V> BatchCache<V> {
    /// The resolved entries, by id.
    pub closed spec fn cache_view(&self) -> Map<i32, CacheEntry<V>> {
        self.cache@
    }

    /// The ids buffered for the next batch, in arrival order.
    pub closed spec fn pending_view(&self) -> Seq<i32> {
        self.pending@
    }

    /// The buffered ids are distinct and none of them is resolved already.
    pub open spec fn wf(&self) -> bool {
        &&& forall|x: int, y: int|
            0 <= x < y < self.pending_view().len() ==> self.pending_view()[x]
                != self.pending_view()[y]
        &&& forall|x: int|
            0 <= x < self.pending_view().len() ==> !self.cache_view().contains_key(
                #[trigger] self.pending_view()[x],
            )
    }

    /// A fresh cache, constructed at request start: nothing resolved, nothing
    /// buffered.
    pub fn new() -> (r: Self)
        ensures
            r.wf(),
            r.cache_view() == Map::<i32, CacheEntry<V>>::empty(),
            r.pending_view() == Seq::<i32>::empty(),
    {
        BatchCache { cache: HashMap::new(), pending: Vec::new() }
    }

    /// The resolved entry for an id whose batch already resolved: answered
    /// from the cache alone, with no new fetch and no new batch membership.
    pub fn load_cached(&self, id: i32) -> (r: Option<&CacheEntry<V>>)
        ensures
            match r {
                Some(e) => self.cache_view().contains_key(id) && *e == self.cache_view()[id],
                None => !self.cache_view().contains_key(id),
            },
    {
        self.cache.get(&id)
    }

    /// Buffers a point lookup for the next batch. An id already resolved, or
    /// already buffered by a sibling lookup, joins no new batch: however many
    /// callers request one id in a tick, it occupies one batch slot.
    pub fn request(&mut self, id: i32)
        requires
            old(self).wf(),
        ensures
            final(self).wf(),
            final(self).cache_view() == old(self).cache_view(),
            final(self).pending_view() == enqueue_spec(
                old(self).cache_view(),
                old(self).pending_view(),
                id,
            ),
    {
        if !self.cache.contains_key(&id) && !contains_id(&self.pending, id) {
            self.pending.push(id);
            proof {
                assert(self.pending_view() == old(self).pending_view().push(id));
                assert forall|x: int, y: int|
                    0 <= x < y < self.pending_view().len() implies self.pending_view()[x]
                    != self.pending_view()[y] by {
                    if y < old(self).pending_view().len() {
                    } else {
                        assert(self.pending_view()[y] == id);
                        assert(!old(self).pending_view().contains(id));
                    }
                }
            }
        }
    }

    /// Whether an id is buffered for the next batch.
    pub fn is_pending(&self, id: i32) -> (r: bool)
        ensures
            r == self.pending_view().contains(id),
    {
        contains_id(&self.pending, id)
    }

    /// Takes the buffered batch, leaving the buffer empty: the deduplicated
    /// key set one bulk fetch is issued for.
    pub fn take_batch(&mut self) -> (r: Vec<i32>)
        requires
            old(self).wf(),
        ensures
            final(self).wf(),
            final(self).cache_view() == old(self).cache_view(),
            final(self).pending_view() == Seq::<i32>::empty(),
            r@ == old(self).pending_view(),
            forall|x: int, y: int| 0 <= x < y < r@.len() ==> r@[x] != r@[y],
            forall|x: int|
                0 <= x < r@.len() ==> !final(self).cache_view().contains_key(#[trigger] r@[x]),
    {
        let mut out: Vec<i32> = Vec::new();
        core::mem::swap(&mut self.pending, &mut out);
        out
    }

    /// Resolves one batch: every key of the batch gets its entry from the
    /// fetch outcome, exactly once, and nothing already resolved changes.
    /// On a failed fetch every key gets the same shared failure.
    pub fn resolve_batch(&mut self, keys: &Vec<i32>, fetched: Result<Vec<(i32, V)>, FetchError>)
        requires
            old(self).wf(),
            forall|x: int, y: int| 0 <= x < y < keys@.len() ==> keys@[x] != keys@[y],
            forall|x: int|
                0 <= x < keys@.len() ==> !old(self).cache_view().contains_key(
                    #[trigger] keys@[x],
                ),
            forall|x: int|
                0 <= x < old(self).pending_view().len() ==> !keys@.contains(
                    #[trigger] old(self).pending_view()[x],
                ),
        ensures
            final(self).wf(),
            final(self).pending_view() == old(self).pending_view(),
            forall|k: i32|
                keys@.contains(k) ==> final(self).cache_view().contains_key(k) && final(self).cache_view()[k] == batch_entry(fetched, k),
            forall|k: i32|
                !keys@.contains(k) ==> final(self).cache_view().contains_key(k) == old(self).cache_view().contains_key(k) && (old(self).cache_view().contains_key(k)
                    ==> final(self).cache_view()[k] == old(self).cache_view()[k]),
    {
        match fetched {
            Ok(rows) => self.resolve_batch_rows(keys, rows),
            Err(e) => self.resolve_batch_failed(keys, e),
        }
    }

    /// Fills the batch's entries from the rows a successful fetch returned.
    fn resolve_batch_rows(&mut self, keys: &Vec<i32>, rows: Vec<(i32, V)>)
        requires
            old(self).wf(),
            forall|x: int, y: int| 0 <= x < y < keys@.len() ==> keys@[x] != keys@[y],
            forall|x: int|
                0 <= x < keys@.len() ==> !old(self).cache_view().contains_key(
                    #[trigger] keys@[x],
                ),
            forall|x: int|
                0 <= x < old(self).pending_view().len() ==> !keys@.contains(
                    #[trigger] old(self).pending_view()[x],
                ),
        ensures
            final(self).wf(),
            final(self).pending_view() == old(self).pending_view(),
            forall|k: i32|
                keys@.contains(k) ==> final(self).cache_view().contains_key(k) && final(self).cache_view()[k] == resolved_entry(rows@, k),
            forall|k: i32|
                !keys@.contains(k) ==> final(self).cache_view().contains_key(k) == old(self).cache_view().contains_key(k) && (old(self).cache_view().contains_key(k)
                    ==> final(self).cache_view()[k] == old(self).cache_view()[k]),
    {
        let ghost rows_orig = rows@;
        let mut rows = rows;
        let ghost mut done: int = 0;
        while rows.len() > 0
            invariant
                old(self).wf(),
                forall|x: int, y: int| 0 <= x < y < keys@.len() ==> keys@[x] != keys@[y],
                forall|x: int|
                    0 <= x < keys@.len() ==> !old(self).cache_view().contains_key(
                        #[trigger] keys@[x],
                    ),
                0 <= done <= rows_orig.len(),
                rows@ == rows_orig.skip(done),
                self.pending_view() == old(self).pending_view(),
                forall|k: i32|
                    !keys@.contains(k) ==> self.cache_view().contains_key(k) == old(self).cache_view().contains_key(k) && (old(self).cache_view().contains_key(k)
                        ==> self.cache_view()[k] == old(self).cache_view()[k]),
                forall|k: i32|
                    keys@.contains(k) ==> match row_lookup(rows_orig.take(done), k) {
                        Some(v) => self.cache_view().contains_key(k) && self.cache_view()[k]
                            == CacheEntry::Found(v),
                        None => !self.cache_view().contains_key(k),
                    },
            decreases rows@.len(),
        {
            let row = rows.remove(0);
            let ghost prefix = rows_orig.take(done);
            proof {
                assert(row == rows_orig[done]);
                assert(rows@ =~= rows_orig.skip(done + 1));
                assert(rows_orig.take(done + 1) =~= prefix.push(rows_orig[done]));
            }
            let in_batch = contains_id(keys, row.0);
            if in_batch && !self.cache.contains_key(&row.0) {
                let rid = row.0;
                self.cache.insert(rid, CacheEntry::Found(row.1));
                proof {
                    assert forall|k: i32| keys@.contains(k) implies match row_lookup(
                        rows_orig.take(done + 1),
                        k,
                    ) {
                        Some(v) => self.cache_view().contains_key(k) && self.cache_view()[k]
                            == CacheEntry::Found(v),
                        None => !self.cache_view().contains_key(k),
                    } by {
                        lemma_row_lookup_push(prefix, rows_orig[done], k);
                    }
                }
            } else {
                proof {
                    assert forall|k: i32| keys@.contains(k) implies match row_lookup(
                        rows_orig.take(done + 1),
                        k,
                    ) {
                        Some(v) => self.cache_view().contains_key(k) && self.cache_view()[k]
                            == CacheEntry::Found(v),
                        None => !self.cache_view().contains_key(k),
                    } by {
                        lemma_row_lookup_push(prefix, rows_orig[done], k);
                    }
                }
            }
            proof {
                done = done + 1;
            }
        }
        proof {
            assert(rows_orig.take(done) =~= rows_orig);
        }
        let mut j: usize = 0;
        while j < keys.len()
            invariant
                j <= keys@.len(),
                forall|x: int, y: int| 0 <= x < y < keys@.len() ==> keys@[x] != keys@[y],
                self.pending_view() == old(self).pending_view(),
                old(self).wf(),
                forall|x: int|
                    0 <= x < keys@.len() ==> !old(self).cache_view().contains_key(
                        #[trigger] keys@[x],
                    ),
                forall|k: i32|
                    !keys@.contains(k) ==> self.cache_view().contains_key(k) == old(self).cache_view().contains_key(k) && (old(self).cache_view().contains_key(k)
                        ==> self.cache_view()[k] == old(self).cache_view()[k]),
                forall|k: i32|
                    keys@.contains(k) ==> match row_lookup(rows_orig, k) {
                        Some(v) => self.cache_view().contains_key(k) && self.cache_view()[k]
                            == CacheEntry::Found(v),
                        None => self.cache_view().contains_key(k) ==> self.cache_view()[k]
                            == CacheEntry::<V>::NotFound,
                    },
                forall|x: int|
                    0 <= x < j ==> self.cache_view().contains_key(#[trigger] keys@[x]),
            decreases keys@.len() - j,
        {
            let k = *keys.get(j).unwrap();
            if !self.cache.contains_key(&k) {
                self.cache.insert(k, CacheEntry::NotFound);
            }
            j = j + 1;
        }
        proof {
            assert forall|k: i32| keys@.contains(k) implies self.cache_view().contains_key(k)
                && self.cache_view()[k] == resolved_entry(rows_orig, k) by {
                let x = choose|x: int| 0 <= x < keys@.len() && keys@[x] == k;
                assert(self.cache_view().contains_key(keys@[x]));
            }
            assert forall|x: int|
                0 <= x < self.pending_view().len() implies !self.cache_view().contains_key(
                #[trigger] self.pending_view()[x],
            ) by {
                assert(!keys@.contains(old(self).pending_view()[x]));
            }
        }
    }

    /// Fills every key of a failed batch with the one shared failure.
    fn resolve_batch_failed(&mut self, keys: &Vec<i32>, err: FetchError)
        requires
            old(self).wf(),
            forall|x: int, y: int| 0 <= x < y < keys@.len() ==> keys@[x] != keys@[y],
            forall|x: int|
                0 <= x < keys@.len() ==> !old(self).cache_view().contains_key(
                    #[trigger] keys@[x],
                ),
            forall|x: int|
                0 <= x < old(self).pending_view().len() ==> !keys@.contains(
                    #[trigger] old(self).pending_view()[x],
                ),
        ensures
            final(self).wf(),
            final(self).pending_view() == old(self).pending_view(),
            forall|k: i32|
                keys@.contains(k) ==> final(self).cache_view().contains_key(k) && final(self).cache_view()[k] == CacheEntry::<V>::Failed(err),
            forall|k: i32|
                !keys@.contains(k) ==> final(self).cache_view().contains_key(k) == old(self).cache_view().contains_key(k) && (old(self).cache_view().contains_key(k)
                    ==> final(self).cache_view()[k] == old(self).cache_view()[k]),
    {
        let mut j: usize = 0;
        while j < keys.len()
            invariant
                j <= keys@.len(),
                forall|x: int, y: int| 0 <= x < y < keys@.len() ==> keys@[x] != keys@[y],
                self.pending_view() == old(self).pending_view(),
                old(self).wf(),
                forall|x: int|
                    0 <= x < keys@.len() ==> !old(self).cache_view().contains_key(
                        #[trigger] keys@[x],
                    ),
                forall|k: i32|
                    !keys@.contains(k) ==> self.cache_view().contains_key(k) == old(self).cache_view().contains_key(k) && (old(self).cache_view().contains_key(k)
                        ==> self.cache_view()[k] == old(self).cache_view()[k]),
                forall|x: int|
                    0 <= x < j ==> self.cache_view().contains_key(#[trigger] keys@[x])
                        && self.cache_view()[keys@[x]] == CacheEntry::<V>::Failed(err),
                forall|k: i32|
                    self.cache_view().contains_key(k) && !old(self).cache_view().contains_key(
                        k,
                    ) ==> keys@.contains(k),
            decreases keys@.len() - j,
        {
            let k = *keys.get(j).unwrap();
            let shared = err.clone();
            self.cache.insert(k, CacheEntry::Failed(shared));
            j = j + 1;
        }
        proof {
            assert forall|k: i32| keys@.contains(k) implies self.cache_view().contains_key(k)
                && self.cache_view()[k] == CacheEntry::<V>::Failed(err) by {
                let x = choose|x: int| 0 <= x < keys@.len() && keys@[x] == k;
                assert(self.cache_view().contains_key(keys@[x]));
            }
            assert forall|x: int|
                0 <= x < self.pending_view().len() implies !self.cache_view().contains_key(
                #[trigger] self.pending_view()[x],
            ) by {
                assert(!keys@.contains(old(self).pending_view()[x]));
            }
        }
    }
}

/// Appending a row extends a first-match lookup without disturbing what the
/// earlier rows already answer.
proof fn lemma_row_lookup_push<V>(rows: Seq<(i32, V)>, row: (i32, V), id: i32)
    ensures
        row_lookup(rows.push(row), id) == (match row_lookup(rows, id) {
            Some(v) => Some(v),
            None => if row.0 == id {
                Some(row.1)
            } else {
                None
            },
        }),
    decreases rows.len(),
{
    let p = rows.push(row);
    if rows.len() == 0 {
        assert(p.len() == 1);
        assert(p.first() == row);
        assert(p.drop_first() =~= Seq::<(i32, V)>::empty());
        assert(row_lookup(p.drop_first(), id) == None::<V>);
        assert(row_lookup(rows, id) == None::<V>);
        if row.0 == id {
            assert(row_lookup(p, id) == Some(row.1));
        } else {
            assert(row_lookup(p, id) == None::<V>);
        }
    } else {
        assert(p.len() == rows.len() + 1);
        assert(p.first() == rows.first());
        assert(p.drop_first() =~= rows.drop_first().push(row));
        lemma_row_lookup_push(rows.drop_first(), row, id);
        if rows.first().0 == id {
            assert(row_lookup(p, id) == Some(rows.first().1));
            assert(row_lookup(rows, id) == Some(rows.first().1));
        } else {
            assert(row_lookup(p, id) == row_lookup(p.drop_first(), id));
            assert(row_lookup(rows, id) == row_lookup(rows.drop_first(), id));
        }
    }
}

/// Whether a buffered id list already holds `id`.
fn contains_id(v: &Vec<i32>, id: i32) -> (r: bool)
    ensures
        r == v@.contains(id),
{
    let mut j: usize = 0;
    while j < v.len()
        invariant
            j <= v@.len(),
            forall|x: int| 0 <= x < j ==> v@[x] != id,
        decreases v@.len() - j,
    {
        if *v.get(j).unwrap() == id {
            return true;
        }
        j = j + 1;
    }
    false
}

/// The per-request loader set: one cache per entity type, constructed fresh
/// for each inbound request and discarded with it.
pub struct Loader {
    pub users: BatchCache<User>,
    pub posts: BatchCache<Post>,
    pub challenges: BatchCache<Challenge>,
    pub responses: BatchCache<Response>,
    pub comments: BatchCache<Comment>,
    pub challenge_type: BatchCache<ChallengeType>,
}

impl Loader {
    /// A fresh loader set with every cache empty.
    pub fn new() -> (r: Loader)
        ensures
            r.users.wf() && r.users.cache_view() == Map::<i32, CacheEntry<User>>::empty()
                && r.users.pending_view() == Seq::<i32>::empty(),
            r.posts.wf() && r.posts.cache_view() == Map::<i32, CacheEntry<Post>>::empty()
                && r.posts.pending_view() == Seq::<i32>::empty(),
            r.challenges.wf() && r.challenges.cache_view() == Map::<
                i32,
                CacheEntry<Challenge>,
            >::empty() && r.challenges.pending_view() == Seq::<i32>::empty(),
            r.responses.wf() && r.responses.cache_view() == Map::<
                i32,
                CacheEntry<Response>,
            >::empty() && r.responses.pending_view() == Seq::<i32>::empty(),
            r.comments.wf() && r.comments.cache_view() == Map::<
                i32,
                CacheEntry<Comment>,
            >::empty() && r.comments.pending_view() == Seq::<i32>::empty(),
            r.challenge_type.wf() && r.challenge_type.cache_view() == Map::<
                i32,
                CacheEntry<ChallengeType>,
            >::empty() && r.challenge_type.pending_view() == Seq::<i32>::empty(),
    {
        Loader {
            users: BatchCache::new(),
            posts: BatchCache::new(),
            challenges: BatchCache::new(),
            responses: BatchCache::new(),
            comments: BatchCache::new(),
            challenge_type: BatchCache::new(),
        }
    }
}

} // verus!
