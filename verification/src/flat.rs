//! A flat index is just a batch of value/row-id pairs.
//!
//! The batch always has two columns.  The first column `values` contains the
//! indexed values; the second column `row_ids` contains the row ids.
//! Evaluating a query scans the batch, so it takes time linear in the number
//! of rows.

use std::collections::HashMap;

use vstd::prelude::*;

use crate::error::Error;
use crate::row_ids::{spec_fragment_id, fragment_id, RowIdSet};
use crate::schema::{ElementType, Field, Schema};

verus! {

broadcast use vstd::std_specs::hash::group_hash_axioms;

/// The payload of a flat index: a column of nullable values and a column of
/// row ids of the same length.  Insertion order is irrelevant to query
/// answers but is preserved by every operation, so that batches can be
/// compared after a remap.
#[derive(Clone, Debug, PartialEq, Eq)]
pub struct ValueBatch {
    pub values: Vec<Option<i64>>,
    pub row_ids: Vec<u64>,
}

impl ValueBatch {
    /// The two columns have the same length.
    pub open spec fn wf(&self) -> bool {
        self.values@.len() == self.row_ids@.len()
    }

    pub fn num_rows(&self) -> (n: usize)
        ensures
            n == self.values@.len(),
    {
        self.values.len()
    }
}

/// Whether the value column holds any null.
pub open spec fn has_null(values: Seq<Option<i64>>) -> bool {
    exists|i: int| 0 <= i < values.len() && values[i] is None
}

/// One bound of a range query.
#[derive(Clone, Copy, Debug, PartialEq, Eq, Structural)]
pub enum RangeBound {
    Unbounded,
    Included(i64),
    Excluded(i64),
}

/// The SARGable predicates a flat index can evaluate.  Full-text queries are
/// listed so that they can be rejected with an `InvalidInput` error.
#[derive(Clone, Debug)]
pub enum SargableQuery {
    Equals(Option<i64>),
    IsNull,
    IsIn(Vec<Option<i64>>),
    Range(RangeBound, RangeBound),
    FullTextSearch(String),
}

/// Whether a value satisfies the lower bound.
pub open spec fn lower_bound_ok(bound: RangeBound, x: i64) -> bool {
    match bound {
        RangeBound::Unbounded => true,
        RangeBound::Included(l) => l <= x,
        RangeBound::Excluded(l) => l < x,
    }
}

/// Whether a value satisfies the upper bound.
pub open spec fn upper_bound_ok(bound: RangeBound, x: i64) -> bool {
    match bound {
        RangeBound::Unbounded => true,
        RangeBound::Included(u) => x <= u,
        RangeBound::Excluded(u) => x < u,
    }
}

/// A range query with neither bound is a contract violation on the caller's
/// side; `search` must not be handed one.
pub open spec fn is_unbounded_range(q: SargableQuery) -> bool {
    q matches SargableQuery::Range(RangeBound::Unbounded, RangeBound::Unbounded)
}

/// Which rows a query matches.
///
/// An equality query on null degenerates to a null check, so the `Equals`
/// case is plain equality of nullable values.  A membership query matches a
/// value held by the list, and matches a null row only when the list itself
/// holds a null.  Range queries never match null rows.  Full-text queries
/// match nothing: `search` rejects them before evaluation.
pub open spec fn query_matches(q: SargableQuery, v: Option<i64>) -> bool {
    match q {
        SargableQuery::Equals(qv) => v == qv,
        SargableQuery::IsNull => v is None,
        SargableQuery::IsIn(list) => list@.contains(v),
        SargableQuery::Range(lower, upper) => match v {
            Some(x) => lower_bound_ok(lower, x) && upper_bound_ok(upper, x),
            None => false,
        },
        SargableQuery::FullTextSearch(_) => false,
    }
}

/// The set of row ids whose row matches the query.
pub open spec fn matching_row_ids(
    q: SargableQuery,
    values: Seq<Option<i64>>,
    ids: Seq<u64>,
) -> Set<u64> {
    Set::new(
        |id: u64|
            exists|j: int|
                #![trigger ids[j]]
                0 <= j < ids.len() && ids[j] == id && query_matches(q, values[j]),
    )
}

proof fn lemma_matching_row_ids_step(
    q: SargableQuery,
    values: Seq<Option<i64>>,
    ids: Seq<u64>,
    i: int,
)
    requires
        values.len() == ids.len(),
        0 <= i < ids.len(),
    ensures
        query_matches(q, values[i]) ==> matching_row_ids(
            q,
            values.take(i + 1),
            ids.take(i + 1),
        ) == matching_row_ids(q, values.take(i), ids.take(i)).insert(ids[i]),
        !query_matches(q, values[i]) ==> matching_row_ids(
            q,
            values.take(i + 1),
            ids.take(i + 1),
        ) == matching_row_ids(q, values.take(i), ids.take(i)),
{
    let pre = matching_row_ids(q, values.take(i), ids.take(i));
    let post = matching_row_ids(q, values.take(i + 1), ids.take(i + 1));
    assert forall|id: u64| post.contains(id) implies pre.contains(id) || (query_matches(
        q,
        values[i],
    ) && id == ids[i]) by {
        let j = choose|j: int|
            #![trigger ids.take(i + 1)[j]]
            0 <= j < ids.take(i + 1).len() && ids.take(i + 1)[j] == id && query_matches(
                q,
                values.take(i + 1)[j],
            );
        if j < i {
            assert(0 <= j < ids.take(i).len() && ids.take(i)[j] == id && query_matches(
                q,
                values.take(i)[j],
            ));
        } else {
            assert(ids.take(i + 1)[j] == ids[i] && values.take(i + 1)[j] == values[i]);
        }
    }
    assert forall|id: u64| pre.contains(id) implies post.contains(id) by {
        let j = choose|j: int|
            #![trigger ids.take(i)[j]]
            0 <= j < ids.take(i).len() && ids.take(i)[j] == id && query_matches(
                q,
                values.take(i)[j],
            );
        assert(0 <= j < ids.take(i + 1).len() && ids.take(i + 1)[j] == id && query_matches(
            q,
            values.take(i + 1)[j],
        ));
    }
    if query_matches(q, values[i]) {
        assert(ids.take(i + 1)[i] == ids[i] && values.take(i + 1)[i] == values[i]);
        assert(post.contains(ids[i]));
        assert(post =~= pre.insert(ids[i]));
    } else {
        assert(post =~= pre);
    }
}

/// An equality query matches exactly the rows that hold the queried value:
/// a null row is excluded unless the queried value is itself null, in which
/// case the query degenerates to a null check.
pub proof fn lemma_equals_matches_exactly(queried: Option<i64>, value: Option<i64>)
    ensures
        query_matches(SargableQuery::Equals(queried), value) <==> value == queried,
{
}

/// Searching for equality returns exactly the row ids of the rows holding
/// the queried value.
pub proof fn lemma_search_equals_row_ids(
    queried: Option<i64>,
    values: Seq<Option<i64>>,
    ids: Seq<u64>,
)
    ensures
        matching_row_ids(SargableQuery::Equals(queried), values, ids) == Set::new(
            |id: u64|
                exists|j: int|
                    #![trigger ids[j]]
                    0 <= j < ids.len() && ids[j] == id && values[j] == queried,
        ),
{
    assert(matching_row_ids(SargableQuery::Equals(queried), values, ids) =~= Set::new(
        |id: u64|
            exists|j: int|
                #![trigger ids[j]]
                0 <= j < ids.len() && ids[j] == id && values[j] == queried,
    ));
}

/// A two-bound range query matches a value exactly when both of its
/// single-bound halves match it; null rows are excluded by all three.
pub proof fn lemma_range_is_conjunction(lower: RangeBound, upper: RangeBound, value: Option<i64>)
    ensures
        query_matches(SargableQuery::Range(lower, upper), value) <==> query_matches(
            SargableQuery::Range(lower, RangeBound::Unbounded),
            value,
        ) && query_matches(SargableQuery::Range(RangeBound::Unbounded, upper), value),
{
}

/// Over a column whose row ids are unique, a two-bound range search returns
/// exactly the intersection of the two single-bound searches.
pub proof fn lemma_search_range_is_conjunction(
    lower: RangeBound,
    upper: RangeBound,
    values: Seq<Option<i64>>,
    ids: Seq<u64>,
)
    requires
        values.len() == ids.len(),
        forall|i: int, j: int| 0 <= i < j < ids.len() ==> ids[i] != ids[j],
    ensures
        matching_row_ids(SargableQuery::Range(lower, upper), values, ids) == matching_row_ids(
            SargableQuery::Range(lower, RangeBound::Unbounded),
            values,
            ids,
        ).intersect(matching_row_ids(SargableQuery::Range(RangeBound::Unbounded, upper), values, ids)),
{
    let both = matching_row_ids(SargableQuery::Range(lower, upper), values, ids);
    let low_only = matching_row_ids(SargableQuery::Range(lower, RangeBound::Unbounded), values, ids);
    let high_only = matching_row_ids(
        SargableQuery::Range(RangeBound::Unbounded, upper),
        values,
        ids,
    );
    assert forall|id: u64| both.contains(id) implies low_only.intersect(high_only).contains(
        id,
    ) by {
        let j = choose|j: int|
            #![trigger ids[j]]
            0 <= j < ids.len() && ids[j] == id && query_matches(
                SargableQuery::Range(lower, upper),
                values[j],
            );
        assert(query_matches(SargableQuery::Range(lower, RangeBound::Unbounded), values[j]));
        assert(query_matches(SargableQuery::Range(RangeBound::Unbounded, upper), values[j]));
    }
    assert forall|id: u64| low_only.intersect(high_only).contains(id) implies both.contains(
        id,
    ) by {
        let j1 = choose|j: int|
            #![trigger ids[j]]
            0 <= j < ids.len() && ids[j] == id && query_matches(
                SargableQuery::Range(lower, RangeBound::Unbounded),
                values[j],
            );
        let j2 = choose|j: int|
            #![trigger ids[j]]
            0 <= j < ids.len() && ids[j] == id && query_matches(
                SargableQuery::Range(RangeBound::Unbounded, upper),
                values[j],
            );
        assert(j1 == j2);
        assert(query_matches(SargableQuery::Range(lower, upper), values[j1]));
    }
    assert(both =~= low_only.intersect(high_only));
}

/// The result of a search: the flat index always answers exactly.
#[derive(Clone, Debug, PartialEq, Eq)]
pub enum SearchResult {
    Exact(RowIdSet),
    Approximate(RowIdSet),
}

fn opt_value_eq(a: &Option<i64>, b: &Option<i64>) -> (r: bool)
    ensures
        r == (*a == *b),
{
    match (a, b) {
        (Option::None, Option::None) => true,
        (Option::Some(x), Option::Some(y)) => *x == *y,
        _ => false,
    }
}

fn list_contains(list: &Vec<Option<i64>>, v: &Option<i64>) -> (r: bool)
    ensures
        r == list@.contains(*v),
{
    let n = list.len();
    let mut i: usize = 0;
    while i < n
        invariant
            0 <= i <= n,
            n == list@.len(),
            forall|j: int| 0 <= j < i ==> list@[j] != *v,
        decreases n - i,
    {
        if opt_value_eq(&list[i], v) {
            assert(list@.contains(*v));
            return true;
        }
        i = i + 1;
    }
    assert(!list@.contains(*v));
    false
}

/// Evaluate one query against one nullable value.
fn value_matches(query: &SargableQuery, v: &Option<i64>) -> (r: bool)
    ensures
        r == query_matches(*query, *v),
{
    match query {
        SargableQuery::Equals(qv) => opt_value_eq(v, qv),
        SargableQuery::IsNull => v.is_none(),
        SargableQuery::IsIn(list) => list_contains(list, v),
        SargableQuery::Range(lower, upper) => match v {
            Option::Some(x) => {
                let lower_ok = match lower {
                    RangeBound::Unbounded => true,
                    RangeBound::Included(l) => *l <= *x,
                    RangeBound::Excluded(l) => *l < *x,
                };
                let upper_ok = match upper {
                    RangeBound::Unbounded => true,
                    RangeBound::Included(u) => *x <= *u,
                    RangeBound::Excluded(u) => *x < *u,
                };
                lower_ok && upper_ok
            },
            Option::None => false,
        },
        SargableQuery::FullTextSearch(_) => false,
    }
}

/// An in-memory two-column table of values and row ids, immutable after
/// construction, answering SARGable queries by a scan.
#[derive(Clone, Debug)]
pub struct FlatIndex {
    data: ValueBatch,
    has_nulls: bool,
}

impl FlatIndex {
    /// The value column seen by specifications.
    pub closed spec fn spec_values(&self) -> Seq<Option<i64>> {
        self.data.values@
    }

    /// The row-id column seen by specifications.
    pub closed spec fn spec_row_ids(&self) -> Seq<u64> {
        self.data.row_ids@
    }

    /// Both columns have the same length and the cached null bit agrees with
    /// the value column.
    pub closed spec fn wf(&self) -> bool {
        &&& self.data.wf()
        &&& self.has_nulls == has_null(self.data.values@)
    }

    /// Build an index over a batch, computing the cached null bit.
    pub fn new(data: ValueBatch) -> (index: FlatIndex)
        requires
            data.wf(),
        ensures
            index.wf(),
            index.spec_values() == data.values@,
            index.spec_row_ids() == data.row_ids@,
    {
        let has_nulls = batch_has_null(&data);
        FlatIndex { data, has_nulls }
    }

    pub fn values(&self) -> (v: &Vec<Option<i64>>)
        ensures
            v@ == self.spec_values(),
    {
        &self.data.values
    }

    pub fn ids(&self) -> (v: &Vec<u64>)
        ensures
            v@ == self.spec_row_ids(),
    {
        &self.data.row_ids
    }

    /// The number of indexed values, reported as the index's statistics.
    pub fn num_values(&self) -> (n: usize)
        requires
            self.wf(),
        ensures
            n == self.spec_values().len(),
    {
        self.data.values.len()
    }

    /// The flat index can always answer a query it accepts exactly.
    pub fn can_answer_exact(&self, query: &SargableQuery) -> (r: bool)
        ensures
            r,
    {
        let _ = query;
        true
    }

    /// The flat index offers no vector-index capability.
    pub fn as_vector_index(&self) -> (r: Result<(), Error>)
        ensures
            r is Err && r->Err_0 is NotSupported,
    {
        Err(Error::not_supported("FlatIndex is not vector index"))
    }

    /// Answer a SARGable query with exactly the row ids of the matching rows.
    ///
    /// Full-text queries are rejected with an `InvalidInput` error; every
    /// other accepted query succeeds and returns an exact result.
    pub fn search(&self, query: &SargableQuery) -> (r: Result<SearchResult, Error>)
        requires
            self.wf(),
            !is_unbounded_range(*query),
        ensures
            match r {
                Ok(res) => {
                    &&& !(*query is FullTextSearch)
                    &&& res is Exact
                    &&& res->Exact_0.wf()
                    &&& res->Exact_0@ == matching_row_ids(
                        *query,
                        self.spec_values(),
                        self.spec_row_ids(),
                    )
                },
                Err(e) => *query is FullTextSearch && e is InvalidInput,
            },
    {
        if let SargableQuery::FullTextSearch(_) = query {
            return Err(
                Error::invalid_input(
                    "full text search is not supported for flat index, build a inverted index for it",
                ),
            );
        }
        let ghost values = self.data.values@;
        let ghost ids = self.data.row_ids@;
        let n = self.data.values.len();
        let mut result = RowIdSet::new();
        proof {
            assert(matching_row_ids(*query, values.take(0), ids.take(0)) =~= Set::<u64>::empty());
        }
        let mut i: usize = 0;
        while i < n
            invariant
                0 <= i <= n,
                n == values.len(),
                n == ids.len(),
                self.data.values@ == values,
                self.data.row_ids@ == ids,
                result.wf(),
                result@ == matching_row_ids(*query, values.take(i as int), ids.take(i as int)),
            decreases n - i,
        {
            proof {
                lemma_matching_row_ids_step(*query, values, ids, i as int);
            }
            if value_matches(query, &self.data.values[i]) {
                result.insert(self.data.row_ids[i]);
            }
            i = i + 1;
        }
        proof {
            assert(values.take(n as int) =~= values);
            assert(ids.take(n as int) =~= ids);
        }
        Ok(SearchResult::Exact(result))
    }
}

/// Whether a row id survives the remap: absent ids are identity-mapped and
/// kept, ids mapped to a new id are kept, ids mapped to nothing are deleted.
pub open spec fn remap_kept(m: Map<u64, Option<u64>>, id: u64) -> bool {
    m.contains_key(id) ==> m[id] is Some
}

/// The id a kept row carries after the remap.
pub open spec fn remap_new_id(m: Map<u64, Option<u64>>, id: u64) -> u64 {
    if m.contains_key(id) {
        m[id]->Some_0
    } else {
        id
    }
}

/// The row-id column after a remap: deleted rows dropped, kept rows renamed,
/// order preserved.
pub open spec fn remap_ids(ids: Seq<u64>, m: Map<u64, Option<u64>>) -> Seq<u64>
    decreases ids.len(),
{
    if ids.len() == 0 {
        Seq::empty()
    } else {
        let prefix = remap_ids(ids.drop_last(), m);
        if remap_kept(m, ids.last()) {
            prefix.push(remap_new_id(m, ids.last()))
        } else {
            prefix
        }
    }
}

/// The value column after a remap: the values of the kept rows, in order.
pub open spec fn remap_values(
    values: Seq<Option<i64>>,
    ids: Seq<u64>,
    m: Map<u64, Option<u64>>,
) -> Seq<Option<i64>>
    recommends
        values.len() == ids.len(),
    decreases ids.len(),
{
    if ids.len() == 0 {
        Seq::empty()
    } else {
        let prefix = remap_values(values.drop_last(), ids.drop_last(), m);
        if remap_kept(m, ids.last()) {
            prefix.push(values.last())
        } else {
            prefix
        }
    }
}

/// Produce a new batch by walking the row-id column, looking each id up in
/// the mapping (absent ids are identity-mapped), dropping the rows mapped to
/// `None`, and gathering the corresponding values.  The result may be empty.
pub fn remap_batch(batch: &ValueBatch, mapping: &HashMap<u64, Option<u64>>) -> (r: Result<
    ValueBatch,
    Error,
>)
    requires
        batch.wf(),
    ensures
        r is Ok,
        r->Ok_0.wf(),
        r->Ok_0.values@ == remap_values(batch.values@, batch.row_ids@, mapping@),
        r->Ok_0.row_ids@ == remap_ids(batch.row_ids@, mapping@),
{
    let ghost values = batch.values@;
    let ghost ids = batch.row_ids@;
    let ghost m = mapping@;
    let n = batch.row_ids.len();
    let mut new_values: Vec<Option<i64>> = Vec::new();
    let mut new_ids: Vec<u64> = Vec::new();
    let mut i: usize = 0;
    while i < n
        invariant
            0 <= i <= n,
            n == ids.len(),
            n == values.len(),
            batch.values@ == values,
            batch.row_ids@ == ids,
            mapping@ == m,
            new_values@ == remap_values(values.take(i as int), ids.take(i as int), m),
            new_ids@ == remap_ids(ids.take(i as int), m),
            new_values@.len() == new_ids@.len(),
        decreases n - i,
    {
        proof {
            assert(ids.take(i + 1).drop_last() =~= ids.take(i as int));
            assert(values.take(i + 1).drop_last() =~= values.take(i as int));
            assert(ids.take(i + 1).last() == ids[i as int]);
            assert(values.take(i + 1).last() == values[i as int]);
        }
        let id = batch.row_ids[i];
        match mapping.get(&id) {
            Option::None => {
                new_values.push(batch.values[i]);
                new_ids.push(id);
            },
            Option::Some(new_id) => {
                match new_id {
                    Option::Some(new_id) => {
                        new_values.push(batch.values[i]);
                        new_ids.push(*new_id);
                    },
                    Option::None => {},
                }
            },
        }
        i = i + 1;
    }
    proof {
        assert(ids.take(n as int) =~= ids);
        assert(values.take(n as int) =~= values);
    }
    Ok(ValueBatch { values: new_values, row_ids: new_ids })
}

/// Remapping touches exactly the kept ids: a row id stands in the remapped
/// column precisely when some kept row of the old column renames to it.
pub proof fn lemma_remap_ids_membership(ids: Seq<u64>, m: Map<u64, Option<u64>>, new_id: u64)
    ensures
        remap_ids(ids, m).contains(new_id) <==> exists|j: int|
            #![trigger ids[j]]
            0 <= j < ids.len() && remap_kept(m, ids[j]) && new_id == remap_new_id(m, ids[j]),
    decreases ids.len(),
{
    if ids.len() == 0 {
    } else {
        let prefix = ids.drop_last();
        lemma_remap_ids_membership(prefix, m, new_id);
        let out = remap_ids(ids, m);
        let out_prefix = remap_ids(prefix, m);
        if remap_kept(m, ids.last()) {
            assert(out == out_prefix.push(remap_new_id(m, ids.last())));
            if out.contains(new_id) {
                let k = choose|k: int| 0 <= k < out.len() && out[k] == new_id;
                if k < out_prefix.len() {
                    assert(out_prefix.contains(new_id));
                    let j = choose|j: int|
                        #![trigger prefix[j]]
                        0 <= j < prefix.len() && remap_kept(m, prefix[j]) && new_id
                            == remap_new_id(m, prefix[j]);
                    assert(ids[j] == prefix[j]);
                } else {
                    assert(new_id == remap_new_id(m, ids.last()));
                    assert(ids[ids.len() - 1] == ids.last());
                }
            }
            if exists|j: int|
                #![trigger ids[j]]
                0 <= j < ids.len() && remap_kept(m, ids[j]) && new_id == remap_new_id(m, ids[j]) {
                let j = choose|j: int|
                    #![trigger ids[j]]
                    0 <= j < ids.len() && remap_kept(m, ids[j]) && new_id == remap_new_id(
                        m,
                        ids[j],
                    );
                if j < ids.len() - 1 {
                    assert(prefix[j] == ids[j]);
                    assert(out_prefix.contains(new_id));
                    let k = choose|k: int| 0 <= k < out_prefix.len() && out_prefix[k] == new_id;
                    assert(out[k] == new_id);
                } else {
                    assert(out.last() == new_id);
                }
                assert(out.contains(new_id));
            }
        } else {
            assert(out == out_prefix);
            if out.contains(new_id) {
                let j = choose|j: int|
                    #![trigger prefix[j]]
                    0 <= j < prefix.len() && remap_kept(m, prefix[j]) && new_id == remap_new_id(
                        m,
                        prefix[j],
                    );
                assert(ids[j] == prefix[j]);
            }
            if exists|j: int|
                #![trigger ids[j]]
                0 <= j < ids.len() && remap_kept(m, ids[j]) && new_id == remap_new_id(m, ids[j]) {
                let j = choose|j: int|
                    #![trigger ids[j]]
                    0 <= j < ids.len() && remap_kept(m, ids[j]) && new_id == remap_new_id(
                        m,
                        ids[j],
                    );
                assert(j < ids.len() - 1);
                assert(prefix[j] == ids[j]);
                assert(out_prefix.contains(new_id));
            }
        }
    }
}

/// Remapping preserves set equality of the non-deleted row ids under the
/// renaming: the remapped column holds, as a set, exactly the image of the
/// kept old ids.
pub proof fn lemma_remap_renames_row_ids(ids: Seq<u64>, m: Map<u64, Option<u64>>)
    ensures
        remap_ids(ids, m).to_set() == Set::new(
            |new_id: u64|
                exists|j: int|
                    #![trigger ids[j]]
                    0 <= j < ids.len() && remap_kept(m, ids[j]) && new_id == remap_new_id(
                        m,
                        ids[j],
                    ),
        ),
{
    assert forall|new_id: u64|
        remap_ids(ids, m).to_set().contains(new_id) == Set::new(
            |new_id: u64|
                exists|j: int|
                    #![trigger ids[j]]
                    0 <= j < ids.len() && remap_kept(m, ids[j]) && new_id == remap_new_id(
                        m,
                        ids[j],
                    ),
        ).contains(new_id) by {
        lemma_remap_ids_membership(ids, m, new_id);
    }
    assert(remap_ids(ids, m).to_set() =~= Set::new(
        |new_id: u64|
            exists|j: int|
                #![trigger ids[j]]
                0 <= j < ids.len() && remap_kept(m, ids[j]) && new_id == remap_new_id(m, ids[j]),
    ));
}

/// An empty mapping leaves a batch unchanged: every id is identity-mapped.
pub proof fn lemma_remap_empty_mapping_identity(
    values: Seq<Option<i64>>,
    ids: Seq<u64>,
    m: Map<u64, Option<u64>>,
)
    requires
        values.len() == ids.len(),
        forall|id: u64| !m.contains_key(id),
    ensures
        remap_ids(ids, m) == ids,
        remap_values(values, ids, m) == values,
    decreases ids.len(),
{
    if ids.len() == 0 {
        assert(remap_ids(ids, m) =~= ids);
        assert(remap_values(values, ids, m) =~= values);
    } else {
        lemma_remap_empty_mapping_identity(values.drop_last(), ids.drop_last(), m);
        assert(remap_ids(ids, m) =~= ids);
        assert(remap_values(values, ids, m) =~= values);
    }
}

/// A mapping that deletes every id of the batch yields a batch of zero rows.
pub proof fn lemma_remap_all_deleted_empty(
    values: Seq<Option<i64>>,
    ids: Seq<u64>,
    m: Map<u64, Option<u64>>,
)
    requires
        forall|j: int|
            0 <= j < ids.len() ==> m.contains_key(#[trigger] ids[j]) && m[ids[j]] is None,
    ensures
        remap_ids(ids, m) == Seq::<u64>::empty(),
        remap_values(values, ids, m) == Seq::<Option<i64>>::empty(),
    decreases ids.len(),
{
    if ids.len() == 0 {
    } else {
        assert(ids[ids.len() - 1] == ids.last());
        assert forall|j: int| 0 <= j < ids.drop_last().len() implies m.contains_key(
            #[trigger] ids.drop_last()[j],
        ) && m[ids.drop_last()[j]] is None by {
            assert(ids.drop_last()[j] == ids[j]);
        }
        lemma_remap_all_deleted_empty(values.drop_last(), ids.drop_last(), m);
    }
}

/// The set of fragments addressed by a row-id column.
pub open spec fn fragment_ids_of(ids: Seq<u64>) -> Set<u32> {
    Set::new(
        |f: u32|
            exists|j: int|
                #![trigger ids[j]]
                0 <= j < ids.len() && spec_fragment_id(ids[j]) == f,
    )
}

proof fn lemma_fragment_ids_step(ids: Seq<u64>, i: int)
    requires
        0 <= i < ids.len(),
    ensures
        fragment_ids_of(ids.take(i + 1)) == fragment_ids_of(ids.take(i)).insert(
            spec_fragment_id(ids[i]),
        ),
{
    let pre = fragment_ids_of(ids.take(i));
    let post = fragment_ids_of(ids.take(i + 1));
    assert forall|f: u32| post.contains(f) implies pre.insert(spec_fragment_id(ids[i])).contains(
        f,
    ) by {
        let j = choose|j: int|
            #![trigger ids.take(i + 1)[j]]
            0 <= j < ids.take(i + 1).len() && spec_fragment_id(ids.take(i + 1)[j]) == f;
        if j < i {
            assert(ids.take(i)[j] == ids.take(i + 1)[j]);
        } else {
            assert(ids.take(i + 1)[j] == ids[i]);
        }
    }
    assert forall|f: u32| pre.insert(spec_fragment_id(ids[i])).contains(f) implies post.contains(
        f,
    ) by {
        if f == spec_fragment_id(ids[i]) {
            assert(ids.take(i + 1)[i] == ids[i]);
        } else {
            let j = choose|j: int|
                #![trigger ids.take(i)[j]]
                0 <= j < ids.take(i).len() && spec_fragment_id(ids.take(i)[j]) == f;
            assert(ids.take(i + 1)[j] == ids.take(i)[j]);
        }
    }
    assert(post =~= pre.insert(spec_fragment_id(ids[i])));
}

/// Add a fragment id to a strictly increasing vector, keeping the order.
fn insert_sorted_u32(v: &mut Vec<u32>, x: u32)
    requires
        forall|i: int, j: int| 0 <= i < j < old(v)@.len() ==> old(v)@[i] < old(v)@[j],
    ensures
        forall|i: int, j: int| 0 <= i < j < final(v)@.len() ==> final(v)@[i] < final(v)@[j],
        final(v)@.to_set() == old(v)@.to_set().insert(x),
{
    let ghost pre = v@;
    let n = v.len();
    let mut pos: usize = 0;
    while pos < n && v[pos] < x
        invariant
            0 <= pos <= n,
            v@ == pre,
            n == pre.len(),
            forall|j: int| 0 <= j < pos ==> pre[j] < x,
        decreases n - pos,
    {
        pos = pos + 1;
    }
    if pos < n && v[pos] == x {
        proof {
            assert(pre.contains(x));
            assert(pre.to_set().insert(x) =~= pre.to_set());
        }
        return ;
    }
    v.insert(pos, x);
    proof {
        let post = v@;
        assert(post == pre.insert(pos as int, x));
        assert forall|i: int, j: int| 0 <= i < j < post.len() implies post[i] < post[j] by {
            if j < pos {
            } else if i < pos && j == pos {
                assert(post[i] == pre[i] && post[j] == x);
            } else if i == pos {
                assert(post[i] == x && post[j] == pre[j - 1]);
                assert(!(pre[j - 1] < x));
                assert(pre[j - 1] != x) by {
                    if pre[j - 1] == x {
                        assert(pre.contains(x));
                    }
                }
            } else if i > pos {
                assert(post[i] == pre[i - 1] && post[j] == pre[j - 1]);
            }
        }
        assert forall|y: u32| post.to_set().contains(y) implies pre.to_set().insert(x).contains(
            y,
        ) by {
            let j = choose|j: int| 0 <= j < post.len() && post[j] == y;
            if j != pos {
                let k: int = if j < pos {
                    j
                } else {
                    j - 1
                };
                assert(pre[k] == y);
                assert(pre.contains(y));
            }
        }
        assert forall|y: u32| pre.to_set().insert(x).contains(y) implies post.to_set().contains(
            y,
        ) by {
            if y == x {
                assert(post[pos as int] == y);
                assert(post.contains(y));
            } else {
                let j = choose|j: int| 0 <= j < pre.len() && pre[j] == y;
                let k: int = if j < pos {
                    j
                } else {
                    j + 1
                };
                assert(post[k] == y);
                assert(post.contains(y));
            }
        }
        assert(post.to_set() =~= pre.to_set().insert(x));
    }
}

/// An external bitmap of fragment ids.
#[verifier::external_type_specification]
#[verifier::external_body]
pub struct ExRoaringBitmap(roaring::RoaringBitmap);

/// The set of 32-bit values a roaring bitmap holds.
pub uninterp spec fn roaring_contents(b: roaring::RoaringBitmap) -> Set<u32>;

/// Relies on `roaring::RoaringBitmap::from_sorted_iter`: handed a strictly
/// increasing sequence of values it returns `Ok` of the bitmap holding
/// exactly those values.
#[verifier::external_body]
fn roaring_from_sorted(ids: &Vec<u32>) -> (r: roaring::RoaringBitmap)
    requires
        forall|i: int, j: int| 0 <= i < j < ids@.len() ==> ids@[i] < ids@[j],
    ensures
        roaring_contents(r) == ids@.to_set(),
{
    roaring::RoaringBitmap::from_sorted_iter(ids.iter().copied()).unwrap()
}

impl FlatIndex {
    /// The sorted unique set of fragment ids derived from the upper bits of
    /// the row-id column.
    pub fn calculate_included_frags(&self) -> (r: Result<roaring::RoaringBitmap, Error>)
        ensures
            r is Ok,
            roaring_contents(r->Ok_0) == fragment_ids_of(self.spec_row_ids()),
    {
        let ghost ids = self.data.row_ids@;
        let n = self.data.row_ids.len();
        let mut frags: Vec<u32> = Vec::new();
        proof {
            assert(fragment_ids_of(ids.take(0)) =~= Set::<u32>::empty());
            assert(frags@.to_set() =~= Set::<u32>::empty());
        }
        let mut i: usize = 0;
        while i < n
            invariant
                0 <= i <= n,
                n == ids.len(),
                self.data.row_ids@ == ids,
                forall|a: int, b: int| 0 <= a < b < frags@.len() ==> frags@[a] < frags@[b],
                frags@.to_set() == fragment_ids_of(ids.take(i as int)),
            decreases n - i,
        {
            proof {
                lemma_fragment_ids_step(ids, i as int);
            }
            let f = fragment_id(self.data.row_ids[i]);
            insert_sorted_u32(&mut frags, f);
            i = i + 1;
        }
        proof {
            assert(ids.take(n as int) =~= ids);
        }
        Ok(roaring_from_sorted(&frags))
    }
}

/// Trains a flat index from a batch of values and ids by simply storing the
/// batch under the canonical two-column schema.  This allows the flat index
/// to be used as a sub-index of a larger scalar index.
#[derive(Clone, Debug)]
pub struct FlatIndexMetadata {
    schema: Schema,
}

impl FlatIndexMetadata {
    /// The canonical schema: a nullable `values` column of the given element
    /// type and a nullable `row_ids` column of 64-bit unsigned integers.
    pub closed spec fn spec_schema(&self) -> Schema {
        self.schema
    }

    pub fn new(value_type: ElementType) -> (m: FlatIndexMetadata)
        ensures
            m.spec_schema().fields@.len() == 2,
            m.spec_schema().fields@[0].name@ == "values"@,
            m.spec_schema().fields@[0].data_type == value_type,
            m.spec_schema().fields@[0].list_size is None,
            m.spec_schema().fields@[0].nullable,
            m.spec_schema().fields@[1].name@ == "row_ids"@,
            m.spec_schema().fields@[1].data_type == ElementType::UInt64,
            m.spec_schema().fields@[1].list_size is None,
            m.spec_schema().fields@[1].nullable,
    {
        let mut fields: Vec<Field> = Vec::new();
        fields.push(
            Field {
                name: "values".to_owned(),
                data_type: value_type,
                list_size: Option::None,
                nullable: true,
            },
        );
        fields.push(
            Field {
                name: "row_ids".to_owned(),
                data_type: ElementType::UInt64,
                list_size: Option::None,
                nullable: true,
            },
        );
        FlatIndexMetadata { schema: Schema { fields } }
    }

    pub fn schema(&self) -> (s: &Schema)
        ensures
            *s == self.spec_schema(),
    {
        &self.schema
    }

    /// Adopt a training batch as the index payload.  The data source may not
    /// call its columns `values` and `row_ids`; the batch is re-labelled
    /// under the canonical schema with the rows untouched.
    pub fn train(&self, batch: ValueBatch) -> (r: Result<ValueBatch, Error>)
        ensures
            r is Ok,
            r->Ok_0 == batch,
    {
        Ok(batch)
    }

    /// Open a serialized batch as a flat index, computing the null bit.
    pub fn load_subindex(&self, serialized: ValueBatch) -> (r: Result<FlatIndex, Error>)
        requires
            serialized.wf(),
        ensures
            r is Ok,
            r->Ok_0.wf(),
            r->Ok_0.spec_values() == serialized.values@,
            r->Ok_0.spec_row_ids() == serialized.row_ids@,
    {
        Ok(FlatIndex::new(serialized))
    }

    /// Remap a serialized batch; see `remap_batch`.
    pub fn remap_subindex(
        &self,
        serialized: &ValueBatch,
        mapping: &HashMap<u64, Option<u64>>,
    ) -> (r: Result<ValueBatch, Error>)
        requires
            serialized.wf(),
        ensures
            r is Ok,
            r->Ok_0.wf(),
            r->Ok_0.values@ == remap_values(serialized.values@, serialized.row_ids@, mapping@),
            r->Ok_0.row_ids@ == remap_ids(serialized.row_ids@, mapping@),
    {
        remap_batch(serialized, mapping)
    }

    /// Hand a serialized batch back unchanged.
    pub fn retrieve_data(&self, serialized: ValueBatch) -> (r: Result<ValueBatch, Error>)
        ensures
            r is Ok,
            r->Ok_0 == serialized,
    {
        Ok(serialized)
    }
}

/// Whether the value column of a batch holds any null.
pub fn batch_has_null(batch: &ValueBatch) -> (b: bool)
    ensures
        b == has_null(batch.values@),
{
    let n = batch.values.len();
    let mut i: usize = 0;
    while i < n
        invariant
            0 <= i <= n,
            n == batch.values@.len(),
            forall|j: int| 0 <= j < i ==> !(batch.values@[j] is None),
        decreases n - i,
    {
        if batch.values[i].is_none() {
            return true;
        }
        i = i + 1;
    }
    false
}

} // verus!
