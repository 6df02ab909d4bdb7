//! Row ids: a new row takes one more than the greatest id in its table,
//! as the database does for an integer primary key.

use vstd::prelude::*;

verus! {

/// The greatest of the ids, if there is any.
pub open spec fn max_id(ids: Seq<i64>) -> Option<i64>
    decreases ids.len(),
{
    if ids.len() == 0 {
        None
    } else {
        match max_id(ids.drop_last()) {
            None => Some(ids.last()),
            Some(m) => Some(if m < ids.last() { ids.last() } else { m }),
        }
    }
}

/// The id of the next row: 1 in an empty table, else one more than the
/// greatest id; none when the greatest id is `i64::MAX`.
pub open spec fn next_id(ids: Seq<i64>) -> Option<i64> {
    match max_id(ids) {
        None => Some(1),
        Some(m) => if m < i64::MAX { Some((m + 1) as i64) } else { None },
    }
}

/// The greatest id is one of the ids, and no id is greater.
pub proof fn lemma_max_id(ids: Seq<i64>)
    ensures
        max_id(ids) is None <==> ids.len() == 0,
        max_id(ids) matches Some(m) ==> {
            &&& forall|j: int| 0 <= j < ids.len() ==> #[trigger] ids[j] <= m
            &&& exists|j: int| 0 <= j < ids.len() && #[trigger] ids[j] == m
        },
    decreases ids.len(),
{
    if ids.len() > 0 {
        let rest = ids.drop_last();
        let last = ids.len() - 1;
        lemma_max_id(rest);
        if let Some(m) = max_id(rest) {
            let k = choose|k: int| 0 <= k < rest.len() && #[trigger] rest[k] == m;
            assert(ids[k] == m);
            let top = max_id(ids)->0;
            assert forall|j: int| 0 <= j < ids.len() implies #[trigger] ids[j] <= top by {
                if j < last {
                    assert(rest[j] <= m);
                }
            }
        } else {
            assert(ids[last] == ids.last());
        }
    }
}

/// A new id differs from, and is greater than, every id already taken.
pub proof fn lemma_next_id_fresh(ids: Seq<i64>)
    ensures
        next_id(ids) matches Some(id) ==> forall|j: int| 0 <= j < ids.len() ==> #[trigger] ids[j] < id,
{
    lemma_max_id(ids);
}

/// The next id is one more than the greatest id taken, 1 when none is
/// taken, and there is none exactly when `i64::MAX` is taken.
pub proof fn lemma_next_id_successor(ids: Seq<i64>)
    ensures
        ids.len() == 0 ==> next_id(ids) == Some(1i64),
        next_id(ids) is None <==> ids.contains(i64::MAX),
        forall|n: i64| next_id(ids) == Some(n) && ids.len() > 0 ==> {
            &&& ids.contains((n - 1) as i64)
            &&& forall|j: int| 0 <= j < ids.len() ==> #[trigger] ids[j] < n
        },
{
    lemma_max_id(ids);
    if let Some(m) = max_id(ids) {
        let k = choose|k: int| 0 <= k < ids.len() && #[trigger] ids[k] == m;
        assert(ids.contains(m));
        if ids.contains(i64::MAX) {
            let j = choose|j: int| 0 <= j < ids.len() && ids[j] == i64::MAX;
            assert(ids[j] <= m);
        }
    }
}

/// The id of the next row of a table whose ids are `ids`.
pub fn next_id_of(ids: &Vec<i64>) -> (id: Option<i64>)
    ensures
        id == next_id(ids@),
{
    let mut max: Option<i64> = None;
    for i in 0..ids.len()
        invariant
            max == max_id(ids@.take(i as int)),
    {
        assert(ids@.take(i + 1).drop_last() =~= ids@.take(i as int));
        let id = ids[i];
        max = match max {
            None => Some(id),
            Some(m) => Some(if m < id { id } else { m }),
        };
    }
    assert(ids@.take(ids@.len() as int) =~= ids@);
    match max {
        None => Some(1),
        Some(m) => if m < i64::MAX { Some(m + 1) } else { None },
    }
}

} // verus!
