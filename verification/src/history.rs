//! The clusters that a stanza has had, by their numbers.
use std::collections::BTreeMap;
use vstd::prelude::*;

use crate::info::DbHistoryEntry;
use crate::text::text_eq;

verus! {

/// What a history records: of each number a system identifier and a version.
pub open spec fn record(m: Map<u32, DbHistoryEntry>) -> Map<u32, (u64, Seq<char>)> {
    m.map_values(|e: DbHistoryEntry| (e.db_id, e.db_version@))
}

/// The largest number in a history is `n`.
pub open spec fn is_largest(m: Map<u32, DbHistoryEntry>, n: u32) -> bool {
    &&& m.contains_key(n)
    &&& forall|k: u32| #[trigger] m.contains_key(k) ==> k <= n
}

/// The numbers of a history.
fn ids(history: &BTreeMap<u32, DbHistoryEntry>) -> (r: Vec<u32>)
    ensures
        forall|k: u32| #[trigger] history@.contains_key(k) <==> r@.contains(k),
{
    broadcast use vstd::std_specs::btree::group_btree_axioms;

    let mut out: Vec<u32> = Vec::new();
    for k in it: history.keys()
        invariant
            it.seq().unref().to_set() == history@.dom(),
            out@ == it.seq().unref().take(it.index() as int),
            it.index() == it.seq().len() ==> out@ == it.seq().unref(),
    {
        out.push(*k);
        assert(out@ =~= it.seq().unref().take(it.index() as int + 1));
        assert(it.seq().unref().take(it.seq().len() as int) =~= it.seq().unref());
    }
    proof {
        assert forall|k: u32| #[trigger] history@.contains_key(k) <==> out@.contains(k) by {
            assert(history@.dom().contains(k) <==> out@.to_set().contains(k));
        }
    }
    out
}

/// The largest number in a history; none where it is empty.
pub fn largest_id(history: &BTreeMap<u32, DbHistoryEntry>) -> (r: Option<u32>)
    ensures
        match r {
            Some(n) => is_largest(history@, n),
            None => forall|k: u32| !#[trigger] history@.contains_key(k),
        },
        r is None ==> history@ == Map::<u32, DbHistoryEntry>::empty(),
{
    let keys = ids(history);
    let n: usize = keys.len();
    if n == 0 {
        assert(history@ =~= Map::<u32, DbHistoryEntry>::empty());
        return None;
    }
    let mut best: u32 = keys[0];
    let mut i: usize = 1;
    while i < n
        invariant
            1 <= i <= n,
            n == keys.len(),
            keys@.contains(best),
            forall|j: int| 0 <= j < i ==> keys@[j] <= best,
        decreases n - i,
    {
        if keys[i] > best {
            best = keys[i];
        }
        i += 1;
    }
    Some(best)
}

/// Whether two histories record the same.
pub fn same_history(a: &BTreeMap<u32, DbHistoryEntry>, b: &BTreeMap<u32, DbHistoryEntry>) -> (r: bool)
    ensures
        r == (record(a@) == record(b@)),
{
    broadcast use vstd::std_specs::btree::group_btree_axioms;

    proof {
        assert(record(a@).dom() =~= a@.dom());
        assert(record(b@).dom() =~= b@.dom());
    }
    if a.len() != b.len() {
        return false;
    }
    let keys = ids(a);
    let n: usize = keys.len();
    let mut i: usize = 0;
    while i < n
        invariant
            i <= n,
            n == keys.len(),
            record(a@).dom() == a@.dom(),
            record(b@).dom() == b@.dom(),
            forall|k: u32| #[trigger] a@.contains_key(k) <==> keys@.contains(k),
            forall|j: int|
                0 <= j < i ==> b@.contains_key(#[trigger] keys@[j]) && record(a@)[keys@[j]] == record(b@)[keys@[j]],
        decreases n - i,
    {
        let k: u32 = keys[i];
        assert(keys@.contains(k));
        assert(a@.contains_key(k));
        let same: bool = match (a.get(&k), b.get(&k)) {
            (Some(x), Some(y)) => x.db_id == y.db_id && text_eq(x.db_version.as_str(), y.db_version.as_str()),
            _ => false,
        };
        if !same {
            assert(!record(b@).contains_key(k) || record(a@)[k] != record(b@)[k]);
            return false;
        }
        i += 1;
    }
    proof {
        assert forall|k: u32| #[trigger] a@.contains_key(k) implies b@.contains_key(k) && record(a@)[k] == record(b@)[k] by {
            let j = choose|j: int| 0 <= j < keys@.len() && keys@[j] == k;
            assert(b@.contains_key(keys@[j]));
        }
        assert(a@.dom().subset_of(b@.dom()));
        vstd::set_lib::lemma_subset_equality(a@.dom(), b@.dom());
        assert(record(a@) =~= record(b@));
    }
    true
}

/// Two histories are the same where every number that either has stands in both for the
/// same cluster: the same system identifier and the same version.
pub proof fn law_same_clusters_same_history(
    a: &BTreeMap<u32, DbHistoryEntry>,
    b: &BTreeMap<u32, DbHistoryEntry>,
    r: bool,
    largest: Option<u32>,
)
    requires
        call_ensures(same_history, (a, b), r),
        call_ensures(largest_id, (a,), largest),
    ensures
        r <==> forall|k: u32|
            (#[trigger] a@.contains_key(k) <==> b@.contains_key(k)) && (a@.contains_key(k) ==> a@[k].db_id == b@[k].db_id
                && a@[k].db_version@ == b@[k].db_version@),
        largest matches Some(n) ==> a@.contains_key(n) && forall|k: u32| #[trigger] a@.contains_key(k) ==> k <= n,
        largest is None ==> forall|k: u32| !#[trigger] a@.contains_key(k),
{
    let x = record(a@);
    let y = record(b@);
    assert(x.dom() =~= a@.dom());
    assert(y.dom() =~= b@.dom());
    if r {
        assert forall|k: u32|
            (#[trigger] a@.contains_key(k) <==> b@.contains_key(k)) && (a@.contains_key(k) ==> a@[k].db_id == b@[k].db_id
                && a@[k].db_version@ == b@[k].db_version@) by {
            assert(x.dom().contains(k) == y.dom().contains(k));
            if a@.contains_key(k) {
                assert(x[k] == y[k]);
            }
        }
    }
    if forall|k: u32|
        (#[trigger] a@.contains_key(k) <==> b@.contains_key(k)) && (a@.contains_key(k) ==> a@[k].db_id == b@[k].db_id
            && a@[k].db_version@ == b@[k].db_version@) {
        assert forall|k: u32| x.dom().contains(k) == y.dom().contains(k) by {
            assert(a@.contains_key(k) <==> b@.contains_key(k));
        }
        assert(x =~= y);
    }
}

/// The largest number of a history is one of its numbers, and none is larger.
pub proof fn law_no_number_is_larger(history: &BTreeMap<u32, DbHistoryEntry>, r: Option<u32>, k: u32)
    requires
        call_ensures(largest_id, (history,), r),
        history@.contains_key(k),
    ensures
        r is Some,
        k <= r.unwrap(),
        history@.contains_key(r.unwrap()),
{
    if r is None {
        assert(history@ == Map::<u32, DbHistoryEntry>::empty());
        assert(!history@.contains_key(k));
    }
}

}
