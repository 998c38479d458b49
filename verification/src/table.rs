//! Tables from identifiers to numbers: which connection serves an identity, and which
//! running session belongs to a peer.
use vstd::prelude::*;

use crate::external::{entries, table_get, table_insert, table_new, table_remove, table_remove_if};
use crate::qid::{qid_views, Qid};

verus! {

/// A table from identifiers to numbers.
pub struct Table {
    map: dashmap::DashMap<Vec<u8>, u64>,
}

impl View for Table {
    type V = Map<Seq<u8>, u64>;

    closed spec fn view(&self) -> Map<Seq<u8>, u64> {
        entries(self.map)
    }
}

/// What is left of a table once each of these identifiers that holds this number holds
/// nothing.
pub open spec fn withdrawn(table: Map<Seq<u8>, u64>, qids: Seq<Seq<u8>>, number: u64) -> Map<
    Seq<u8>,
    u64,
> {
    Map::new(
        |qid: Seq<u8>| table.contains_key(qid) && !(qids.contains(qid) && table[qid] == number),
        |qid: Seq<u8>| table[qid],
    )
}

impl Table {
    /// A table that holds nothing.
    pub fn new() -> (table: Self)
        ensures
            table@ == Map::<Seq<u8>, u64>::empty(),
    {
        let table = Table { map: table_new() };
        assert(table@ =~= Map::<Seq<u8>, u64>::empty());
        table
    }

    /// Puts a number under an identifier, in place of what it held.
    pub fn insert(&mut self, qid: Qid, number: u64)
        ensures
            final(self)@ == old(self)@.insert(qid@, number),
    {
        table_insert(&mut self.map, qid.bytes, number);
    }

    /// What an identifier holds.
    pub fn get(&self, qid: &Qid) -> (number: Option<u64>)
        ensures
            number == if self@.contains_key(qid@) {
                Some(self@[qid@])
            } else {
                None
            },
    {
        table_get(&self.map, qid.bytes.as_slice())
    }

    /// Takes out what an identifier holds.
    pub fn remove(&mut self, qid: &Qid)
        ensures
            final(self)@ == old(self)@.remove(qid@),
    {
        table_remove(&mut self.map, qid.bytes.as_slice());
    }

    /// Takes out each of these identifiers, unless it holds another number.
    pub fn withdraw(&mut self, qids: &Vec<Qid>, number: u64)
        ensures
            final(self)@ == withdrawn(old(self)@, qid_views(qids@), number),
    {
        let ghost views = qid_views(qids@);
        assert(self@ =~= withdrawn(self@, views.take(0), number));
        let mut i: usize = 0;
        while i < qids.len()
            invariant
                i <= qids.len(),
                views == qid_views(qids@),
                self@ == withdrawn(old(self)@, views.take(i as int), number),
            decreases qids.len() - i,
        {
            let ghost before = self@;
            table_remove_if(&mut self.map, qids[i].bytes.as_slice(), number);
            proof {
                let next = views.take(i + 1);
                assert(next =~= views.take(i as int).push(views[i as int]));
                assert forall|qid: Seq<u8>| next.contains(qid) <==> (views.take(i as int).contains(
                    qid,
                ) || qid == views[i as int]) by {
                    assert(next[i as int] == views[i as int]);
                    if views.take(i as int).contains(qid) {
                        let at = views.take(i as int).index_of(qid);
                        assert(next[at] == qid);
                    }
                }
                assert(self@ =~= withdrawn(old(self)@, next, number));
            }
            i += 1;
        }
        assert(views.take(i as int) =~= views);
    }
}

} // verus!
