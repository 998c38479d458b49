//! The identifier of a QL identity.
use vstd::prelude::*;

use crate::external::{hex_encode, hex_text};

verus! {

/// A QL identifier: an opaque byte string, compared byte by byte.
#[derive(Debug)]
pub struct Qid {
    pub bytes: Vec<u8>,
}

impl View for Qid {
    type V = Seq<u8>;

    open spec fn view(&self) -> Seq<u8> {
        self.bytes@
    }
}

/// Whether two byte strings are the same.
pub fn same_bytes(a: &[u8], b: &[u8]) -> (same: bool)
    ensures
        same == (a@ == b@),
{
    if a.len() != b.len() {
        return false;
    }
    let mut i: usize = 0;
    while i < a.len()
        invariant
            i <= a.len(),
            a.len() == b.len(),
            forall|j: int| 0 <= j < i ==> a@[j] == b@[j],
        decreases a.len() - i,
    {
        if a[i] != b[i] {
            return false;
        }
        i += 1;
    }
    assert(a@ =~= b@);
    true
}

/// A copy of a byte string.
pub fn copy_bytes(bytes: &[u8]) -> (copy: Vec<u8>)
    ensures
        copy@ == bytes@,
{
    let mut copy: Vec<u8> = Vec::new();
    copy.extend_from_slice(bytes);
    assert(copy@ =~= bytes@);
    copy
}

impl Clone for Qid {
    fn clone(&self) -> (copy: Self)
        ensures
            copy@ == self@,
    {
        Qid { bytes: copy_bytes(self.bytes.as_slice()) }
    }
}

impl PartialEq for Qid {
    fn eq(&self, other: &Self) -> (same: bool) {
        same_bytes(self.bytes.as_slice(), other.bytes.as_slice())
    }
}

impl vstd::std_specs::cmp::PartialEqSpecImpl for Qid {
    open spec fn obeys_eq_spec() -> bool {
        true
    }

    open spec fn eq_spec(&self, other: &Self) -> bool {
        self@ == other@
    }
}

impl Eq for Qid {

}

impl Qid {
    /// The identifier in lower-case hexadecimal.
    pub fn to_hex(&self) -> (text: String)
        ensures
            text@ == hex_text(self@),
    {
        hex_encode(self.bytes.as_slice())
    }
}

/// A list of identifiers by what they hold.
pub open spec fn qid_views(qids: Seq<Qid>) -> Seq<Seq<u8>> {
    qids.map_values(|qid: Qid| qid@)
}

/// Where an identifier first stands in a list.
pub fn position(qids: &Vec<Qid>, qid: &Qid) -> (at: Option<usize>)
    ensures
        at is Some <==> qid_views(qids@).contains(qid@),
        at matches Some(at) ==> {
            &&& at < qids@.len()
            &&& qids@[at as int]@ == qid@
            &&& forall|i: int| 0 <= i < at ==> (#[trigger] qids@[i])@ != qid@
        },
{
    let mut i: usize = 0;
    while i < qids.len()
        invariant
            i <= qids.len(),
            forall|j: int| 0 <= j < i ==> (#[trigger] qids@[j])@ != qid@,
        decreases qids.len() - i,
    {
        if qids[i] == *qid {
            assert(qid_views(qids@)[i as int] == qid@);
            return Some(i);
        }
        i += 1;
    }
    None
}

} // verus!
