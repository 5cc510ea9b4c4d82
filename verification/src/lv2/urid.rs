//! The map from URIs to the small integers that stand for them.

use vstd::prelude::*;

verus! {

/// Maps URIs to ids. Ids count from 1 in the order in which URIs were first
/// seen; 0 is the id of what could not be mapped.
pub struct UridMap {
    entries: Vec<Vec<u8>>,
}

/// The known URIs once `uri` is among them: new ones come last.
pub open spec fn entered(known: Seq<Seq<u8>>, uri: Seq<u8>) -> Seq<Seq<u8>> {
    if known.contains(uri) {
        known
    } else {
        known.push(uri)
    }
}

/// The id of a known URI: its place, counted from 1.
pub open spec fn id_of(known: Seq<Seq<u8>>, uri: Seq<u8>) -> int {
    known.index_of(uri) + 1
}

impl View for UridMap {
    type V = Seq<Seq<u8>>;

    closed spec fn view(&self) -> Seq<Seq<u8>> {
        Seq::new(self.entries@.len(), |i: int| self.entries@[i]@)
    }
}

/// Whether two byte strings are equal.
pub(crate) fn same_bytes(a: &[u8], b: &[u8]) -> (equal: bool)
    ensures
        equal == (a@ == b@),
{
    if a.len() != b.len() {
        return false;
    }
    let mut i: usize = 0;
    while i < a.len()
        invariant
            i <= a.len(),
            a.len() == b.len(),
            forall|j: int| 0 <= j < i ==> a@[j] == b@[j],
        decreases a.len() - i,
    {
        if a[i] != b[i] {
            return false;
        }
        i += 1;
    }
    assert(a@ =~= b@);
    true
}

impl UridMap {
    /// Whether no URI stands in the map twice.
    pub open spec fn wf(&self) -> bool {
        self@.no_duplicates()
    }

    /// An empty map.
    #[must_use]
    pub fn new() -> (map: Self)
        ensures
            map@ == Seq::<Seq<u8>>::empty(),
            map.wf(),
    {
        let map = UridMap { entries: Vec::new() };
        assert(map@ =~= Seq::<Seq<u8>>::empty());
        map
    }

    /// The number of URIs in the map.
    #[must_use]
    pub fn len(&self) -> (n: usize)
        ensures
            n == self@.len(),
    {
        self.entries.len()
    }

    /// The id of `uri`, which is entered where it is not yet known.
    pub fn map_uri(&mut self, uri: &[u8]) -> (id: u32)
        requires
            old(self).wf(),
            old(self)@.len() < u32::MAX,
        ensures
            final(self).wf(),
            final(self)@ == entered(old(self)@, uri@),
            id == id_of(final(self)@, uri@),
            id != 0,
    {
        let mut i: usize = 0;
        while i < self.entries.len()
            invariant
                i <= self.entries.len(),
                self.entries.len() < u32::MAX,
                *self == *old(self),
                self.wf(),
                forall|j: int| 0 <= j < i ==> self@[j] != uri@,
            decreases self.entries.len() - i,
        {
            if same_bytes(self.entries[i].as_slice(), uri) {
                assert(self@[i as int] == uri@);
                assert(self@.index_of(uri@) == i);
                return i as u32 + 1;
            }
            assert(self@[i as int] != uri@);
            i += 1;
        }
        assert(!self@.contains(uri@));
        self.entries.push(vstd::slice::slice_to_vec(uri));
        assert(self@ =~= old(self)@.push(uri@));
        assert(self@[self@.len() - 1] == uri@);
        assert(self@.index_of(uri@) == self@.len() - 1);
        self.entries.len() as u32
    }
}

/// Mapping a URI again gives the same id and enters nothing.
pub proof fn mapping_again_changes_nothing(known: Seq<Seq<u8>>, uri: Seq<u8>)
    ensures
        entered(entered(known, uri), uri) == entered(known, uri),
{
    if !known.contains(uri) {
        assert(known.push(uri)[known.len() as int] == uri);
        assert(known.push(uri).contains(uri));
    }
}

/// An id stays the same whatever URI is mapped afterwards.
pub proof fn ids_are_stable(known: Seq<Seq<u8>>, uri: Seq<u8>, later: Seq<u8>)
    requires
        known.no_duplicates(),
        known.contains(uri),
    ensures
        id_of(entered(known, later), uri) == id_of(known, uri),
{
    let i = known.index_of(uri);
    let after = entered(known, later);
    assert(known[i] == uri && after[i] == uri);
    let j = after.index_of(uri);
    assert(after[j] == uri && 0 <= j < after.len());
    assert(after.no_duplicates());
}

/// Two URIs never share an id, and no id is 0.
pub proof fn ids_are_distinct(known: Seq<Seq<u8>>, a: Seq<u8>, b: Seq<u8>)
    requires
        known.contains(a),
        known.contains(b),
        a != b,
    ensures
        id_of(known, a) != id_of(known, b),
        id_of(known, a) >= 1,
{
}

/// The first URI that is mapped gets the id 1, and each one that is not yet known the
/// next id.
pub proof fn new_uris_get_the_next_id(known: Seq<Seq<u8>>, uri: Seq<u8>)
    ensures
        !known.contains(uri) ==> id_of(entered(known, uri), uri) == known.len() + 1,
        id_of(entered(Seq::empty(), uri), uri) == 1,
        entered(known, uri).contains(uri),
        forall|i: int|
            0 <= i < known.len() ==> entered(known, uri)[i] == #[trigger] known[i],
{
    let after = entered(known, uri);
    if !known.contains(uri) {
        let n = known.len() as int;
        assert(after[n] == uri);
        let j = after.index_of(uri);
        assert(after[j] == uri && 0 <= j < after.len());
        if j < n {
            assert(known[j] == uri);
        }
    }
    let empty = Seq::<Seq<u8>>::empty();
    assert(!empty.contains(uri));
    let one = entered(empty, uri);
    assert(one[0] == uri);
    assert(one.index_of(uri) == 0);
}

} // verus!
