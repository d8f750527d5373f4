//! The IDs of RPC calls: which ones are taken, and by whom.

use vstd::prelude::*;

verus! {

/// Calls `array_init::array_init` with an initializer that gives `None`: every
/// one of the 256 elements is what the initializer gave for it.
#[verifier::external_body]
fn empty_slots<C>() -> (r: [Option<C>; 256])
    ensures
        forall|i: int| 0 <= i < 256 ==> (#[trigger] r@[i]) is None,
{
    array_init::array_init(|_| None)
}

/// The calls that a client waits for, each under the ID it was sent with.
pub struct CallTable<C> {
    slots: [Option<C>; 256],
}

impl<C> View for CallTable<C> {
    type V = Map<u8, C>;

    closed spec fn view(&self) -> Map<u8, C> {
        Map::new(|id: u8| self.slots@[id as int] is Some, |id: u8| self.slots@[id as int]->0)
    }
}

/// The lowest ID from `from` on that is not taken.
pub open spec fn lowest_free(taken: Set<u8>, from: int) -> Option<u8>
    decreases 256 - from,
{
    if from >= 256 {
        None
    } else if !taken.contains(from as u8) {
        Some(from as u8)
    } else {
        lowest_free(taken, from + 1)
    }
}

impl<C> CallTable<C> {
    /// A table that waits for no call.
    pub fn new() -> (r: Self)
        ensures
            r@ == Map::<u8, C>::empty(),
    {
        CallTable { slots: empty_slots() }
    }

    /// The lowest ID that no call is under, if there is one.
    pub fn free_id(&self) -> (r: Option<u8>)
        ensures
            r == lowest_free(self@.dom(), 0),
    {
        let mut id: usize = 0;
        while id < 256
            invariant
                id <= 256,
                lowest_free(self@.dom(), 0) == lowest_free(self@.dom(), id as int),
            decreases 256 - id,
        {
            if self.slots[id].is_none() {
                return Some(id as u8);
            }
            id += 1;
        }
        None
    }

    /// Puts a call under an ID, in place of the one that was there, if any.
    pub fn insert(&mut self, id: u8, call: C)
        ensures
            final(self)@ == old(self)@.insert(id, call),
    {
        self.slots[id as usize] = Some(call);
    }

    /// Takes out the call under an ID, if there is one.
    pub fn take(&mut self, id: u8) -> (r: Option<C>)
        ensures
            final(self)@ == old(self)@.remove(id),
            r == if old(self)@.contains_key(id) {
                Some(old(self)@[id])
            } else {
                None
            },
    {
        self.slots[id as usize].take()
    }
}

/// The IDs below `n`.
spec fn ids_below(n: int) -> Set<u8> {
    Set::new(|id: u8| id < n)
}

proof fn lemma_ids_below(n: int)
    requires
        0 <= n <= 256,
    ensures
        ids_below(n).finite(),
        ids_below(n).len() == n,
    decreases n,
{
    if n == 0 {
        assert(ids_below(0) =~= Set::<u8>::empty());
    } else {
        lemma_ids_below(n - 1);
        assert(ids_below(n) =~= ids_below(n - 1).insert((n - 1) as u8));
    }
}

proof fn lemma_lowest_free_from(taken: Set<u8>, from: int)
    requires
        0 <= from <= 256,
    ensures
        match lowest_free(taken, from) {
            Some(id) => from <= id && !taken.contains(id) && forall|other: u8|
                from <= other < id ==> #[trigger] taken.contains(other),
            None => forall|other: u8| from <= other ==> #[trigger] taken.contains(other),
        },
    decreases 256 - from,
{
    if from < 256 {
        lemma_lowest_free_from(taken, from + 1);
    }
}

/// A new call gets an ID that no call has that is waited for, and the lowest such. It
/// gets none only if every ID is taken.
pub proof fn a_new_id_is_free(taken: Set<u8>)
    ensures
        match lowest_free(taken, 0) {
            Some(id) => !taken.contains(id) && forall|other: u8|
                other < id ==> #[trigger] taken.contains(other),
            None => forall|other: u8| #[trigger] taken.contains(other),
        },
{
    lemma_lowest_free_from(taken, 0);
}

/// At most 256 calls are waited for at once, and a new call gets an ID exactly if there
/// are fewer.
pub proof fn at_most_256_calls(taken: Set<u8>)
    ensures
        taken.len() <= 256,
        lowest_free(taken, 0) is Some <==> taken.len() < 256,
{
    lemma_lowest_free_from(taken, 0);
    lemma_ids_below(256);
    assert(taken.subset_of(ids_below(256)));
    vstd::set_lib::lemma_len_subset(taken, ids_below(256));
    if lowest_free(taken, 0) is None {
        assert(taken =~= ids_below(256));
    } else {
        let id = lowest_free(taken, 0)->0;
        assert(taken.subset_of(ids_below(256).remove(id)));
        vstd::set_lib::lemma_len_subset(taken, ids_below(256).remove(id));
    }
}

}
