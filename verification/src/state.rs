//! The state of a connection: how the server finds what a handler changed, and how
//! the client applies it.

use vstd::prelude::*;

use crate::wire::{HandlerResult, RpcHandlerError};

verus! {

/// A connection state: a structure whose fields have numbers, can be compared, and
/// can be serialized one by one. What these operations come to is for each state to say;
/// it is left open where a state does not.
pub trait ConnectionState: Sized {
    /// How many fields there are.
    open spec fn field_count() -> nat {
        arbitrary()
    }

    /// Whether the field with a number is another in `other`.
    open spec fn differs(&self, other: &Self, index: int) -> bool {
        arbitrary()
    }

    /// Whether bytes are the serialized form of the field with a number.
    open spec fn serializes(&self, index: int, bytes: Seq<u8>) -> bool {
        arbitrary()
    }

    /// The state whose field with a number is read from bytes, if they can be read.
    open spec fn with_field(self, index: int, bytes: Seq<u8>) -> Option<Self> {
        arbitrary()
    }

    /// How many fields there are.
    fn fields() -> (n: usize)
        ensures
            n == Self::field_count(),
    ;

    /// Whether the field with a number is another in `other`.
    fn field_differs(&self, other: &Self, index: usize) -> (r: bool)
        requires
            index < Self::field_count(),
        ensures
            r == self.differs(other, index as int),
    ;

    /// Serializes the field with a number.
    fn encode_field(&self, index: usize) -> (bytes: Vec<u8>)
        requires
            index < Self::field_count(),
        ensures
            self.serializes(index as int, bytes@),
    ;

    /// Reads the field with a number from bytes. `false`, and the state as it was, if
    /// they cannot be read.
    fn decode_field(&mut self, index: usize, bytes: &[u8]) -> (ok: bool)
        requires
            index < Self::field_count(),
        ensures
            ok == old(self).with_field(index as int, bytes@) is Some,
            *final(self) == match old(self).with_field(index as int, bytes@) {
                Some(state) => state,
                None => *old(self),
            },
    ;
}

/// The numbers below `n` of the fields that differ, in ascending order.
pub open spec fn changed_fields<S: ConnectionState>(start: S, end: S, n: int) -> Seq<usize>
    decreases n,
{
    if n <= 0 {
        seq![]
    } else if end.differs(&start, n - 1) {
        changed_fields(start, end, n - 1).push((n - 1) as usize)
    } else {
        changed_fields(start, end, n - 1)
    }
}

/// Whether these are the changes that lead from one state to another: the numbers
/// of the fields that differ, in ascending order, each with the serialized new
/// value.
pub open spec fn leads_to<S: ConnectionState>(
    start: S,
    end: S,
    changes: Seq<(usize, Vec<u8>)>,
) -> bool {
    &&& changes.map_values(|change: (usize, Vec<u8>)| change.0) == changed_fields(
        start,
        end,
        S::field_count() as int,
    )
    &&& forall|k: int|
        0 <= k < changes.len() ==> end.serializes(
            (#[trigger] changes[k]).0 as int,
            changes[k].1@,
        )
}

/// The changes that lead from one state to another.
pub fn changes_between<S: ConnectionState>(start: &S, end: &S) -> (changes: Vec<
    (usize, Vec<u8>),
>)
    ensures
        leads_to(*start, *end, changes@),
{
    let mut changes: Vec<(usize, Vec<u8>)> = Vec::new();
    let count = S::fields();
    let mut index: usize = 0;
    let ghost number = |change: (usize, Vec<u8>)| change.0;
    assert(changes@.map_values(number) =~= Seq::<usize>::empty());
    while index < count
        invariant
            index <= count,
            count == S::field_count(),
            number == |change: (usize, Vec<u8>)| change.0,
            changes@.map_values(number) == changed_fields(*start, *end, index as int),
            forall|k: int|
                0 <= k < changes@.len() ==> end.serializes(
                    (#[trigger] changes@[k]).0 as int,
                    changes@[k].1@,
                ),
        decreases count - index,
    {
        if end.field_differs(start, index) {
            let bytes = end.encode_field(index);
            let ghost before = changes@;
            changes.push((index, bytes));
            assert(changes@.map_values(number) =~= before.map_values(number).push(index));
        }
        index += 1;
    }
    changes
}

/// Whether this is what is sent of the way from one state to another: the changes that lead
/// there, or nothing if there are none.
pub open spec fn is_update<S: ConnectionState>(
    start: S,
    end: S,
    update: Option<Vec<(usize, Vec<u8>)>>,
) -> bool {
    match update {
        Some(changes) => changes@.len() > 0 && leads_to(start, end, changes@),
        None => leads_to(start, end, seq![]),
    }
}

/// What is sent of the way from one state to another.
pub fn update_between<S: ConnectionState>(start: &S, end: &S) -> (r: Option<
    Vec<(usize, Vec<u8>)>,
>)
    ensures
        is_update(*start, *end, r),
{
    let changes = changes_between(start, end);
    if changes.is_empty() {
        assert(changes@ =~= seq![]);
        None
    } else {
        Some(changes)
    }
}

/// The state after changes, and how applying them ended. A change to a field that
/// there is not is passed over; a change whose bytes cannot be read ends it, and the
/// changes before it stay.
pub open spec fn applied<S: ConnectionState>(state: S, changes: Seq<(usize, Vec<u8>)>) -> (
    S,
    HandlerResult<()>,
)
    decreases changes.len(),
{
    if changes.len() == 0 {
        (state, Ok(()))
    } else if changes[0].0 < S::field_count() {
        match state.with_field(changes[0].0 as int, changes[0].1@) {
            Some(next) => applied(next, changes.skip(1)),
            None => (state, Err(RpcHandlerError::BadInputBytes)),
        }
    } else {
        applied(state, changes.skip(1))
    }
}

/// Applies changes to a state.
pub fn apply_all<S: ConnectionState>(state: &mut S, changes: Vec<(usize, Vec<u8>)>) -> (result:
    HandlerResult<()>)
    ensures
        (*final(state), result) == applied(*old(state), changes@),
{
    let count = S::fields();
    let ghost goal = applied(*state, changes@);
    let mut k: usize = 0;
    assert(changes@.skip(0) =~= changes@);
    while k < changes.len()
        invariant
            k <= changes.len(),
            count == S::field_count(),
            goal == applied(*old(state), changes@),
            applied(*state, changes@.skip(k as int)) == goal,
        decreases changes.len() - k,
    {
        assert(changes@.skip(k as int).skip(1) =~= changes@.skip(k + 1));
        let index = changes[k].0;
        if index < count {
            if !state.decode_field(index, changes[k].1.as_slice()) {
                return Err(RpcHandlerError::BadInputBytes);
            }
        }
        k += 1;
    }
    Ok(())
}

/// Whether reading a field from its serialized form makes that field the same, and
/// leaves the others as they are.
pub open spec fn faithful<S: ConnectionState>() -> bool {
    forall|state: S, end: S, index: int, bytes: Seq<u8>|
        0 <= index < S::field_count() && #[trigger] end.serializes(index, bytes) ==> {
            &&& (#[trigger] state.with_field(index, bytes)) is Some
            &&& !end.differs(&state.with_field(index, bytes)->0, index)
            &&& forall|other: int|
                0 <= other < S::field_count() && other != index ==> (#[trigger] end.differs(
                    &state.with_field(index, bytes)->0,
                    other,
                )) == end.differs(&state, other)
        }
}

proof fn lemma_changed_fields<S: ConnectionState>(start: S, end: S, n: int)
    requires
        n <= S::field_count(),
        S::field_count() <= usize::MAX,
    ensures
        forall|i: int|
            0 <= i < n ==> (#[trigger] end.differs(&start, i) <==> changed_fields(
                start,
                end,
                n,
            ).contains(i as usize)),
        forall|k: int|
            0 <= k < changed_fields(start, end, n).len() ==> #[trigger] changed_fields(
                start,
                end,
                n,
            )[k] < n,
        changed_fields(start, end, n).no_duplicates(),
    decreases n,
{
    if n > 0 {
        lemma_changed_fields(start, end, n - 1);
        let shorter = changed_fields(start, end, n - 1);
        let longer = changed_fields(start, end, n);
        assert forall|i: int|
            0 <= i < n implies (#[trigger] end.differs(&start, i) <==> longer.contains(
            i as usize,
        )) by {
            if end.differs(&start, n - 1) {
                assert(longer.last() == (n - 1) as usize);
                if i < n - 1 {
                    if shorter.contains(i as usize) {
                        let k = choose|k: int| 0 <= k < shorter.len() && shorter[k] == i as usize;
                        assert(longer[k] == i as usize);
                    }
                    if longer.contains(i as usize) {
                        let k = choose|k: int| 0 <= k < longer.len() && longer[k] == i as usize;
                        assert(shorter[k] == i as usize);
                    }
                }
            } else if i == n - 1 {
                assert(!longer.contains(i as usize));
            }
        }
    }
}

proof fn lemma_apply_in_step<S: ConnectionState>(
    end: S,
    state: S,
    changes: Seq<(usize, Vec<u8>)>,
)
    requires
        faithful::<S>(),
        changes.map_values(|change: (usize, Vec<u8>)| change.0).no_duplicates(),
        forall|k: int|
            0 <= k < changes.len() ==> (#[trigger] changes[k]).0 < S::field_count()
                && end.serializes(changes[k].0 as int, changes[k].1@),
        forall|i: int|
            0 <= i < S::field_count() && #[trigger] end.differs(&state, i) ==> exists|k: int|
                0 <= k < changes.len() && (#[trigger] changes[k]).0 == i,
    ensures
        applied(state, changes).1 == Ok::<(), RpcHandlerError>(()),
        forall|i: int|
            0 <= i < S::field_count() ==> !#[trigger] end.differs(&applied(state, changes).0, i),
    decreases changes.len(),
{
    if changes.len() > 0 {
        let index = changes[0].0 as int;
        let bytes = changes[0].1@;
        assert(end.serializes(index, bytes));
        let next = state.with_field(index, bytes)->0;
        assert(state.with_field(index, bytes) is Some);
        let rest = changes.skip(1);
        let number = |change: (usize, Vec<u8>)| change.0;
        assert(rest.map_values(number) =~= changes.map_values(number).skip(1));
        assert forall|i: int|
            0 <= i < S::field_count() && #[trigger] end.differs(&next, i) implies exists|k: int|
            0 <= k < rest.len() && (#[trigger] rest[k]).0 == i by {
            assert(i != index);
            assert(end.differs(&state, i));
            let k = choose|k: int| 0 <= k < changes.len() && (#[trigger] changes[k]).0 == i;
            assert(rest[k - 1] == changes[k]);
        }
        lemma_apply_in_step(end, next, rest);
    }
}

/// Whatever a handler does to the state, the changes that are sent bring the
/// client's state to the server's: applied to a state that differed from the new one
/// where the old one did, they are all taken, and no field differs any more.
pub proof fn changes_bring_the_client_up_to_date<S: ConnectionState>(
    start: S,
    end: S,
    changes: Seq<(usize, Vec<u8>)>,
    client: S,
)
    requires
        faithful::<S>(),
        S::field_count() <= usize::MAX,
        leads_to(start, end, changes),
        forall|i: int|
            0 <= i < S::field_count() ==> (#[trigger] end.differs(&client, i)) == end.differs(
                &start,
                i,
            ),
    ensures
        applied(client, changes).1 == Ok::<(), RpcHandlerError>(()),
        forall|i: int|
            0 <= i < S::field_count() ==> !#[trigger] end.differs(&applied(client, changes).0, i),
{
    let count = S::field_count() as int;
    let numbers = changed_fields(start, end, count);
    lemma_changed_fields(start, end, count);
    assert forall|k: int| 0 <= k < changes.len() implies (#[trigger] changes[k]).0
        < S::field_count() by {
        assert(numbers[k] == changes[k].0);
    }
    assert forall|i: int|
        0 <= i < S::field_count() && #[trigger] end.differs(&client, i) implies exists|k: int|
        0 <= k < changes.len() && (#[trigger] changes[k]).0 == i by {
        assert(end.differs(&start, i));
        let k = choose|k: int| 0 <= k < numbers.len() && numbers[k] == i as usize;
        assert(changes[k].0 == i);
    }
    lemma_apply_in_step(end, client, changes);
}

/// Whether a field that is the same in two states differs from that field in a third
/// state in both or in neither, and is the same as itself.
pub open spec fn comparable<S: ConnectionState>() -> bool {
    &&& forall|a: S, b: S, c: S, index: int|
        0 <= index < S::field_count() && !#[trigger] a.differs(&b, index) ==> (
        #[trigger] c.differs(&a, index)) == c.differs(&b, index)
    &&& forall|a: S, index: int|
        0 <= index < S::field_count() ==> !#[trigger] a.differs(&a, index)
}

/// Applying the changes that lead from one state to another twice gives what applying them
/// once gives.
pub proof fn applying_twice_is_applying_once<S: ConnectionState>(
    start: S,
    end: S,
    changes: Seq<(usize, Vec<u8>)>,
    client: S,
)
    requires
        faithful::<S>(),
        comparable::<S>(),
        S::field_count() <= usize::MAX,
        leads_to(start, end, changes),
        forall|i: int|
            0 <= i < S::field_count() ==> (#[trigger] end.differs(&client, i)) == end.differs(
                &start,
                i,
            ),
    ensures
        ({
            let once = applied(client, changes).0;
            let (twice, result) = applied(once, changes);
            &&& result == Ok::<(), RpcHandlerError>(())
            &&& forall|i: int| 0 <= i < S::field_count() ==> !#[trigger] twice.differs(&once, i)
        }),
{
    let count = S::field_count() as int;
    let numbers = changed_fields(start, end, count);
    let once = applied(client, changes).0;
    let twice = applied(once, changes).0;
    lemma_changed_fields(start, end, count);
    changes_bring_the_client_up_to_date(start, end, changes, client);
    assert forall|k: int| 0 <= k < changes.len() implies (#[trigger] changes[k]).0
        < S::field_count() by {
        assert(numbers[k] == changes[k].0);
    }
    lemma_apply_in_step(end, once, changes);
    assert forall|i: int| 0 <= i < S::field_count() implies !#[trigger] twice.differs(&once, i) by {
        assert(!end.differs(&once, i));
        assert(!end.differs(&twice, i));
        assert(twice.differs(&end, i) == twice.differs(&once, i));
        assert(twice.differs(&end, i) == twice.differs(&twice, i));
    }
}

/// The state after one list of changes after the other.
pub open spec fn applied_in_turn<S: ConnectionState>(
    state: S,
    lists: Seq<Seq<(usize, Vec<u8>)>>,
) -> S
    decreases lists.len(),
{
    if lists.len() == 0 {
        state
    } else {
        applied(applied_in_turn(state, lists.drop_last()), lists.last()).0
    }
}

/// Applying lists of changes in turn is applying the first and then the others.
pub proof fn first_list_first<S: ConnectionState>(state: S, lists: Seq<Seq<(usize, Vec<u8>)>>)
    requires
        lists.len() > 0,
    ensures
        applied_in_turn(state, lists) == applied_in_turn(
            applied(state, lists[0]).0,
            lists.skip(1),
        ),
    decreases lists.len(),
{
    if lists.len() == 1 {
        assert(lists.drop_last() =~= seq![]);
        assert(lists.skip(1) =~= seq![]);
        reveal_with_fuel(applied_in_turn, 2);
    } else {
        first_list_first(state, lists.drop_last());
        assert(lists.skip(1).drop_last() =~= lists.drop_last().skip(1));
    }
}

/// A client that starts from the server's first state, and is given what leads from each
/// of the server's states to the next, in that order, has the server's last state.
pub proof fn client_follows_the_server<S: ConnectionState>(
    states: Seq<S>,
    lists: Seq<Seq<(usize, Vec<u8>)>>,
)
    requires
        faithful::<S>(),
        comparable::<S>(),
        S::field_count() <= usize::MAX,
        states.len() == lists.len() + 1,
        forall|k: int|
            0 <= k < lists.len() ==> leads_to(states[k], states[k + 1], #[trigger] lists[k]),
    ensures
        forall|i: int|
            0 <= i < S::field_count() ==> !#[trigger] states.last().differs(
                &applied_in_turn(states[0], lists),
                i,
            ),
    decreases lists.len(),
{
    if lists.len() > 0 {
        let earlier = states.drop_last();
        let client = applied_in_turn(states[0], lists.drop_last());
        assert forall|k: int| 0 <= k < lists.drop_last().len() implies leads_to(
            earlier[k],
            earlier[k + 1],
            #[trigger] lists.drop_last()[k],
        ) by {
            assert(leads_to(states[k], states[k + 1], lists[k]));
        }
        client_follows_the_server(earlier, lists.drop_last());
        assert(earlier[0] == states[0]);
        let n = lists.len() - 1;
        assert(leads_to(states[n], states[n + 1], lists[n]));
        assert forall|i: int| 0 <= i < S::field_count() implies (#[trigger] states.last().differs(
            &client,
            i,
        )) == states.last().differs(&earlier.last(), i) by {
            assert(!earlier.last().differs(&client, i));
        }
        changes_bring_the_client_up_to_date(earlier.last(), states.last(), lists.last(), client);
    }
}

/// Where no field differs there is nothing to send.
pub proof fn no_change_without_a_difference<S: ConnectionState>(
    start: S,
    end: S,
    changes: Seq<(usize, Vec<u8>)>,
)
    requires
        S::field_count() <= usize::MAX,
        leads_to(start, end, changes),
    ensures
        changes.len() == 0 <==> forall|i: int|
            0 <= i < S::field_count() ==> !#[trigger] end.differs(&start, i),
{
    let count = S::field_count() as int;
    let numbers = changed_fields(start, end, count);
    lemma_changed_fields(start, end, count);
    assert(changes.len() == numbers.len());
    if changes.len() > 0 {
        assert(numbers.contains(numbers[0]));
        assert(end.differs(&start, numbers[0] as int));
    } else {
        assert forall|i: int| 0 <= i < S::field_count() implies !#[trigger] end.differs(
            &start,
            i,
        ) by {
            assert(!numbers.contains(i as usize));
        }
    }
}

/// A locked connection state: the state that the handler works on, and what it was
/// when it was locked.
pub struct StateGuard<S> {
    /// The state.
    pub state: S,
    /// The state when it was locked.
    pub starting_state: S,
}

impl<S: ConnectionState + Clone> StateGuard<S> {
    /// Locks a state.
    pub fn lock(state: S) -> (guard: Self)
        ensures
            guard.state == state,
            cloned::<S>(state, guard.starting_state),
    {
        let starting_state = state.clone();
        StateGuard { state, starting_state }
    }

    /// Unlocks the state, and gives what is sent of the changes that were made to it.
    pub fn unlock(self) -> (r: (S, Option<Vec<(usize, Vec<u8>)>>))
        ensures
            r.0 == self.state,
            is_update(self.starting_state, self.state, r.1),
    {
        let update = update_between(&self.starting_state, &self.state);
        (self.state, update)
    }
}

/// Nothing changes without changes; one change reads its field from its bytes, or ends in an
/// error with the state as it was if they cannot be read; and a change to a field that there is
/// not is passed over.
pub proof fn one_change_is_applied<S: ConnectionState>(state: S, index: usize, bytes: Vec<u8>)
    ensures
        applied(state, seq![]) == (state, Ok::<(), RpcHandlerError>(())),
        index < S::field_count() && state.with_field(index as int, bytes@) is Some ==> applied(
            state,
            seq![(index, bytes)],
        ) == (state.with_field(index as int, bytes@)->0, Ok::<(), RpcHandlerError>(())),
        index < S::field_count() && state.with_field(index as int, bytes@) is None ==> applied(
            state,
            seq![(index, bytes)],
        ) == (state, Err::<(), RpcHandlerError>(RpcHandlerError::BadInputBytes)),
        index >= S::field_count() ==> applied(state, seq![(index, bytes)]) == (
            state,
            Ok::<(), RpcHandlerError>(()),
        ),
{
    let changes = seq![(index, bytes)];
    reveal_with_fuel(applied, 2);
    assert(changes.skip(1) =~= seq![]);
}

/// However many changes there are, applying them is applying the first ones and then the
/// others to what the first ones gave, unless the first ones ended in an error, which then ends
/// it all.
pub proof fn changes_are_applied_in_order<S: ConnectionState>(
    state: S,
    first: Seq<(usize, Vec<u8>)>,
    second: Seq<(usize, Vec<u8>)>,
)
    ensures
        applied(state, first).1 is Ok ==> applied(state, first + second) == applied(
            applied(state, first).0,
            second,
        ),
        applied(state, first).1 is Err ==> applied(state, first + second) == applied(state, first),
    decreases first.len(),
{
    if first.len() == 0 {
        assert(first + second =~= second);
    } else {
        let all = first + second;
        assert(all.skip(1) =~= first.skip(1) + second);
        assert(all[0] == first[0]);
        if first[0].0 < S::field_count() {
            match state.with_field(first[0].0 as int, first[0].1@) {
                Some(next) => changes_are_applied_in_order(next, first.skip(1), second),
                None => {},
            }
        } else {
            changes_are_applied_in_order(state, first.skip(1), second);
        }
    }
}

proof fn lemma_changed_fields_ascend<S: ConnectionState>(start: S, end: S, n: int)
    requires
        n <= S::field_count(),
        S::field_count() <= usize::MAX,
    ensures
        forall|j: int, k: int|
            0 <= j < k < changed_fields(start, end, n).len() ==> changed_fields(start, end, n)[j]
                < changed_fields(start, end, n)[k],
    decreases n,
{
    if n > 0 {
        let shorter = changed_fields(start, end, n - 1);
        let longer = changed_fields(start, end, n);
        lemma_changed_fields_ascend(start, end, n - 1);
        lemma_changed_fields(start, end, n - 1);
        assert forall|j: int, k: int| 0 <= j < k < longer.len() implies longer[j] < longer[k] by {
            assert(longer[j] == shorter[j]);
            assert(shorter[j] < n - 1);
            if k < shorter.len() {
                assert(longer[k] == shorter[k]);
            }
        }
    }
}

/// What is sent of the way from one state to another names exactly the fields that differ,
/// each once, in ascending order, and gives each with the serialized form that it has in the
/// new state. Nothing is sent exactly if no field differs.
pub proof fn exactly_what_differs_is_sent<S: ConnectionState>(
    start: S,
    end: S,
    update: Option<Vec<(usize, Vec<u8>)>>,
)
    requires
        S::field_count() <= usize::MAX,
        is_update(start, end, update),
    ensures
        update is Some <==> exists|i: int|
            0 <= i < S::field_count() && #[trigger] end.differs(&start, i),
        update matches Some(changes) ==> {
            &&& forall|k: int|
                0 <= k < changes@.len() ==> {
                    &&& end.serializes((#[trigger] changes@[k]).0 as int, changes@[k].1@)
                    &&& changes@[k].0 < S::field_count()
                    &&& end.differs(&start, changes@[k].0 as int)
                }
            &&& forall|j: int, k: int|
                0 <= j < k < changes@.len() ==> (#[trigger] changes@[j]).0 < (
                #[trigger] changes@[k]).0
            &&& forall|i: int|
                0 <= i < S::field_count() && #[trigger] end.differs(&start, i) ==> exists|k: int|
                    0 <= k < changes@.len() && (#[trigger] changes@[k]).0 == i
        },
{
    let count = S::field_count() as int;
    let numbers = changed_fields(start, end, count);
    lemma_changed_fields(start, end, count);
    lemma_changed_fields_ascend(start, end, count);
    let changes = if update is Some {
        update->0@
    } else {
        seq![]
    };
    no_change_without_a_difference(start, end, changes);
    assert forall|k: int| 0 <= k < changes.len() implies (#[trigger] changes[k]).0 < count
        && end.differs(&start, changes[k].0 as int) by {
        assert(numbers[k] == changes[k].0);
        assert(numbers.contains(numbers[k]));
    }
    assert forall|j: int, k: int| 0 <= j < k < changes.len() implies (#[trigger] changes[j]).0 < (
    #[trigger] changes[k]).0 by {
        assert(numbers[j] == changes[j].0 && numbers[k] == changes[k].0);
    }
    assert forall|i: int| 0 <= i < count && #[trigger] end.differs(&start, i) implies exists|k: int|
        0 <= k < changes.len() && (#[trigger] changes[k]).0 == i by {
        let k = choose|k: int| 0 <= k < numbers.len() && numbers[k] == i as usize;
        assert(changes[k].0 == i);
    }
}

}
