//! A counter service: each connection has a counter of its own, which the client can
//! add to, take from and read.

use vstd::prelude::*;

use crate::application::{accept_call, accept_enabled_call, finish_call, Features};
use crate::client::{may_become, ClientState};
use crate::codec::{
    a_number_is_read_from_the_end, decode_u32, decode_undoes_encode, decode_unit, decoded_u32,
    encode_u32, encode_unit, le_bytes,
};
use crate::state::{
    applied, applied_in_turn, apply_all, applying_twice_is_applying_once, changed_fields,
    changes_bring_the_client_up_to_date,
    client_follows_the_server, comparable, faithful, first_list_first, leads_to, ConnectionState,
    StateGuard,
};
use crate::wire::{HandlerResult, RpcHandlerError};

verus! {

/// The state of a connection.
#[derive(Clone, Copy, Debug, PartialEq, Eq, Structural)]
pub struct State {
    /// The counter.
    pub counter: u32,
}

impl Default for State {
    /// The counter starts at zero.
    fn default() -> (r: Self)
        ensures
            r.counter == 0,
    {
        State { counter: 0 }
    }
}

impl ConnectionState for State {
    open spec fn field_count() -> nat {
        1
    }

    open spec fn differs(&self, other: &Self, index: int) -> bool {
        self.counter != other.counter
    }

    open spec fn serializes(&self, index: int, bytes: Seq<u8>) -> bool {
        bytes == le_bytes(self.counter)
    }

    open spec fn with_field(self, index: int, bytes: Seq<u8>) -> Option<Self> {
        match decoded_u32(bytes) {
            Some(counter) => Some(State { counter }),
            None => None,
        }
    }

    fn fields() -> (n: usize) {
        1
    }

    fn field_differs(&self, other: &Self, index: usize) -> (r: bool) {
        self.counter != other.counter
    }

    fn encode_field(&self, index: usize) -> (bytes: Vec<u8>) {
        encode_u32(self.counter)
    }

    fn decode_field(&mut self, index: usize, bytes: &[u8]) -> (ok: bool) {
        match decode_u32(bytes) {
            Some(counter) => {
                self.counter = counter;
                true
            },
            None => false,
        }
    }
}

impl ClientState for State {
    open spec fn may_become(
        before: Self,
        changes: Seq<(usize, Vec<u8>)>,
        after: Self,
        result: HandlerResult<()>,
    ) -> bool {
        (after, result) == applied(before, changes)
    }

    fn apply_changes(&mut self, changes: Vec<(usize, Vec<u8>)>) -> (result: HandlerResult<()>) {
        apply_all(self, changes)
    }
}

/// The counter is read back from what it was serialized to.
pub proof fn state_is_faithful()
    ensures
        faithful::<State>(),
{
    assert forall|state: State, end: State, index: int, bytes: Seq<u8>|
        0 <= index < State::field_count() && #[trigger] end.serializes(index, bytes) implies {
        &&& (#[trigger] state.with_field(index, bytes)) is Some
        &&& !end.differs(&state.with_field(index, bytes)->0, index)
    } by {
        decode_undoes_encode(end.counter);
    }
}

/// A client whose copy of the state is up to date is up to date again once it has
/// applied the changes that a handler made.
pub proof fn client_follows_the_counter(start: State, end: State, changes: Seq<(usize, Vec<u8>)>)
    requires
        leads_to(start, end, changes),
    ensures
        applied(start, changes) == (end, Ok::<(), RpcHandlerError>(())),
{
    state_is_faithful();
    changes_bring_the_client_up_to_date(start, end, changes, start);
    assert(!end.differs(&applied(start, changes).0, 0));
}

/// The same counter differs from another counter in the same way, and not from itself.
pub proof fn state_is_comparable()
    ensures
        comparable::<State>(),
{
}

/// A client that starts from the server's first state, and applies what leads from each
/// of the server's states to the next, in that order, has the server's last state.
pub proof fn client_follows_every_change(
    states: Seq<State>,
    lists: Seq<Seq<(usize, Vec<u8>)>>,
)
    requires
        states.len() == lists.len() + 1,
        forall|k: int|
            0 <= k < lists.len() ==> leads_to(states[k], states[k + 1], #[trigger] lists[k]),
    ensures
        applied_in_turn(states[0], lists) == states.last(),
{
    state_is_faithful();
    state_is_comparable();
    client_follows_the_server(states, lists);
    assert(!states.last().differs(&applied_in_turn(states[0], lists), 0));
}

/// A client that applies the changes that a handler made twice has the same counter as one
/// that applies them once.
pub proof fn applying_the_counter_twice(start: State, end: State, changes: Seq<(usize, Vec<u8>)>)
    requires
        leads_to(start, end, changes),
    ensures
        applied(applied(start, changes).0, changes) == (end, Ok::<(), RpcHandlerError>(())),
{
    state_is_faithful();
    state_is_comparable();
    client_follows_the_counter(start, end, changes);
    applying_twice_is_applying_once(start, end, changes, start);
    assert(!applied(end, changes).0.differs(&end, 0));
}

/// A call of the service.
#[derive(Clone, Copy, Debug, PartialEq, Eq, Structural)]
pub enum RpcCall {
    /// Add to the counter.
    Increment {
        /// How much.
        amount: u32,
    },
    /// Take from the counter.
    Decrement {
        /// How much.
        amount: u32,
    },
    /// Read the counter.
    Get,
    /// Do nothing.
    TestOverhead,
}

/// The service.
pub trait Counter: Sized {
    /// The counter's value.
    spec fn value(&self) -> int;

    /// Adds to the counter, and gives its new value. It must not exceed what a `u32`
    /// holds.
    fn increment(&mut self, amount: u32) -> (r: HandlerResult<u32>)
        requires
            old(self).value() + amount <= u32::MAX,
        ensures
            r is Ok,
            r->Ok_0 == old(self).value() + amount,
            final(self).value() == r->Ok_0,
    ;

    /// Takes from the counter, and gives its new value. It must not fall below zero.
    fn decrement(&mut self, amount: u32) -> (r: HandlerResult<u32>)
        requires
            old(self).value() >= amount,
        ensures
            r is Ok,
            r->Ok_0 == old(self).value() - amount,
            final(self).value() == r->Ok_0,
    ;

    /// The counter's value.
    fn get(&self) -> (r: HandlerResult<u32>)
        ensures
            r is Ok,
            r->Ok_0 == self.value(),
    ;

    /// A simple function that does nothing and returns nothing.
    fn test_overhead(&self) -> (r: HandlerResult<()>)
        ensures
            r == Ok::<(), RpcHandlerError>(()),
    ;
}

/// What handles the calls on a connection.
pub struct Handler {
    /// The state of the connection.
    pub state: State,
    /// The changes that were made to the state and are yet to be sent to the client,
    /// oldest first.
    pub updates: Vec<Vec<(usize, Vec<u8>)>>,
}

/// Whether a handler has come from one state to another and put down the changes that
/// lead there, if there are any.
pub open spec fn has_recorded(before: Handler, after: Handler) -> bool {
    if before.state == after.state {
        after.updates@ == before.updates@
    } else {
        &&& after.updates@.len() == before.updates@.len() + 1
        &&& after.updates@.drop_last() == before.updates@
        &&& leads_to(before.state, after.state, after.updates@.last()@)
    }
}

impl Handler {
    /// A handler for a new connection.
    pub fn new() -> (r: Self)
        ensures
            r.state.counter == 0,
            r.updates@.len() == 0,
    {
        Handler { state: State::default(), updates: Vec::new() }
    }

    /// Unlocks the state, and puts down the changes that were made to it.
    fn release(&mut self, guard: StateGuard<State>)
        requires
            guard.starting_state == old(self).state,
        ensures
            final(self).state == guard.state,
            has_recorded(*old(self), *final(self)),
    {
        let ghost before = *self;
        let (state, update) = guard.unlock();
        self.state = state;
        proof {
            reveal_with_fuel(changed_fields, 2);
            let number = |change: (usize, Vec<u8>)| change.0;
            let changes = if update is Some {
                update->0@
            } else {
                seq![]
            };
            assert(changes.map_values(number).len() == changed_fields(
                before.state,
                state,
                1,
            ).len());
        }
        if let Some(changes) = update {
            self.updates.push(changes);
            assert(self.updates@.drop_last() =~= before.updates@);
        }
    }
}

/// Adds to a connection's counter, and gives its new value.
pub fn increment(connection: &mut Handler, amount: u32) -> (r: HandlerResult<u32>)
    requires
        old(connection).state.counter + amount <= u32::MAX,
    ensures
        r is Ok,
        r->Ok_0 == old(connection).state.counter + amount,
        final(connection).state.counter == r->Ok_0,
        has_recorded(*old(connection), *final(connection)),
{
    let mut guard = StateGuard::lock(connection.state);
    guard.state.counter = guard.state.counter + amount;
    let counter = guard.state.counter;
    connection.release(guard);
    Ok(counter)
}

/// Takes from a connection's counter, and gives its new value.
pub fn decrement(connection: &mut Handler, amount: u32) -> (r: HandlerResult<u32>)
    requires
        old(connection).state.counter >= amount,
    ensures
        r is Ok,
        r->Ok_0 == old(connection).state.counter - amount,
        final(connection).state.counter == r->Ok_0,
        has_recorded(*old(connection), *final(connection)),
{
    let mut guard = StateGuard::lock(connection.state);
    guard.state.counter = guard.state.counter - amount;
    let counter = guard.state.counter;
    connection.release(guard);
    Ok(counter)
}

/// The value of a connection's counter.
pub fn get(connection: &Handler) -> (r: HandlerResult<u32>)
    ensures
        r == Ok::<u32, RpcHandlerError>(connection.state.counter),
{
    Ok(connection.state.counter)
}

impl Counter for Handler {
    open spec fn value(&self) -> int {
        self.state.counter as int
    }

    fn increment(&mut self, amount: u32) -> (r: HandlerResult<u32>)
        ensures
            has_recorded(*old(self), *final(self)),
    {
        increment(self, amount)
    }

    fn decrement(&mut self, amount: u32) -> (r: HandlerResult<u32>)
        ensures
            has_recorded(*old(self), *final(self)),
    {
        decrement(self, amount)
    }

    fn get(&self) -> (r: HandlerResult<u32>) {
        get(self)
    }

    fn test_overhead(&self) -> (r: HandlerResult<()>) {
        Ok(())
    }
}

/// Whether the counter can take a call without leaving the range of a `u32`.
pub open spec fn in_range(state: State, call: RpcCall) -> bool {
    match call {
        RpcCall::Increment { amount } => state.counter + amount <= u32::MAX,
        RpcCall::Decrement { amount } => state.counter >= amount,
        _ => true,
    }
}

/// The counter after a call.
pub open spec fn counter_after(state: State, call: RpcCall) -> int {
    match call {
        RpcCall::Increment { amount } => state.counter + amount,
        RpcCall::Decrement { amount } => state.counter - amount,
        _ => state.counter as int,
    }
}

/// The serialized output of a call: the counter after it, or nothing.
pub open spec fn output_bytes(state: State, call: RpcCall) -> Seq<u8> {
    match call {
        RpcCall::TestOverhead => Seq::empty(),
        _ => le_bytes(counter_after(state, call) as u32),
    }
}

/// Whether a handler comes from one state to another, and gives this, for a call, or for what
/// could not be read as one.
pub open spec fn is_handled(
    before: Handler,
    call: Option<RpcCall>,
    after: Handler,
    r: HandlerResult<Vec<u8>>,
) -> bool {
    match call {
        Some(c) => {
            &&& r is Ok
            &&& r->Ok_0@ == output_bytes(before.state, c)
            &&& after.state.counter == counter_after(before.state, c)
            &&& has_recorded(before, after)
        },
        None => {
            &&& r == Err::<Vec<u8>, _>(RpcHandlerError::BadInputBytes)
            &&& after == before
        },
    }
}

/// The name of the method that a call is of.
pub open spec fn method_of(call: RpcCall) -> Seq<char> {
    match call {
        RpcCall::Increment { .. } => "increment"@,
        RpcCall::Decrement { .. } => "decrement"@,
        RpcCall::Get => "get"@,
        RpcCall::TestOverhead => "test_overhead"@,
    }
}

impl RpcCall {
    /// The name of the method that the call is of.
    pub fn method(&self) -> (r: &'static str)
        ensures
            r@ == method_of(*self),
    {
        match self {
            RpcCall::Increment { .. } => "increment",
            RpcCall::Decrement { .. } => "decrement",
            RpcCall::Get => "get",
            RpcCall::TestOverhead => "test_overhead",
        }
    }
}

impl Handler {
    /// Whether the counter can take a call without leaving the range of a `u32`.
    pub fn can_take(&self, call: &RpcCall) -> (r: bool)
        ensures
            r == in_range(self.state, *call),
    {
        match call {
            RpcCall::Increment { amount } => self.state.counter <= u32::MAX - *amount,
            RpcCall::Decrement { amount } => self.state.counter >= *amount,
            _ => true,
        }
    }

    /// Handles a call, or what could not be read as one, and serializes its output.
    pub fn handle_rpc_call(&mut self, call: Option<RpcCall>) -> (r: HandlerResult<Vec<u8>>)
        requires
            call matches Some(c) ==> in_range(old(self).state, c),
        ensures
            is_handled(*old(self), call, *final(self), r),
    {
        let call = accept_call(call)?;
        match call {
            RpcCall::Increment { amount } => {
                let result = self.increment(amount)?;
                Ok(encode_u32(result))
            },
            RpcCall::Decrement { amount } => {
                let result = self.decrement(amount)?;
                Ok(encode_u32(result))
            },
            RpcCall::Get => {
                let result = self.get()?;
                Ok(encode_u32(result))
            },
            RpcCall::TestOverhead => {
                self.test_overhead()?;
                Ok(encode_unit())
            },
        }
    }
}

impl Handler {
    /// Handles a call, or what could not be read as one, on a connection with features. A
    /// method that is not enabled there is not run, and the call gives an error.
    pub fn handle_enabled_call(&mut self, features: &Features, call: Option<RpcCall>) -> (r:
        HandlerResult<Vec<u8>>)
        requires
            call matches Some(c) ==> features.enables(method_of(c)) ==> in_range(
                old(self).state,
                c,
            ),
        ensures
            is_handled(
                *old(self),
                match call {
                    Some(c) => if features.enables(method_of(c)) {
                        Some(c)
                    } else {
                        None
                    },
                    None => None,
                },
                *final(self),
                r,
            ),
    {
        let call = accept_call(call)?;
        let call = accept_enabled_call(features, call.method(), call)?;
        self.handle_rpc_call(Some(call))
    }
}

/// What a client makes of the reply to a call whose output is a number.
pub open spec fn number_of_reply(reply: HandlerResult<Vec<u8>>) -> HandlerResult<u32> {
    match reply {
        Ok(bytes) => match decoded_u32(bytes@) {
            Some(number) => Ok(number),
            None => Err(RpcHandlerError::BadOutputBytes),
        },
        Err(error) => Err(error),
    }
}

/// Reads the reply to a call whose output is a number.
pub fn read_number(reply: HandlerResult<Vec<u8>>) -> (r: HandlerResult<u32>)
    ensures
        r == number_of_reply(reply),
{
    finish_call(
        match reply {
            Ok(bytes) => Ok(decode_u32(bytes.as_slice())),
            Err(error) => Err(error),
        },
    )
}

/// Reads the reply to a call without an output.
pub fn read_unit(reply: HandlerResult<Vec<u8>>) -> (r: HandlerResult<()>)
    ensures
        r == match reply {
            Ok(_) => Ok(()),
            Err(error) => Err(error),
        },
{
    finish_call(
        match reply {
            Ok(bytes) => Ok(decode_unit(bytes.as_slice())),
            Err(error) => Err(error),
        },
    )
}

/// The lists of changes that a handler has put down, oldest first.
pub open spec fn lists_of(handler: Handler) -> Seq<Seq<(usize, Vec<u8>)>> {
    handler.updates@.map_values(|changes: Vec<(usize, Vec<u8>)>| changes@)
}

/// Whether a client with a state has the handler's state once it has applied every list
/// of changes that the handler has put down.
pub open spec fn in_step(client: State, handler: Handler) -> bool {
    applied_in_turn(client, lists_of(handler)) == handler.state
}

/// A new client is in step with a new handler, and a client stays in step whatever the
/// handler puts down.
pub proof fn clients_stay_in_step(client: State, before: Handler, after: Handler)
    ensures
        client == before.state && before.updates@.len() == 0 ==> in_step(client, before),
        in_step(client, before) && has_recorded(before, after) ==> in_step(client, after),
{
    if in_step(client, before) && has_recorded(before, after) && before.state != after.state {
        assert(lists_of(after).drop_last() =~= lists_of(before));
        client_follows_the_counter(before.state, after.state, after.updates@.last()@);
    }
}

/// A client that is in step stays so when the handler's oldest list of changes is sent to
/// it and it applies that.
pub proof fn clients_stay_in_step_when_told(client: State, before: Handler, after: Handler)
    requires
        in_step(client, before),
        before.updates@.len() > 0,
        after.state == before.state,
        after.updates@ == before.updates@.skip(1),
    ensures
        in_step(applied(client, before.updates@[0]@).0, after),
{
    assert(lists_of(after) =~= lists_of(before).skip(1));
    first_list_first(client, lists_of(before));
}

/// A client reads, in the reply to a call that gives a number, the counter after that
/// call.
pub proof fn client_reads_the_counter(state: State, call: RpcCall, reply: HandlerResult<Vec<u8>>)
    requires
        in_range(state, call),
        call !is TestOverhead,
        reply matches Ok(bytes) && bytes@ == output_bytes(state, call),
    ensures
        number_of_reply(reply) is Ok,
        number_of_reply(reply)->Ok_0 == counter_after(state, call),
{
    decode_undoes_encode(counter_after(state, call) as u32);
}

/// Taking from the counter what was just added to it brings it back.
pub proof fn decrement_undoes_increment(state: State, middle: State, amount: u32)
    requires
        in_range(state, RpcCall::Increment { amount }),
        middle.counter == counter_after(state, RpcCall::Increment { amount }),
    ensures
        in_range(middle, RpcCall::Decrement { amount }),
        counter_after(middle, RpcCall::Decrement { amount }) == state.counter,
{
}

/// Increments add up: after one after the other, each by the same amount, the counter is
/// larger by that amount for each.
pub proof fn increments_add_up(states: Seq<State>, amount: u32)
    requires
        states.len() > 0,
        forall|k: int|
            0 < k < states.len() ==> (#[trigger] states[k]).counter == counter_after(
                states[k - 1],
                RpcCall::Increment { amount },
            ),
    ensures
        states.last().counter == states[0].counter + amount * (states.len() - 1),
    decreases states.len(),
{
    let n = states.len() - 1;
    if n > 0 {
        increments_add_up(states.drop_last(), amount);
        assert(states[n].counter == states[n - 1].counter + amount);
        assert(amount * n == amount * (n - 1) + amount) by (nonlinear_arith);
    } else {
        assert(amount * 0 == 0) by (nonlinear_arith);
    }
}

/// A client that receives a state change has, after it, what the changes make of its copy.
pub proof fn a_state_change_updates_the_copy(
    before: State,
    changes: Seq<(usize, Vec<u8>)>,
    after: State,
)
    ensures
        may_become(before, changes, after) <==> after == applied(before, changes).0,
{
    if after == applied(before, changes).0 {
        assert(State::may_become(before, changes, after, applied(before, changes).1));
    }
}

/// The counter is read from the bytes of its field exactly if they are a number's.
pub proof fn the_counter_is_read_from_its_bytes(state: State, before: Seq<u8>, counter: u32)
    requires
        before.len() % 4 == 0,
    ensures
        state.with_field(0, before + le_bytes(counter)) == Some(State { counter }),
        state.with_field(0, seq![]) is None,
        State::field_count() == 1,
{
    a_number_is_read_from_the_end(before, counter);
}

/// A handler puts down one list of changes for each call that changes the counter, behind
/// those that are there, and the list leads from the counter before the call to the counter
/// after it. It puts down nothing for any other call.
pub proof fn each_change_is_put_down_once(before: Handler, after: Handler)
    requires
        has_recorded(before, after),
    ensures
        before.state.counter == after.state.counter ==> lists_of(after) == lists_of(before),
        before.state.counter != after.state.counter ==> {
            &&& lists_of(after).len() == lists_of(before).len() + 1
            &&& lists_of(before).is_prefix_of(lists_of(after))
            &&& lists_of(after).last().len() == 1
            &&& lists_of(after).last()[0].0 == 0
            &&& lists_of(after).last()[0].1@ == le_bytes(after.state.counter)
            &&& applied(before.state, lists_of(after).last()).0 == after.state
        },
{
    if before.state.counter != after.state.counter {
        let changes = after.updates@.last()@;
        let number = |change: (usize, Vec<u8>)| change.0;
        assert(lists_of(after).drop_last() =~= lists_of(before));
        assert(lists_of(before) =~= lists_of(after).subrange(0, lists_of(before).len() as int));
        client_follows_the_counter(before.state, after.state, changes);
        reveal_with_fuel(changed_fields, 2);
        assert(changed_fields(before.state, after.state, 1) =~= seq![0usize]);
        assert(changes.map_values(number).len() == 1);
        assert(changes.map_values(number)[0] == changes[0].0);
        assert(after.state.serializes(changes[0].0 as int, changes[0].1@));
    } else {
        assert(lists_of(after) =~= lists_of(before));
    }
}

/// Every call is answered: an increment and a decrement with the counter that they lead to,
/// a read with the counter, which it leaves as it is, and a call that does nothing with
/// nothing. What could not be read as a call is answered with an error, and changes nothing.
pub proof fn every_call_is_answered(
    before: Handler,
    call: RpcCall,
    after: Handler,
    r: HandlerResult<Vec<u8>>,
)
    requires
        in_range(before.state, call),
        is_handled(before, Some(call), after, r),
    ensures
        r is Ok,
        match call {
            RpcCall::Increment { amount } => {
                &&& after.state.counter == before.state.counter + amount
                &&& decoded_u32(r->Ok_0@) == Some((before.state.counter + amount) as u32)
            },
            RpcCall::Decrement { amount } => {
                &&& after.state.counter == before.state.counter - amount
                &&& decoded_u32(r->Ok_0@) == Some((before.state.counter - amount) as u32)
            },
            RpcCall::Get => {
                &&& after.state == before.state
                &&& after.updates@ == before.updates@
                &&& decoded_u32(r->Ok_0@) == Some(before.state.counter)
            },
            RpcCall::TestOverhead => {
                &&& after.state == before.state
                &&& after.updates@ == before.updates@
                &&& r->Ok_0@.len() == 0
            },
        },
{
    if call !is TestOverhead {
        decode_undoes_encode(counter_after(before.state, call) as u32);
    }
}

/// What could not be read as a call is answered with an error, and changes nothing.
pub proof fn what_is_no_call_is_refused(before: Handler, after: Handler, r: HandlerResult<Vec<u8>>)
    requires
        is_handled(before, None, after, r),
    ensures
        r == Err::<Vec<u8>, _>(RpcHandlerError::BadInputBytes),
        after == before,
{
}

/// The counter can take a call exactly if what the call leads to is a `u32`, and a call of
/// any amount is of the method with its name.
pub proof fn the_counter_takes_what_fits(state: State, amount: u32)
    ensures
        in_range(state, RpcCall::Increment { amount }) <==> state.counter + amount
            <= 0xffff_ffff,
        in_range(state, RpcCall::Decrement { amount }) <==> state.counter - amount >= 0,
        in_range(state, RpcCall::Get),
        in_range(state, RpcCall::TestOverhead),
        method_of(RpcCall::Increment { amount }) == "increment"@,
        method_of(RpcCall::Decrement { amount }) == "decrement"@,
        method_of(RpcCall::Get) == "get"@,
        method_of(RpcCall::TestOverhead) == "test_overhead"@,
{
}

/// A client makes of a reply the number that stands at its end, of bytes that are no number
/// an error, and hands every other error on as it is.
pub proof fn a_reply_is_read_as_a_number(
    before: Seq<u8>,
    number: u32,
    reply: HandlerResult<Vec<u8>>,
)
    requires
        reply is Ok ==> reply->Ok_0@ == before + le_bytes(number),
    ensures
        reply is Ok && before.len() % 4 == 0 ==> number_of_reply(reply) == Ok::<
            u32,
            RpcHandlerError,
        >(number),
        reply is Ok && before.len() % 4 != 0 ==> number_of_reply(reply) == Err::<u32, _>(
            RpcHandlerError::BadOutputBytes,
        ),
        reply is Err ==> number_of_reply(reply) == Err::<u32, _>(reply->Err_0),
{
    a_number_is_read_from_the_end(before, number);
}

}
