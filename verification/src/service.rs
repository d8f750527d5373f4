//! A service from end to end: what a client's call of a method comes to.

use vstd::prelude::*;

use crate::application::{accepted, enabled_call, finished, Features};
use crate::expansion::{MethodModel, PlanModel};
use crate::wire::{HandlerResult, RpcHandlerError};

verus! {

/// A call of a service: the variant that stands for the method, and the values of its fields
/// by name.
#[verifier::ext_equal]
pub struct Call<A> {
    pub variant: Seq<char>,
    pub values: Map<Seq<char>, A>,
}

/// The call that a client makes for a method: each input, by its name, has the value of the
/// argument at its place.
pub open spec fn call_of<A>(method: MethodModel, arguments: Seq<A>) -> Call<A> {
    Call {
        variant: method.variant,
        values: Map::new(
            |name: Seq<char>| method.inputs.contains(name),
            |name: Seq<char>| arguments[method.inputs.index_of(name)],
        ),
    }
}

/// The position, from `from` on, of the first method that a variant stands for.
pub open spec fn arm(methods: Seq<MethodModel>, variant: Seq<char>, from: int) -> Option<int>
    decreases methods.len() - from,
{
    if from >= methods.len() {
        None
    } else if methods[from].variant == variant {
        Some(from)
    } else {
        arm(methods, variant, from + 1)
    }
}

/// What a handler runs for a call: the method that the variant stands for, with the values
/// of its inputs, in order.
pub open spec fn dispatched<A>(plan: PlanModel, call: Call<A>) -> Option<(Seq<char>, Seq<A>)> {
    match arm(plan.methods, call.variant, 0) {
        Some(k) => Some(
            (
                plan.methods[k].method,
                plan.methods[k].inputs.map_values(|name: Seq<char>| call.values[name]),
            ),
        ),
        None => None,
    }
}

/// How the values of a service are serialized: calls, and the outputs of methods.
#[verifier::reject_recursive_types(A)]
#[verifier::reject_recursive_types(V)]
pub struct Format<A, V> {
    pub write_call: spec_fn(Call<A>) -> Seq<u8>,
    pub read_call: spec_fn(Seq<u8>) -> Option<Call<A>>,
    pub write_output: spec_fn(V) -> Seq<u8>,
    pub read_output: spec_fn(Seq<u8>) -> Option<V>,
}

/// Whether what is written is read back.
pub open spec fn reads_back<A, V>(format: Format<A, V>) -> bool {
    &&& forall|call: Call<A>| #[trigger] (format.read_call)((format.write_call)(call)) == Some(call)
    &&& forall|output: V|
        #[trigger] (format.read_output)((format.write_output)(output)) == Some(output)
}

/// What a handler gives for input on a connection with features, by what its methods give for
/// their arguments. A method that is not enabled is not asked.
pub open spec fn handled<A, V>(
    plan: PlanModel,
    format: Format<A, V>,
    features: Features,
    methods: spec_fn(Seq<char>, Seq<A>) -> HandlerResult<V>,
    input: Seq<u8>,
) -> HandlerResult<Seq<u8>> {
    match accepted((format.read_call)(input)) {
        Ok(call) => match dispatched(plan, call) {
            Some((method, arguments)) => match enabled_call(features, method, arguments) {
                Ok(arguments) => match methods(method, arguments) {
                    Ok(output) => Ok((format.write_output)(output)),
                    Err(error) => Err(error),
                },
                Err(error) => Err(error),
            },
            None => Err(RpcHandlerError::BadInputBytes),
        },
        Err(error) => Err(error),
    }
}

/// What a client's call of a method gives, if the server gives this for it.
pub open spec fn read_reply<A, V>(
    format: Format<A, V>,
    reply: HandlerResult<Seq<u8>>,
) -> HandlerResult<V> {
    finished(
        match reply {
            Ok(bytes) => Ok((format.read_output)(bytes)),
            Err(error) => Err(error),
        },
    )
}

/// Whether no two methods have the same variant, and no two arguments of a method the same
/// name, as the language demands of an enumeration and of a method.
pub open spec fn is_distinct(plan: PlanModel) -> bool {
    &&& forall|i: int, j: int|
        0 <= i < j < plan.methods.len() ==> (#[trigger] plan.methods[i]).variant != (
        #[trigger] plan.methods[j]).variant
    &&& forall|i: int|
        0 <= i < plan.methods.len() ==> (#[trigger] plan.methods[i]).inputs.no_duplicates()
}

proof fn lemma_arm(methods: Seq<MethodModel>, k: int, from: int)
    requires
        0 <= from <= k < methods.len(),
        forall|i: int, j: int|
            0 <= i < j < methods.len() ==> (#[trigger] methods[i]).variant != (
            #[trigger] methods[j]).variant,
    ensures
        arm(methods, methods[k].variant, from) == Some(k),
    decreases methods.len() - from,
{
    if from < k {
        assert(methods[from].variant != methods[k].variant);
        lemma_arm(methods, k, from + 1);
    }
}

/// A call of a method runs that method and no other, with the arguments of the call, in
/// order.
pub proof fn a_call_runs_its_method<A>(plan: PlanModel, k: int, arguments: Seq<A>)
    requires
        is_distinct(plan),
        0 <= k < plan.methods.len(),
        arguments.len() == plan.methods[k].inputs.len(),
    ensures
        dispatched(plan, call_of(plan.methods[k], arguments)) == Some(
            (plan.methods[k].method, arguments),
        ),
{
    let method = plan.methods[k];
    let call = call_of(method, arguments);
    lemma_arm(plan.methods, k, 0);
    let values = method.inputs.map_values(|name: Seq<char>| call.values[name]);
    assert forall|i: int| 0 <= i < arguments.len() implies values[i] == arguments[i] by {
        let name = method.inputs[i];
        assert(method.inputs.contains(name));
        let found = method.inputs.index_of(name);
        assert(0 <= found < method.inputs.len() && method.inputs[found] == name);
        assert(found == i);
    }
    assert(values =~= arguments);
}

/// A client's call of a method that is enabled gives what the method gives for the same
/// arguments, output or error alike, where what is serialized is read back.
pub proof fn a_call_gives_what_its_method_gives<A, V>(
    plan: PlanModel,
    format: Format<A, V>,
    features: Features,
    methods: spec_fn(Seq<char>, Seq<A>) -> HandlerResult<V>,
    k: int,
    arguments: Seq<A>,
)
    requires
        is_distinct(plan),
        reads_back(format),
        0 <= k < plan.methods.len(),
        arguments.len() == plan.methods[k].inputs.len(),
        features.enables(plan.methods[k].method),
    ensures
        ({
            let input = (format.write_call)(call_of(plan.methods[k], arguments));
            let reply = handled(plan, format, features, methods, input);
            let given = methods(plan.methods[k].method, arguments);
            &&& reply == match given {
                Ok(output) => Ok((format.write_output)(output)),
                Err(error) => Err(error),
            }
            &&& read_reply(format, reply) == given
        }),
{
    a_call_runs_its_method(plan, k, arguments);
    let call = call_of(plan.methods[k], arguments);
    assert((format.read_call)((format.write_call)(call)) == Some(call));
    if let Ok(output) = methods(plan.methods[k].method, arguments) {
        assert((format.read_output)((format.write_output)(output)) == Some(output));
    }
}

/// A client's call of a method that is not enabled gives an error, whatever the methods would
/// give: none is run.
pub proof fn a_disabled_method_is_not_run<A, V>(
    plan: PlanModel,
    format: Format<A, V>,
    features: Features,
    methods: spec_fn(Seq<char>, Seq<A>) -> HandlerResult<V>,
    k: int,
    arguments: Seq<A>,
)
    requires
        is_distinct(plan),
        reads_back(format),
        0 <= k < plan.methods.len(),
        arguments.len() == plan.methods[k].inputs.len(),
        !features.enables(plan.methods[k].method),
    ensures
        ({
            let input = (format.write_call)(call_of(plan.methods[k], arguments));
            let reply = handled(plan, format, features, methods, input);
            &&& reply == Err::<Seq<u8>, _>(RpcHandlerError::BadInputBytes)
            &&& read_reply(format, reply) == Err::<V, _>(RpcHandlerError::BadInputBytes)
        }),
{
    a_call_runs_its_method(plan, k, arguments);
    let call = call_of(plan.methods[k], arguments);
    assert((format.read_call)((format.write_call)(call)) == Some(call));
}

}
