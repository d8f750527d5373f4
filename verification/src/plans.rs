//! What holds of everything that is generated from a text: nothing that was read is left out,
//! nothing is added, and everything keeps its place.

use vstd::prelude::*;

use crate::expansion::{
    are_allowed, argument_of, arguments_of, arguments_were_read, codable, connection_state,
    each_is_allowed, field_names, fields_of, fields_were_read, impl_was_read, inputs_of,
    is_allowed, is_expanded, item_of, item_was_read, method_expansion, methods_of,
    numbers_fields, output_of, read_as, rpc, rpc_handler, service_expansion, service_of,
    trait_was_read, trimmed, ArgumentModel, ArgumentText, AttributeArgument, ItemModel,
    MethodModel, MethodText, ServicePlan, TraitText,
};
use crate::naming::pascal_case;

verus! {

/// Whether these are positions below `n`, in ascending order and each only once.
pub open spec fn ascend(positions: Seq<int>, n: int) -> bool {
    &&& forall|k: int| 0 <= k < positions.len() ==> 0 <= #[trigger] positions[k] < n
    &&& forall|j: int, k: int| 0 <= j < k < positions.len() ==> positions[j] < positions[k]
}

/// Whether fields are the arguments with a name at some positions, each with its type.
pub open spec fn are_named_at(
    arguments: Seq<ArgumentText>,
    positions: Seq<int>,
    fields: Seq<(Seq<char>, Seq<char>)>,
) -> bool {
    &&& positions.len() == fields.len()
    &&& forall|k: int|
        0 <= k < fields.len() ==> {
            &&& #[trigger] fields[k] == (
                (arguments[positions[k]]->0).1@,
                (arguments[positions[k]]->0).2@,
            )
            &&& arguments[positions[k]] is Some
            &&& (arguments[positions[k]]->0).0
        }
}

/// Whether inputs are the names and patterns of the arguments at some positions, which are not
/// the receiver's.
pub open spec fn are_handed_on_at(
    arguments: Seq<ArgumentText>,
    positions: Seq<int>,
    inputs: Seq<Seq<char>>,
) -> bool {
    &&& positions.len() == inputs.len()
    &&& forall|k: int|
        0 <= k < inputs.len() ==> {
            &&& #[trigger] inputs[k] == (arguments[positions[k]]->0).1@
            &&& arguments[positions[k]] is Some
        }
}

/// Whether the fields of a call are exactly the arguments with a name, each with its type, in
/// the order in which they stand.
pub open spec fn has_each_named_argument(
    arguments: Seq<ArgumentText>,
    fields: Seq<(Seq<char>, Seq<char>)>,
) -> bool {
    exists|positions: Seq<int>|
        {
            &&& #[trigger] ascend(positions, arguments.len() as int)
            &&& are_named_at(arguments, positions, fields)
            &&& forall|i: int|
                0 <= i < arguments.len() && #[trigger] arguments[i] is Some && (arguments[i]->0).0
                    ==> positions.contains(i)
        }
}

/// Whether what a call hands on is exactly the names and patterns of the arguments but the
/// receiver, in the order in which they stand.
pub open spec fn has_each_input(arguments: Seq<ArgumentText>, inputs: Seq<Seq<char>>) -> bool {
    exists|positions: Seq<int>|
        {
            &&& #[trigger] ascend(positions, arguments.len() as int)
            &&& are_handed_on_at(arguments, positions, inputs)
            &&& forall|i: int|
                0 <= i < arguments.len() && #[trigger] arguments[i] is Some ==> positions.contains(
                    i,
                )
        }
}

/// Whether an entry is that of a method: it has the method's name, the names that are formed
/// from it, the method's arguments, and the type behind the arrow, or the unit type where there
/// is no arrow.
pub open spec fn is_entry_of(entry: MethodModel, method: MethodText) -> bool {
    &&& entry.method == method.0@
    &&& entry.variant == pascal_case(method.0@)
    &&& entry.input_ident == pascal_case(method.0@) + "Input"@
    &&& entry.output_ident == pascal_case(method.0@) + "Output"@
    &&& has_each_named_argument(method.1@, entry.fields)
    &&& has_each_input(method.1@, entry.inputs)
    &&& if "->"@.is_prefix_of(method.2@) {
        &&& exists|spaces: nat| #[trigger] spaced(spaces, entry.output) == method.2@.skip(2)
        &&& entry.output.len() > 0 ==> entry.output[0] != ' '
    } else {
        entry.output == "()"@
    }
}

/// A text behind spaces.
pub open spec fn spaced(spaces: nat, text: Seq<char>) -> Seq<char> {
    Seq::new(spaces, |i: int| ' ') + text
}

/// Whether there is exactly one entry for each method, in order, each with the position at
/// which its method stands.
pub open spec fn has_one_entry_for_each_method(
    items: Seq<Option<MethodText>>,
    entries: Seq<MethodModel>,
) -> bool {
    &&& forall|k: int|
        0 <= k < entries.len() ==> {
            &&& 0 <= (#[trigger] entries[k]).item < items.len()
            &&& items[entries[k].item] is Some
            &&& is_entry_of(entries[k], items[entries[k].item]->0)
        }
    &&& forall|j: int, k: int|
        0 <= j < k < entries.len() ==> (#[trigger] entries[j]).item < (#[trigger] entries[k]).item
    &&& forall|i: int|
        0 <= i < items.len() && #[trigger] items[i] is Some ==> exists|k: int|
            0 <= k < entries.len() && (#[trigger] entries[k]).item == i
}

proof fn lemma_trimmed(text: Seq<char>)
    ensures
        exists|spaces: nat| #[trigger] spaced(spaces, trimmed(text)) == text,
        trimmed(text).len() > 0 ==> trimmed(text)[0] != ' ',
    decreases text.len(),
{
    if text.len() > 0 && text[0] == ' ' {
        let rest = text.skip(1);
        lemma_trimmed(rest);
        let spaces = choose|spaces: nat| #[trigger] spaced(spaces, trimmed(rest)) == rest;
        assert(spaced(spaces + 1, trimmed(text)) =~= text) by {
            assert forall|i: int| 0 <= i < text.len() implies spaced(spaces + 1, trimmed(text))[i]
                == text[i] by {
                if i > 0 {
                    assert(text[i] == rest[i - 1]);
                    assert(rest[i - 1] == spaced(spaces, trimmed(rest))[i - 1]);
                }
            }
        }
    } else {
        assert(spaced(0, trimmed(text)) =~= text);
    }
}

spec fn model(arguments: Seq<ArgumentText>) -> Seq<ArgumentModel> {
    arguments.map_values(|argument: ArgumentText| argument_of(argument))
}

proof fn lemma_one_more_field(
    arguments: Seq<ArgumentText>,
    positions: Seq<int>,
    fields: Seq<(Seq<char>, Seq<char>)>,
    i: int,
)
    requires
        are_named_at(arguments, positions, fields),
        0 <= i < arguments.len(),
        arguments[i] is Some,
        (arguments[i]->0).0,
    ensures
        are_named_at(
            arguments,
            positions.push(i),
            fields.push(((arguments[i]->0).1@, (arguments[i]->0).2@)),
        ),
{
}

proof fn lemma_one_more_input(
    arguments: Seq<ArgumentText>,
    positions: Seq<int>,
    inputs: Seq<Seq<char>>,
    i: int,
)
    requires
        are_handed_on_at(arguments, positions, inputs),
        arguments[i] is Some,
    ensures
        are_handed_on_at(arguments, positions.push(i), inputs.push((arguments[i]->0).1@)),
{
}

proof fn lemma_fields(arguments: Seq<ArgumentText>, n: int) -> (positions: Seq<int>)
    requires
        0 <= n <= arguments.len(),
    ensures
        ascend(positions, n),
        are_named_at(arguments, positions, fields_of(model(arguments), n)),
        forall|i: int|
            0 <= i < n && #[trigger] arguments[i] is Some && (arguments[i]->0).0
                ==> positions.contains(i),
    decreases n,
{
    let now = fields_of(model(arguments), n);
    if n == 0 {
        assert(now.len() == 0);
        seq![]
    } else {
        let before = lemma_fields(arguments, n - 1);
        assert(model(arguments)[n - 1] == argument_of(arguments[n - 1]));
        if arguments[n - 1] is Some && (arguments[n - 1]->0).0 {
            let positions = before.push(n - 1);
            let earlier = fields_of(model(arguments), n - 1);
            assert(now == earlier.push(((arguments[n - 1]->0).1@, (arguments[n - 1]->0).2@)));
            lemma_one_more_field(arguments, before, earlier, n - 1);
            assert forall|i: int|
                0 <= i < n && #[trigger] arguments[i] is Some && (arguments[i]->0).0 implies
                positions.contains(i) by {
                if i == n - 1 {
                    assert(positions[before.len() as int] == i);
                } else {
                    let k = choose|k: int| 0 <= k < before.len() && before[k] == i;
                    assert(positions[k] == i);
                }
            }
            positions
        } else {
            assert(now == fields_of(model(arguments), n - 1));
            before
        }
    }
}

proof fn lemma_inputs(arguments: Seq<ArgumentText>, n: int) -> (positions: Seq<int>)
    requires
        0 <= n <= arguments.len(),
    ensures
        ascend(positions, n),
        are_handed_on_at(arguments, positions, inputs_of(model(arguments), n)),
        forall|i: int|
            0 <= i < n && #[trigger] arguments[i] is Some ==> positions.contains(i),
    decreases n,
{
    let now = inputs_of(model(arguments), n);
    if n == 0 {
        assert(now.len() == 0);
        seq![]
    } else {
        let before = lemma_inputs(arguments, n - 1);
        assert(model(arguments)[n - 1] == argument_of(arguments[n - 1]));
        if arguments[n - 1] is Some {
            let positions = before.push(n - 1);
            let earlier = inputs_of(model(arguments), n - 1);
            assert(now == earlier.push((arguments[n - 1]->0).1@));
            lemma_one_more_input(arguments, before, earlier, n - 1);
            assert forall|i: int|
                0 <= i < n && #[trigger] arguments[i] is Some implies
                positions.contains(i) by {
                if i == n - 1 {
                    assert(positions[before.len() as int] == i);
                } else {
                    let k = choose|k: int| 0 <= k < before.len() && before[k] == i;
                    assert(positions[k] == i);
                }
            }
            positions
        } else {
            assert(now == inputs_of(model(arguments), n - 1));
            before
        }
    }
}

proof fn lemma_output(text: Seq<char>)
    ensures
        if "->"@.is_prefix_of(text) {
            &&& output_of(text) is Some
            &&& exists|spaces: nat| #[trigger] spaced(spaces, output_of(text)->0) == text.skip(2)
            &&& output_of(text)->0.len() > 0 ==> (output_of(text)->0)[0] != ' '
        } else {
            output_of(text) is None
        },
{
    reveal_strlit("->");
    let arrow = "->"@;
    assert(arrow.len() == 2 && arrow[0] == '-' && arrow[1] == '>');
    if arrow.is_prefix_of(text) {
        assert(text.subrange(0, 2)[0] == text[0] && text.subrange(0, 2)[1] == text[1]);
        lemma_trimmed(text.skip(2));
    } else if text.len() >= 2 && text[0] == '-' && text[1] == '>' {
        assert(arrow =~= text.subrange(0, 2));
    }
}

proof fn lemma_entry(item: int, method: MethodText)
    ensures
        is_entry_of(
            method_expansion(
                item,
                method.0@,
                model(method.1@),
                output_of(method.2@),
            ),
            method,
        ),
{
    let arguments = method.1@;
    let n = arguments.len() as int;
    let positions = lemma_fields(arguments, n);
    assert(ascend(positions, n));
    assert(has_each_named_argument(arguments, fields_of(model(arguments), n)));
    let positions = lemma_inputs(arguments, n);
    assert(ascend(positions, n));
    assert(has_each_input(arguments, inputs_of(model(arguments), n)));
    lemma_output(method.2@);
    let entry = method_expansion(item, method.0@, model(arguments), output_of(method.2@));
    assert(has_each_named_argument(arguments, entry.fields));
    assert(has_each_input(arguments, entry.inputs));
    if "->"@.is_prefix_of(method.2@) {
        let ty = output_of(method.2@)->0;
        assert(entry.output == ty);
        let spaces = choose|spaces: nat| #[trigger] spaced(spaces, ty) == method.2@.skip(2);
        assert(spaced(spaces, entry.output) == method.2@.skip(2));
    } else {
        assert(entry.output == "()"@);
    }
}

spec fn models(items: Seq<Option<MethodText>>) -> Seq<ItemModel> {
    items.map_values(|item: Option<MethodText>| item_of(item))
}

proof fn lemma_methods(items: Seq<Option<MethodText>>, n: int)
    requires
        0 <= n <= items.len(),
    ensures
        has_one_entry_for_each_method(items.take(n), methods_of(models(items), n)),
    decreases n,
{
    let entries = methods_of(models(items), n);
    let taken = items.take(n);
    if n > 0 {
        lemma_methods(items, n - 1);
        let earlier = methods_of(models(items), n - 1);
        let last = items[n - 1];
        assert(models(items)[n - 1] == item_of(last));
        assert forall|k: int| 0 <= k < earlier.len() implies {
            &&& 0 <= (#[trigger] earlier[k]).item < n - 1
            &&& items[earlier[k].item] is Some
            &&& is_entry_of(earlier[k], items[earlier[k].item]->0)
        } by {
            assert(items.take(n - 1)[earlier[k].item] == items[earlier[k].item]);
        }
        if last is Some {
            lemma_entry(n - 1, last->0);
            assert(entries == earlier.push(entries[earlier.len() as int]));
        }
        assert forall|k: int| 0 <= k < entries.len() implies {
            &&& 0 <= (#[trigger] entries[k]).item < n
            &&& taken[entries[k].item] is Some
            &&& is_entry_of(entries[k], taken[entries[k].item]->0)
        } by {
            if k < earlier.len() {
                assert(entries[k] == earlier[k]);
            }
            assert(taken[entries[k].item] == items[entries[k].item]);
        }
        assert forall|i: int| 0 <= i < n && #[trigger] taken[i] is Some implies exists|k: int|
            0 <= k < entries.len() && (#[trigger] entries[k]).item == i by {
            if i < n - 1 {
                assert(items.take(n - 1)[i] is Some);
                let k = choose|k: int|
                    0 <= k < earlier.len() && (#[trigger] earlier[k]).item == i;
                assert(entries[k].item == i);
            } else {
                assert(entries[earlier.len() as int].item == i);
            }
        }
        assert forall|j: int, k: int| 0 <= j < k < entries.len() implies (
        #[trigger] entries[j]).item < (#[trigger] entries[k]).item by {
            assert(entries[j] == earlier[j]);
            if k < earlier.len() {
                assert(entries[k] == earlier[k]);
            }
        }
    }
}

/// What a trait expands to has exactly one entry for each of its methods, in order, with the
/// method's name, arguments and output, whatever stands between them and however many they
/// are; and it has the trait's name and visibility.
pub proof fn each_method_has_one_entry(parsed: TraitText)
    ensures
        ({
            let plan = service_expansion(service_of(parsed));
            &&& plan.vis == parsed.0@
            &&& plan.trait_ident == parsed.1@
            &&& plan.server_ident == parsed.1@ + "Server"@
            &&& plan.client_ident == parsed.1@ + "Client"@
            &&& plan.method_ident == "Method"@
            &&& plan.call_ident == "RpcCall"@
            &&& plan.handler_ident == "Handler"@
            &&& has_one_entry_for_each_method(parsed.2@, plan.methods)
        }),
{
    let items = parsed.2@;
    assert(service_of(parsed).items =~= models(items));
    lemma_methods(items, items.len() as int);
    assert(items.take(items.len() as int) =~= items);
}

/// Whatever a text expands to, it is made of the trait that this text was read as, with
/// exactly one entry for each method of that trait, in order. Nothing comes exactly if the text
/// was not read as a trait, or the attribute has an argument that it may not have.
pub proof fn a_text_expands_to_what_it_was_read_as(
    args: &str,
    input: &str,
    r: Option<ServicePlan>,
)
    requires
        call_ensures(rpc, (args, input), r),
    ensures
        exists|
            metas: Option<Vec<AttributeArgument>>,
            expressions: Option<Vec<AttributeArgument>>,
            parsed: Option<TraitText>,
        |
            {
                &&& #[trigger] arguments_were_read(args, metas, expressions)
                &&& #[trigger] trait_was_read(input, parsed)
                &&& args@.len() == 0 ==> (r is Some <==> parsed is Some)
                &&& r is Some <==> parsed is Some && (are_allowed(arguments_of(metas))
                    || are_allowed(arguments_of(expressions)))
                &&& r is Some ==> {
                    &&& r->0.vis@ == (parsed->0).0@
                    &&& r->0.trait_ident@ == (parsed->0).1@
                    &&& has_one_entry_for_each_method((parsed->0).2@, r->0@.methods)
                }
            },
{
    let (metas, expressions, parsed) = choose|
        metas: Option<Vec<AttributeArgument>>,
        expressions: Option<Vec<AttributeArgument>>,
        parsed: Option<TraitText>,
    |
        {
            &&& #[trigger] arguments_were_read(args, metas, expressions)
            &&& args@.len() == 0 ==> are_allowed(arguments_of(metas))
            &&& #[trigger] trait_was_read(input, parsed)
            &&& is_expanded(
                are_allowed(arguments_of(metas)) || are_allowed(arguments_of(expressions)),
                read_as(parsed),
                r,
            )
        };
    if parsed is Some {
        each_method_has_one_entry(parsed->0);
    }
}

/// An attribute may have literals, paths, lists, and values that are literals, in any number
/// and order, and nothing else.
pub proof fn an_attribute_takes_literals_paths_and_lists(arguments: Seq<AttributeArgument>)
    ensures
        each_is_allowed(arguments) <==> !arguments.contains(AttributeArgument::Other)
            && !arguments.contains(AttributeArgument::Value { literal: false }),
        are_allowed(Some(arguments)) == each_is_allowed(arguments),
        !are_allowed(None),
{
    if each_is_allowed(arguments) {
        assert forall|i: int| 0 <= i < arguments.len() implies arguments[i]
            != AttributeArgument::Other && arguments[i] != (AttributeArgument::Value {
            literal: false,
        }) by {
            assert(is_allowed(arguments[i]));
        }
    } else {
        let i = choose|i: int| 0 <= i < arguments.len() && !is_allowed(#[trigger] arguments[i]);
        assert(arguments.contains(arguments[i]));
    }
}

/// A connection state's structure has each of the fields that were read from its text, in
/// order, each with the number of its place; nothing comes exactly if the text was not read
/// as a structure, or a field has no name.
pub proof fn each_field_has_its_number(input: &str, r: Option<Vec<(usize, String)>>)
    requires
        call_ensures(connection_state, (input,), r),
    ensures
        exists|names: Option<Vec<Option<String>>>|
            {
                &&& #[trigger] fields_were_read(input, names)
                &&& r is Some <==> names is Some && forall|i: int|
                    0 <= i < names->0@.len() ==> #[trigger] names->0@[i] is Some
                &&& r is Some ==> {
                    &&& r->0@.len() == names->0@.len()
                    &&& forall|i: int|
                        0 <= i < names->0@.len() ==> {
                            &&& (#[trigger] r->0@[i]).0 == i
                            &&& r->0@[i].1@ == names->0@[i]->0@
                        }
                }
            },
{
    let names = choose|names: Option<Vec<Option<String>>>| #[trigger]
        fields_were_read(input, names) && match names {
            Some(names) => if field_names(names@).contains(None) {
                r is None
            } else {
                r is Some && numbers_fields(
                    field_names(names@),
                    r->0@,
                )
            },
            None => r is None,
        };
    if names is Some {
        let read = names->0@;
        let contents = field_names(read);
        assert forall|i: int| 0 <= i < read.len() implies (#[trigger] read[i] is None
            <==> contents[i] is None) && (read[i] is Some ==> contents[i] == Some(read[i]->0@)) by {
        }
        if contents.contains(None) {
            let i = choose|i: int| 0 <= i < contents.len() && contents[i] is None;
            assert(read[i] is None);
        } else {
            assert forall|i: int| 0 <= i < read.len() implies #[trigger] read[i] is Some by {
                assert(contents.contains(contents[i]));
            }
            let fields = r->0@;
            assert forall|i: int| 0 <= i < read.len() implies (#[trigger] fields[i]).0 == i
                && fields[i].1@ == read[i]->0@ by {
                assert(read[i] is Some);
                assert(contents[i] == Some(fields[i].1@));
            }
        }
    }
}

/// The text of a handler, and that of an item, are kept whole behind the attributes that are
/// put in front, exactly if they were read as an implementation and as an item.
pub proof fn attributes_are_put_in_front(
    input: &str,
    handler: Option<String>,
    item: Option<String>,
)
    requires
        call_ensures(rpc_handler, (input,), handler),
        call_ensures(codable, (input,), item),
    ensures
        impl_was_read(input, handler is Some),
        item_was_read(input, item is Some),
        handler is Some ==> {
            &&& input@.is_suffix_of(handler->0@)
            &&& "#[async_trait::async_trait]\n"@.is_prefix_of(handler->0@)
            &&& handler->0@.len() == "#[async_trait::async_trait]\n"@.len() + input@.len()
        },
        item is Some ==> {
            &&& input@.is_suffix_of(item->0@)
            &&& "#[derive(rkyv::Archive, rkyv::Serialize, rkyv::Deserialize, PartialEq, Debug, Clone)]\n"@.is_prefix_of(
                item->0@,
            )
        },
{
    if handler is Some {
        let front = "#[async_trait::async_trait]\n"@;
        assert(front =~= (front + input@).subrange(0, front.len() as int));
        assert(input@ =~= (front + input@).subrange(
            front.len() as int,
            (front + input@).len() as int,
        ));
    }
    if item is Some {
        let derives =
            "#[derive(rkyv::Archive, rkyv::Serialize, rkyv::Deserialize, PartialEq, Debug, Clone)]\n"@;
        let archive = "#[archive_attr(derive(PartialEq, rkyv::CheckBytes))]\n"@;
        let whole = derives + archive + input@;
        assert(derives =~= whole.subrange(0, derives.len() as int));
        assert(input@ =~= whole.subrange((derives + archive).len() as int, whole.len() as int));
    }
}

/// Nothing of a plan is left out of its contents: each entry is there, in order, with its
/// names, each of its fields with its type, each of its inputs, and its output.
pub proof fn a_plan_shows_everything(plan: ServicePlan)
    ensures
        plan@.vis == plan.vis@,
        plan@.trait_ident == plan.trait_ident@,
        plan@.method_ident == plan.method_ident@,
        plan@.call_ident == plan.call_ident@,
        plan@.handler_ident == plan.handler_ident@,
        plan@.server_ident == plan.server_ident@,
        plan@.client_ident == plan.client_ident@,
        plan@.methods.len() == plan.methods@.len(),
        forall|k: int|
            0 <= k < plan.methods@.len() ==> {
                let entry = #[trigger] plan.methods@[k];
                let shown = plan@.methods[k];
                &&& shown.item == entry.item
                &&& shown.method == entry.method@
                &&& shown.variant == entry.variant@
                &&& shown.input_ident == entry.input_ident@
                &&& shown.output_ident == entry.output_ident@
                &&& shown.output == entry.output@
                &&& shown.fields.len() == entry.fields@.len()
                &&& shown.inputs.len() == entry.inputs@.len()
            },
        forall|k: int, i: int|
            0 <= k < plan.methods@.len() && 0 <= i < plan.methods@[k].fields@.len() ==> (
            #[trigger] plan.methods@[k].fields@[i]).0@ == plan@.methods[k].fields[i].0
                && plan.methods@[k].fields@[i].1@ == plan@.methods[k].fields[i].1,
        forall|k: int, i: int|
            0 <= k < plan.methods@.len() && 0 <= i < plan.methods@[k].inputs@.len()
                ==> #[trigger] plan.methods@[k].inputs@[i]@ == plan@.methods[k].inputs[i],
{
}

}
