//! What a service's trait, a connection state's structure, a handler and a serializable
//! item expand to: which items are generated, under which names, with which fields and
//! attributes.

use quote::ToTokens;
use syn::parse::Parser;
use syn::punctuated::Punctuated;
use syn::token::Comma;
use syn::{
    Expr, ExprUnary, FnArg, Item, ItemImpl, ItemStruct, ItemTrait, Meta, Pat, UnOp,
};
use vstd::prelude::*;
use vstd::utf8::is_ascii_chars;

use crate::naming::{pascal_case, snake_to_pascal_case};
use crate::text::occurs;

verus! {

/// An argument of a method.
#[derive(Debug, PartialEq, Eq)]
pub enum Argument {
    /// The method's receiver.
    Receiver,
    /// An argument with a name.
    Named {
        /// The name.
        name: String,
        /// The type.
        ty: String,
    },
    /// An argument with any other pattern.
    Pattern {
        /// The pattern.
        pattern: String,
    },
}

/// An item of a trait.
#[derive(Debug, PartialEq, Eq)]
pub enum TraitItem {
    /// A method.
    Method {
        /// The method's name.
        ident: String,
        /// The method's arguments, in order.
        arguments: Vec<Argument>,
        /// The type of the method's output, if it has one.
        output: Option<String>,
    },
    /// Any other item.
    Other,
}

/// A service's trait.
#[derive(Debug, PartialEq, Eq)]
pub struct ServiceTrait {
    /// The trait's visibility.
    pub vis: String,
    /// The trait's name.
    pub ident: String,
    /// The trait's items, in order.
    pub items: Vec<TraitItem>,
}

/// The contents of an argument.
pub enum ArgumentModel {
    Receiver,
    Named { name: Seq<char>, ty: Seq<char> },
    Pattern { pattern: Seq<char> },
}

/// The contents of an item of a trait.
#[verifier::ext_equal]
pub enum ItemModel {
    Method { ident: Seq<char>, arguments: Seq<ArgumentModel>, output: Option<Seq<char>> },
    Other,
}

/// The contents of a service's trait.
#[verifier::ext_equal]
pub struct ServiceModel {
    pub vis: Seq<char>,
    pub ident: Seq<char>,
    pub items: Seq<ItemModel>,
}

impl View for Argument {
    type V = ArgumentModel;

    open spec fn view(&self) -> ArgumentModel {
        match self {
            Argument::Receiver => ArgumentModel::Receiver,
            Argument::Named { name, ty } => ArgumentModel::Named { name: name@, ty: ty@ },
            Argument::Pattern { pattern } => ArgumentModel::Pattern { pattern: pattern@ },
        }
    }
}

impl View for TraitItem {
    type V = ItemModel;

    open spec fn view(&self) -> ItemModel {
        match self {
            TraitItem::Method { ident, arguments, output } => ItemModel::Method {
                ident: ident@,
                arguments: arguments@.map_values(|argument: Argument| argument@),
                output: text_of(*output),
            },
            TraitItem::Other => ItemModel::Other,
        }
    }
}

impl View for ServiceTrait {
    type V = ServiceModel;

    open spec fn view(&self) -> ServiceModel {
        ServiceModel {
            vis: self.vis@,
            ident: self.ident@,
            items: self.items@.map_values(|item: TraitItem| item@),
        }
    }
}

/// The contents of a text, if there is one.
pub open spec fn text_of(text: Option<String>) -> Option<Seq<char>> {
    match text {
        Some(text) => Some(text@),
        None => None,
    }
}

/// Whether a name may come from a text: it has characters and, if the text is ASCII, occurs
/// in it.
pub open spec fn comes_from(name: Seq<char>, text: Seq<char>) -> bool {
    name.len() > 0 && (is_ascii_chars(text) ==> occurs(name, text))
}

/// Whether a trait has its name and those of its methods from a text.
pub open spec fn is_named_in(service: ServiceModel, text: Seq<char>) -> bool {
    &&& comes_from(service.ident, text)
    &&& forall|i: int|
        0 <= i < service.items.len() && #[trigger] service.items[i] is Method ==> comes_from(
            service.items[i]->ident,
            text,
        )
}

/// An argument as it is read: nothing of the receiver; of any other, whether its pattern is a
/// name, the pattern, and the type.
pub type ArgumentText = Option<(bool, String, String)>;

/// A method as it is read: its name, its arguments in order, and its output, which is an
/// arrow with a type behind it or nothing.
pub type MethodText = (String, Vec<ArgumentText>, String);

/// A trait as it is read: its visibility, its name, and its items in order, of which those
/// that are no methods hold nothing.
pub type TraitText = (String, String, Vec<Option<MethodText>>);

/// The argument that was read.
pub open spec fn argument_of(text: ArgumentText) -> ArgumentModel {
    match text {
        None => ArgumentModel::Receiver,
        Some((true, name, ty)) => ArgumentModel::Named { name: name@, ty: ty@ },
        Some((false, pattern, _)) => ArgumentModel::Pattern { pattern: pattern@ },
    }
}

/// A text without the spaces in front.
pub open spec fn trimmed(text: Seq<char>) -> Seq<char>
    decreases text.len(),
{
    if text.len() > 0 && text[0] == ' ' {
        trimmed(text.skip(1))
    } else {
        text
    }
}

/// The type behind the arrow of an output, if there is an arrow.
pub open spec fn output_of(text: Seq<char>) -> Option<Seq<char>> {
    if text.len() >= 2 && text[0] == '-' && text[1] == '>' {
        Some(trimmed(text.skip(2)))
    } else {
        None
    }
}

/// The item that was read.
pub open spec fn item_of(text: Option<MethodText>) -> ItemModel {
    match text {
        Some((ident, arguments, output)) => ItemModel::Method {
            ident: ident@,
            arguments: arguments@.map_values(|argument: ArgumentText| argument_of(argument)),
            output: output_of(output@),
        },
        None => ItemModel::Other,
    }
}

/// The trait that was read.
pub open spec fn service_of(text: TraitText) -> ServiceModel {
    ServiceModel {
        vis: text.0@,
        ident: text.1@,
        items: text.2@.map_values(|item: Option<MethodText>| item_of(item)),
    }
}

/// Calls `syn::parse_str` for a trait, and keeps the texts of its visibility and its name, and
/// of its methods those of the names, the arguments and the outputs. A text without characters
/// is no trait. No name is empty, and they stand in the text as they are given, if it is
/// ASCII; others may be normalized. What else is read from a text is left unsaid: inside a
/// procedural macro the compiler splits the text into tokens, which it does by the edition,
/// and elsewhere `proc_macro2` does.
#[verifier::external_body]
fn read_trait(text: &str) -> (r: Option<TraitText>)
    ensures
        r matches Some(parsed) ==> text@.len() > 0 && is_named_in(service_of(parsed), text@),
{
    let parsed = syn::parse_str::<ItemTrait>(text).ok()?;
    let items = parsed.items.iter().map(|item| match item {
        syn::TraitItem::Fn(f) => Some((f.sig.ident.to_string(), f.sig.inputs.iter().map(|argument| match argument {
            FnArg::Receiver(_) => None,
            FnArg::Typed(typed) => Some((
                matches!(*typed.pat, Pat::Ident(_)),
                typed.pat.to_token_stream().to_string(),
                typed.ty.to_token_stream().to_string(),
            )),
        }).collect(), f.sig.output.to_token_stream().to_string())),
        _ => None,
    });
    Some((parsed.vis.to_token_stream().to_string(), parsed.ident.to_string(), items.collect()))
}

/// Whether this was read from a text as a trait: a trait, or nothing.
pub closed spec fn trait_was_read(text: &str, parsed: Option<TraitText>) -> bool {
    call_ensures(read_trait, (text,), parsed)
}

/// The characters of a text.
fn characters(text: &String) -> (r: Vec<char>)
    ensures
        r@ == text@,
{
    let mut r: Vec<char> = Vec::new();
    for c in it: text.as_str().chars()
        invariant
            it.seq() == text@,
            r@ == text@.take(it.index() as int),
    {
        r.push(c);
        assert(r@ =~= text@.take(it.index() + 1));
    }
    assert(text@.take(text@.len() as int) =~= text@);
    r
}

/// The type behind the arrow of an output, if there is an arrow.
fn output_type(text: &String) -> (r: Option<String>)
    ensures
        text_of(r) == output_of(text@),
{
    let chars = characters(text);
    if chars.len() < 2 || chars[0] != '-' || chars[1] != '>' {
        return None;
    }
    let mut start: usize = 2;
    while start < chars.len() && chars[start] == ' '
        invariant
            2 <= start <= chars.len(),
            trimmed(chars@.skip(2)) == trimmed(chars@.skip(start as int)),
        decreases chars.len() - start,
    {
        assert(chars@.skip(start as int).skip(1) =~= chars@.skip(start + 1));
        start += 1;
    }
    let mut r = String::new();
    let mut i: usize = start;
    while i < chars.len()
        invariant
            start <= i <= chars.len(),
            r@ == chars@.subrange(start as int, i as int),
        decreases chars.len() - i,
    {
        r.push(chars[i]);
        assert(chars@.subrange(start as int, i + 1) =~= chars@.subrange(start as int, i as int).push(
            chars@[i as int],
        ));
        i += 1;
    }
    assert(r@ =~= chars@.skip(start as int));
    Some(r)
}

/// The item that was read.
fn to_item(text: Option<MethodText>) -> (r: TraitItem)
    ensures
        r@ == item_of(text),
{
    match text {
        Some((ident, texts, output)) => {
            let mut arguments: Vec<Argument> = Vec::new();
            let ghost contents = |argument: Argument| argument@;
            let ghost read = |argument: ArgumentText| argument_of(argument);
            assert(arguments@.map_values(contents) =~= texts@.take(0).map_values(read));
            for text in it: texts
                invariant
                    it.seq() == texts@,
                    contents == |argument: Argument| argument@,
                    read == |argument: ArgumentText| argument_of(argument),
                    arguments@.map_values(contents) == texts@.take(it.index() as int).map_values(
                        read,
                    ),
            {
                let ghost before = arguments@;
                let argument = match text {
                    None => Argument::Receiver,
                    Some((is_name, pattern, ty)) => if is_name {
                        Argument::Named { name: pattern, ty }
                    } else {
                        Argument::Pattern { pattern }
                    },
                };
                arguments.push(argument);
                assert(arguments@.map_values(contents) =~= before.map_values(contents).push(
                    argument@,
                ));
                assert(texts@.take(it.index() + 1).map_values(read) =~= texts@.take(
                    it.index() as int,
                ).map_values(read).push(argument_of(texts@[it.index() as int])));
            }
            assert(texts@.take(texts@.len() as int) =~= texts@);
            let output = output_type(&output);
            TraitItem::Method { ident, arguments, output }
        },
        None => TraitItem::Other,
    }
}

/// The trait that was read.
pub fn to_service(text: TraitText) -> (r: ServiceTrait)
    ensures
        r@ == service_of(text),
{
    let (vis, ident, texts) = text;
    let mut items: Vec<TraitItem> = Vec::new();
    let ghost contents = |item: TraitItem| item@;
    let ghost read = |item: Option<MethodText>| item_of(item);
    assert(items@.map_values(contents) =~= texts@.take(0).map_values(read));
    for text in it: texts
        invariant
            it.seq() == texts@,
            contents == |item: TraitItem| item@,
            read == |item: Option<MethodText>| item_of(item),
            items@.map_values(contents) == texts@.take(it.index() as int).map_values(read),
    {
        let ghost before = items@;
        let item = to_item(text);
        items.push(item);
        assert(items@.map_values(contents) =~= before.map_values(contents).push(item@));
        assert(texts@.take(it.index() + 1).map_values(read) =~= texts@.take(
            it.index() as int,
        ).map_values(read).push(item_of(texts@[it.index() as int])));
    }
    assert(texts@.take(texts@.len() as int) =~= texts@);
    ServiceTrait { vis, ident, items }
}

/// An argument of an attribute.
#[derive(Clone, Copy, Debug, PartialEq, Eq, Structural)]
pub enum AttributeArgument {
    /// A literal.
    Literal,
    /// A path.
    Path,
    /// A path with a list behind it.
    List,
    /// A path with a value, or a sign with a value behind it.
    Value {
        /// Whether the value is a literal.
        literal: bool,
    },
    /// Anything else.
    Other,
}

/// Whether an attribute may have an argument.
pub open spec fn is_allowed(argument: AttributeArgument) -> bool {
    match argument {
        AttributeArgument::Value { literal } => literal,
        AttributeArgument::Other => false,
        _ => true,
    }
}

/// Whether an attribute may have each of some arguments.
pub open spec fn each_is_allowed(arguments: Seq<AttributeArgument>) -> bool {
    forall|i: int| 0 <= i < arguments.len() ==> is_allowed(#[trigger] arguments[i])
}

/// Whether arguments were read, and an attribute may have each of them.
pub open spec fn are_allowed(arguments: Option<Seq<AttributeArgument>>) -> bool {
    match arguments {
        Some(arguments) => each_is_allowed(arguments),
        None => false,
    }
}

/// The contents of arguments, if they were read.
pub open spec fn arguments_of(arguments: Option<Vec<AttributeArgument>>) -> Option<
    Seq<AttributeArgument>,
> {
    match arguments {
        Some(arguments) => Some(arguments@),
        None => None,
    }
}

/// Calls `syn`'s parser for the arguments of an attribute as meta items: paths, lists and
/// values by name, with commas between them. A text without characters holds none. What is
/// read from another text is left unsaid: inside a procedural macro the compiler splits the
/// text into tokens, which it does by the edition, and elsewhere `proc_macro2` does.
#[verifier::external_body]
fn read_metas(text: &str) -> (r: Option<Vec<AttributeArgument>>)
    ensures
        text@.len() == 0 ==> arguments_of(r) == Some(Seq::<AttributeArgument>::empty()),
{
    let read = Punctuated::<Meta, Comma>::parse_terminated.parse_str(text).ok()?;
    Some(read.iter().map(|argument| match argument {
        Meta::Path(_) => AttributeArgument::Path,
        Meta::List(_) => AttributeArgument::List,
        Meta::NameValue(pair) => AttributeArgument::Value { literal: matches!(pair.value, Expr::Lit(_)) },
    }).collect())
}

/// Calls `syn`'s parser for the arguments of an attribute as expressions, of which literals,
/// paths, calls, assignments and negations are told apart, with commas between them. A text
/// without characters holds none. What is read from another text is left unsaid: inside a
/// procedural macro the compiler splits the text into tokens, which it does by the edition,
/// and elsewhere `proc_macro2` does.
#[verifier::external_body]
fn read_expressions(text: &str) -> (r: Option<Vec<AttributeArgument>>)
    ensures
        text@.len() == 0 ==> arguments_of(r) == Some(Seq::<AttributeArgument>::empty()),
{
    let read = Punctuated::<Expr, Comma>::parse_terminated.parse_str(text).ok()?;
    Some(read.iter().map(|argument| match argument {
        Expr::Lit(_) => AttributeArgument::Literal,
        Expr::Path(_) => AttributeArgument::Path,
        Expr::Call(_) => AttributeArgument::List,
        Expr::Assign(pair) => AttributeArgument::Value { literal: matches!(*pair.right, Expr::Lit(_)) },
        Expr::Unary(ExprUnary { op: UnOp::Neg(_), expr, .. }) => {
            AttributeArgument::Value { literal: matches!(**expr, Expr::Lit(_)) }
        }
        _ => AttributeArgument::Other,
    }).collect())
}

/// Whether these were read from a text as the arguments of an attribute, as meta items and as
/// expressions.
pub closed spec fn arguments_were_read(
    text: &str,
    metas: Option<Vec<AttributeArgument>>,
    expressions: Option<Vec<AttributeArgument>>,
) -> bool {
    &&& call_ensures(read_metas, (text,), metas)
    &&& call_ensures(read_expressions, (text,), expressions)
}

/// Whether an attribute may have each of some arguments.
fn all_allowed(arguments: &Vec<AttributeArgument>) -> (r: bool)
    ensures
        r == each_is_allowed(arguments@),
{
    let mut i: usize = 0;
    while i < arguments.len()
        invariant
            i <= arguments.len(),
            forall|j: int| 0 <= j < i ==> is_allowed(#[trigger] arguments@[j]),
        decreases arguments.len() - i,
    {
        let allowed = match arguments[i] {
            AttributeArgument::Value { literal } => literal,
            AttributeArgument::Other => false,
            _ => true,
        };
        if !allowed {
            assert(!is_allowed(arguments@[i as int]));
            return false;
        }
        i += 1;
    }
    true
}

/// Whether arguments were read, and an attribute may have each of them.
fn read_and_allowed(arguments: &Option<Vec<AttributeArgument>>) -> (r: bool)
    ensures
        r == are_allowed(arguments_of(*arguments)),
{
    match arguments {
        Some(arguments) => all_allowed(arguments),
        None => false,
    }
}

/// Whether an attribute may have its arguments, as they were read as meta items and as
/// expressions: read in one of the two ways, each is a literal, a path, a list, or a literal
/// by name.
pub fn accept_arguments(
    metas: &Option<Vec<AttributeArgument>>,
    expressions: &Option<Vec<AttributeArgument>>,
) -> (r: bool)
    ensures
        r == (are_allowed(arguments_of(*metas)) || are_allowed(arguments_of(*expressions))),
{
    read_and_allowed(metas) || read_and_allowed(expressions)
}

/// The contents of the names of fields.
pub open spec fn field_names(names: Seq<Option<String>>) -> Seq<Option<Seq<char>>> {
    names.map_values(|name: Option<String>| text_of(name))
}

/// Whether fields have their names, where they have one, from a text.
pub open spec fn are_named_in(names: Seq<Option<Seq<char>>>, text: Seq<char>) -> bool {
    forall|i: int|
        0 <= i < names.len() && #[trigger] names[i] is Some ==> comes_from(names[i]->0, text)
}

/// Calls `syn::parse_str` for a structure, and keeps the names of its fields; those of a
/// tuple structure have none. A text without characters is no structure. No name is
/// empty, and they stand in the text as they are given, if it is ASCII. What else is read from a text is left unsaid:
/// inside a procedural macro the compiler splits the text into tokens, which it does by the
/// edition, and elsewhere `proc_macro2` does.
#[verifier::external_body]
fn read_fields(text: &str) -> (r: Option<Vec<Option<String>>>)
    ensures
        r matches Some(names) ==> text@.len() > 0 && are_named_in(field_names(names@), text@),
{
    let parsed = syn::parse_str::<ItemStruct>(text).ok()?;
    let names = parsed.fields.iter().map(|field| field.ident.as_ref().map(|name| name.to_string()));
    Some(names.collect())
}

/// Whether these were read from a text as the names of the fields of a structure: names, or
/// nothing.
pub closed spec fn fields_were_read(text: &str, names: Option<Vec<Option<String>>>) -> bool {
    call_ensures(read_fields, (text,), names)
}

/// Calls `syn::parse_str` for an implementation, and says whether it reads one. A text
/// without characters is none. Whether another is one is left unsaid: inside a procedural
/// macro the compiler splits the text into tokens, which it does by the edition, and
/// elsewhere `proc_macro2` does.
#[verifier::external_body]
fn reads_impl(text: &str) -> (r: bool)
    ensures
        r ==> text@.len() > 0,
{
    syn::parse_str::<ItemImpl>(text).is_ok()
}

/// Whether a text was read as an implementation, or was not.
pub closed spec fn impl_was_read(text: &str, is_impl: bool) -> bool {
    call_ensures(reads_impl, (text,), is_impl)
}

/// Calls `syn::parse_str` for an item, and says whether it reads one. A text without
/// characters is none. Whether another is one is left unsaid: inside a procedural macro the
/// compiler splits the text into tokens, which it does by the edition, and elsewhere
/// `proc_macro2` does.
#[verifier::external_body]
fn reads_item(text: &str) -> (r: bool)
    ensures
        r ==> text@.len() > 0,
{
    syn::parse_str::<Item>(text).is_ok()
}

/// Whether a text was read as an item, or was not.
pub closed spec fn item_was_read(text: &str, is_item: bool) -> bool {
    call_ensures(reads_item, (text,), is_item)
}

/// What a method expands to.
#[derive(Debug, PartialEq, Eq)]
pub struct MethodPlan {
    /// The position of the method among the trait's items.
    pub item: usize,
    /// The name of the method.
    pub method: String,
    /// The name of the variant that stands for the method, and for a call of it.
    pub variant: String,
    /// The fields of a call: the name and the type of each argument with a name.
    pub fields: Vec<(String, String)>,
    /// What a call hands on: the name or pattern of each argument but the receiver.
    pub inputs: Vec<String>,
    /// The name of the structure of the method's input, which has the same fields.
    pub input_ident: String,
    /// The name of the type of the method's output.
    pub output_ident: String,
    /// The type of the method's output.
    pub output: String,
}

/// What a service's trait expands to. The trait itself is kept.
#[derive(Debug, PartialEq, Eq)]
pub struct ServicePlan {
    /// The visibility of everything that is generated, which is the trait's.
    pub vis: String,
    /// The name of the trait. The client implements it by calling the server.
    pub trait_ident: String,
    /// The name of the enumeration of the methods.
    pub method_ident: String,
    /// The name of the enumeration of the calls.
    pub call_ident: String,
    /// The name of the structure that the application implements the trait for.
    pub handler_ident: String,
    /// The name of the server.
    pub server_ident: String,
    /// The name of the client.
    pub client_ident: String,
    /// What the methods expand to, in order.
    pub methods: Vec<MethodPlan>,
}

/// The contents of what a method expands to.
#[verifier::ext_equal]
pub struct MethodModel {
    pub item: int,
    pub method: Seq<char>,
    pub variant: Seq<char>,
    pub fields: Seq<(Seq<char>, Seq<char>)>,
    pub inputs: Seq<Seq<char>>,
    pub input_ident: Seq<char>,
    pub output_ident: Seq<char>,
    pub output: Seq<char>,
}

/// The contents of what a service's trait expands to.
#[verifier::ext_equal]
pub struct PlanModel {
    pub vis: Seq<char>,
    pub trait_ident: Seq<char>,
    pub method_ident: Seq<char>,
    pub call_ident: Seq<char>,
    pub handler_ident: Seq<char>,
    pub server_ident: Seq<char>,
    pub client_ident: Seq<char>,
    pub methods: Seq<MethodModel>,
}

impl View for MethodPlan {
    type V = MethodModel;

    open spec fn view(&self) -> MethodModel {
        MethodModel {
            item: self.item as int,
            method: self.method@,
            variant: self.variant@,
            fields: self.fields@.map_values(|field: (String, String)| (field.0@, field.1@)),
            inputs: self.inputs@.map_values(|input: String| input@),
            input_ident: self.input_ident@,
            output_ident: self.output_ident@,
            output: self.output@,
        }
    }
}

impl View for ServicePlan {
    type V = PlanModel;

    open spec fn view(&self) -> PlanModel {
        PlanModel {
            vis: self.vis@,
            trait_ident: self.trait_ident@,
            method_ident: self.method_ident@,
            call_ident: self.call_ident@,
            handler_ident: self.handler_ident@,
            server_ident: self.server_ident@,
            client_ident: self.client_ident@,
            methods: self.methods@.map_values(|method: MethodPlan| method@),
        }
    }
}

/// The names and types of those of the first `n` arguments that have a name, in order.
pub open spec fn fields_of(arguments: Seq<ArgumentModel>, n: int) -> Seq<(Seq<char>, Seq<char>)>
    decreases n,
{
    if n <= 0 {
        seq![]
    } else {
        match arguments[n - 1] {
            ArgumentModel::Named { name, ty } => fields_of(arguments, n - 1).push((name, ty)),
            _ => fields_of(arguments, n - 1),
        }
    }
}

/// The names and patterns of the first `n` arguments, without the receiver, in order.
pub open spec fn inputs_of(arguments: Seq<ArgumentModel>, n: int) -> Seq<Seq<char>>
    decreases n,
{
    if n <= 0 {
        seq![]
    } else {
        match arguments[n - 1] {
            ArgumentModel::Receiver => inputs_of(arguments, n - 1),
            ArgumentModel::Named { name, .. } => inputs_of(arguments, n - 1).push(name),
            ArgumentModel::Pattern { pattern } => inputs_of(arguments, n - 1).push(pattern),
        }
    }
}

/// What a method expands to, the method being the item at a position.
pub open spec fn method_expansion(
    item: int,
    ident: Seq<char>,
    arguments: Seq<ArgumentModel>,
    output: Option<Seq<char>>,
) -> MethodModel {
    MethodModel {
        item,
        method: ident,
        variant: pascal_case(ident),
        fields: fields_of(arguments, arguments.len() as int),
        inputs: inputs_of(arguments, arguments.len() as int),
        input_ident: pascal_case(ident) + "Input"@,
        output_ident: pascal_case(ident) + "Output"@,
        output: match output {
            Some(ty) => ty,
            None => "()"@,
        },
    }
}

/// What those of the first `n` items expand to that are methods, in order.
pub open spec fn methods_of(items: Seq<ItemModel>, n: int) -> Seq<MethodModel>
    decreases n,
{
    if n <= 0 {
        seq![]
    } else {
        match items[n - 1] {
            ItemModel::Method { ident, arguments, output } => methods_of(items, n - 1).push(
                method_expansion(n - 1, ident, arguments, output),
            ),
            ItemModel::Other => methods_of(items, n - 1),
        }
    }
}

/// What a service's trait expands to.
pub open spec fn service_expansion(service: ServiceModel) -> PlanModel {
    PlanModel {
        vis: service.vis,
        trait_ident: service.ident,
        method_ident: "Method"@,
        call_ident: "RpcCall"@,
        handler_ident: "Handler"@,
        server_ident: service.ident + "Server"@,
        client_ident: service.ident + "Client"@,
        methods: methods_of(service.items, service.items.len() as int),
    }
}

/// A copy of a text with another behind it.
fn joined(first: &String, second: &str) -> (r: String)
    ensures
        r@ == first@ + second@,
{
    let mut r = first.clone();
    r.append(second);
    r
}

/// What a method expands to.
fn expand_method(
    item: usize,
    ident: &String,
    arguments: &Vec<Argument>,
    output: &Option<String>,
) -> (plan: MethodPlan)
    ensures
        plan@ == method_expansion(
            item as int,
            ident@,
            arguments@.map_values(|argument: Argument| argument@),
            text_of(*output),
        ),
{
    let ghost contents = arguments@.map_values(|argument: Argument| argument@);
    let ghost field = |field: (String, String)| (field.0@, field.1@);
    let ghost input = |input: String| input@;
    let mut fields: Vec<(String, String)> = Vec::new();
    let mut inputs: Vec<String> = Vec::new();
    let mut i: usize = 0;
    assert(fields@.map_values(field) =~= seq![]);
    assert(inputs@.map_values(input) =~= seq![]);
    while i < arguments.len()
        invariant
            i <= arguments.len(),
            contents == arguments@.map_values(|argument: Argument| argument@),
            field == |field: (String, String)| (field.0@, field.1@),
            input == |input: String| input@,
            fields@.map_values(field) == fields_of(contents, i as int),
            inputs@.map_values(input) == inputs_of(contents, i as int),
        decreases arguments.len() - i,
    {
        let ghost fields_before = fields@;
        let ghost inputs_before = inputs@;
        assert(contents[i as int] == arguments@[i as int]@);
        match &arguments[i] {
            Argument::Receiver => {},
            Argument::Named { name, ty } => {
                fields.push((name.clone(), ty.clone()));
                inputs.push(name.clone());
                assert(fields@.map_values(field) =~= fields_before.map_values(field).push(
                    (name@, ty@),
                ));
                assert(inputs@.map_values(input) =~= inputs_before.map_values(input).push(name@));
            },
            Argument::Pattern { pattern } => {
                inputs.push(pattern.clone());
                assert(inputs@.map_values(input) =~= inputs_before.map_values(input).push(
                    pattern@,
                ));
            },
        }
        i += 1;
    }
    let variant = snake_to_pascal_case(ident.as_str());
    MethodPlan {
        item,
        method: ident.clone(),
        input_ident: joined(&variant, "Input"),
        output_ident: joined(&variant, "Output"),
        output: match output {
            Some(ty) => ty.clone(),
            None => "()".to_owned(),
        },
        variant,
        fields,
        inputs,
    }
}

/// What a service's trait expands to.
pub fn expand_service(service: &ServiceTrait) -> (plan: ServicePlan)
    ensures
        plan@ == service_expansion(service@),
{
    let mut methods: Vec<MethodPlan> = Vec::new();
    let mut i: usize = 0;
    let ghost contents = |method: MethodPlan| method@;
    assert(methods@.map_values(contents) =~= seq![]);
    while i < service.items.len()
        invariant
            i <= service.items.len(),
            contents == |method: MethodPlan| method@,
            methods@.map_values(contents) == methods_of(service@.items, i as int),
        decreases service.items.len() - i,
    {
        assert(service@.items[i as int] == service.items@[i as int]@);
        match &service.items[i] {
            TraitItem::Method { ident, arguments, output } => {
                let ghost before = methods@;
                let plan = expand_method(i, ident, arguments, output);
                methods.push(plan);
                assert(methods@.map_values(contents) =~= before.map_values(contents).push(plan@));
            },
            TraitItem::Other => {},
        }
        i += 1;
    }
    ServicePlan {
        vis: service.vis.clone(),
        trait_ident: service.ident.clone(),
        method_ident: "Method".to_owned(),
        call_ident: "RpcCall".to_owned(),
        handler_ident: "Handler".to_owned(),
        server_ident: joined(&service.ident, "Server"),
        client_ident: joined(&service.ident, "Client"),
        methods,
    }
}

/// Whether this comes of a trait, if one was read, and of the attribute's arguments, if it may
/// have them: what the trait expands to. Nothing comes if either fails.
pub open spec fn is_expanded(
    allowed: bool,
    service: Option<ServiceModel>,
    r: Option<ServicePlan>,
) -> bool {
    match service {
        Some(service) => if allowed {
            r is Some && r->0@ == service_expansion(service)
        } else {
            r is None
        },
        None => r is None,
    }
}

/// The trait that was read, if one was.
pub open spec fn read_as(parsed: Option<TraitText>) -> Option<ServiceModel> {
    match parsed {
        Some(parsed) => Some(service_of(parsed)),
        None => None,
    }
}

/// What comes of a trait as it was read, if it was, and of the attribute's arguments as they
/// were read as meta items and as expressions.
pub fn expand_rpc(
    metas: &Option<Vec<AttributeArgument>>,
    expressions: &Option<Vec<AttributeArgument>>,
    parsed: Option<TraitText>,
) -> (r: Option<ServicePlan>)
    ensures
        is_expanded(
            are_allowed(arguments_of(*metas)) || are_allowed(arguments_of(*expressions)),
            read_as(parsed),
            r,
        ),
{
    if !accept_arguments(metas, expressions) {
        return None;
    }
    match parsed {
        Some(parsed) => Some(expand_service(&to_service(parsed))),
        None => None,
    }
}

/// What the text of a service's trait expands to, with the text of the attribute's arguments.
/// `None` if the one is no trait, as a text without characters is none, or the other holds
/// what an attribute may not have. A text without characters holds no arguments.
pub fn rpc(args: &str, input: &str) -> (r: Option<ServicePlan>)
    ensures
        exists|allowed: bool, service: Option<ServiceModel>|
            {
                &&& args@.len() == 0 ==> allowed
                &&& service matches Some(s) ==> input@.len() > 0 && is_named_in(s, input@)
                &&& #[trigger] is_expanded(allowed, service, r)
            },
        exists|
            metas: Option<Vec<AttributeArgument>>,
            expressions: Option<Vec<AttributeArgument>>,
            parsed: Option<TraitText>,
        |
            {
                &&& #[trigger] arguments_were_read(args, metas, expressions)
                &&& args@.len() == 0 ==> are_allowed(arguments_of(metas))
                &&& #[trigger] trait_was_read(input, parsed)
                &&& parsed is Some ==> input@.len() > 0 && is_named_in(
                    service_of(parsed->0),
                    input@,
                )
                &&& is_expanded(
                    are_allowed(arguments_of(metas)) || are_allowed(arguments_of(expressions)),
                    read_as(parsed),
                    r,
                )
            },
{
    let metas = read_metas(args);
    let expressions = read_expressions(args);
    let parsed = read_trait(input);
    let ghost service = read_as(parsed);
    let r = expand_rpc(&metas, &expressions, parsed);
    assert(is_expanded(
        are_allowed(arguments_of(metas)) || are_allowed(arguments_of(expressions)),
        service,
        r,
    ));
    assert(arguments_were_read(args, metas, expressions));
    assert(trait_was_read(input, parsed));
    r
}

/// Whether these are the fields with these names, each with its number: the position at
/// which it was declared.
pub open spec fn numbers_fields(
    names: Seq<Option<Seq<char>>>,
    fields: Seq<(usize, String)>,
) -> bool {
    &&& fields.len() == names.len()
    &&& forall|i: int|
        0 <= i < names.len() ==> (#[trigger] fields[i]).0 == i && names[i] == Some(fields[i].1@)
}

/// The fields of a connection state, each with its number. `None` if a field has no name.
pub fn number_fields(names: Vec<Option<String>>) -> (r: Option<Vec<(usize, String)>>)
    ensures
        if field_names(names@).contains(None) {
            r is None
        } else {
            r is Some && numbers_fields(field_names(names@), r->0@)
        },
{
    let mut fields: Vec<(usize, String)> = Vec::new();
    for name in it: names
        invariant
            it.seq() == names@,
            fields@.len() == it.index(),
            forall|i: int|
                0 <= i < it.index() ==> (#[trigger] fields@[i]).0 == i && field_names(names@)[i]
                    == Some(fields@[i].1@),
    {
        let i: usize = fields.len();
        match name {
            Some(name) => {
                fields.push((i, name));
            },
            None => {
                assert(field_names(names@)[i as int] is None);
                return None;
            },
        }
    }
    proof {
        let contents = field_names(names@);
        assert forall|i: int| 0 <= i < contents.len() implies #[trigger] contents[i] is Some by {
            assert(contents[i] == Some(fields@[i].1@));
        }
    }
    Some(fields)
}

/// The fields of a connection state's structure, if one was read, each with its number.
/// `None` if none was read or a field has no name.
pub fn expand_state(names: Option<Vec<Option<String>>>) -> (r: Option<Vec<(usize, String)>>)
    ensures
        match names {
            Some(names) => if field_names(names@).contains(None) {
                r is None
            } else {
                r is Some && numbers_fields(field_names(names@), r->0@)
            },
            None => r is None,
        },
{
    match names {
        Some(names) => number_fields(names),
        None => None,
    }
}

/// The fields of the text of a connection state's structure, each with its number. `None`
/// if it is no structure, as a text without characters is none, or a field has no name.
pub fn connection_state(input: &str) -> (r: Option<Vec<(usize, String)>>)
    ensures
        r matches Some(fields) ==> input@.len() > 0 && exists|names: Seq<Option<Seq<char>>>|
            are_named_in(names, input@) && #[trigger] numbers_fields(names, fields@),
        exists|names: Option<Vec<Option<String>>>| #[trigger]
            fields_were_read(input, names) && match names {
                Some(names) => {
                    &&& input@.len() > 0
                    &&& are_named_in(field_names(names@), input@)
                    &&& if field_names(names@).contains(None) {
                        r is None
                    } else {
                        r is Some && numbers_fields(field_names(names@), r->0@)
                    }
                },
                None => r is None,
            },
{
    let names = read_fields(input);
    assert(fields_were_read(input, names));
    expand_state(names)
}

/// What the text of a handler's implementation expands to, if it is one: the same with the
/// attribute for asynchronous traits.
pub fn expand_handler(input: &str, is_impl: bool) -> (r: Option<String>)
    ensures
        if is_impl {
            r is Some && r->0@ == "#[async_trait::async_trait]\n"@ + input@
        } else {
            r is None
        },
{
    if !is_impl {
        return None;
    }
    let mut expanded = "#[async_trait::async_trait]\n".to_owned();
    expanded.append(input);
    Some(expanded)
}

/// What the text of a handler's implementation expands to: the same with the attribute for
/// asynchronous traits. `None` if it is no implementation, as a text without characters is
/// none.
pub fn rpc_handler(input: &str) -> (r: Option<String>)
    ensures
        r matches Some(expanded) ==> input@.len() > 0 && expanded@
            == "#[async_trait::async_trait]\n"@ + input@,
        impl_was_read(input, r is Some),
{
    let is_impl = reads_impl(input);
    assert(impl_was_read(input, is_impl));
    expand_handler(input, is_impl)
}

/// What the text of an item expands to, if it is one: the same with the attributes that
/// derive its serialization, comparison, debug output and cloning.
pub fn expand_codable(input: &str, is_item: bool) -> (r: Option<String>)
    ensures
        if is_item {
            &&& r is Some
            &&& r->0@
                == "#[derive(rkyv::Archive, rkyv::Serialize, rkyv::Deserialize, PartialEq, Debug, Clone)]\n"@
                + "#[archive_attr(derive(PartialEq, rkyv::CheckBytes))]\n"@ + input@
        } else {
            r is None
        },
{
    if !is_item {
        return None;
    }
    let mut expanded =
        "#[derive(rkyv::Archive, rkyv::Serialize, rkyv::Deserialize, PartialEq, Debug, Clone)]\n".to_owned();
    expanded.append("#[archive_attr(derive(PartialEq, rkyv::CheckBytes))]\n");
    expanded.append(input);
    Some(expanded)
}

/// What the text of an item expands to: the same with the attributes that derive its
/// serialization, comparison, debug output and cloning. `None` if it is no item, as a text
/// without characters is none.
pub fn codable(input: &str) -> (r: Option<String>)
    ensures
        r matches Some(expanded) ==> input@.len() > 0 && expanded@
            == "#[derive(rkyv::Archive, rkyv::Serialize, rkyv::Deserialize, PartialEq, Debug, Clone)]\n"@
            + "#[archive_attr(derive(PartialEq, rkyv::CheckBytes))]\n"@ + input@,
        item_was_read(input, r is Some),
{
    let is_item = reads_item(input);
    assert(item_was_read(input, is_item));
    expand_codable(input, is_item)
}

proof fn lemma_inputs_are_fields(arguments: Seq<ArgumentModel>, n: int)
    requires
        n <= arguments.len(),
        forall|i: int| 0 <= i < arguments.len() ==> (#[trigger] arguments[i]) !is Pattern,
    ensures
        inputs_of(arguments, n) == fields_of(arguments, n).map_values(
            |field: (Seq<char>, Seq<char>)| field.0,
        ),
    decreases n,
{
    let name = |field: (Seq<char>, Seq<char>)| field.0;
    if n > 0 {
        lemma_inputs_are_fields(arguments, n - 1);
        assert(arguments[n - 1] !is Pattern);
        assert(fields_of(arguments, n).map_values(name) =~= inputs_of(arguments, n));
    } else {
        assert(fields_of(arguments, n).map_values(name) =~= seq![]);
    }
}

/// Where every argument but the receiver has a name, a call hands on exactly its fields, in
/// order.
pub proof fn calls_hand_on_the_fields(arguments: Seq<ArgumentModel>)
    requires
        forall|i: int| 0 <= i < arguments.len() ==> (#[trigger] arguments[i]) !is Pattern,
    ensures
        inputs_of(arguments, arguments.len() as int) == fields_of(
            arguments,
            arguments.len() as int,
        ).map_values(|field: (Seq<char>, Seq<char>)| field.0),
{
    lemma_inputs_are_fields(arguments, arguments.len() as int);
}

}
