use hardlight::expansion::{
    accept_arguments, expand_codable, expand_handler, expand_rpc, expand_service, expand_state,
    number_fields, to_service, Argument, AttributeArgument, MethodPlan, ServicePlan, ServiceTrait,
    TraitItem,
};
use hardlight::{codable, connection_state, rpc, rpc_handler};

/// What a method expands to, its texts without spaces.
fn method(item: usize, name: &str, variant: &str, fields: &[(&str, &str)], inputs: &[&str], output: &str) -> MethodPlan {
    MethodPlan {
        item,
        method: name.to_string(),
        variant: variant.to_string(),
        fields: fields.iter().map(|(name, ty)| (name.to_string(), ty.to_string())).collect(),
        inputs: inputs.iter().map(|input| input.to_string()).collect(),
        input_ident: format!("{variant}Input"),
        output_ident: format!("{variant}Output"),
        output: output.to_string(),
    }
}

fn squeeze(text: &str) -> String {
    text.chars().filter(|c| !c.is_whitespace()).collect()
}

/// The methods of a plan, their texts without spaces.
fn methods(plan: ServicePlan) -> Vec<MethodPlan> {
    plan.methods
        .into_iter()
        .map(|method| MethodPlan {
            fields: method.fields.iter().map(|(name, ty)| (squeeze(name), squeeze(ty))).collect(),
            inputs: method.inputs.iter().map(|input| squeeze(input)).collect(),
            output: squeeze(&method.output),
            ..method
        })
        .collect()
}

#[test]
fn a_counter_service_expands() {
    let text = "pub trait Counter {
        async fn increment(&self, amount: u32) -> HandlerResult<u32>;
        async fn decrement(&self, amount: u32) -> HandlerResult<u32>;
        async fn get(&self) -> HandlerResult<u32>;
        async fn test_overhead(&self) -> HandlerResult<()>;
    }";
    let plan = rpc("", text).unwrap();
    assert_eq!(plan.vis, "pub");
    assert_eq!(plan.trait_ident, "Counter");
    assert_eq!(plan.method_ident, "Method");
    assert_eq!(plan.call_ident, "RpcCall");
    assert_eq!(plan.handler_ident, "Handler");
    assert_eq!(plan.server_ident, "CounterServer");
    assert_eq!(plan.client_ident, "CounterClient");
    assert_eq!(
        methods(plan),
        vec![
            method(0, "increment", "Increment", &[("amount", "u32")], &["amount"], "HandlerResult<u32>"),
            method(1, "decrement", "Decrement", &[("amount", "u32")], &["amount"], "HandlerResult<u32>"),
            method(2, "get", "Get", &[], &[], "HandlerResult<u32>"),
            method(3, "test_overhead", "TestOverhead", &[], &[], "HandlerResult<()>"),
        ]
    );
}

#[test]
fn methods_have_input_and_output_types() {
    let text = "trait Counter { async fn increment(amount: u32) -> u32; async fn decrement(amount: u32) -> u32; async fn get() -> u32; }";
    let plan = rpc("", text).unwrap();
    assert_eq!(plan.vis, "");
    assert_eq!(plan.method_ident, "Method");
    let variants: Vec<&str> = plan.methods.iter().map(|method| method.variant.as_str()).collect();
    assert_eq!(variants, vec!["Increment", "Decrement", "Get"]);
    let increment = &plan.methods[0];
    assert_eq!(increment.input_ident, "IncrementInput");
    assert_eq!(increment.output_ident, "IncrementOutput");
    assert_eq!(increment.fields, vec![("amount".to_string(), "u32".to_string())]);
    assert_eq!(increment.output, "u32");
}

#[test]
fn items_that_are_no_methods_are_passed_over() {
    let text = "trait Pets { const LEGS: u8; fn become_dog(&self, name: String, age: u8); type Food; fn f(); }";
    assert_eq!(
        methods(rpc("", text).unwrap()),
        vec![
            method(1, "become_dog", "BecomeDog", &[("name", "String"), ("age", "u8")], &["name", "age"], "()"),
            method(3, "f", "F", &[], &[], "()"),
        ]
    );
}

#[test]
fn arguments_without_a_name_are_handed_on_but_have_no_field() {
    let plan = rpc("", "trait T { fn both(&self, (a, b): (u8, u8), c: u8, _: u8); }").unwrap();
    assert_eq!(
        methods(plan),
        vec![method(0, "both", "Both", &[("c", "u8")], &["(a,b)", "c", "_"], "()")]
    );
}

#[test]
fn a_method_without_a_receiver_hands_on_every_argument() {
    let plan = rpc("", "trait T { fn add(a: u8, b: Vec<u8>); }").unwrap();
    assert_eq!(
        methods(plan),
        vec![method(0, "add", "Add", &[("a", "u8"), ("b", "Vec<u8>")], &["a", "b"], "()")]
    );
}

#[test]
fn a_text_that_is_no_trait_does_not_expand() {
    assert_eq!(rpc("", ""), None);
    assert_eq!(rpc("", "struct S;"), None);
    assert_eq!(rpc("", "trait T {"), None);
    assert_eq!(rpc("", "trait T {} trait U {}"), None);
}

#[test]
fn the_arguments_of_the_attribute_have_to_be_arguments() {
    let text = "trait T { fn f(&self); }";
    assert!(rpc("", text).is_some());
    assert!(rpc("feature", text).is_some());
    assert!(rpc("name = \"x\", only(a, b),", text).is_some());
    assert!(rpc("\"x\"", text).is_some());
    assert!(rpc("3", text).is_some());
    assert!(rpc("-3, a, \"x\", b = true, c(1), d::e", text).is_some());
    assert_eq!(rpc("a = 1 + 1", text), None);
    assert_eq!(rpc("1 + 1", text), None);
    assert_eq!(rpc("!3", text), None);
    assert_eq!(rpc("= 3", text), None);
    assert_eq!(rpc("a b", text), None);
    assert_eq!(rpc("(", text), None);
}

#[test]
fn literals_of_every_kind_can_be_read() {
    assert!(rpc("", "trait T { const A: u8 = c\"x\"; fn f(); }").is_some());
    assert!(rpc("", "trait T { const A: u8 = (/*ERROR*/); }").is_some());
    assert!(connection_state("struct S { a: [u8; c\"x\"] }").is_some());
    assert!(rpc_handler("impl T for H { fn f() { g(c\"x\", cr#\"y\"#, b\"z\", -1.5e3, 0x_f) } }").is_some());
    assert!(codable("const A: u8 = c\"x\";").is_some());
}

#[test]
fn a_service_expands_item_by_item() {
    let service = || ServiceTrait {
        vis: "pub".to_string(),
        ident: "Todo".to_string(),
        items: vec![
            TraitItem::Other,
            TraitItem::Method {
                ident: "mark_as_done".to_string(),
                arguments: vec![
                    Argument::Receiver,
                    Argument::Pattern { pattern: "_".to_string() },
                    Argument::Named { name: "ids".to_string(), ty: "Vec<u32>".to_string() },
                ],
                output: None,
            },
        ],
    };
    let plan = || ServicePlan {
        vis: "pub".to_string(),
        trait_ident: "Todo".to_string(),
        method_ident: "Method".to_string(),
        call_ident: "RpcCall".to_string(),
        handler_ident: "Handler".to_string(),
        server_ident: "TodoServer".to_string(),
        client_ident: "TodoClient".to_string(),
        methods: vec![method(1, "mark_as_done", "MarkAsDone", &[("ids", "Vec<u32>")], &["_", "ids"], "()")],
    };
    assert_eq!(expand_service(&service()), plan());
    let read = || {
        let arguments = vec![
            None,
            Some((false, "_".to_string(), "u8".to_string())),
            Some((true, "ids".to_string(), "Vec<u32>".to_string())),
        ];
        let method = ("mark_as_done".to_string(), arguments, String::new());
        ("pub".to_string(), "Todo".to_string(), vec![None, Some(method)])
    };
    assert_eq!(to_service(read()), service());
    let none = Some(vec![]);
    assert_eq!(expand_rpc(&none, &None, Some(read())), Some(plan()));
    assert_eq!(expand_rpc(&None, &none, Some(read())), Some(plan()));
    assert_eq!(expand_rpc(&None, &None, Some(read())), None);
    assert_eq!(expand_rpc(&none, &none, None), None);
}

#[test]
fn a_call_runs_the_method_that_it_names() {
    let plan = rpc("", "trait T { fn put(&self, key: u8, value: u8); fn take(&self, key: u8); }").unwrap();
    // The values of a call's fields by name, as a client gives them in any order.
    let call = ("Put", [("value", 7), ("key", 3)]);
    let arms: Vec<&MethodPlan> = plan.methods.iter().filter(|method| method.variant == call.0).collect();
    assert_eq!(arms.len(), 1);
    assert_eq!(arms[0].method, "put");
    let arguments: Vec<i32> = arms[0]
        .inputs
        .iter()
        .map(|name| call.1.iter().find(|value| value.0 == name).unwrap().1)
        .collect();
    assert_eq!(arguments, vec![3, 7]);
}

#[test]
fn fields_are_numbered_in_order() {
    assert_eq!(
        connection_state("struct State { tasks: HashMap<u32, Task>, next_id: u32 }"),
        Some(vec![(0, "tasks".to_string()), (1, "next_id".to_string())])
    );
    assert_eq!(connection_state("pub struct State { pub counter: u32 }"), Some(vec![(0, "counter".to_string())]));
    assert_eq!(connection_state("struct Empty;"), Some(vec![]));
    assert_eq!(connection_state("struct Empty {}"), Some(vec![]));
}

#[test]
fn fields_without_names_are_not_numbered() {
    assert_eq!(connection_state("struct Pair(u8, u8);"), None);
    assert_eq!(connection_state("enum E { A }"), None);
    assert_eq!(connection_state("struct {"), None);
    assert_eq!(number_fields(vec![Some("a".to_string()), None]), None);
    assert_eq!(number_fields(vec![]), Some(vec![]));
    assert_eq!(expand_state(None), None);
    assert_eq!(expand_state(Some(vec![Some("a".to_string())])), Some(vec![(0, "a".to_string())]));
    assert_eq!(expand_state(Some(vec![None])), None);
}

#[test]
fn a_handler_becomes_asynchronous() {
    let text = "impl Counter for Handler {}";
    assert_eq!(
        rpc_handler(text),
        Some("#[async_trait::async_trait]\nimpl Counter for Handler {}".to_string())
    );
    assert_eq!(rpc_handler("struct Handler;"), None);
    assert_eq!(rpc_handler("impl"), None);
    assert_eq!(rpc_handler(""), None);
    assert_eq!(expand_handler("x", true), Some("#[async_trait::async_trait]\nx".to_string()));
    assert_eq!(expand_handler("x", false), None);
}

#[test]
fn a_codable_item_derives_its_serialization() {
    let text = "struct Cat { name: String, age: u8 }";
    assert_eq!(
        codable(text),
        Some(
            "#[derive(rkyv::Archive, rkyv::Serialize, rkyv::Deserialize, PartialEq, Debug, Clone)]\n\
             #[archive_attr(derive(PartialEq, rkyv::CheckBytes))]\n\
             struct Cat { name: String, age: u8 }"
                .to_string()
        )
    );
    assert!(codable("enum Pet { Dog, Cat }").is_some());
    assert_eq!(codable("1 + 1"), None);
    assert_eq!(codable(""), None);
    assert!(expand_codable("x", true).unwrap().ends_with("\nx"));
    assert_eq!(expand_codable("x", false), None);
    // What comes out is an item again.
    assert!(codable(&codable(text).unwrap()).is_some());
}

#[test]
fn outputs_are_read_without_the_arrow() {
    for (output, ty) in [
        ("-> u32", Some("u32")),
        ("->u32", Some("u32")),
        ("->   Vec < u8 >", Some("Vec < u8 >")),
        ("->", Some("")),
        ("", None),
        ("-", None),
        ("u32", None),
    ] {
        let text = ("".to_string(), "T".to_string(), vec![Some(("f".to_string(), vec![], output.to_string()))]);
        let method = TraitItem::Method {
            ident: "f".to_string(),
            arguments: vec![],
            output: ty.map(|ty| ty.to_string()),
        };
        assert_eq!(to_service(text).items, vec![method]);
    }
}

#[test]
fn arguments_are_literals_paths_lists_and_values() {
    let allowed = [
        AttributeArgument::Literal,
        AttributeArgument::Path,
        AttributeArgument::List,
        AttributeArgument::Value { literal: true },
    ];
    let read = |argument: AttributeArgument| Some(vec![AttributeArgument::Path, argument]);
    for argument in allowed {
        assert!(accept_arguments(&read(argument), &None));
        assert!(accept_arguments(&None, &read(argument)));
    }
    for argument in [AttributeArgument::Value { literal: false }, AttributeArgument::Other] {
        assert!(!accept_arguments(&read(argument), &None));
        assert!(!accept_arguments(&None, &read(argument)));
        assert!(accept_arguments(&read(argument), &Some(vec![])));
    }
    assert!(!accept_arguments(&None, &None));
}
