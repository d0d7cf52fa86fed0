use comfy_executor::error::ExecutorError;
use comfy_executor::execution_context::{ExecutionContext, InputValue, NodeOutput};
use comfy_executor::executor::{Executor, PromptNode};
use comfy_executor::registry::{IoType, NodeClassDef, NodeRegistry};
use comfy_executor::strmap::StrMap;

fn def(class_type: &str, output: bool) -> NodeClassDef<()> {
    NodeClassDef {
        class_type: class_type.to_string(),
        display_name: class_type.to_string(),
        category: "test".to_string(),
        input_types: (),
        output_types: vec![IoType::Image],
        output_names: vec!["IMAGE".to_string()],
        output_is_list: vec![false],
        is_output_node: output,
        has_intermediate_output: false,
        not_idempotent: false,
        function_name: "run".to_string(),
    }
}

fn registry() -> NodeRegistry<(), u32> {
    let mut r = NodeRegistry::new();
    r.register(def("LoadImage", false), 1);
    r.register(def("SaveImage", true), 2);
    r
}

fn node(id: &str, class_type: Option<&str>) -> PromptNode {
    PromptNode { node_id: id.to_string(), class_type: class_type.map(|s| s.to_string()) }
}

#[test]
fn register_and_look_up() {
    let mut r = registry();
    assert!(r.has_node("LoadImage"));
    assert!(!r.has_node("Nope"));
    assert!(r.is_output_node("SaveImage"));
    assert!(!r.is_output_node("LoadImage"));
    assert!(!r.is_output_node("Nope"));
    assert_eq!(r.get_execute_fn("SaveImage"), Some(&2));
    assert_eq!(r.output_names("LoadImage").unwrap(), &["IMAGE".to_string()]);
    assert_eq!(r.output_types("LoadImage").unwrap(), &[IoType::Image]);
    assert!(r.output_types("Nope").is_none());
    // registering again replaces
    r.register(def("LoadImage", true), 7);
    assert_eq!(r.get_execute_fn("LoadImage"), Some(&7));
    assert!(r.get_class_def("LoadImage").unwrap().is_output_node);
    let mut names = r.registered_types();
    names.sort();
    assert_eq!(names, vec!["LoadImage", "SaveImage"]);
    assert_eq!(r.get_all_class_defs().len(), 2);
}

#[test]
fn validation_accepts_a_good_prompt() {
    let ex: Executor<(), u32, (), ()> = Executor::new(registry(), ());
    let r = ex.validate_prompt(&vec![node("1", Some("LoadImage")), node("2", Some("SaveImage"))]);
    assert!(r.valid);
    assert!(r.error.is_none());
    assert_eq!(r.node_errors.len(), 0);
}

#[test]
fn validation_reports_missing_and_unknown_types() {
    let ex: Executor<(), u32, (), ()> = Executor::new(registry(), ());
    let r = ex.validate_prompt(&vec![
        node("1", None),
        node("2", Some("Mystery")),
        node("3", Some("SaveImage")),
    ]);
    assert!(!r.valid);
    let e = r.error.unwrap();
    assert_eq!(e.error_type, "prompt_outputs_failed_validation");
    assert_eq!(e.message, "Prompt outputs failed validation");
    assert_eq!(e.details, "2 node(s) have errors");
    let n1 = r.node_errors.get("1").unwrap();
    assert_eq!(n1.class_type, "");
    assert_eq!(n1.errors[0].error_type, "missing_node_type");
    assert_eq!(n1.errors[0].message, "Node has no class_type");
    assert_eq!(n1.errors[0].details, "Node ID '1'");
    let n2 = r.node_errors.get("2").unwrap();
    assert_eq!(n2.class_type, "Mystery");
    assert_eq!(n2.errors[0].message, "Node type 'Mystery' not found");
    assert!(r.node_errors.get("3").is_none());
}

#[test]
fn validation_needs_an_output_node() {
    let ex: Executor<(), u32, (), ()> = Executor::new(registry(), ());
    let r = ex.validate_prompt(&vec![node("1", Some("LoadImage"))]);
    assert!(!r.valid);
    let e = r.error.unwrap();
    assert_eq!(e.error_type, "no_output_nodes");
    assert_eq!(e.details, "At least one output node is required");
    let empty = ex.validate_prompt(&vec![]);
    assert!(!empty.valid);
}

#[test]
fn output_nodes_of_a_run() {
    let ex: Executor<(), u32, (), ()> = Executor::new(registry(), ());
    let ids = ex
        .output_node_ids(&vec![node("a", Some("SaveImage")), node("b", Some("LoadImage")), node("c", Some("SaveImage"))])
        .unwrap();
    assert_eq!(ids, vec!["a".to_string(), "c".to_string()]);
    match ex.output_node_ids(&vec![node("b", Some("LoadImage"))]) {
        Err(ExecutorError::NoOutputNodes) => {}
        _ => panic!("expected NoOutputNodes"),
    }
}

#[test]
fn executor_keeps_its_parts() {
    let ex: Executor<(), u32, &str, i32> = Executor::new(registry(), "backend");
    assert!(ex.cache().is_none());
    let ex = ex.with_cache(5);
    assert_eq!(ex.cache(), Some(&5));
    assert_eq!(*ex.backend(), "backend");
    assert!(ex.registry().has_node("SaveImage"));
}

#[test]
fn context_lookups_and_errors() {
    let mut ctx: ExecutionContext<i32, (), ()> = ExecutionContext::new((), (), "p1".to_string());
    assert_eq!(ctx.prompt_id(), "p1");
    ctx.set_output("4".to_string(), NodeOutput::new(vec![10, 20]));
    assert!(ctx.has_output("4"));
    assert_eq!(ctx.get_output_value("4", 1).unwrap(), &20);
    match ctx.get_output_value("4", 2) {
        Err(ExecutorError::OutputIndexOutOfBounds { node_id, index, max }) => {
            assert_eq!((node_id.as_str(), index, max), ("4", 2, 2));
        }
        _ => panic!(),
    }
    match ctx.get_output_value("5", 0) {
        Err(e @ ExecutorError::NodeNotFound { .. }) => assert_eq!(e.message(), "Node '5' not found in prompt"),
        _ => panic!(),
    }
}

#[test]
fn inputs_resolve_through_links() {
    let mut ctx: ExecutionContext<i32, (), ()> = ExecutionContext::new((), (), "p".to_string());
    ctx.set_output("1".to_string(), NodeOutput::new(vec![7, 8]));
    let mut inputs: StrMap<InputValue<i32>> = StrMap::new();
    inputs.insert("seed".to_string(), InputValue::Literal(3));
    inputs.insert("image".to_string(), InputValue::Link { from_node: Some("1".to_string()), from_socket: Some(1) });
    inputs.insert("bad".to_string(), InputValue::Link { from_node: None, from_socket: Some(0) });
    inputs.insert("worse".to_string(), InputValue::Link { from_node: Some("1".to_string()), from_socket: None });
    assert_eq!(ctx.resolve_input("2", "seed", Some(&inputs)).unwrap(), &3);
    assert_eq!(ctx.resolve_input("2", "image", Some(&inputs)).unwrap(), &8);
    match ctx.resolve_input("2", "bad", Some(&inputs)) {
        Err(ExecutorError::NodeExecutionFailed { node_id, message }) => {
            assert_eq!(node_id, "2");
            assert_eq!(message, "Invalid link node id for input 'bad'");
        }
        _ => panic!(),
    }
    match ctx.resolve_input("2", "worse", Some(&inputs)) {
        Err(ExecutorError::NodeExecutionFailed { message, .. }) => {
            assert_eq!(message, "Invalid link socket index for input 'worse'");
        }
        _ => panic!(),
    }
    match ctx.resolve_input("2", "missing", Some(&inputs)) {
        Err(e @ ExecutorError::MissingInput { .. }) => {
            assert_eq!(e.message(), "Missing required input 'missing' on node '2'")
        }
        _ => panic!(),
    }
    assert!(matches!(ctx.resolve_input("9", "seed", None), Err(ExecutorError::NodeNotFound { .. })));
    let mut list: StrMap<InputValue<i32>> = StrMap::new();
    list.insert("seed".to_string(), InputValue::Literal(3));
    list.insert("image".to_string(), InputValue::Link { from_node: Some("1".to_string()), from_socket: Some(0) });
    list.insert("seed".to_string(), InputValue::Literal(4));
    let all = ctx.resolve_all_inputs("2", Some(&list)).unwrap();
    assert_eq!(all, vec![("seed", &4), ("image", &7)]);
    let mut broken: StrMap<InputValue<i32>> = StrMap::new();
    broken.insert("seed".to_string(), InputValue::Literal(3));
    broken.insert("image".to_string(), InputValue::Link { from_node: Some("1".to_string()), from_socket: Some(5) });
    assert!(matches!(
        ctx.resolve_all_inputs("2", Some(&broken)),
        Err(ExecutorError::OutputIndexOutOfBounds { index: 5, max: 2, .. })
    ));
}

#[test]
fn outcomes_and_results() {
    let mut ctx: ExecutionContext<i32, (), ()> = ExecutionContext::new((), (), "run".to_string());
    let mut executed: Vec<String> = Vec::new();
    assert!(Executor::<(), u32, (), ()>::record_outcome(&mut ctx, &mut executed, "1", Ok(vec![5])).is_ok());
    let failed = Executor::<(), u32, (), ()>::record_outcome(
        &mut ctx,
        &mut executed,
        "2",
        Err(ExecutorError::Inference("out of memory".to_string())),
    );
    match failed {
        Err(e @ ExecutorError::NodeExecutionFailed { .. }) => {
            assert_eq!(e.message(), "Execution failed for node '2': Inference error: out of memory")
        }
        _ => panic!(),
    }
    assert_eq!(executed, vec!["1".to_string()]);
    let result = Executor::<(), u32, (), ()>::finish(ctx, executed);
    assert_eq!(result.prompt_id, "run");
    assert_eq!(result.output_value("1", 0), Some(&5));
    assert_eq!(result.output_value("1", 1), None);
    assert!(result.get_output("2").is_none());
}

#[test]
fn error_messages() {
    let cases = vec![
        (ExecutorError::NodeTypeNotRegistered { class_type: "X".to_string() }, "Node type 'X' not registered"),
        (
            ExecutorError::OutputIndexOutOfBounds { node_id: "n".to_string(), index: 12, max: 3 },
            "Output index 12 out of bounds on node 'n' (max 3)",
        ),
        (ExecutorError::DependencyCycle("a -> b -> a".to_string()), "Dependency cycle detected"),
        (ExecutorError::ValidationFailed("bad".to_string()), "Validation failed: bad"),
        (ExecutorError::NoOutputNodes, "Prompt has no output nodes"),
        (ExecutorError::Json("eof".to_string()), "JSON error: eof"),
    ];
    for (e, m) in cases {
        assert_eq!(e.message(), m);
    }
}

#[test]
fn node_output_accessors() {
    let o = NodeOutput::new(vec![1, 2, 3]).with_ui(9);
    assert_eq!(o.len(), 3);
    assert!(!o.is_empty());
    assert_eq!(o.get(2), Some(&3));
    assert_eq!(o.get(3), None);
    assert_eq!(o.ui, Some(9));
    assert!(NodeOutput::<i32>::new(vec![]).is_empty());
}

#[test]
fn str_map_keeps_first_insertion_order() {
    let mut m: StrMap<i32> = StrMap::new();
    m.insert("b".to_string(), 1);
    m.insert("a".to_string(), 2);
    m.insert("b".to_string(), 3);
    assert_eq!(m.len(), 2);
    assert_eq!(m.get("b"), Some(&3));
    assert!(m.contains_key("a"));
    assert!(!m.contains_key("c"));
    let keys: Vec<&str> = m.entries().iter().map(|(k, _)| k.as_str()).collect();
    assert_eq!(keys, vec!["b", "a"]);
}

#[test]
fn a_node_counts_as_executed_once() {
    let mut ctx: ExecutionContext<i32, (), ()> = ExecutionContext::new((), (), "run".to_string());
    let mut executed: Vec<String> = Vec::new();
    assert!(Executor::<(), u32, (), ()>::record_outcome(&mut ctx, &mut executed, "1", Ok(vec![5])).is_ok());
    assert!(Executor::<(), u32, (), ()>::record_outcome(&mut ctx, &mut executed, "2", Ok(vec![6])).is_ok());
    assert!(Executor::<(), u32, (), ()>::record_outcome(&mut ctx, &mut executed, "1", Ok(vec![7])).is_ok());
    assert_eq!(executed, vec!["1".to_string(), "2".to_string()]);
    let result = Executor::<(), u32, (), ()>::finish(ctx, executed);
    assert_eq!(result.output_value("1", 0), Some(&7));
    assert_eq!(result.outputs.len(), 2);
}

#[test]
fn execute_function_of_a_prompt_node() {
    let ex: Executor<(), u32, (), ()> = Executor::new(registry(), ());
    let prompt = vec![
        node("1", Some("LoadImage")),
        node("2", Some("SaveImage")),
        node("3", Some("Blur")),
        node("4", None),
    ];
    assert_eq!(ex.execute_fn_for(&prompt, "1").ok(), Some(&1));
    assert_eq!(ex.execute_fn_for(&prompt, "2").ok(), Some(&2));
    match ex.execute_fn_for(&prompt, "9") {
        Err(ExecutorError::NodeNotFound { node_id }) => assert_eq!(node_id, "9"),
        _ => panic!("expected NodeNotFound"),
    }
    match ex.execute_fn_for(&prompt, "3") {
        Err(ExecutorError::NodeTypeNotRegistered { class_type }) => assert_eq!(class_type, "Blur"),
        _ => panic!("expected NodeTypeNotRegistered"),
    }
    match ex.execute_fn_for(&prompt, "4") {
        Err(ExecutorError::NodeTypeNotRegistered { class_type }) => assert_eq!(class_type, ""),
        _ => panic!("expected NodeTypeNotRegistered"),
    }
}
