use rust_mlir::ast::{check_node, AstNode, DyadicVerb, EmitError, MonadicVerb, NodeKind};
use rust_mlir::emitter::{
    emit, emit_box, emit_demo, emit_node, gen_annon_string_id, gen_pointer_to_annon_str,
    gen_pointer_to_global, generate_annon_string,
};
use rust_mlir::ir::{
    Block, Declaration, Function, Global, Linkage, Module, Operation, Type, Value, Visibility,
};

fn literal(i: i32) -> AstNode {
    AstNode::Integer(i)
}

fn print(node: AstNode) -> AstNode {
    AstNode::Print(Box::new(node))
}

fn dyadic(verb: DyadicVerb, lhs: AstNode, rhs: AstNode) -> AstNode {
    AstNode::DyadicOp { verb, lhs: Box::new(lhs), rhs: Box::new(rhs) }
}

fn plus(lhs: AstNode, rhs: AstNode) -> AstNode {
    dyadic(DyadicVerb::Plus, lhs, rhs)
}

fn constant(value: i64) -> Operation {
    Operation::Constant { value, bits: 32 }
}

fn addi(lhs: usize, rhs: usize) -> Operation {
    Operation::AddI { lhs: Value { index: lhs }, rhs: Value { index: rhs } }
}

fn address(name: &str) -> Operation {
    Operation::AddressOf { global_name: name.to_string() }
}

fn call(format: usize, argument: usize) -> Operation {
    Operation::Call {
        callee: "printf".to_string(),
        operands: vec![Value { index: format }, Value { index: argument }],
        result: Type::Integer(32),
    }
}

fn printf() -> Declaration {
    Declaration {
        name: "printf".to_string(),
        result: Type::Integer(32),
        parameters: vec![Type::Pointer],
        variadic: true,
        visibility: Visibility::Private,
        c_interface: true,
    }
}

fn global(name: &str, value: &str, size: usize) -> Global {
    Global {
        name: name.to_string(),
        value: value.to_string(),
        size,
        linkage: Linkage::Internal,
    }
}

fn format_constant() -> Global {
    global("annonstr0", "%d\n", 3)
}

fn main_with(operations: Vec<Operation>) -> Function {
    Function {
        name: "main".to_string(),
        parameters: vec![],
        results: vec![],
        c_interface: true,
        body: Block { operations },
    }
}

#[test]
fn integer_becomes_one_constant() {
    let mut block = Block::new();
    let mut module = Module::new();
    let value = emit_node(&mut block, &mut module, &literal(42)).unwrap();
    assert_eq!(value, Value { index: 0 });
    assert_eq!(block.operations, vec![constant(42)]);
    assert_eq!(module, Module::new());
}

#[test]
fn integer_extremes_keep_their_value() {
    let mut block = Block::new();
    let mut module = Module::new();
    emit_node(&mut block, &mut module, &literal(i32::MIN)).unwrap();
    emit_node(&mut block, &mut module, &literal(i32::MAX)).unwrap();
    emit_node(&mut block, &mut module, &literal(-1)).unwrap();
    assert_eq!(
        block.operations,
        vec![constant(-2147483648), constant(2147483647), constant(-1)]
    );
}

#[test]
fn print_emits_operand_address_and_call() {
    let mut block = Block::new();
    let mut module = Module::new();
    let value = emit_node(&mut block, &mut module, &print(literal(7))).unwrap();
    assert_eq!(value, Value { index: 2 });
    assert_eq!(block.operations, vec![constant(7), address("annonstr0"), call(1, 0)]);
    assert_eq!(module.constants, vec![format_constant()]);
    assert!(module.declarations.is_empty());
    assert!(module.functions.is_empty());
}

#[test]
fn addition_emits_left_then_right_then_sum() {
    let mut block = Block::new();
    let mut module = Module::new();
    let value = emit_node(&mut block, &mut module, &plus(literal(1), literal(2))).unwrap();
    assert_eq!(value, Value { index: 2 });
    assert_eq!(block.operations, vec![constant(1), constant(2), addi(0, 1)]);
    assert!(module.constants.is_empty());
}

#[test]
fn nested_addition_threads_values() {
    let mut block = Block::new();
    let mut module = Module::new();
    let tree = plus(plus(literal(1), literal(2)), plus(literal(3), literal(4)));
    let value = emit_node(&mut block, &mut module, &tree).unwrap();
    assert_eq!(value, Value { index: 6 });
    assert_eq!(
        block.operations,
        vec![
            constant(1),
            constant(2),
            addi(0, 1),
            constant(3),
            constant(4),
            addi(3, 4),
            addi(2, 5),
        ]
    );
}

#[test]
fn code_is_placed_after_what_the_block_holds() {
    let mut block = Block::new();
    let mut module = Module::new();
    emit_node(&mut block, &mut module, &literal(9)).unwrap();
    let value = emit_node(&mut block, &mut module, &print(plus(literal(1), literal(2)))).unwrap();
    assert_eq!(value, Value { index: 5 });
    assert_eq!(
        block.operations,
        vec![constant(9), constant(1), constant(2), addi(1, 2), address("annonstr0"), call(4, 3)]
    );
}

#[test]
fn left_operand_prints_before_right_operand() {
    let mut block = Block::new();
    let mut module = Module::new();
    let tree = plus(print(literal(1)), print(literal(2)));
    let value = emit_node(&mut block, &mut module, &tree).unwrap();
    assert_eq!(value, Value { index: 6 });
    assert_eq!(
        block.operations,
        vec![
            constant(1),
            address("annonstr0"),
            call(1, 0),
            constant(2),
            address("annonstr0"),
            call(4, 3),
            addi(2, 5),
        ]
    );
    assert_eq!(module.constants, vec![format_constant()]);
}

#[test]
fn print_of_print_passes_the_status_on() {
    let mut block = Block::new();
    let mut module = Module::new();
    emit_node(&mut block, &mut module, &print(print(literal(5)))).unwrap();
    assert_eq!(
        block.operations,
        vec![constant(5), address("annonstr0"), call(1, 0), address("annonstr0"), call(3, 2)]
    );
    assert_eq!(module.constants.len(), 1);
}

#[test]
fn emit_box_is_emit_node() {
    let mut block = Block::new();
    let mut module = Module::new();
    let boxed = Box::new(plus(literal(1), literal(2)));
    let value = emit_box(&mut block, &mut module, &boxed).unwrap();
    assert_eq!(value, Value { index: 2 });
    assert_eq!(block.operations, vec![constant(1), constant(2), addi(0, 1)]);
    let rejected = Box::new(AstNode::Ident("x".to_string()));
    assert_eq!(
        emit_box(&mut block, &mut module, &rejected),
        Err(EmitError::UnsupportedNode(NodeKind::Ident))
    );
    assert_eq!(block.operations.len(), 3);
}

fn unsupported_nodes() -> Vec<(AstNode, EmitError)> {
    vec![
        (
            AstNode::DoublePrecisionFloat(0x3ff8000000000000),
            EmitError::UnsupportedNode(NodeKind::DoublePrecisionFloat),
        ),
        (
            AstNode::MonadicOp { verb: MonadicVerb::Negate, expr: Box::new(literal(1)) },
            EmitError::UnsupportedNode(NodeKind::MonadicOp),
        ),
        (AstNode::Terms(vec![literal(1), literal(2)]), EmitError::UnsupportedNode(NodeKind::Terms)),
        (
            AstNode::IsGlobal { ident: "x".to_string(), expr: Box::new(literal(1)) },
            EmitError::UnsupportedNode(NodeKind::IsGlobal),
        ),
        (AstNode::Ident("x".to_string()), EmitError::UnsupportedNode(NodeKind::Ident)),
        (AstNode::Str("text".to_string()), EmitError::UnsupportedNode(NodeKind::Str)),
        (
            dyadic(DyadicVerb::Times, literal(2), literal(3)),
            EmitError::UnsupportedVerb(DyadicVerb::Times),
        ),
        (
            dyadic(DyadicVerb::Minus, literal(2), literal(3)),
            EmitError::UnsupportedVerb(DyadicVerb::Minus),
        ),
    ]
}

#[test]
fn unsupported_nodes_are_rejected_without_a_trace() {
    for (node, error) in unsupported_nodes() {
        let mut block = Block::new();
        let mut module = Module::new();
        block.append_operation(constant(1));
        generate_annon_string("kept".to_string(), &mut module);
        assert_eq!(emit_node(&mut block, &mut module, &node), Err(error));
        assert_eq!(block.operations, vec![constant(1)]);
        assert_eq!(module.constants.len(), 1);
        assert_eq!(check_node(&node), Some(error));
    }
}

#[test]
fn every_other_verb_is_rejected() {
    let verbs = [
        DyadicVerb::Times,
        DyadicVerb::LessThan,
        DyadicVerb::LargerThan,
        DyadicVerb::Equal,
        DyadicVerb::Minus,
        DyadicVerb::Divide,
        DyadicVerb::Power,
        DyadicVerb::Residue,
        DyadicVerb::Copy,
        DyadicVerb::LargerOf,
        DyadicVerb::LargerOrEqual,
        DyadicVerb::Shape,
    ];
    for verb in verbs {
        let mut block = Block::new();
        let mut module = Module::new();
        let node = dyadic(verb, literal(1), literal(2));
        assert_eq!(
            emit_node(&mut block, &mut module, &node),
            Err(EmitError::UnsupportedVerb(verb))
        );
        assert!(block.operations.is_empty());
    }
}

#[test]
fn rejection_deep_in_a_tree_leaves_nothing_behind() {
    let mut block = Block::new();
    let mut module = Module::new();
    let tree = print(plus(print(literal(1)), AstNode::Str("no".to_string())));
    assert_eq!(
        emit_node(&mut block, &mut module, &tree),
        Err(EmitError::UnsupportedNode(NodeKind::Str))
    );
    assert!(block.operations.is_empty());
    assert_eq!(module, Module::new());
}

#[test]
fn the_first_rejection_in_evaluation_order_is_reported() {
    let both = plus(AstNode::Ident("a".to_string()), AstNode::Str("b".to_string()));
    assert_eq!(check_node(&both), Some(EmitError::UnsupportedNode(NodeKind::Ident)));
    let verb_first = dyadic(DyadicVerb::Power, AstNode::Ident("a".to_string()), literal(1));
    assert_eq!(check_node(&verb_first), Some(EmitError::UnsupportedVerb(DyadicVerb::Power)));
    assert_eq!(check_node(&print(plus(literal(1), literal(2)))), None);
}

#[test]
fn kinds_of_nodes() {
    assert_eq!(literal(1).kind(), NodeKind::Integer);
    assert_eq!(print(literal(1)).kind(), NodeKind::Print);
    assert_eq!(plus(literal(1), literal(2)).kind(), NodeKind::DyadicOp);
    for (node, error) in unsupported_nodes() {
        if let EmitError::UnsupportedNode(kind) = error {
            assert_eq!(node.kind(), kind);
        } else {
            assert_eq!(node.kind(), NodeKind::DyadicOp);
        }
    }
}

#[test]
fn emit_builds_the_entry_function() {
    let mut module = Module::new();
    let nodes = vec![print(literal(1)), print(plus(literal(2), literal(3)))];
    assert_eq!(emit(&mut module, &nodes), Ok(()));
    let expected = Module {
        declarations: vec![printf()],
        constants: vec![format_constant()],
        functions: vec![main_with(vec![
            constant(1),
            address("annonstr0"),
            call(1, 0),
            constant(2),
            constant(3),
            addi(3, 4),
            address("annonstr0"),
            call(6, 5),
            Operation::Return,
        ])],
    };
    assert_eq!(module, expected);
}

#[test]
fn empty_program_has_an_entry_that_only_returns() {
    let mut module = Module::new();
    assert_eq!(emit(&mut module, &Vec::new()), Ok(()));
    let expected = Module {
        declarations: vec![printf()],
        constants: vec![],
        functions: vec![main_with(vec![Operation::Return])],
    };
    assert_eq!(module, expected);
}

#[test]
fn program_without_print_registers_no_constant() {
    let mut module = Module::new();
    assert_eq!(emit(&mut module, &vec![plus(literal(1), literal(2))]), Ok(()));
    assert!(module.constants.is_empty());
    assert_eq!(
        module.functions,
        vec![main_with(vec![constant(1), constant(2), addi(0, 1), Operation::Return])]
    );
}

#[test]
fn emit_rejects_the_whole_program() {
    let mut module = Module::new();
    let nodes = vec![print(literal(1)), AstNode::Terms(vec![]), AstNode::Ident("x".to_string())];
    assert_eq!(emit(&mut module, &nodes), Err(EmitError::UnsupportedNode(NodeKind::Terms)));
    assert_eq!(module, Module::new());
}

#[test]
fn same_program_gives_the_same_module() {
    let nodes = vec![print(plus(literal(111), literal(223))), print(literal(-5))];
    let mut first = Module::new();
    let mut second = Module::new();
    assert_eq!(emit(&mut first, &nodes), Ok(()));
    assert_eq!(emit(&mut second, &nodes), Ok(()));
    assert_eq!(first, second);
}

#[test]
fn emit_demo_is_the_sum_of_one_and_two() {
    let mut demo = Module::new();
    emit_demo(&mut demo);
    let mut emitted = Module::new();
    assert_eq!(emit(&mut emitted, &vec![print(plus(literal(1), literal(2)))]), Ok(()));
    assert_eq!(demo, emitted);
    assert_eq!(
        demo.functions,
        vec![main_with(vec![
            constant(1),
            constant(2),
            addi(0, 1),
            address("annonstr0"),
            call(3, 2),
            Operation::Return,
        ])]
    );
    assert_eq!(demo.declarations, vec![printf()]);
    assert_eq!(demo.constants, vec![format_constant()]);
}

#[test]
fn names_follow_positions() {
    assert_eq!(gen_annon_string_id(0), "annonstr0");
    assert_eq!(gen_annon_string_id(7), "annonstr7");
    assert_eq!(gen_annon_string_id(10), "annonstr10");
    assert_eq!(gen_annon_string_id(409), "annonstr409");
    assert_eq!(gen_annon_string_id(usize::MAX), format!("annonstr{}", usize::MAX));
}

#[test]
fn interning_is_keyed_by_content() {
    let mut module = Module::new();
    let first = generate_annon_string("%d\n".to_string(), &mut module);
    let second = generate_annon_string("hello".to_string(), &mut module);
    let again = generate_annon_string("%d\n".to_string(), &mut module);
    let third = generate_annon_string("".to_string(), &mut module);
    let hello = generate_annon_string("hello".to_string(), &mut module);
    assert_eq!(first, "annonstr0");
    assert_eq!(second, "annonstr1");
    assert_eq!(again, "annonstr0");
    assert_eq!(third, "annonstr2");
    assert_eq!(hello, "annonstr1");
    assert_eq!(
        module.constants,
        vec![
            global("annonstr0", "%d\n", 3),
            global("annonstr1", "hello", 5),
            global("annonstr2", "", 0),
        ]
    );
    assert!(module.declarations.is_empty());
    assert!(module.functions.is_empty());
}

#[test]
fn constant_size_counts_bytes() {
    let mut module = Module::new();
    generate_annon_string("é€".to_string(), &mut module);
    assert_eq!(module.constants[0].size, 5);
    assert_eq!(module.constants[0].value, "é€");
}

#[test]
fn pointer_to_global_names_the_global() {
    assert_eq!(gen_pointer_to_global("annonstr3".to_string()), address("annonstr3"));
    assert_eq!(gen_pointer_to_global("".to_string()), address(""));
}

#[test]
fn pointer_to_anonymous_string_interns_it() {
    let mut module = Module::new();
    let first = gen_pointer_to_annon_str("a".to_string(), &mut module);
    let second = gen_pointer_to_annon_str("b".to_string(), &mut module);
    let again = gen_pointer_to_annon_str("a".to_string(), &mut module);
    assert_eq!(first, address("annonstr0"));
    assert_eq!(second, address("annonstr1"));
    assert_eq!(again, address("annonstr0"));
    assert_eq!(module.constants.len(), 2);
}

#[test]
fn block_append_returns_positions() {
    let mut block = Block::new();
    assert_eq!(block.append_operation(constant(1)), Value { index: 0 });
    assert_eq!(block.append_operation(Operation::Return), Value { index: 1 });
    assert_eq!(block.operations, vec![constant(1), Operation::Return]);
}
