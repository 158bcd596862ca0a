use rust_mlir::ast::{AstNode, DyadicVerb};
use rust_mlir::driver::{JitError, Stage, Step};
use rust_mlir::emitter;
use rust_mlir::ir::{Operation, Type, Value};

fn sum_111_223() -> Vec<AstNode> {
    vec![AstNode::Print(Box::new(AstNode::DyadicOp {
        verb: DyadicVerb::Plus,
        lhs: Box::new(AstNode::Integer(111)),
        rhs: Box::new(AstNode::Integer(223)),
    }))]
}

#[test]
fn test_jit() {
    let astnode = sum_111_223();
    let mut j = emitter::jit(&astnode).unwrap();
    assert_eq!(j.stage, Stage::Emitted);
    let main = &j.module.functions[0];
    assert_eq!(main.name, "main");
    assert_eq!(
        main.body.operations,
        vec![
            Operation::Constant { value: 111, bits: 32 },
            Operation::Constant { value: 223, bits: 32 },
            Operation::AddI { lhs: Value { index: 0 }, rhs: Value { index: 1 } },
            Operation::AddressOf { global_name: "annonstr0".to_string() },
            Operation::Call {
                callee: "printf".to_string(),
                operands: vec![Value { index: 3 }, Value { index: 2 }],
                result: Type::Integer(32),
            },
            Operation::Return,
        ]
    );
    for _ in 0..4 {
        assert_eq!(j.advance(true), Ok(()));
    }
    assert_eq!(j.stage, Stage::Compiled);
    assert_eq!(j.next_step(), Step::Invoke { entry: "main".to_string() });
    let r = j.advance(true);
    if r.is_err() {
        let err = r.unwrap_err();
        assert_eq!(err, JitError::Invocation);
        println!("--- jit error: {err:?}");
    } else {
        println!("--- jit ok");
    }
    assert_eq!(r, Ok(()));
}
