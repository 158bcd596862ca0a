use rust_mlir::ast::{AstNode, EmitError, NodeKind};
use rust_mlir::driver::{lowering_pipeline, CompileOptions, Jit, JitError, Pass, Stage, Step};
use rust_mlir::emitter::{jit, jit_demo};
use rust_mlir::ir::Module;

#[test]
fn pipeline_has_eight_passes_in_order() {
    assert_eq!(
        lowering_pipeline(),
        vec![
            Pass::Canonicalizer,
            Pass::ScfToControlFlow,
            Pass::ArithToLlvm,
            Pass::ControlFlowToLlvm,
            Pass::FuncToLlvm,
            Pass::IndexToLlvm,
            Pass::FinalizeMemRefToLlvm,
            Pass::ReconcileUnrealizedCasts,
        ]
    );
}

#[test]
fn steps_follow_the_stages() {
    let mut driver = Jit::new(Module::new());
    assert_eq!(driver.stage, Stage::Emitted);
    assert_eq!(driver.next_step(), Step::Verify);
    assert_eq!(driver.advance(true), Ok(()));
    assert_eq!(driver.stage, Stage::Verified);
    assert_eq!(
        driver.next_step(),
        Step::Lower { passes: lowering_pipeline(), verify_each: true }
    );
    assert_eq!(driver.advance(true), Ok(()));
    assert_eq!(driver.stage, Stage::Lowered);
    assert_eq!(driver.next_step(), Step::Verify);
    assert_eq!(driver.advance(true), Ok(()));
    assert_eq!(driver.stage, Stage::Legal);
    assert_eq!(
        driver.next_step(),
        Step::Compile(CompileOptions {
            optimization_level: 0,
            shared_library_paths: vec![],
            enable_object_dump: true,
        })
    );
    assert_eq!(driver.advance(true), Ok(()));
    assert_eq!(driver.stage, Stage::Compiled);
    assert_eq!(driver.next_step(), Step::Invoke { entry: "main".to_string() });
    assert_eq!(driver.advance(true), Ok(()));
    assert_eq!(driver.stage, Stage::Compiled);
}

fn fail_after(successes: usize) -> (Jit, Result<(), JitError>) {
    let mut driver = Jit::new(Module::new());
    for _ in 0..successes {
        assert_eq!(driver.advance(true), Ok(()));
    }
    let result = driver.advance(false);
    (driver, result)
}

#[test]
fn each_step_fails_with_its_own_error() {
    let (driver, result) = fail_after(0);
    assert_eq!(result, Err(JitError::Verification));
    assert_eq!(driver.stage, Stage::Failed(JitError::Verification));
    let (driver, result) = fail_after(1);
    assert_eq!(result, Err(JitError::Lowering));
    assert_eq!(driver.stage, Stage::Failed(JitError::Lowering));
    let (driver, result) = fail_after(2);
    assert_eq!(result, Err(JitError::Verification));
    assert_eq!(driver.stage, Stage::Failed(JitError::Verification));
    let (driver, result) = fail_after(3);
    assert_eq!(result, Err(JitError::Compilation));
    assert_eq!(driver.stage, Stage::Failed(JitError::Compilation));
}

#[test]
fn failure_is_final() {
    let (mut driver, _) = fail_after(1);
    assert_eq!(driver.next_step(), Step::Abandon);
    assert_eq!(driver.advance(true), Err(JitError::Lowering));
    assert_eq!(driver.advance(false), Err(JitError::Lowering));
    assert_eq!(driver.stage, Stage::Failed(JitError::Lowering));
    assert_eq!(driver.next_step(), Step::Abandon);
}

#[test]
fn failed_invocation_leaves_the_module_compiled() {
    let (mut driver, result) = fail_after(4);
    assert_eq!(result, Err(JitError::Invocation));
    assert_eq!(driver.stage, Stage::Compiled);
    assert_eq!(driver.next_step(), Step::Invoke { entry: "main".to_string() });
    assert_eq!(driver.advance(true), Ok(()));
    assert_eq!(driver.stage, Stage::Compiled);
}

#[test]
fn stage_transitions() {
    assert_eq!(Stage::Emitted.after(true), Stage::Verified);
    assert_eq!(Stage::Verified.after(true), Stage::Lowered);
    assert_eq!(Stage::Lowered.after(true), Stage::Legal);
    assert_eq!(Stage::Legal.after(true), Stage::Compiled);
    assert_eq!(Stage::Compiled.after(false), Stage::Compiled);
    assert_eq!(Stage::Emitted.report(true), None);
    assert_eq!(Stage::Emitted.report(false), Some(JitError::Verification));
    assert_eq!(Stage::Compiled.report(false), Some(JitError::Invocation));
    assert_eq!(Stage::Compiled.report(true), None);
    assert_eq!(
        Stage::Failed(JitError::Compilation).report(true),
        Some(JitError::Compilation)
    );
}

#[test]
fn jit_refuses_unsupported_programs() {
    let nodes = vec![AstNode::Integer(1), AstNode::Str("s".to_string())];
    assert_eq!(
        jit(&nodes).unwrap_err(),
        JitError::Unsupported(EmitError::UnsupportedNode(NodeKind::Str))
    );
}

#[test]
fn jit_of_the_empty_program_is_ready_for_verification() {
    let driver = jit(&Vec::new()).unwrap();
    assert_eq!(driver.stage, Stage::Emitted);
    assert_eq!(driver.module.functions.len(), 1);
    assert_eq!(driver.module.functions[0].name, "main");
    assert_eq!(driver.module.functions[0].body.operations.len(), 1);
    assert!(driver.module.constants.is_empty());
}

#[test]
fn jit_demo_holds_the_demo_module() {
    let demo = jit_demo();
    assert_eq!(demo.stage, Stage::Emitted);
    let nodes = vec![AstNode::Print(Box::new(AstNode::DyadicOp {
        verb: rust_mlir::ast::DyadicVerb::Plus,
        lhs: Box::new(AstNode::Integer(1)),
        rhs: Box::new(AstNode::Integer(2)),
    }))];
    assert_eq!(demo, jit(&nodes).unwrap());
}
