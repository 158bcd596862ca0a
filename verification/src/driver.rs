//! From an emitted module to a callable entry point, step by step.
//!
//! Verifying, lowering and compiling a module is the work of a host that
//! owns an IR library and an execution engine. The order of that work, what
//! each step is given and what follows from its outcome are decided here:
//! the host asks [`Jit::next_step`], carries the step out and reports to
//! [`Jit::advance`] whether it succeeded.

use crate::ast::EmitError;
use crate::ir::Module;
use crate::lowering::entry_point;
use vstd::prelude::*;
use vstd::string::StringExecFns;

verus! {

/// One pass of the lowering pipeline.
#[derive(Clone, Copy, Debug, PartialEq, Eq, Structural)]
pub enum Pass {
    /// Canonicalizes and simplifies operations.
    Canonicalizer,
    /// Turns structured control flow into branches.
    ScfToControlFlow,
    /// Converts arithmetic to the low-level target form.
    ArithToLlvm,
    /// Converts control flow to the low-level target form.
    ControlFlowToLlvm,
    /// Converts function definitions and calls to the low-level target form.
    FuncToLlvm,
    /// Converts index-typed values to the low-level target form.
    IndexToLlvm,
    /// Finalizes memory-reference operations in the low-level target form.
    FinalizeMemRefToLlvm,
    /// Removes the type casts that earlier passes left behind.
    ReconcileUnrealizedCasts,
}

/// The lowering pipeline: every pass, in the order in which it runs.
pub open spec fn pipeline() -> Seq<Pass> {
    seq![
        Pass::Canonicalizer,
        Pass::ScfToControlFlow,
        Pass::ArithToLlvm,
        Pass::ControlFlowToLlvm,
        Pass::FuncToLlvm,
        Pass::IndexToLlvm,
        Pass::FinalizeMemRefToLlvm,
        Pass::ReconcileUnrealizedCasts,
    ]
}

/// The passes of the lowering pipeline, in the order in which they run.
pub fn lowering_pipeline() -> (passes: Vec<Pass>)
    ensures
        passes@ == pipeline(),
{
    let mut passes: Vec<Pass> = Vec::new();
    passes.push(Pass::Canonicalizer);
    passes.push(Pass::ScfToControlFlow);
    passes.push(Pass::ArithToLlvm);
    passes.push(Pass::ControlFlowToLlvm);
    passes.push(Pass::FuncToLlvm);
    passes.push(Pass::IndexToLlvm);
    passes.push(Pass::FinalizeMemRefToLlvm);
    passes.push(Pass::ReconcileUnrealizedCasts);
    assert(passes@ =~= pipeline());
    passes
}

/// Why a program did not run.
#[derive(Clone, Copy, Debug, PartialEq, Eq, Structural)]
pub enum JitError {
    /// The program holds a construct without a translation rule.
    Unsupported(EmitError),
    /// The module failed structural verification.
    Verification,
    /// A pass of the lowering pipeline failed.
    Lowering,
    /// The engine could not compile the lowered module.
    Compilation,
    /// The compiled entry point did not return normally.
    Invocation,
}

/// How far a module has come.
#[derive(Clone, Copy, Debug, PartialEq, Eq, Structural)]
pub enum Stage {
    /// The module was emitted and has not been looked at since.
    Emitted,
    /// The emitted module passed structural verification.
    Verified,
    /// The lowering pipeline ran to its end.
    Lowered,
    /// The lowered module passed structural verification.
    Legal,
    /// The module was compiled; its entry point can be called.
    Compiled,
    /// A step failed for good.
    Failed(JitError),
}

/// How the engine compiles a module.
#[derive(Debug, PartialEq, Eq)]
pub struct CompileOptions {
    pub optimization_level: usize,
    pub shared_library_paths: Vec<String>,
    pub enable_object_dump: bool,
}

/// What the host does next.
#[derive(Debug, PartialEq, Eq)]
pub enum Step {
    /// Verify the structure of the module.
    Verify,
    /// Run these passes over the module, in this order, in one pass manager;
    /// `verify_each` asks for verification between passes.
    Lower { passes: Vec<Pass>, verify_each: bool },
    /// Compile the module.
    Compile(CompileOptions),
    /// Call the function `entry`, without arguments or results.
    Invoke { entry: String },
    /// Nothing: the module cannot be run.
    Abandon,
}

impl Stage {
    /// The stage that follows when the step of this stage succeeded or
    /// failed. Before the module is compiled every failure is final. A
    /// compiled module stays compiled whatever an invocation does.
    pub open spec fn spec_after(self, succeeded: bool) -> Stage {
        match self {
            Stage::Emitted => if succeeded {
                Stage::Verified
            } else {
                Stage::Failed(JitError::Verification)
            },
            Stage::Verified => if succeeded {
                Stage::Lowered
            } else {
                Stage::Failed(JitError::Lowering)
            },
            Stage::Lowered => if succeeded {
                Stage::Legal
            } else {
                Stage::Failed(JitError::Verification)
            },
            Stage::Legal => if succeeded {
                Stage::Compiled
            } else {
                Stage::Failed(JitError::Compilation)
            },
            Stage::Compiled => Stage::Compiled,
            Stage::Failed(error) => Stage::Failed(error),
        }
    }

    /// The error that a step of this stage reports with this outcome.
    pub open spec fn spec_report(self, succeeded: bool) -> Option<JitError> {
        match self {
            Stage::Failed(error) => Some(error),
            Stage::Compiled => if succeeded {
                None
            } else {
                Some(JitError::Invocation)
            },
            _ => match self.spec_after(succeeded) {
                Stage::Failed(error) => Some(error),
                _ => None,
            },
        }
    }

    /// The stage that follows when the step of this stage succeeded or
    /// failed.
    #[verifier::when_used_as_spec(spec_after)]
    pub fn after(self, succeeded: bool) -> (next: Stage)
        ensures
            next == self.spec_after(succeeded),
    {
        match self {
            Stage::Emitted => if succeeded {
                Stage::Verified
            } else {
                Stage::Failed(JitError::Verification)
            },
            Stage::Verified => if succeeded {
                Stage::Lowered
            } else {
                Stage::Failed(JitError::Lowering)
            },
            Stage::Lowered => if succeeded {
                Stage::Legal
            } else {
                Stage::Failed(JitError::Verification)
            },
            Stage::Legal => if succeeded {
                Stage::Compiled
            } else {
                Stage::Failed(JitError::Compilation)
            },
            Stage::Compiled => Stage::Compiled,
            Stage::Failed(error) => Stage::Failed(error),
        }
    }

    /// The error that a step of this stage reports with this outcome.
    #[verifier::when_used_as_spec(spec_report)]
    pub fn report(self, succeeded: bool) -> (error: Option<JitError>)
        ensures
            error == self.spec_report(succeeded),
    {
        match self {
            Stage::Failed(error) => Some(error),
            Stage::Compiled => if succeeded {
                None
            } else {
                Some(JitError::Invocation)
            },
            _ => match self.after(succeeded) {
                Stage::Failed(error) => Some(error),
                _ => None,
            },
        }
    }
}

/// The mathematical content of a [`Step`].
#[verifier::ext_equal]
pub enum StepView {
    Verify,
    Lower { passes: Seq<Pass>, verify_each: bool },
    Compile { optimization_level: nat, shared_library_paths: Seq<Seq<char>>, enable_object_dump: bool },
    Invoke { entry: Seq<char> },
    Abandon,
}

impl View for Step {
    type V = StepView;

    open spec fn view(&self) -> StepView {
        match *self {
            Step::Verify => StepView::Verify,
            Step::Lower { passes, verify_each } => StepView::Lower { passes: passes@, verify_each },
            Step::Compile(options) => StepView::Compile {
                optimization_level: options.optimization_level as nat,
                shared_library_paths: Seq::new(
                    options.shared_library_paths@.len(),
                    |i: int| options.shared_library_paths@[i]@,
                ),
                enable_object_dump: options.enable_object_dump,
            },
            Step::Invoke { entry } => StepView::Invoke { entry: entry@ },
            Step::Abandon => StepView::Abandon,
        }
    }
}

/// The step that belongs to a stage.
///
/// A module is verified right after it was emitted and again after it was
/// lowered. Lowering runs the whole pipeline with verification between
/// passes. Compilation is unoptimized, links no further library and dumps
/// the object code. A compiled module is run by calling `main`.
pub open spec fn step_of(stage: Stage) -> StepView {
    match stage {
        Stage::Emitted => StepView::Verify,
        Stage::Verified => StepView::Lower { passes: pipeline(), verify_each: true },
        Stage::Lowered => StepView::Verify,
        Stage::Legal => StepView::Compile {
            optimization_level: 0,
            shared_library_paths: Seq::empty(),
            enable_object_dump: true,
        },
        Stage::Compiled => StepView::Invoke { entry: entry_point() },
        Stage::Failed(_) => StepView::Abandon,
    }
}

/// An emitted module on its way to execution.
#[derive(Debug, PartialEq, Eq)]
pub struct Jit {
    pub module: Module,
    pub stage: Stage,
}

impl Jit {
    /// Takes charge of a module that was just emitted.
    pub fn new(module: Module) -> (jit: Jit)
        ensures
            jit.module == module,
            jit.stage == Stage::Emitted,
    {
        Jit { module, stage: Stage::Emitted }
    }

    /// What the host does next with the module.
    pub fn next_step(&self) -> (step: Step)
        ensures
            step@ == step_of(self.stage),
    {
        match self.stage {
            Stage::Emitted => Step::Verify,
            Stage::Verified => Step::Lower { passes: lowering_pipeline(), verify_each: true },
            Stage::Lowered => Step::Verify,
            Stage::Legal => {
                let options = CompileOptions {
                    optimization_level: 0,
                    shared_library_paths: Vec::new(),
                    enable_object_dump: true,
                };
                let step = Step::Compile(options);
                assert(step@ =~~= step_of(self.stage));
                step
            },
            Stage::Compiled => Step::Invoke { entry: String::from_str("main") },
            Stage::Failed(_) => Step::Abandon,
        }
    }

    /// Takes note of whether the step that [`Jit::next_step`] asked for
    /// succeeded, and reports the error if it did not.
    pub fn advance(&mut self, succeeded: bool) -> (result: Result<(), JitError>)
        ensures
            final(self).module == old(self).module,
            final(self).stage == old(self).stage.spec_after(succeeded),
            match result {
                Ok(()) => old(self).stage.spec_report(succeeded) is None,
                Err(error) => old(self).stage.spec_report(succeeded) == Some(error),
            },
    {
        let report = self.stage.report(succeeded);
        self.stage = self.stage.after(succeeded);
        match report {
            Some(error) => Err(error),
            None => Ok(()),
        }
    }
}

/// The stage that is reached from `stage` when the steps end as `outcomes`
/// says, one after the other.
pub open spec fn stage_after(stage: Stage, outcomes: Seq<bool>) -> Stage
    decreases outcomes.len(),
{
    if outcomes.len() == 0 {
        stage
    } else {
        stage_after(stage, outcomes.drop_last()).spec_after(outcomes.last())
    }
}

/// A failure is final: whatever is reported afterwards, the stage stays
/// failed with the same error.
pub proof fn law_failure_is_final(error: JitError, outcomes: Seq<bool>)
    ensures
        stage_after(Stage::Failed(error), outcomes) == Stage::Failed(error),
    decreases outcomes.len(),
{
    if outcomes.len() > 0 {
        law_failure_is_final(error, outcomes.drop_last());
    }
}

/// No step is skipped: a module is compiled only after verification,
/// lowering, verification and compilation succeeded, in this order.
pub proof fn law_compiled_after_every_step(outcomes: Seq<bool>)
    requires
        stage_after(Stage::Emitted, outcomes) == Stage::Compiled,
    ensures
        outcomes.len() >= 4,
        outcomes[0] && outcomes[1] && outcomes[2] && outcomes[3],
        stage_after(Stage::Emitted, outcomes.take(1)) == Stage::Verified,
        stage_after(Stage::Emitted, outcomes.take(2)) == Stage::Lowered,
        stage_after(Stage::Emitted, outcomes.take(3)) == Stage::Legal,
        stage_after(Stage::Emitted, outcomes.take(4)) == Stage::Compiled,
{
    lemma_stage_progress(outcomes, outcomes.len() as int);
    lemma_stage_progress(outcomes, 0);
    lemma_stage_progress(outcomes, 1);
    lemma_stage_progress(outcomes, 2);
    lemma_stage_progress(outcomes, 3);
    if outcomes.len() >= 4 {
        lemma_stage_progress(outcomes, 4);
    }
    assert(outcomes.take(outcomes.len() as int) =~= outcomes);
}

/// An invocation that fails leaves the module compiled, so that it can be
/// invoked again.
pub proof fn law_invocation_failure_recoverable(outcomes: Seq<bool>)
    ensures
        stage_after(Stage::Compiled, outcomes) == Stage::Compiled,
        Stage::Compiled.spec_report(false) == Some(JitError::Invocation),
    decreases outcomes.len(),
{
    if outcomes.len() > 0 {
        law_invocation_failure_recoverable(outcomes.drop_last());
    }
}

/// After `k` outcomes the stage is the `k`-th of the four stages before
/// compilation if all of them were successes, failed if one was not, and
/// compiled from the fourth success on.
proof fn lemma_stage_progress(outcomes: Seq<bool>, k: int)
    requires
        0 <= k <= outcomes.len(),
    ensures
        ({
            let reached = stage_after(Stage::Emitted, outcomes.take(k));
            let all = forall|i: int| 0 <= i < k && i < 4 ==> outcomes[i];
            &&& all && k == 0 ==> reached == Stage::Emitted
            &&& all && k == 1 ==> reached == Stage::Verified
            &&& all && k == 2 ==> reached == Stage::Lowered
            &&& all && k == 3 ==> reached == Stage::Legal
            &&& all && k >= 4 ==> reached == Stage::Compiled
            &&& !all ==> reached is Failed
        }),
    decreases k,
{
    if k > 0 {
        lemma_stage_progress(outcomes, k - 1);
        assert(outcomes.take(k).drop_last() =~= outcomes.take(k - 1));
        assert(outcomes.take(k).last() == outcomes[k - 1]);
        let earlier = forall|i: int| 0 <= i < k - 1 && i < 4 ==> outcomes[i];
        let all = forall|i: int| 0 <= i < k && i < 4 ==> outcomes[i];
        if all {
            assert(earlier);
            if k <= 4 {
                assert(outcomes[k - 1]);
            }
        } else if earlier {
            assert(k <= 4 && !outcomes[k - 1]);
        }
    }
}

} // verus!
