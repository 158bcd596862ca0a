//! Structural validity of emitted modules.
//!
//! A module is valid when no symbol is defined twice, every symbol that an
//! operation names is defined in the module, every operand names the result
//! of an earlier operation of the same block, and every body ends with its
//! only return. What the emitter writes into a fresh module is valid.

use crate::ast::{rejection, AstNode};
use crate::constants::{anonymous_constant, annon_string_id, interned, position};
use crate::ir::{ModuleView, OperationView, Type};
use crate::lowering::{
    code, emitted, entry_point, format_name, format_text, output_routine, prints, program_code,
    program_prints, program_rejection, INTEGER_BITS,
};
use vstd::prelude::*;

verus! {

/// Whether some constant of the module is called `name`.
pub open spec fn defines_constant(module: ModuleView, name: Seq<char>) -> bool {
    exists|i: int| 0 <= i < module.constants.len() && (#[trigger] module.constants[i]).name == name
}

/// Whether some declaration of the module is called `name`.
pub open spec fn declares(module: ModuleView, name: Seq<char>) -> bool {
    exists|i: int|
        0 <= i < module.declarations.len() && (#[trigger] module.declarations[i]).name == name
}

/// Whether `operand` names the result of an operation that stands before
/// position `at` of `body`.
pub open spec fn operand_valid(body: Seq<OperationView>, at: int, operand: int) -> bool {
    0 <= operand < at && !(body[operand] is Return)
}

/// Whether the operation at position `at` of `body` is in order.
pub open spec fn operation_valid(body: Seq<OperationView>, at: int, module: ModuleView) -> bool {
    match body[at] {
        OperationView::Constant { .. } => true,
        OperationView::AddI { lhs, rhs } => operand_valid(body, at, lhs) && operand_valid(
            body,
            at,
            rhs,
        ),
        OperationView::AddressOf { global_name } => defines_constant(module, global_name),
        OperationView::Call { callee, operands, .. } => {
            &&& declares(module, callee)
            &&& forall|k: int|
                0 <= k < operands.len() ==> operand_valid(body, at, #[trigger] operands[k])
        },
        OperationView::Return => at == body.len() - 1,
    }
}

/// Whether a function body is in order: it ends with a return and each of
/// its operations is valid.
pub open spec fn body_valid(body: Seq<OperationView>, module: ModuleView) -> bool {
    &&& body.len() > 0
    &&& body.last() is Return
    &&& forall|at: int| 0 <= at < body.len() ==> #[trigger] operation_valid(body, at, module)
}

/// Whether no two symbols of the module share a name.
pub open spec fn symbols_unique(module: ModuleView) -> bool {
    &&& forall|i: int, j: int|
        0 <= i < j < module.declarations.len() ==> (#[trigger] module.declarations[i]).name != (
        #[trigger] module.declarations[j]).name
    &&& forall|i: int, j: int|
        0 <= i < j < module.constants.len() ==> (#[trigger] module.constants[i]).name != (
        #[trigger] module.constants[j]).name
    &&& forall|i: int, j: int|
        0 <= i < j < module.functions.len() ==> (#[trigger] module.functions[i]).name != (
        #[trigger] module.functions[j]).name
    &&& forall|i: int, j: int|
        0 <= i < module.declarations.len() && 0 <= j < module.constants.len() ==> (
        #[trigger] module.declarations[i]).name != (#[trigger] module.constants[j]).name
    &&& forall|i: int, j: int|
        0 <= i < module.declarations.len() && 0 <= j < module.functions.len() ==> (
        #[trigger] module.declarations[i]).name != (#[trigger] module.functions[j]).name
    &&& forall|i: int, j: int|
        0 <= i < module.constants.len() && 0 <= j < module.functions.len() ==> (
        #[trigger] module.constants[i]).name != (#[trigger] module.functions[j]).name
}

/// Whether a module is structurally valid.
pub open spec fn module_valid(module: ModuleView) -> bool {
    &&& symbols_unique(module)
    &&& forall|f: int|
        0 <= f < module.functions.len() ==> body_valid(
            (#[trigger] module.functions[f]).body,
            module,
        )
}

/// Whether a piece of code that starts at position `start` of a body is in
/// order by itself: operands name earlier positions, the only constant
/// addressed is `format`, and that only where `needs_format` allows it, the
/// only callee is the output routine, and there is no return.
pub open spec fn fragment_valid(
    fragment: Seq<OperationView>,
    start: int,
    format: Seq<char>,
    needs_format: bool,
) -> bool {
    forall|k: int|
        0 <= k < fragment.len() ==> match #[trigger] fragment[k] {
            OperationView::Constant { .. } => true,
            OperationView::AddI { lhs, rhs } => 0 <= lhs < start + k && 0 <= rhs < start + k,
            OperationView::AddressOf { global_name } => needs_format && global_name == format,
            OperationView::Call { callee, operands, .. } => {
                &&& callee == output_routine()
                &&& forall|j: int|
                    0 <= j < operands.len() ==> 0 <= #[trigger] operands[j] < start + k
            },
            OperationView::Return => false,
        }
}

/// Two valid fragments, one after the other, are a valid fragment.
pub proof fn lemma_fragment_concat(
    first: Seq<OperationView>,
    second: Seq<OperationView>,
    start: int,
    format: Seq<char>,
    first_needs: bool,
    second_needs: bool,
)
    requires
        fragment_valid(first, start, format, first_needs),
        fragment_valid(second, start + first.len(), format, second_needs),
    ensures
        fragment_valid(first + second, start, format, first_needs || second_needs),
{
    let whole = first + second;
    assert forall|k: int| 0 <= k < whole.len() implies match #[trigger] whole[k] {
        OperationView::Constant { .. } => true,
        OperationView::AddI { lhs, rhs } => 0 <= lhs < start + k && 0 <= rhs < start + k,
        OperationView::AddressOf { global_name } => (first_needs || second_needs) && global_name
            == format,
        OperationView::Call { callee, operands, .. } => {
            &&& callee == output_routine()
            &&& forall|j: int| 0 <= j < operands.len() ==> 0 <= #[trigger] operands[j] < start + k
        },
        OperationView::Return => false,
    } by {
        if k < first.len() {
            assert(whole[k] == first[k]);
        } else {
            assert(whole[k] == second[k - first.len()]);
        }
    }
}

/// The code of a translatable tree is a valid fragment.
pub proof fn lemma_code_valid(node: AstNode, base: int, format: Seq<char>)
    requires
        rejection(node) is None,
        0 <= base,
    ensures
        fragment_valid(code(node, base, format), base, format, prints(node)),
        code(node, base, format).len() >= 1,
    decreases node,
{
    match node {
        AstNode::Print(expr) => {
            lemma_code_valid(*expr, base, format);
            let operand = code(*expr, base, format);
            let address = base + operand.len();
            let tail = seq![
                OperationView::AddressOf { global_name: format },
                OperationView::Call {
                    callee: output_routine(),
                    operands: seq![address, address - 1],
                    result: Type::Integer(INTEGER_BITS),
                },
            ];
            assert(fragment_valid(tail, address, format, true));
            lemma_fragment_concat(operand, tail, base, format, prints(*expr), true);
            assert(code(node, base, format) =~= operand + tail);
        },
        AstNode::DyadicOp { verb, lhs, rhs } => {
            lemma_code_valid(*lhs, base, format);
            let left = code(*lhs, base, format);
            lemma_code_valid(*rhs, base + left.len(), format);
            let right = code(*rhs, base + left.len(), format);
            let tail = seq![
                OperationView::AddI {
                    lhs: base + left.len() - 1,
                    rhs: base + left.len() + right.len() - 1,
                },
            ];
            assert(fragment_valid(tail, base + left.len() + right.len(), format, false));
            lemma_fragment_concat(left, right, base, format, prints(*lhs), prints(*rhs));
            lemma_fragment_concat(left + right, tail, base, format, prints(node), false);
            assert(code(node, base, format) =~= (left + right) + tail);
        },
        _ => {},
    }
}

/// The code of a translatable program is a valid fragment.
pub proof fn lemma_program_code_valid(nodes: Seq<AstNode>, format: Seq<char>)
    requires
        program_rejection(nodes) is None,
    ensures
        fragment_valid(program_code(nodes, 0, format), 0, format, program_prints(nodes)),
    decreases nodes.len(),
{
    if nodes.len() > 0 {
        lemma_program_code_valid(nodes.drop_last(), format);
        let before = program_code(nodes.drop_last(), 0, format);
        lemma_code_valid(nodes.last(), before.len() as int, format);
        lemma_fragment_concat(
            before,
            code(nodes.last(), before.len() as int, format),
            0,
            format,
            program_prints(nodes.drop_last()),
            prints(nodes.last()),
        );
    }
}

/// The names that the emitter gives out differ from each other.
pub proof fn lemma_emitted_names_differ(index: nat)
    ensures
        output_routine() != entry_point(),
        annon_string_id(index) != output_routine(),
        annon_string_id(index) != entry_point(),
{
    reveal_strlit("printf");
    reveal_strlit("main");
    reveal_strlit("annonstr");
    assert(output_routine()[0] == 'p');
    assert(entry_point()[0] == 'm');
    assert(annon_string_id(index)[0] == 'a');
}

/// What the emitter writes into an empty module for a translatable program
/// is a structurally valid module: the entry function ends with its only
/// return, every operand names an earlier result, the format constant and
/// the output routine are defined wherever they are named, and no symbol is
/// defined twice.
pub proof fn law_emitted_module_valid(nodes: Seq<AstNode>)
    requires
        program_rejection(nodes) is None,
    ensures
        module_valid(emitted(ModuleView::empty(), nodes)),
{
    let fresh = ModuleView::empty();
    let module = emitted(fresh, nodes);
    let format = format_name(fresh);
    let text = format_text();
    let fragment = program_code(nodes, 0, format);
    let body = fragment.push(OperationView::Return);
    lemma_program_code_valid(nodes, format);
    lemma_emitted_names_differ(0);
    assert(position(fresh.constants, text) == 0);
    assert(interned(fresh.constants, text) =~= seq![anonymous_constant(0, text)]);
    assert(format == annon_string_id(0));
    assert(module.declarations.len() == 1);
    assert(module.functions.len() == 1);
    assert(module.functions[0].body == body);
    assert(module.declarations[0].name == output_routine());
    assert(declares(module, output_routine()));
    if program_prints(nodes) {
        assert(module.constants[0].name == format);
        assert(defines_constant(module, format));
    }
    assert forall|at: int| 0 <= at < body.len() implies #[trigger] operation_valid(
        body,
        at,
        module,
    ) by {
        if at < fragment.len() {
            assert(body[at] == fragment[at]);
            assert forall|operand: int| 0 <= operand < at implies operand_valid(
                body,
                at,
                operand,
            ) by {
                assert(body[operand] == fragment[operand]);
            }
            match fragment[at] {
                OperationView::Call { callee, operands, .. } => {
                    assert forall|k: int| 0 <= k < operands.len() implies operand_valid(
                        body,
                        at,
                        #[trigger] operands[k],
                    ) by {}
                },
                _ => {},
            }
        }
    }
    assert(body_valid(body, module));
    assert(symbols_unique(module));
}

} // verus!
