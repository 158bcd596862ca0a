//! What the emitter produces, stated as functions of the syntax tree.

use crate::ast::{rejection, AstNode, DyadicVerb, EmitError};
use crate::constants::{anonymous_constant, annon_string_id, intern_name, interned, position};
use crate::ir::{
    DeclarationView, FunctionView, GlobalView, ModuleView, OperationView, Type, Visibility,
};
use vstd::prelude::*;

verus! {

/// The width in bits of every integer that the emitted code computes.
pub const INTEGER_BITS: u32 = 32;

/// The format that `Print` hands to the output routine: a decimal integer
/// and a line feed.
pub open spec fn format_text() -> Seq<char> {
    "%d\n"@
}

/// The name of the formatted-output routine that the emitted code calls.
pub open spec fn output_routine() -> Seq<char> {
    "printf"@
}

/// The name of the entry function.
pub open spec fn entry_point() -> Seq<char> {
    "main"@
}

/// The declaration of the output routine: it takes an address, then any
/// number of further arguments, and returns a 32-bit status. The symbol is
/// private to the module and reached through the C calling convention.
pub open spec fn output_declaration() -> DeclarationView {
    DeclarationView {
        name: output_routine(),
        result: Type::Integer(INTEGER_BITS),
        parameters: seq![Type::Pointer],
        variadic: true,
        visibility: Visibility::Private,
        c_interface: true,
    }
}

/// The operations that translate `node`, for a block that already holds
/// `base` operations, where `format` names the constant of the format text.
///
/// An integer literal becomes one constant. `Print` becomes the code of its
/// operand, the address of the format and a call of the output routine on
/// that address and the operand's value; the value of `Print` is the result
/// of the call. An addition becomes the code of its left operand, then the
/// code of its right operand, then one integer addition of the two values.
/// The value of a node is the result of the last operation of its code.
pub open spec fn code(node: AstNode, base: int, format: Seq<char>) -> Seq<OperationView>
    decreases node,
{
    match node {
        AstNode::Integer(i) => seq![OperationView::Constant { value: i as int, bits: INTEGER_BITS }],
        AstNode::Print(expr) => {
            let operand = code(*expr, base, format);
            let address = base + operand.len();
            operand.push(OperationView::AddressOf { global_name: format }).push(
                OperationView::Call {
                    callee: output_routine(),
                    operands: seq![address, address - 1],
                    result: Type::Integer(INTEGER_BITS),
                },
            )
        },
        AstNode::DyadicOp { verb, lhs, rhs } => if verb == DyadicVerb::Plus {
            let left = code(*lhs, base, format);
            let right = code(*rhs, base + left.len(), format);
            (left + right).push(
                OperationView::AddI {
                    lhs: base + left.len() - 1,
                    rhs: base + left.len() + right.len() - 1,
                },
            )
        } else {
            Seq::empty()
        },
        _ => Seq::empty(),
    }
}

/// Whether the code of `node` calls the output routine, and so needs the
/// format text as a constant.
pub open spec fn prints(node: AstNode) -> bool
    decreases node,
{
    match node {
        AstNode::Print(_) => true,
        AstNode::DyadicOp { lhs, rhs, .. } => prints(*lhs) || prints(*rhs),
        _ => false,
    }
}

/// The first rejection among the trees of a program, in source order.
pub open spec fn program_rejection(nodes: Seq<AstNode>) -> Option<EmitError>
    decreases nodes.len(),
{
    if nodes.len() == 0 {
        None
    } else if program_rejection(nodes.drop_last()) is Some {
        program_rejection(nodes.drop_last())
    } else {
        rejection(nodes.last())
    }
}

/// The code of all trees of a program, one after the other in source order,
/// for a block that already holds `base` operations.
pub open spec fn program_code(nodes: Seq<AstNode>, base: int, format: Seq<char>) -> Seq<
    OperationView,
>
    decreases nodes.len(),
{
    if nodes.len() == 0 {
        Seq::empty()
    } else {
        let before = program_code(nodes.drop_last(), base, format);
        before + code(nodes.last(), base + before.len(), format)
    }
}

/// Whether any tree of the program needs the format text.
pub open spec fn program_prints(nodes: Seq<AstNode>) -> bool
    decreases nodes.len(),
{
    nodes.len() > 0 && (program_prints(nodes.drop_last()) || prints(nodes.last()))
}

/// The constant table after code that may need the format text was emitted.
pub open spec fn with_format(module: ModuleView, needed: bool) -> ModuleView {
    if needed {
        ModuleView { constants: interned(module.constants, format_text()), ..module }
    } else {
        module
    }
}

/// The name under which `module` knows the format text once it is interned.
pub open spec fn format_name(module: ModuleView) -> Seq<char> {
    intern_name(module.constants, format_text())
}

/// The entry function for a body: it takes nothing, returns nothing and can
/// be called from outside through the C calling convention.
pub open spec fn entry_function(body: Seq<OperationView>) -> FunctionView {
    FunctionView {
        name: entry_point(),
        parameters: Seq::empty(),
        results: Seq::empty(),
        c_interface: true,
        body,
    }
}

/// The module after the program `nodes` was translated into it: the output
/// routine is declared, the format text is interned if some tree prints, and
/// the entry function holds the code of all trees followed by a return.
pub open spec fn emitted(module: ModuleView, nodes: Seq<AstNode>) -> ModuleView {
    let constants = with_format(module, program_prints(nodes)).constants;
    ModuleView {
        declarations: module.declarations.push(output_declaration()),
        constants,
        functions: module.functions.push(
            entry_function(
                program_code(nodes, 0, format_name(module)).push(OperationView::Return),
            ),
        ),
    }
}

/// A translatable tree has code, so its value exists.
pub proof fn lemma_code_nonempty(node: AstNode, base: int, format: Seq<char>)
    requires
        rejection(node) is None,
    ensures
        code(node, base, format).len() >= 1,
    decreases node,
{
}

/// A rejection in a prefix of the program is the rejection of the program.
pub proof fn lemma_rejection_prefix(nodes: Seq<AstNode>, k: int)
    requires
        0 <= k <= nodes.len(),
        program_rejection(nodes.take(k)) is Some,
    ensures
        program_rejection(nodes) == program_rejection(nodes.take(k)),
    decreases nodes.len(),
{
    if k == nodes.len() {
        assert(nodes.take(k) =~= nodes);
    } else {
        assert(nodes.drop_last().take(k) =~= nodes.take(k));
        lemma_rejection_prefix(nodes.drop_last(), k);
    }
}

/// A node of a kind without a translation rule, or a dyadic operation
/// whose verb is not `Plus`, is rejected with its kind or its verb, and no
/// operation stands for it.
pub proof fn law_unsupported_rejected(node: AstNode, base: int, format: Seq<char>)
    requires
        !(node is Integer),
        !(node is Print),
        node matches AstNode::DyadicOp { verb, .. } ==> verb != DyadicVerb::Plus,
    ensures
        node matches AstNode::DyadicOp { verb, .. } ==> rejection(node) == Some(
            EmitError::UnsupportedVerb(verb),
        ),
        !(node is DyadicOp) ==> rejection(node) == Some(
            EmitError::UnsupportedNode(node.spec_kind()),
        ),
        code(node, base, format) == Seq::<OperationView>::empty(),
{
}

/// A tree is rejected exactly when some construct in it is: `Print` with
/// its operand, an addition with its left operand or else with its right
/// one.
pub proof fn law_rejection_propagates(node: AstNode)
    ensures
        node matches AstNode::Print(expr) ==> rejection(node) == rejection(*expr),
        node matches AstNode::DyadicOp { verb, lhs, rhs } ==> verb == DyadicVerb::Plus ==> (
        rejection(node) is None <==> rejection(*lhs) is None && rejection(*rhs) is None),
{
}

/// A program with a rejected tree is rejected.
pub proof fn law_program_rejected(nodes: Seq<AstNode>, k: int)
    requires
        0 <= k < nodes.len(),
        rejection(nodes[k]) is Some,
    ensures
        program_rejection(nodes) is Some,
    decreases nodes.len(),
{
    if k < nodes.len() - 1 {
        law_program_rejected(nodes.drop_last(), k);
    }
}

/// The translation is a function of the program: the same program, emitted
/// twice, each time into an empty module, gives the same module twice. The
/// format text is held once however many trees print, under the first name
/// of the table.
pub proof fn law_same_program_same_module(
    first: ModuleView,
    second: ModuleView,
    nodes: Seq<AstNode>,
)
    requires
        first == emitted(ModuleView::empty(), nodes),
        second == emitted(ModuleView::empty(), nodes),
    ensures
        first == second,
        first.declarations == seq![output_declaration()],
        first.constants == if program_prints(nodes) {
            seq![anonymous_constant(0, format_text())]
        } else {
            Seq::<GlobalView>::empty()
        },
        first.functions == seq![
            entry_function(
                program_code(nodes, 0, annon_string_id(0)).push(OperationView::Return),
            ),
        ],
{
    let fresh = ModuleView::empty();
    assert(position(fresh.constants, format_text()) == 0);
    assert(interned(fresh.constants, format_text()) =~= seq![
        anonymous_constant(0, format_text()),
    ]);
    assert(first.declarations =~= seq![output_declaration()]);
    assert(first.functions =~= seq![
        entry_function(program_code(nodes, 0, annon_string_id(0)).push(OperationView::Return)),
    ]);
}

} // verus!
