//! Emits the intermediate representation for syntax trees.

use crate::ast::{check_node, rejection, AstNode, DyadicVerb, EmitError};
use crate::constants::{
    annon_string_id, intern_name, interned, lemma_find_first, lemma_intern_idempotent,
    lemma_intern_wf, table_wf,
};
use crate::driver::{Jit, JitError, Stage};
use crate::ir::{
    positions, Block, Declaration, Function, Global, Linkage, Module, ModuleView, Operation,
    OperationView, Type, Value, Visibility,
};
use crate::lowering::{
    code, emitted, entry_function, format_name, format_text, lemma_code_nonempty, lemma_rejection_prefix,
    output_declaration, output_routine, prints, program_code, program_prints,
    program_rejection, with_format, INTEGER_BITS,
};
use crate::text::append_decimal;
use crate::validity::{law_emitted_module_valid, module_valid};
use vstd::pervasive::unreached;
use vstd::prelude::*;
use vstd::string::StringExecFns;

verus! {

/// The symbolic name of the anonymous constant at position `index` of the
/// table: `annonstr` followed by the position in decimal.
pub fn gen_annon_string_id(index: usize) -> (id: String)
    ensures
        id@ == annon_string_id(index as nat),
{
    let mut id = String::from_str("annonstr");
    append_decimal(&mut id, index);
    id
}

/// Interns `value` in the constant table of `module` and returns the name
/// under which the module knows it.
///
/// The first request for a text appends one constant to the module; later
/// requests for the same text change nothing and return the same name.
pub fn generate_annon_string(value: String, module: &mut Module) -> (name: String)
    ensures
        final(module)@ == (ModuleView {
            constants: interned(old(module)@.constants, value@),
            ..old(module)@
        }),
        name@ == intern_name(old(module)@.constants, value@),
        table_wf(old(module)@.constants) ==> table_wf(final(module)@.constants),
{
    let ghost table = module@.constants;
    proof {
        if table_wf(table) {
            lemma_intern_wf(table, value@);
        }
    }
    let mut i: usize = 0;
    while i < module.constants.len()
        invariant
            i <= module.constants.len(),
            *module == *old(module),
            table == module@.constants,
            forall|j: int| 0 <= j < i ==> (#[trigger] table[j]).value != value@,
        decreases module.constants.len() - i,
    {
        if module.constants[i].value == value {
            proof {
                lemma_find_first(table, value@, 0, i as int);
            }
            return module.constants[i].name.clone();
        }
        i += 1;
    }
    proof {
        lemma_find_first(table, value@, 0, table.len() as int);
    }
    let name = gen_annon_string_id(module.constants.len());
    let size = value.as_str().as_bytes().len();
    module.constants.push(Global { name: name.clone(), value, size, linkage: Linkage::Internal });
    assert(module@ =~~= (ModuleView { constants: interned(table, value@), ..old(module)@ }));
    name
}

/// The operation that takes the address of the module-level constant `id`.
pub fn gen_pointer_to_global(id: String) -> (operation: Operation)
    ensures
        operation@ == (OperationView::AddressOf { global_name: id@ }),
{
    Operation::AddressOf { global_name: id }
}

/// Interns `value` in `module` and builds the operation that takes the
/// address of its constant.
pub fn gen_pointer_to_annon_str(value: String, module: &mut Module) -> (operation: Operation)
    ensures
        final(module)@ == (ModuleView {
            constants: interned(old(module)@.constants, value@),
            ..old(module)@
        }),
        operation@ == (OperationView::AddressOf {
            global_name: intern_name(old(module)@.constants, value@),
        }),
{
    let string_id = generate_annon_string(value, module);
    gen_pointer_to_global(string_id)
}

/// The call of the output routine on the format at `format` and the value
/// `argument`.
fn output_call(format: Value, argument: Value) -> (operation: Operation)
    ensures
        operation@ == (OperationView::Call {
            callee: output_routine(),
            operands: seq![format@, argument@],
            result: Type::Integer(INTEGER_BITS),
        }),
{
    let mut operands: Vec<Value> = Vec::new();
    operands.push(format);
    operands.push(argument);
    assert(positions(operands@) =~= seq![format@, argument@]);
    Operation::Call {
        callee: String::from_str("printf"),
        operands,
        result: Type::Integer(INTEGER_BITS),
    }
}

/// Appends the code of a translatable tree to `block` and returns the value
/// of the tree.
fn lower(block: &mut Block, module: &mut Module, node: &AstNode) -> (value: Value)
    requires
        rejection(*node) is None,
    ensures
        final(block)@ == old(block)@ + code(
            *node,
            old(block)@.len() as int,
            format_name(old(module)@),
        ),
        value@ == final(block)@.len() - 1,
        final(module)@ == with_format(old(module)@, prints(*node)),
    decreases *node,
{
    let ghost base = block@.len() as int;
    let ghost format = format_name(module@);
    proof {
        lemma_intern_idempotent(module@.constants, format_text());
    }
    match node {
        AstNode::Integer(i) => {
            let value = block.append_operation(
                Operation::Constant { value: *i as i64, bits: INTEGER_BITS },
            );
            assert(block@ =~= old(block)@ + code(*node, base, format));
            value
        },
        AstNode::Print(expr) => {
            let argument = lower(block, module, expr);
            proof {
                lemma_code_nonempty(**expr, base, format);
            }
            let address = gen_pointer_to_annon_str(String::from_str("%d\n"), module);
            let pointer = block.append_operation(address);
            let value = block.append_operation(output_call(pointer, argument));
            assert(block@ =~= old(block)@ + code(*node, base, format));
            assert(module@ =~~= with_format(old(module)@, true));
            value
        },
        AstNode::DyadicOp { verb, lhs, rhs } => {
            match verb {
                DyadicVerb::Plus => {
                    let left = lower(block, module, lhs);
                    let right = lower(block, module, rhs);
                    proof {
                        lemma_code_nonempty(**lhs, base, format);
                        lemma_code_nonempty(
                            **rhs,
                            base + code(**lhs, base, format).len(),
                            format,
                        );
                    }
                    let value = block.append_operation(Operation::AddI { lhs: left, rhs: right });
                    assert(block@ =~= old(block)@ + code(*node, base, format));
                    assert(module@ =~~= with_format(old(module)@, prints(*node)));
                    value
                },
                _ => unreached(),
            }
        },
        _ => unreached(),
    }
}

/// Translates one tree into `block`.
///
/// Either the whole tree has a translation: then its code is appended to
/// `block`, the format text is interned in `module` if the tree prints, and
/// the value of the tree is returned. Or some construct of it has none: then
/// the first such construct is reported and neither `block` nor `module`
/// changes.
pub fn emit_node(block: &mut Block, module: &mut Module, node: &AstNode) -> (result: Result<
    Value,
    EmitError,
>)
    ensures
        match result {
            Ok(value) => {
                &&& rejection(*node) is None
                &&& final(block)@ == old(block)@ + code(
                    *node,
                    old(block)@.len() as int,
                    format_name(old(module)@),
                )
                &&& value@ == final(block)@.len() - 1
                &&& final(module)@ == with_format(old(module)@, prints(*node))
            },
            Err(error) => {
                &&& rejection(*node) == Some(error)
                &&& *final(block) == *old(block)
                &&& *final(module) == *old(module)
            },
        },
{
    match check_node(node) {
        Some(error) => Err(error),
        None => Ok(lower(block, module, node)),
    }
}

/// Translates the tree in `node` into `block`, as [`emit_node`] does.
pub fn emit_box(block: &mut Block, module: &mut Module, node: &Box<AstNode>) -> (result: Result<
    Value,
    EmitError,
>)
    ensures
        match result {
            Ok(value) => {
                &&& rejection(**node) is None
                &&& final(block)@ == old(block)@ + code(
                    **node,
                    old(block)@.len() as int,
                    format_name(old(module)@),
                )
                &&& value@ == final(block)@.len() - 1
                &&& final(module)@ == with_format(old(module)@, prints(**node))
            },
            Err(error) => {
                &&& rejection(**node) == Some(error)
                &&& *final(block) == *old(block)
                &&& *final(module) == *old(module)
            },
        },
{
    emit_node(block, module, &**node)
}

/// Looks for the first construct of a program that cannot be translated.
fn check_program(nodes: &Vec<AstNode>) -> (found: Option<EmitError>)
    ensures
        found == program_rejection(nodes@),
{
    let mut i: usize = 0;
    while i < nodes.len()
        invariant
            i <= nodes.len(),
            program_rejection(nodes@.take(i as int)) is None,
        decreases nodes.len() - i,
    {
        let found = check_node(&nodes[i]);
        proof {
            assert(nodes@.take(i + 1).drop_last() =~= nodes@.take(i as int));
            assert(nodes@.take(i + 1).last() == nodes@[i as int]);
        }
        if found.is_some() {
            proof {
                lemma_rejection_prefix(nodes@, i + 1);
            }
            return found;
        }
        i += 1;
    }
    assert(nodes@.take(i as int) =~= nodes@);
    None
}

/// The declaration of the output routine.
fn declare_output() -> (declaration: Declaration)
    ensures
        declaration@ == output_declaration(),
{
    let mut parameters: Vec<Type> = Vec::new();
    parameters.push(Type::Pointer);
    assert(parameters@ =~= seq![Type::Pointer]);
    Declaration {
        name: String::from_str("printf"),
        result: Type::Integer(INTEGER_BITS),
        parameters,
        variadic: true,
        visibility: Visibility::Private,
        c_interface: true,
    }
}

/// The entry function with this body.
fn define_entry(body: Block) -> (function: Function)
    ensures
        function@ == entry_function(body@),
{
    let function = Function {
        name: String::from_str("main"),
        parameters: Vec::new(),
        results: Vec::new(),
        c_interface: true,
        body,
    };
    assert(function@ =~~= entry_function(body@));
    function
}

/// Translates a program into `module`.
///
/// When every tree has a translation, the module gains the declaration of
/// the output routine, the format text among its constants if some tree
/// prints, and the entry function `main`, whose body is the code of the
/// trees in source order followed by a return. When some construct has no
/// translation, the first such construct is reported and the module is left
/// as it was.
pub fn emit(module: &mut Module, nodes: &Vec<AstNode>) -> (result: Result<(), EmitError>)
    ensures
        match result {
            Ok(()) => {
                &&& program_rejection(nodes@) is None
                &&& final(module)@ == emitted(old(module)@, nodes@)
            },
            Err(error) => {
                &&& program_rejection(nodes@) == Some(error)
                &&& *final(module) == *old(module)
            },
        },
{
    match check_program(nodes) {
        Some(error) => {
            return Err(error);
        },
        None => {},
    }
    let ghost before = module@;
    let ghost format = format_name(before);
    module.declarations.push(declare_output());
    let ghost declared = module@;
    assert(declared =~~= (ModuleView {
        declarations: before.declarations.push(output_declaration()),
        ..before
    }));
    let mut block = Block::new();
    let mut i: usize = 0;
    while i < nodes.len()
        invariant
            i <= nodes.len(),
            program_rejection(nodes@) is None,
            program_rejection(nodes@.take(i as int)) is None,
            block@ == program_code(nodes@.take(i as int), 0, format),
            module@ == with_format(declared, program_prints(nodes@.take(i as int))),
            declared.constants == before.constants,
            format == format_name(before),
        decreases nodes.len() - i,
    {
        proof {
            assert(nodes@.take(i + 1).drop_last() =~= nodes@.take(i as int));
            assert(nodes@.take(i + 1).last() == nodes@[i as int]);
            if rejection(nodes@[i as int]) is Some {
                lemma_rejection_prefix(nodes@, i + 1);
            }
            lemma_intern_idempotent(before.constants, format_text());
        }
        lower(&mut block, module, &nodes[i]);
        assert(module@ =~~= with_format(declared, program_prints(nodes@.take(i + 1))));
        i += 1;
    }
    assert(nodes@.take(i as int) =~= nodes@);
    block.append_operation(Operation::Return);
    module.functions.push(define_entry(block));
    assert(module@ =~~= emitted(before, nodes@));
    Ok(())
}

/// The program that [`emit_demo`] translates: print the sum of one and two.
pub open spec fn demo_program() -> Seq<AstNode> {
    seq![
        AstNode::Print(
            Box::new(
                AstNode::DyadicOp {
                    verb: DyadicVerb::Plus,
                    lhs: Box::new(AstNode::Integer(1)),
                    rhs: Box::new(AstNode::Integer(2)),
                },
            ),
        ),
    ]
}

/// Writes a fixed program into `module`, operation by operation: it adds
/// one and two and prints the sum. The result is what [`emit`] produces for
/// [`demo_program`].
pub fn emit_demo(module: &mut Module)
    ensures
        final(module)@ == emitted(old(module)@, demo_program()),
{
    let ghost before = module@;
    let ghost format = format_name(before);
    module.declarations.push(declare_output());
    let mut block = Block::new();
    let one = block.append_operation(Operation::Constant { value: 1, bits: INTEGER_BITS });
    let two = block.append_operation(Operation::Constant { value: 2, bits: INTEGER_BITS });
    let sum = block.append_operation(Operation::AddI { lhs: one, rhs: two });
    let address = gen_pointer_to_annon_str(String::from_str("%d\n"), module);
    let pointer = block.append_operation(address);
    block.append_operation(output_call(pointer, sum));
    proof {
        let program = demo_program();
        let print = program[0];
        let sum_node = *print->Print_0;
        assert(code(AstNode::Integer(1), 0, format).len() == 1);
        assert(code(AstNode::Integer(2), 1, format).len() == 1);
        assert(code(sum_node, 0, format) =~= seq![
            OperationView::Constant { value: 1, bits: INTEGER_BITS },
            OperationView::Constant { value: 2, bits: INTEGER_BITS },
            OperationView::AddI { lhs: 0, rhs: 1 },
        ]);
        assert(block@ =~= code(print, 0, format));
        assert(program.drop_last() =~= Seq::<AstNode>::empty());
        assert(program_code(program.drop_last(), 0, format) =~= Seq::<OperationView>::empty());
        assert(program_code(program, 0, format) =~= code(print, 0, format));
        assert(!program_prints(program.drop_last()));
        assert(program_prints(program));
    }
    block.append_operation(Operation::Return);
    module.functions.push(define_entry(block));
    assert(module@ =~~= emitted(before, demo_program()));
}

/// Translates a program into a fresh module and hands the module over for
/// verification, lowering and compilation.
///
/// A program with a construct that has no translation rule is refused with
/// the first such construct; nothing is handed over then.
pub fn jit(nodes: &Vec<AstNode>) -> (result: Result<Jit, JitError>)
    ensures
        match result {
            Ok(jit) => {
                &&& program_rejection(nodes@) is None
                &&& jit.module@ == emitted(ModuleView::empty(), nodes@)
                &&& module_valid(jit.module@)
                &&& jit.stage == Stage::Emitted
            },
            Err(error) => {
                &&& program_rejection(nodes@) matches Some(cause)
                &&& error == JitError::Unsupported(cause)
            },
        },
{
    let mut module = Module::new();
    match emit(&mut module, nodes) {
        Ok(()) => {
            proof {
                law_emitted_module_valid(nodes@);
            }
            Ok(Jit::new(module))
        },
        Err(cause) => Err(JitError::Unsupported(cause)),
    }
}

/// Writes the demonstration program of [`emit_demo`] into a fresh module
/// and hands the module over for verification, lowering and compilation.
pub fn jit_demo() -> (jit: Jit)
    ensures
        jit.module@ == emitted(ModuleView::empty(), demo_program()),
        jit.stage == Stage::Emitted,
{
    let mut module = Module::new();
    emit_demo(&mut module);
    Jit::new(module)
}

} // verus!
