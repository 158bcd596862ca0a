//! What the emitted code means, and that it means what the program says.
//!
//! The operations are given a reading here: integers are 32 bits wide and
//! addition wraps, the address of a constant stands for its text, and a call
//! of the output routine with the format `%d` and a line feed writes its
//! argument as one decimal line. The status that the routine returns is left
//! open: every statement below holds whatever `status` maps a written value
//! to. A program has a reading of its own, tree by tree. The theorems say
//! that the code of a program, read operation by operation, writes what the
//! program writes. How an engine that is handed the module behaves is not a
//! subject of this library.

use crate::ast::{rejection, AstNode, DyadicVerb};
use crate::constants::{anonymous_constant, annon_string_id, interned, position};
use crate::ir::{GlobalView, ModuleView, OperationView, Type};
use crate::lowering::{
    code, emitted, entry_point, format_name, format_text, output_routine, prints, program_code,
    program_prints, program_rejection, INTEGER_BITS,
};
use crate::text::signed_decimal;
use vstd::prelude::*;

verus! {

/// What an operation leaves behind.
pub enum Datum {
    /// A 32-bit integer.
    Integer(int),
    /// The address of the constant with this name.
    Address(Seq<char>),
    /// No value.
    Nothing,
}

/// The state of an execution: what each operation so far left behind, by
/// position, and the text written so far.
#[verifier::ext_equal]
pub struct Machine {
    pub results: Seq<Datum>,
    pub output: Seq<char>,
}

impl Machine {
    /// The state before the first operation of a function.
    pub open spec fn initial() -> Machine {
        Machine { results: Seq::empty(), output: Seq::empty() }
    }

    /// The state after an operation that writes nothing left `datum` behind.
    pub open spec fn with(self, datum: Datum) -> Machine {
        Machine { results: self.results.push(datum), output: self.output }
    }

    /// What the operation at `position` left behind, if there is one.
    pub open spec fn result(self, position: int) -> Datum {
        if 0 <= position < self.results.len() {
            self.results[position]
        } else {
            Datum::Nothing
        }
    }
}

/// The 32-bit two's complement integer that is congruent to `x`.
pub open spec fn wrap32(x: int) -> int {
    (x + 0x8000_0000) % 0x1_0000_0000 - 0x8000_0000
}

/// The line that the output routine writes for `v`.
pub open spec fn line(v: int) -> Seq<char> {
    signed_decimal(v).push('\n')
}

/// The text of the first constant called `name`.
pub open spec fn content_of(constants: Seq<GlobalView>, name: Seq<char>) -> Option<Seq<char>>
    decreases constants.len(),
{
    if constants.len() == 0 {
        None
    } else if constants[0].name == name {
        Some(constants[0].value)
    } else {
        content_of(constants.drop_first(), name)
    }
}

/// The state after one operation; `None` when the operation has no reading
/// in the state it meets.
pub open spec fn step(
    machine: Machine,
    operation: OperationView,
    constants: Seq<GlobalView>,
    status: spec_fn(int) -> int,
) -> Option<Machine> {
    match operation {
        OperationView::Constant { value, bits } => if bits == INTEGER_BITS && wrap32(value)
            == value {
            Some(machine.with(Datum::Integer(value)))
        } else {
            None
        },
        OperationView::AddI { lhs, rhs } => match (machine.result(lhs), machine.result(rhs)) {
            (Datum::Integer(a), Datum::Integer(b)) => Some(
                machine.with(Datum::Integer(wrap32(a + b))),
            ),
            _ => None,
        },
        OperationView::AddressOf { global_name } => if content_of(constants, global_name)
            is Some {
            Some(machine.with(Datum::Address(global_name)))
        } else {
            None
        },
        OperationView::Call { callee, operands, result } => if callee == output_routine()
            && operands.len() == 2 && result == Type::Integer(INTEGER_BITS) {
            match (machine.result(operands[0]), machine.result(operands[1])) {
                (Datum::Address(name), Datum::Integer(v)) => if content_of(constants, name)
                    == Some(format_text()) {
                    Some(
                        Machine {
                            results: machine.results.push(Datum::Integer(status(v))),
                            output: machine.output + line(v),
                        },
                    )
                } else {
                    None
                },
                _ => None,
            }
        } else {
            None
        },
        OperationView::Return => Some(machine.with(Datum::Nothing)),
    }
}

/// The state after the operations of `code` ran from `start`, one after the
/// other.
pub open spec fn run(
    code: Seq<OperationView>,
    constants: Seq<GlobalView>,
    status: spec_fn(int) -> int,
    start: Machine,
) -> Option<Machine>
    decreases code.len(),
{
    if code.len() == 0 {
        Some(start)
    } else {
        match run(code.drop_last(), constants, status, start) {
            Some(machine) => step(machine, code.last(), constants, status),
            None => None,
        }
    }
}

/// The text that the entry function of `module` writes; `None` when the
/// module has no entry function or some operation of it has no reading.
pub open spec fn entry_output(module: ModuleView, status: spec_fn(int) -> int) -> Option<
    Seq<char>,
> {
    if exists|f: int| is_entry(module, f) {
        let f = choose|f: int| is_entry(module, f);
        match run(module.functions[f].body, module.constants, status, Machine::initial()) {
            Some(machine) => Some(machine.output),
            None => None,
        }
    } else {
        None
    }
}

/// Whether the function at position `f` of the module is its entry function.
pub open spec fn is_entry(module: ModuleView, f: int) -> bool {
    0 <= f < module.functions.len() && module.functions[f].name == entry_point()
}

/// The value of a tree.
pub open spec fn value(node: AstNode, status: spec_fn(int) -> int) -> int
    decreases node,
{
    match node {
        AstNode::Integer(i) => i as int,
        AstNode::Print(expr) => status(value(*expr, status)),
        AstNode::DyadicOp { verb, lhs, rhs } => wrap32(value(*lhs, status) + value(*rhs, status)),
        _ => 0,
    }
}

/// The text that evaluating a tree writes: one line for each `Print`, the
/// lines of a left operand before those of the right one, the lines of an
/// operand before the line of the `Print` it stands in.
pub open spec fn output(node: AstNode, status: spec_fn(int) -> int) -> Seq<char>
    decreases node,
{
    match node {
        AstNode::Print(expr) => output(*expr, status) + line(value(*expr, status)),
        AstNode::DyadicOp { verb, lhs, rhs } => output(*lhs, status) + output(*rhs, status),
        _ => Seq::empty(),
    }
}

/// The text that a program writes: the text of its trees in source order.
pub open spec fn program_output(nodes: Seq<AstNode>, status: spec_fn(int) -> int) -> Seq<char>
    decreases nodes.len(),
{
    if nodes.len() == 0 {
        Seq::empty()
    } else {
        program_output(nodes.drop_last(), status) + output(nodes.last(), status)
    }
}

/// Running two pieces of code in a row is running the second from where the
/// first ended.
pub proof fn lemma_run_concat(
    first: Seq<OperationView>,
    second: Seq<OperationView>,
    constants: Seq<GlobalView>,
    status: spec_fn(int) -> int,
    start: Machine,
)
    ensures
        run(first + second, constants, status, start) == match run(
            first,
            constants,
            status,
            start,
        ) {
            Some(machine) => run(second, constants, status, machine),
            None => None,
        },
    decreases second.len(),
{
    if second.len() == 0 {
        assert(first + second =~= first);
    } else {
        assert((first + second).drop_last() =~= first + second.drop_last());
        assert((first + second).last() == second.last());
        lemma_run_concat(first, second.drop_last(), constants, status, start);
    }
}

/// Running one more operation is one more step.
pub proof fn lemma_run_push(
    code: Seq<OperationView>,
    operation: OperationView,
    constants: Seq<GlobalView>,
    status: spec_fn(int) -> int,
    start: Machine,
)
    ensures
        run(code.push(operation), constants, status, start) == match run(
            code,
            constants,
            status,
            start,
        ) {
            Some(machine) => step(machine, operation, constants, status),
            None => None,
        },
{
    assert(code.push(operation).drop_last() =~= code);
}

/// Whether `end` is reached from `start` by code of `length` operations
/// that writes `text` and leaves `datum` behind last.
pub open spec fn reaches(
    start: Machine,
    end: Option<Machine>,
    length: nat,
    text: Seq<char>,
    datum: Datum,
) -> bool {
    &&& end matches Some(machine)
    &&& machine.results.len() == start.results.len() + length
    &&& machine.results.take(start.results.len() as int) == start.results
    &&& length > 0 ==> machine.results.last() == datum
    &&& machine.output == start.output + text
}

/// The code of a translatable tree runs to its end from any state in which
/// the format resolves, writes what the tree writes and leaves the value of
/// the tree behind.
pub proof fn lemma_code_runs(
    node: AstNode,
    format: Seq<char>,
    constants: Seq<GlobalView>,
    status: spec_fn(int) -> int,
    start: Machine,
)
    requires
        rejection(node) is None,
        prints(node) ==> content_of(constants, format) == Some(format_text()),
    ensures
        code(node, start.results.len() as int, format).len() > 0,
        reaches(
            start,
            run(code(node, start.results.len() as int, format), constants, status, start),
            code(node, start.results.len() as int, format).len(),
            output(node, status),
            Datum::Integer(value(node, status)),
        ),
    decreases node,
{
    let base = start.results.len() as int;
    match node {
        AstNode::Integer(i) => {
            let constant = OperationView::Constant { value: i as int, bits: INTEGER_BITS };
            assert(code(node, base, format) =~= Seq::<OperationView>::empty().push(constant));
            lemma_run_push(Seq::empty(), constant, constants, status, start);
            let end = start.with(Datum::Integer(i as int));
            assert(end.results.take(base) =~= start.results);
            assert(end.output =~= start.output + output(node, status));
        },
        AstNode::Print(expr) => {
            lemma_code_runs(*expr, format, constants, status, start);
            let operand = code(*expr, base, format);
            let address = base + operand.len();
            let first = OperationView::AddressOf { global_name: format };
            let second = OperationView::Call {
                callee: output_routine(),
                operands: seq![address, address - 1],
                result: Type::Integer(INTEGER_BITS),
            };
            let after_operand = run(operand, constants, status, start)->Some_0;
            lemma_run_push(operand, first, constants, status, start);
            lemma_run_push(operand.push(first), second, constants, status, start);
            let after_address = after_operand.with(Datum::Address(format));
            assert(after_address.result(address) == Datum::Address(format));
            assert(after_address.result(address - 1) == Datum::Integer(value(*expr, status)));
            let end = step(after_address, second, constants, status)->Some_0;
            assert(end.results.take(base) =~= after_operand.results.take(base));
            assert(end.output =~= start.output + output(node, status));
        },
        AstNode::DyadicOp { verb, lhs, rhs } => {
            lemma_code_runs(*lhs, format, constants, status, start);
            let left = code(*lhs, base, format);
            let after_left = run(left, constants, status, start)->Some_0;
            lemma_code_runs(*rhs, format, constants, status, after_left);
            let right = code(*rhs, base + left.len(), format);
            let after_right = run(right, constants, status, after_left)->Some_0;
            lemma_run_concat(left, right, constants, status, start);
            let sum = OperationView::AddI {
                lhs: base + left.len() - 1,
                rhs: base + left.len() + right.len() - 1,
            };
            lemma_run_push(left + right, sum, constants, status, start);
            assert(after_right.results.take(after_left.results.len() as int)[base + left.len()
                - 1] == after_right.results[base + left.len() - 1]);
            assert(after_right.result(base + left.len() - 1) == Datum::Integer(
                value(*lhs, status),
            ));
            assert(after_right.result(base + left.len() + right.len() - 1) == Datum::Integer(
                value(*rhs, status),
            ));
            let end = after_right.with(
                Datum::Integer(wrap32(value(*lhs, status) + value(*rhs, status))),
            );
            assert(end.results.take(base) =~= after_right.results.take(
                after_left.results.len() as int,
            ).take(base));
            assert(end.output =~= start.output + output(node, status));
        },
        _ => {},
    }
}

/// The code of a translatable program runs to its end from the initial
/// state and writes what the program writes.
pub proof fn lemma_program_runs(
    nodes: Seq<AstNode>,
    format: Seq<char>,
    constants: Seq<GlobalView>,
    status: spec_fn(int) -> int,
)
    requires
        program_rejection(nodes) is None,
        program_prints(nodes) ==> content_of(constants, format) == Some(format_text()),
    ensures
        run(program_code(nodes, 0, format), constants, status, Machine::initial()) matches Some(
            machine,
        ) && machine.results.len() == program_code(nodes, 0, format).len() && machine.output
            == program_output(nodes, status),
    decreases nodes.len(),
{
    if nodes.len() > 0 {
        lemma_program_runs(nodes.drop_last(), format, constants, status);
        let before = program_code(nodes.drop_last(), 0, format);
        let middle = run(before, constants, status, Machine::initial())->Some_0;
        lemma_code_runs(nodes.last(), format, constants, status, middle);
        lemma_run_concat(
            before,
            code(nodes.last(), before.len() as int, format),
            constants,
            status,
            Machine::initial(),
        );
    } else {
        assert(Machine::initial().output =~= program_output(nodes, status));
    }
}

/// The entry function that the emitter writes into an empty module for a
/// translatable program writes, operation by operation, exactly the text
/// that the program writes, tree by tree.
pub proof fn law_emitted_code_writes_program_output(
    nodes: Seq<AstNode>,
    status: spec_fn(int) -> int,
)
    requires
        program_rejection(nodes) is None,
    ensures
        entry_output(emitted(ModuleView::empty(), nodes), status) == Some(
            program_output(nodes, status),
        ),
{
    let fresh = ModuleView::empty();
    let module = emitted(fresh, nodes);
    let format = format_name(fresh);
    let text = format_text();
    assert(position(fresh.constants, text) == 0);
    assert(interned(fresh.constants, text) =~= seq![anonymous_constant(0, text)]);
    assert(format == annon_string_id(0));
    if program_prints(nodes) {
        assert(module.constants[0].name == format);
        assert(content_of(module.constants, format) == Some(text));
    }
    lemma_program_runs(nodes, format, module.constants, status);
    let fragment = program_code(nodes, 0, format);
    lemma_run_push(fragment, OperationView::Return, module.constants, status, Machine::initial());
    assert(is_entry(module, 0));
    let f = choose|f: int| is_entry(module, f);
    assert(f == 0);
}

/// A program that prints one integer literal writes that integer in decimal
/// and a line feed, and so does its emitted code.
pub proof fn law_print_integer(i: i32, status: spec_fn(int) -> int)
    ensures
        program_rejection(seq![AstNode::Print(Box::new(AstNode::Integer(i)))]) is None,
        entry_output(
            emitted(ModuleView::empty(), seq![AstNode::Print(Box::new(AstNode::Integer(i)))]),
            status,
        ) == Some(line(i as int)),
{
    let literal = AstNode::Integer(i);
    let node = AstNode::Print(Box::new(literal));
    let nodes = seq![node];
    lemma_single(node, status);
    assert(rejection(literal) is None);
    assert(rejection(node) is None);
    law_emitted_code_writes_program_output(nodes, status);
    assert(value(literal, status) == i);
    assert(output(literal, status) =~= Seq::<char>::empty());
    assert(output(node, status) =~= line(i as int));
}

/// The program that consists of the sum of two integer literals under
/// `Print`.
pub open spec fn print_sum(a: i32, b: i32) -> AstNode {
    AstNode::Print(
        Box::new(
            AstNode::DyadicOp {
                verb: DyadicVerb::Plus,
                lhs: Box::new(AstNode::Integer(a)),
                rhs: Box::new(AstNode::Integer(b)),
            },
        ),
    )
}

/// A program that prints the sum of two integer literals writes the sum as
/// a 32-bit integer in decimal and a line feed, and so does its emitted
/// code. Where the sum of the literals fits in 32 bits it is written as it
/// is; where it does not, it wraps.
pub proof fn law_print_sum(a: i32, b: i32, status: spec_fn(int) -> int)
    ensures
        program_rejection(seq![print_sum(a, b)]) is None,
        entry_output(emitted(ModuleView::empty(), seq![print_sum(a, b)]), status) == Some(
            line(wrap32(a + b)),
        ),
        i32::MIN <= a + b <= i32::MAX ==> entry_output(
            emitted(ModuleView::empty(), seq![print_sum(a, b)]),
            status,
        ) == Some(line(a + b)),
{
    let left = AstNode::Integer(a);
    let right = AstNode::Integer(b);
    let sum = AstNode::DyadicOp { verb: DyadicVerb::Plus, lhs: Box::new(left), rhs: Box::new(right) };
    let node = print_sum(a, b);
    let nodes = seq![node];
    lemma_single(node, status);
    assert(rejection(left) is None && rejection(right) is None);
    assert(rejection(sum) is None);
    assert(rejection(node) is None);
    law_emitted_code_writes_program_output(nodes, status);
    assert(value(left, status) == a && value(right, status) == b);
    assert(value(sum, status) == wrap32(a + b));
    assert(output(left, status) =~= Seq::<char>::empty());
    assert(output(right, status) =~= Seq::<char>::empty());
    assert(output(sum, status) =~= Seq::<char>::empty());
    assert(output(node, status) =~= line(wrap32(a + b)));
}

/// In an addition the left operand is evaluated before the right one: its
/// code stands first, and what it writes is written first.
pub proof fn law_left_operand_first(
    lhs: AstNode,
    rhs: AstNode,
    format: Seq<char>,
    constants: Seq<GlobalView>,
    status: spec_fn(int) -> int,
    start: Machine,
)
    requires
        rejection(lhs) is None,
        rejection(rhs) is None,
        content_of(constants, format) == Some(format_text()),
    ensures
        ({
            let node = AstNode::DyadicOp {
                verb: DyadicVerb::Plus,
                lhs: Box::new(lhs),
                rhs: Box::new(rhs),
            };
            let base = start.results.len() as int;
            let left = code(lhs, base, format);
            let right = code(rhs, base + left.len(), format);
            &&& code(node, base, format).subrange(0, left.len() as int) == left
            &&& code(node, base, format).subrange(
                left.len() as int,
                (left.len() + right.len()) as int,
            ) == right
            &&& run(code(node, base, format), constants, status, start) matches Some(machine)
                && machine.output == start.output + output(lhs, status) + output(rhs, status)
        }),
{
    let node = AstNode::DyadicOp { verb: DyadicVerb::Plus, lhs: Box::new(lhs), rhs: Box::new(rhs) };
    let base = start.results.len() as int;
    let left = code(lhs, base, format);
    let right = code(rhs, base + left.len(), format);
    lemma_code_runs(node, format, constants, status, start);
    assert(code(node, base, format).subrange(0, left.len() as int) =~= left);
    assert(code(node, base, format).subrange(
        left.len() as int,
        (left.len() + right.len()) as int,
    ) =~= right);
    let machine = run(code(node, base, format), constants, status, start)->Some_0;
    assert(machine.output =~= start.output + output(lhs, status) + output(rhs, status));
}

/// The empty program has an entry function that writes nothing.
pub proof fn law_empty_program_writes_nothing(status: spec_fn(int) -> int)
    ensures
        emitted(ModuleView::empty(), Seq::empty()).functions[0].body == seq![
            OperationView::Return,
        ],
        entry_output(emitted(ModuleView::empty(), Seq::empty()), status) == Some(
            Seq::<char>::empty(),
        ),
{
    let nodes = Seq::<AstNode>::empty();
    law_emitted_code_writes_program_output(nodes, status);
    assert(emitted(ModuleView::empty(), nodes).functions[0].body =~= seq![
        OperationView::Return,
    ]);
}

/// A program of one tree is rejected as the tree is and writes what the
/// tree writes.
proof fn lemma_single(node: AstNode, status: spec_fn(int) -> int)
    ensures
        program_rejection(seq![node]) == rejection(node),
        program_output(seq![node], status) == output(node, status),
{
    let nodes = seq![node];
    assert(nodes.drop_last() =~= Seq::<AstNode>::empty());
    assert(program_rejection(nodes.drop_last()) is None);
    assert(nodes.last() == node);
    assert(program_output(nodes.drop_last(), status) =~= Seq::<char>::empty());
    assert(program_output(nodes, status) =~= output(node, status));
}

} // verus!
