//! The intermediate representation as plain data.
//!
//! A [`Module`] lists external function declarations, constant byte arrays
//! and function definitions. A function body is one [`Block`]: an ordered,
//! append-only list of operations in which an operand names the result of an
//! earlier operation by that operation's position.

use vstd::prelude::*;

verus! {

/// The type of a value.
#[derive(Clone, Copy, Debug, PartialEq, Eq, Structural)]
pub enum Type {
    /// A signless integer of the given width in bits.
    Integer(u32),
    /// An untyped address.
    Pointer,
}

/// How a symbol is seen from outside the module.
#[derive(Clone, Copy, Debug, PartialEq, Eq, Structural)]
pub enum Visibility {
    Public,
    Private,
}

/// How the linker treats a module-level constant.
#[derive(Clone, Copy, Debug, PartialEq, Eq, Structural)]
pub enum Linkage {
    Private,
    Internal,
    External,
}

/// The result of the operation at position `index` of the enclosing block.
#[derive(Clone, Copy, Debug, PartialEq, Eq, Structural)]
pub struct Value {
    pub index: usize,
}

impl View for Value {
    type V = int;

    open spec fn view(&self) -> int {
        self.index as int
    }
}

/// One operation of a block.
#[derive(Debug, PartialEq, Eq)]
pub enum Operation {
    /// Materializes the integer `value` in a result of `bits` bits.
    Constant { value: i64, bits: u32 },
    /// Integer addition of two earlier results.
    AddI { lhs: Value, rhs: Value },
    /// Takes the address of the module-level constant `global_name`.
    AddressOf { global_name: String },
    /// Calls the declared function `callee`; the call has one result.
    Call { callee: String, operands: Vec<Value>, result: Type },
    /// Leaves the function without a value.
    Return,
}

/// The mathematical content of an [`Operation`].
#[verifier::ext_equal]
pub enum OperationView {
    Constant { value: int, bits: u32 },
    AddI { lhs: int, rhs: int },
    AddressOf { global_name: Seq<char> },
    Call { callee: Seq<char>, operands: Seq<int>, result: Type },
    Return,
}

/// The positions that a list of operands refers to.
pub open spec fn positions(operands: Seq<Value>) -> Seq<int> {
    Seq::new(operands.len(), |i: int| operands[i]@)
}

impl View for Operation {
    type V = OperationView;

    open spec fn view(&self) -> OperationView {
        match *self {
            Operation::Constant { value, bits } => OperationView::Constant {
                value: value as int,
                bits,
            },
            Operation::AddI { lhs, rhs } => OperationView::AddI { lhs: lhs@, rhs: rhs@ },
            Operation::AddressOf { global_name } => OperationView::AddressOf {
                global_name: global_name@,
            },
            Operation::Call { callee, operands, result } => OperationView::Call {
                callee: callee@,
                operands: positions(operands@),
                result,
            },
            Operation::Return => OperationView::Return,
        }
    }
}

/// Straight-line code: operations in the order in which they run.
#[derive(Debug, PartialEq, Eq)]
pub struct Block {
    pub operations: Vec<Operation>,
}

/// The views of a list of operations, in the same order.
pub open spec fn operation_views(operations: Seq<Operation>) -> Seq<OperationView> {
    Seq::new(operations.len(), |i: int| operations[i]@)
}

impl View for Block {
    type V = Seq<OperationView>;

    open spec fn view(&self) -> Seq<OperationView> {
        operation_views(self.operations@)
    }
}

impl Block {
    /// A block without operations.
    pub fn new() -> (block: Block)
        ensures
            block@ == Seq::<OperationView>::empty(),
    {
        Block { operations: Vec::new() }
    }

    /// Appends `operation` and hands back its position, by which later
    /// operands name its result.
    pub fn append_operation(&mut self, operation: Operation) -> (result: Value)
        ensures
            final(self)@ == old(self)@.push(operation@),
            result@ == old(self)@.len(),
    {
        let index = self.operations.len();
        self.operations.push(operation);
        Value { index }
    }
}

/// A module-level constant: an array of bytes, known to the rest of the
/// module by `name`.
#[derive(Debug, PartialEq, Eq)]
pub struct Global {
    pub name: String,
    /// The text whose UTF-8 bytes fill the array.
    pub value: String,
    /// The number of array elements; no terminator is counted in.
    pub size: usize,
    pub linkage: Linkage,
}

/// The mathematical content of a [`Global`].
#[verifier::ext_equal]
pub struct GlobalView {
    pub name: Seq<char>,
    pub value: Seq<char>,
    pub size: nat,
    pub linkage: Linkage,
}

impl View for Global {
    type V = GlobalView;

    open spec fn view(&self) -> GlobalView {
        GlobalView {
            name: self.name@,
            value: self.value@,
            size: self.size as nat,
            linkage: self.linkage,
        }
    }
}

/// The declaration of a function that is defined outside the module.
#[derive(Debug, PartialEq, Eq)]
pub struct Declaration {
    pub name: String,
    pub result: Type,
    pub parameters: Vec<Type>,
    /// Whether further arguments may follow the declared parameters.
    pub variadic: bool,
    pub visibility: Visibility,
    /// Whether the function is reached through the C calling convention.
    pub c_interface: bool,
}

/// The mathematical content of a [`Declaration`].
#[verifier::ext_equal]
pub struct DeclarationView {
    pub name: Seq<char>,
    pub result: Type,
    pub parameters: Seq<Type>,
    pub variadic: bool,
    pub visibility: Visibility,
    pub c_interface: bool,
}

impl View for Declaration {
    type V = DeclarationView;

    open spec fn view(&self) -> DeclarationView {
        DeclarationView {
            name: self.name@,
            result: self.result,
            parameters: self.parameters@,
            variadic: self.variadic,
            visibility: self.visibility,
            c_interface: self.c_interface,
        }
    }
}

/// A function definition.
#[derive(Debug, PartialEq, Eq)]
pub struct Function {
    pub name: String,
    pub parameters: Vec<Type>,
    pub results: Vec<Type>,
    /// Whether the function can be called from outside the module through
    /// the C calling convention.
    pub c_interface: bool,
    pub body: Block,
}

/// The mathematical content of a [`Function`].
#[verifier::ext_equal]
pub struct FunctionView {
    pub name: Seq<char>,
    pub parameters: Seq<Type>,
    pub results: Seq<Type>,
    pub c_interface: bool,
    pub body: Seq<OperationView>,
}

impl View for Function {
    type V = FunctionView;

    open spec fn view(&self) -> FunctionView {
        FunctionView {
            name: self.name@,
            parameters: self.parameters@,
            results: self.results@,
            c_interface: self.c_interface,
            body: self.body@,
        }
    }
}

/// Everything that was emitted for one program.
#[derive(Debug, PartialEq, Eq)]
pub struct Module {
    pub declarations: Vec<Declaration>,
    pub constants: Vec<Global>,
    pub functions: Vec<Function>,
}

/// The mathematical content of a [`Module`].
#[verifier::ext_equal]
pub struct ModuleView {
    pub declarations: Seq<DeclarationView>,
    pub constants: Seq<GlobalView>,
    pub functions: Seq<FunctionView>,
}

/// The views of a list of declarations, in the same order.
pub open spec fn declaration_views(declarations: Seq<Declaration>) -> Seq<DeclarationView> {
    Seq::new(declarations.len(), |i: int| declarations[i]@)
}

/// The views of a list of constants, in the same order.
pub open spec fn global_views(constants: Seq<Global>) -> Seq<GlobalView> {
    Seq::new(constants.len(), |i: int| constants[i]@)
}

/// The views of a list of functions, in the same order.
pub open spec fn function_views(functions: Seq<Function>) -> Seq<FunctionView> {
    Seq::new(functions.len(), |i: int| functions[i]@)
}

impl View for Module {
    type V = ModuleView;

    open spec fn view(&self) -> ModuleView {
        ModuleView {
            declarations: declaration_views(self.declarations@),
            constants: global_views(self.constants@),
            functions: function_views(self.functions@),
        }
    }
}

impl ModuleView {
    /// The module that holds nothing.
    pub open spec fn empty() -> ModuleView {
        ModuleView { declarations: Seq::empty(), constants: Seq::empty(), functions: Seq::empty() }
    }
}

impl Module {
    /// A module that holds nothing yet.
    pub fn new() -> (module: Module)
        ensures
            module@ == ModuleView::empty(),
    {
        let module = Module {
            declarations: Vec::new(),
            constants: Vec::new(),
            functions: Vec::new(),
        };
        assert(module@ =~~= ModuleView::empty());
        module
    }
}

} // verus!
