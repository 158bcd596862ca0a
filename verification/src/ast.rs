//! The syntax tree that the emitter consumes.

use vstd::prelude::*;

verus! {

/// Operators that take one operand.
#[derive(Clone, Copy, Debug, PartialEq, Eq, Structural)]
pub enum MonadicVerb {
    Increment,
    Square,
    Negate,
    Reciprocal,
    Tally,
    Ceiling,
    ShapeOf,
}

/// Operators that take two operands.
#[derive(Clone, Copy, Debug, PartialEq, Eq, Structural)]
pub enum DyadicVerb {
    Plus,
    Times,
    LessThan,
    LargerThan,
    Equal,
    Minus,
    Divide,
    Power,
    Residue,
    Copy,
    LargerOf,
    LargerOrEqual,
    Shape,
}

/// One node of the syntax tree.
#[allow(inconsistent_fields)]
#[derive(Debug, PartialEq)]
pub enum AstNode {
    /// Evaluate the expression, then write its value as a decimal line.
    Print(Box<AstNode>),
    /// A signed 32-bit integer literal.
    Integer(i32),
    /// A floating-point literal, held as its IEEE 754 binary64 bit pattern.
    DoublePrecisionFloat(u64),
    MonadicOp { verb: MonadicVerb, expr: Box<AstNode> },
    DyadicOp { verb: DyadicVerb, lhs: Box<AstNode>, rhs: Box<AstNode> },
    /// Juxtaposed expressions.
    Terms(Vec<AstNode>),
    /// Binds a global identifier to the value of an expression.
    IsGlobal { ident: String, expr: Box<AstNode> },
    Ident(String),
    Str(String),
}

/// The variant of a node, without its contents.
#[derive(Clone, Copy, Debug, PartialEq, Eq, Structural)]
pub enum NodeKind {
    Print,
    Integer,
    DoublePrecisionFloat,
    MonadicOp,
    DyadicOp,
    Terms,
    IsGlobal,
    Ident,
    Str,
}

/// Why a tree cannot be translated.
#[derive(Clone, Copy, Debug, PartialEq, Eq, Structural)]
pub enum EmitError {
    /// A node of this kind has no translation rule.
    UnsupportedNode(NodeKind),
    /// A dyadic operation with this verb has no translation rule.
    UnsupportedVerb(DyadicVerb),
}

impl AstNode {
    /// The variant of this node.
    pub open spec fn spec_kind(&self) -> NodeKind {
        match *self {
            AstNode::Print(_) => NodeKind::Print,
            AstNode::Integer(_) => NodeKind::Integer,
            AstNode::DoublePrecisionFloat(_) => NodeKind::DoublePrecisionFloat,
            AstNode::MonadicOp { .. } => NodeKind::MonadicOp,
            AstNode::DyadicOp { .. } => NodeKind::DyadicOp,
            AstNode::Terms(_) => NodeKind::Terms,
            AstNode::IsGlobal { .. } => NodeKind::IsGlobal,
            AstNode::Ident(_) => NodeKind::Ident,
            AstNode::Str(_) => NodeKind::Str,
        }
    }

    /// The variant of this node.
    #[verifier::when_used_as_spec(spec_kind)]
    pub fn kind(&self) -> (kind: NodeKind)
        ensures
            kind == self.spec_kind(),
    {
        match self {
            AstNode::Print(_) => NodeKind::Print,
            AstNode::Integer(_) => NodeKind::Integer,
            AstNode::DoublePrecisionFloat(_) => NodeKind::DoublePrecisionFloat,
            AstNode::MonadicOp { .. } => NodeKind::MonadicOp,
            AstNode::DyadicOp { .. } => NodeKind::DyadicOp,
            AstNode::Terms(_) => NodeKind::Terms,
            AstNode::IsGlobal { .. } => NodeKind::IsGlobal,
            AstNode::Ident(_) => NodeKind::Ident,
            AstNode::Str(_) => NodeKind::Str,
        }
    }
}

/// The first construct of `node`, in evaluation order, that has no
/// translation rule; `None` when the whole tree can be translated.
///
/// Integer literals translate. `Print` translates when its operand does.
/// A dyadic operation translates when its verb is `Plus` and both operands
/// translate; the verb is looked at before either operand, the left operand
/// before the right one. Every other kind of node is rejected.
pub open spec fn rejection(node: AstNode) -> Option<EmitError>
    decreases node,
{
    match node {
        AstNode::Integer(_) => None,
        AstNode::Print(expr) => rejection(*expr),
        AstNode::DyadicOp { verb, lhs, rhs } => if verb != DyadicVerb::Plus {
            Some(EmitError::UnsupportedVerb(verb))
        } else if rejection(*lhs) is Some {
            rejection(*lhs)
        } else {
            rejection(*rhs)
        },
        _ => Some(EmitError::UnsupportedNode(node.spec_kind())),
    }
}

/// Looks for the first construct of `node` that cannot be translated.
pub fn check_node(node: &AstNode) -> (found: Option<EmitError>)
    ensures
        found == rejection(*node),
    decreases *node,
{
    match node {
        AstNode::Integer(_) => None,
        AstNode::Print(expr) => check_node(expr),
        AstNode::DyadicOp { verb, lhs, rhs } => {
            match verb {
                DyadicVerb::Plus => {
                    let left = check_node(lhs);
                    if left.is_some() {
                        left
                    } else {
                        check_node(rhs)
                    }
                },
                _ => Some(EmitError::UnsupportedVerb(*verb)),
            }
        },
        _ => Some(EmitError::UnsupportedNode(node.kind())),
    }
}

} // verus!
