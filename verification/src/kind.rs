//! The closed set of numeric element kinds a kernel can compute with,
//! their promotion order, byte widths and kernel-native type names,
//! and the operator tags of the expression graph.

use vstd::prelude::*;

verus! {

/// A supported numeric element representation.
#[derive(Clone, Copy, PartialEq, Eq, Structural, Debug)]
pub enum ElemKind {
    /// 32-bit signed integer.
    Int,
    /// 32-bit unsigned integer.
    UInt,
    /// 32-bit floating point.
    Float,
    /// 64-bit floating point.
    Double,
}

impl ElemKind {
    /// Rank in the type-promotion order; each kind has a unique rank.
    pub open spec fn spec_strength(self) -> nat {
        match self {
            ElemKind::Int => 0,
            ElemKind::UInt => 1,
            ElemKind::Float => 2,
            ElemKind::Double => 3,
        }
    }

    pub fn strength(&self) -> (r: usize)
        ensures
            r == self.spec_strength(),
    {
        match self {
            ElemKind::Int => 0,
            ElemKind::UInt => 1,
            ElemKind::Float => 2,
            ElemKind::Double => 3,
        }
    }

    /// Width of one element in a device buffer.
    pub open spec fn spec_size_bytes(self) -> nat {
        match self {
            ElemKind::Int => 4,
            ElemKind::UInt => 4,
            ElemKind::Float => 4,
            ElemKind::Double => 8,
        }
    }

    pub fn size_bytes(&self) -> (r: usize)
        ensures
            r == self.spec_size_bytes(),
            1 <= r <= 8,
    {
        match self {
            ElemKind::Int => 4,
            ElemKind::UInt => 4,
            ElemKind::Float => 4,
            ElemKind::Double => 8,
        }
    }

    /// The kernel-native scalar type name emitted for this kind.
    pub open spec fn spec_glsl_name(self) -> Seq<char> {
        match self {
            ElemKind::Int => "int"@,
            ElemKind::UInt => "uint"@,
            ElemKind::Float => "float"@,
            ElemKind::Double => "double"@,
        }
    }

    pub fn glsl_name(&self) -> (r: &'static str)
        ensures
            r@ == self.spec_glsl_name(),
    {
        match self {
            ElemKind::Int => "int",
            ElemKind::UInt => "uint",
            ElemKind::Float => "float",
            ElemKind::Double => "double",
        }
    }

    /// The operand kind of greater strength wins.
    pub open spec fn spec_promote(a: ElemKind, b: ElemKind) -> ElemKind {
        if a.spec_strength() >= b.spec_strength() {
            a
        } else {
            b
        }
    }

    pub fn promote(a: ElemKind, b: ElemKind) -> (r: ElemKind)
        ensures
            r == ElemKind::spec_promote(a, b),
            r == a || r == b,
            r.spec_strength() >= a.spec_strength(),
            r.spec_strength() >= b.spec_strength(),
    {
        if a.strength() >= b.strength() {
            a
        } else {
            b
        }
    }
}

/// The strength ranking is a total order: distinct kinds always have
/// distinct ranks, so promotion never faces a tie.
pub proof fn lemma_strength_total(a: ElemKind, b: ElemKind)
    ensures
        a == b <==> a.spec_strength() == b.spec_strength(),
        a.spec_strength() < b.spec_strength() || b.spec_strength() <= a.spec_strength(),
{
}

/// A binary elementwise operator.
#[derive(Clone, Copy, PartialEq, Eq, Structural, Debug)]
pub enum TwoValueOperation {
    Add,
    Subtract,
    Multiply,
    Divide,
}

impl TwoValueOperation {
    /// The operator's textual symbol in kernel source.
    pub open spec fn spec_symbol(self) -> Seq<char> {
        match self {
            TwoValueOperation::Add => "+"@,
            TwoValueOperation::Subtract => "-"@,
            TwoValueOperation::Multiply => "*"@,
            TwoValueOperation::Divide => "/"@,
        }
    }

    pub fn symbol(&self) -> (r: &'static str)
        ensures
            r@ == self.spec_symbol(),
    {
        match self {
            TwoValueOperation::Add => "+",
            TwoValueOperation::Subtract => "-",
            TwoValueOperation::Multiply => "*",
            TwoValueOperation::Divide => "/",
        }
    }
}

/// A unary elementwise operator.
#[derive(Clone, Copy, PartialEq, Eq, Structural, Debug)]
pub enum SingleValueOperation {
    SquareRoot,
}

/// Either arity of elementwise operator, as one tag.
#[derive(Clone, Copy, PartialEq, Eq, Structural, Debug)]
pub enum KnownOperation {
    Single(SingleValueOperation),
    Dual(TwoValueOperation),
}

} // verus!
