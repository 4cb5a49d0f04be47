//! The textual building blocks of kernel expressions, one small struct
//! per operator.

use vstd::prelude::*;
use vstd::string::StringExecFns;

verus! {

/// Addition.
pub struct AddInstruction {}

/// Subtraction.
pub struct SubtInstruction {}

/// Multiplication.
pub struct MultInstruction {}

/// Division.
pub struct DivInstruction {}

/// Square root.
pub struct SqrtInstruction {}

/// `left` and `right` joined by an infix operator symbol.
pub open spec fn spec_infix(left: Seq<char>, sym: Seq<char>, right: Seq<char>) -> Seq<char> {
    left + " "@ + sym + " "@ + right
}

impl AddInstruction {
    pub fn build_gpu(left: String, right: String) -> (r: String)
        ensures
            r@ == spec_infix(left@, "+"@, right@),
    {
        let mut res = left;
        res.append(" ");
        res.append("+");
        res.append(" ");
        res.append(right.as_str());
        res
    }
}

impl SubtInstruction {
    pub fn build_gpu(left: String, right: String) -> (r: String)
        ensures
            r@ == spec_infix(left@, "-"@, right@),
    {
        let mut res = left;
        res.append(" ");
        res.append("-");
        res.append(" ");
        res.append(right.as_str());
        res
    }
}

impl MultInstruction {
    pub fn build_gpu(left: String, right: String) -> (r: String)
        ensures
            r@ == spec_infix(left@, "*"@, right@),
    {
        let mut res = left;
        res.append(" ");
        res.append("*");
        res.append(" ");
        res.append(right.as_str());
        res
    }
}

impl DivInstruction {
    pub fn build_gpu(left: String, right: String) -> (r: String)
        ensures
            r@ == spec_infix(left@, "/"@, right@),
    {
        let mut res = left;
        res.append(" ");
        res.append("/");
        res.append(" ");
        res.append(right.as_str());
        res
    }
}

impl SqrtInstruction {
    pub fn build_gpu(value: String) -> (r: String)
        ensures
            r@ == "sqrt("@ + value@ + ")"@,
    {
        let mut res = String::from_str("sqrt(");
        res.append(value.as_str());
        res.append(")");
        res
    }
}

} // verus!
