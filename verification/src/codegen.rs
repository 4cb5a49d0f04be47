//! Kernel source rendering: an expression graph and its binding table
//! become compute-kernel source text, pinned down character by character.
//!
//! The emitted text is: a version header, a local-invocation-size
//! declaration, one read-only buffer block per binding in ascending slot
//! order, one read-write output block at the slot just past the greatest
//! input slot, and an entry point that writes `result[index]` from the
//! recursively rendered expression.

use vstd::prelude::*;
use vstd::string::StringExecFns;

use crate::graph::Operation;
use crate::kind::ElemKind;
use crate::numtext::{dec_u32, spec_dec};
use crate::store::TensorStore;
use crate::tensor::{shape_product, TensorView};

verus! {

/// The name of input buffer `id` inside the kernel.
pub open spec fn input_name(id: u32) -> Seq<char> {
    "inv"@ + spec_dec(id as nat)
}

/// The kernel-native type of a buffer: a bare scalar for a
/// single-element tensor, an array otherwise.
pub open spec fn glsl_type(kind: ElemKind, single: bool) -> Seq<char> {
    if single {
        kind.spec_glsl_name()
    } else {
        kind.spec_glsl_name() + "[]"@
    }
}

/// The expression a graph renders to: a leaf is its buffer name, plain
/// for a scalar and indexed otherwise; a binary node is a parenthesized
/// infix expression; a unary square root wraps its operand.
pub open spec fn spec_equation(g: Operation, s: Seq<TensorView>) -> Seq<char>
    decreases g,
{
    match g {
        Operation::Var { binding, tensor } => if shape_product(s[tensor as int].shape) == 1 {
            input_name(binding)
        } else {
            input_name(binding) + "[index]"@
        },
        Operation::SingleOp { value, .. } => "sqrt("@ + spec_equation(*value, s) + ")"@,
        Operation::DualOp { left, right, op, .. } => "("@ + spec_equation(*left, s) + " "@
            + op.spec_symbol() + " "@ + spec_equation(*right, s) + ")"@,
    }
}

/// One read-only input buffer block.
pub open spec fn input_decl_text(id: u32, ty: Seq<char>) -> Seq<char> {
    "readonly layout(set = 0, binding = "@ + spec_dec(id as nat) + ") buffer b"@ + spec_dec(
        id as nat,
    ) + " {\n"@ + ty + " inv"@ + spec_dec(id as nat) + ";\n"@ + "};\n\n"@
}

/// The block emitted for binding slot `id`: a declaration typed after
/// the bound tensor, or nothing when no leaf uses the slot.
pub open spec fn decl_at(g: Operation, s: Seq<TensorView>, id: u32) -> Seq<char> {
    match g.spec_find_var(id) {
        Some(t) => input_decl_text(
            id,
            glsl_type(s[t as int].kind, shape_product(s[t as int].shape) == 1),
        ),
        None => Seq::empty(),
    }
}

/// The input blocks for every slot below `n`, in ascending slot order.
pub open spec fn decls_upto(g: Operation, s: Seq<TensorView>, n: nat) -> Seq<char>
    decreases n,
{
    if n == 0 {
        Seq::empty()
    } else {
        decls_upto(g, s, (n - 1) as nat) + decl_at(g, s, (n - 1) as u32)
    }
}

/// The read-write output buffer block, element-typed after the graph's
/// root descriptor.
pub open spec fn output_decl_text(id: u32, kind: ElemKind) -> Seq<char> {
    "layout(set = 0, binding = "@ + spec_dec(id as nat) + ") buffer b"@ + spec_dec(id as nat)
        + " {\n"@ + kind.spec_glsl_name() + "[] result;\n"@ + "};\n\n"@
}

/// The version header and local-invocation-size declaration.
pub open spec fn header_text() -> Seq<char> {
    "#version 450\n"@ + "layout(local_size_x = 1) in;\n"@ + "\n"@
}

/// The entry point: one linear index per invocation, one assignment.
pub open spec fn main_text(eq: Seq<char>) -> Seq<char> {
    "void main() {\n"@ + "uint index = gl_GlobalInvocationID.x;\n"@ + "result[index] = "@ + eq
        + ";\n"@ + "}\n"@
}

/// The whole kernel source of a graph.
pub open spec fn spec_source(g: Operation, s: Seq<TensorView>) -> Seq<char> {
    header_text() + decls_upto(g, s, g.spec_last_binding() + 1) + output_decl_text(
        (g.spec_last_binding() + 1) as u32,
        g.spec_desc(s).kind,
    ) + main_text(spec_equation(g, s))
}

/// A slot that is in use is bound to a tensor the store holds.
pub proof fn lemma_find_var_in_range(g: Operation, id: u32, n: nat)
    requires
        g.tensors_ok(n),
        g.spec_find_var(id) is Some,
    ensures
        (g.spec_find_var(id)->Some_0 as nat) < n,
    decreases g,
{
    match g {
        Operation::Var { .. } => {},
        Operation::SingleOp { value, .. } => {
            lemma_find_var_in_range(*value, id, n);
        },
        Operation::DualOp { left, right, .. } => {
            if (*left).spec_find_var(id) is Some {
                lemma_find_var_in_range(*left, id, n);
            } else {
                lemma_find_var_in_range(*right, id, n);
            }
        },
    }
}

/// Render a graph's expression.
pub fn build_equation(g: &Operation, store: &TensorStore) -> (r: String)
    requires
        store.wf(),
        g.tensors_ok(store@.len()),
    ensures
        r@ == spec_equation(*g, store@),
    decreases *g,
{
    match g {
        Operation::Var { binding, tensor } => {
            let mut s = String::from_str("inv");
            let d = dec_u32(*binding);
            s.append(d.as_str());
            if !store.get(*tensor).is_single() {
                s.append("[index]");
            }
            proof {
                assert(s@ =~= spec_equation(*g, store@));
            }
            s
        },
        Operation::SingleOp { value, .. } => {
            let mut s = String::from_str("sqrt(");
            let inner = build_equation(value, store);
            s.append(inner.as_str());
            s.append(")");
            proof {
                assert(s@ =~= spec_equation(*g, store@));
            }
            s
        },
        Operation::DualOp { left, right, op, .. } => {
            let mut s = String::from_str("(");
            let l = build_equation(left, store);
            s.append(l.as_str());
            s.append(" ");
            s.append(op.symbol());
            s.append(" ");
            let r2 = build_equation(right, store);
            s.append(r2.as_str());
            s.append(")");
            proof {
                assert(s@ =~= spec_equation(*g, store@));
            }
            s
        },
    }
}

/// Render a graph's whole kernel source, and hand back the binding slot
/// reserved for the output buffer: the one just past the greatest input
/// slot.
pub fn render(g: &Operation, store: &TensorStore) -> (r: (String, u32))
    requires
        store.wf(),
        g.tensors_ok(store@.len()),
        g.spec_last_binding() < u32::MAX,
    ensures
        r.0@ == spec_source(*g, store@),
        r.1 == g.spec_last_binding() + 1,
{
    let mut s = String::from_str("#version 450\n");
    s.append("layout(local_size_x = 1) in;\n");
    s.append("\n");
    proof {
        assert(s@ =~= header_text() + decls_upto(*g, store@, 0));
    }
    let last = g.get_last_binding();
    let mut id: u32 = 0;
    while id <= last
        invariant
            id <= last + 1,
            last == g.spec_last_binding(),
            last < u32::MAX,
            store.wf(),
            g.tensors_ok(store@.len()),
            s@ == header_text() + decls_upto(*g, store@, id as nat),
        decreases last + 1 - id,
    {
        match g.find_var(id) {
            Some(t) => {
                proof {
                    lemma_find_var_in_range(*g, id, store@.len());
                }
                let tt = store.get(t);
                let tk = tt.get_kind();
                let single = tt.is_single();
                let d = dec_u32(id);
                s.append("readonly layout(set = 0, binding = ");
                s.append(d.as_str());
                s.append(") buffer b");
                s.append(d.as_str());
                s.append(" {\n");
                s.append(tk.glsl_name());
                if !single {
                    s.append("[]");
                }
                s.append(" inv");
                s.append(d.as_str());
                s.append(";\n");
                s.append("};\n\n");
            },
            None => {},
        }
        proof {
            assert(s@ =~= header_text() + decls_upto(*g, store@, (id + 1) as nat));
        }
        id = id + 1;
    }
    let rb = last + 1;
    let d = dec_u32(rb);
    let dk = g.desc_of(store);
    s.append("layout(set = 0, binding = ");
    s.append(d.as_str());
    s.append(") buffer b");
    s.append(d.as_str());
    s.append(" {\n");
    s.append(dk.kind.glsl_name());
    s.append("[] result;\n");
    s.append("};\n\n");
    s.append("void main() {\n");
    s.append("uint index = gl_GlobalInvocationID.x;\n");
    s.append("result[index] = ");
    let eq = build_equation(g, store);
    s.append(eq.as_str());
    s.append(";\n");
    s.append("}\n");
    proof {
        assert(s@ =~= spec_source(*g, store@));
    }
    (s, rb)
}

} // verus!
