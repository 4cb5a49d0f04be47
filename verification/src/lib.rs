//! Elementwise tensor arithmetic compiled to accelerator kernels.
//!
//! A caller builds an expression graph over numeric tensors, compiles it
//! into kernel source plus a binding table, and executes it on a compute
//! backend while a per-input version cache avoids redundant uploads.

use vstd::prelude::*;

pub mod codegen;
pub mod graph;
pub mod instruction;
pub mod kind;
pub mod laws;
pub mod numtext;
pub mod processor;
pub mod shader;
pub mod store;
pub mod tensor;
pub mod words;

use graph::Operation;
use kind::TwoValueOperation;
use store::TensorStore;
use tensor::{Tensor, TensorError};

verus! {

/// Reserved entry point: computes nothing yet. The compute pipeline is
/// driven through `Processor` instead.
pub fn run() -> (r: Vec<u32>)
    ensures
        r@.len() == 0,
{
    Vec::new()
}

/// The kernel source the demonstration expression renders to: two
/// three-element integer inputs in slots 0 and 1, their sum written to
/// the output buffer reserved at slot 2.
pub open spec fn demo_source() -> Seq<char> {
    codegen::header_text() + codegen::input_decl_text(
        0u32,
        codegen::glsl_type(kind::ElemKind::Int, false),
    ) + codegen::input_decl_text(1u32, codegen::glsl_type(kind::ElemKind::Int, false))
        + codegen::output_decl_text(2u32, kind::ElemKind::Int) + codegen::main_text(
        "("@ + codegen::input_name(0u32) + "[index]"@ + " "@ + "+"@ + " "@ + codegen::input_name(
            1u32,
        ) + "[index]"@ + ")"@,
    )
}

/// Compose the demonstration expression — two small integer tensors
/// added elementwise — and render its kernel source. The operands have
/// equal shapes, so neither composition nor rendering can fail, and the
/// text is exactly [`demo_source`].
pub fn build_shader() -> (r: Result<String, TensorError>)
    ensures
        r is Ok,
        r->Ok_0@ == demo_source(),
{
    let mut store = TensorStore::new();
    let a = store.insert(Tensor::new_i32(vec![1i32, 1, 1]));
    let b = store.insert(Tensor::new_i32(vec![1i32, 1, 1]));
    proof {
        assert(store@[a as int].shape == store@[b as int].shape);
    }
    let op = match Operation::of_tensors(&store, a, b, TwoValueOperation::Add) {
        Ok(g) => g,
        Err(_) => {
            proof {
                assert(false);
            }
            unreached()
        },
    };
    let (src, _result_binding) = codegen::render(&op, &store);
    proof {
        let ghost sh3: Seq<usize> = seq![3usize];
        assert(sh3.len() == 1);
        assert(sh3.last() == 3);
        assert(sh3.drop_last() =~= Seq::<usize>::empty());
        assert(sh3.drop_last() == Seq::<usize>::empty());
        assert(tensor::shape_product(Seq::<usize>::empty()) == 1);
        assert(tensor::shape_product(sh3) == tensor::shape_product(sh3.drop_last()) * (
        sh3.last() as nat));
        assert(tensor::shape_product(sh3) == 3);
        assert(store@[a as int].shape =~= sh3);
        assert(store@[b as int].shape =~= sh3);
        lemma_demo_source(op, store@, a, b);
    }
    Ok(src)
}

/// The generic source specification, applied to the demonstration
/// graph, is the concrete demonstration text.
proof fn lemma_demo_source(g: Operation, s: Seq<tensor::TensorView>, a: usize, b: usize)
    requires
        a < s.len(),
        b < s.len(),
        a != b,
        g is DualOp,
        g.spec_left() == (Operation::Var { binding: 0u32, tensor: a }),
        g.spec_right() == (Operation::Var { binding: 1u32, tensor: b }),
        g.spec_dual_op() == TwoValueOperation::Add,
        g.spec_desc(s).kind == kind::ElemKind::Int,
        s[a as int].kind == kind::ElemKind::Int,
        s[b as int].kind == kind::ElemKind::Int,
        tensor::shape_product(s[a as int].shape) == 3,
        tensor::shape_product(s[b as int].shape) == 3,
    ensures
        codegen::spec_source(g, s) == demo_source(),
{
    match g {
        Operation::DualOp { left, right, op, .. } => {
            assert(*left == (Operation::Var { binding: 0u32, tensor: a }));
            assert(*right == (Operation::Var { binding: 1u32, tensor: b }));
            assert((*left).spec_find_var(0u32) == Some(a));
            assert((*left).spec_find_var(1u32) is None);
            assert((*right).spec_find_var(1u32) == Some(b));
            assert(g.spec_find_var(0u32) == Some(a));
            assert(g.spec_find_var(1u32) == Some(b));
            assert((*left).spec_last_binding() == 0);
            assert((*right).spec_last_binding() == 1);
            assert(g.spec_last_binding() == 1);
            assert(codegen::decls_upto(g, s, 0) =~= Seq::<char>::empty());
            assert(codegen::decls_upto(g, s, 1) =~= codegen::input_decl_text(
                0u32,
                codegen::glsl_type(kind::ElemKind::Int, false),
            ));
            assert(codegen::decls_upto(g, s, 2) =~= codegen::decls_upto(g, s, 1)
                + codegen::input_decl_text(1u32, codegen::glsl_type(kind::ElemKind::Int, false)));
            assert(codegen::spec_equation(*left, s) == codegen::input_name(0u32) + "[index]"@);
            assert(codegen::spec_equation(*right, s) == codegen::input_name(1u32) + "[index]"@);
            assert(codegen::spec_equation(g, s) == "("@ + codegen::spec_equation(*left, s) + " "@
                + "+"@ + " "@ + codegen::spec_equation(*right, s) + ")"@);
            assert(codegen::spec_source(g, s) =~= demo_source());
        },
        _ => {},
    }
}

} // verus!
