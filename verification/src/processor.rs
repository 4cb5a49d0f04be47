//! The backend-neutral processor façade.
//!
//! The processor records which backend the caller asked for, builds
//! compiled artifacts out of expression graphs, and turns the bytes a
//! backend reads back into the statically expected tensor, verifying
//! kind and shape instead of handing over a silently wrong-typed
//! result. The device work itself — compiling the rendered source,
//! allocating and writing buffers, dispatching, reading back — is the
//! backend's, driven by the host program around [`Shader::plan_execute`]
//! and [`Processor::execute`]; whether such a backend exists at all is
//! for that host program to report as a device error.

use vstd::prelude::*;

use crate::graph::Operation;
use crate::shader::{Shader, ShaderView};
use crate::store::TensorStore;
use crate::tensor::{shape_product, valid_shape, Tensor, TensorError};

verus! {

/// Which backend the caller will accept.
#[derive(Clone, Copy, PartialEq, Eq, Structural, Debug)]
pub enum ProcessorSelectionConstraint {
    /// A host CPU fallback.
    CPU,
    /// Any graphics accelerator.
    GPU,
    /// Whatever is available.
    Any,
    /// One particular accelerator.
    SelectGPUById(u32),
}

/// The façade over a selected backend.
pub struct Processor {
    constraint: ProcessorSelectionConstraint,
}

impl Processor {
    /// Record the caller's backend constraint.
    pub fn new(choose: ProcessorSelectionConstraint) -> (p: Processor)
        ensures
            p.constraint() == choose,
    {
        Processor { constraint: choose }
    }

    /// The constraint this processor was created with.
    pub closed spec fn constraint(self) -> ProcessorSelectionConstraint {
        self.constraint
    }

    /// The constraint this processor was created with, as a value.
    pub fn get_constraint(&self) -> (r: ProcessorSelectionConstraint)
        ensures
            r == self.constraint(),
    {
        self.constraint
    }

    /// Build a compiled artifact from a composed graph and the tensor
    /// that shall receive the results; the same contract as
    /// [`Shader::build`].
    pub fn build(&self, store: &TensorStore, op: Operation, result: Tensor) -> (r: Result<
        Shader,
        TensorError,
    >)
        requires
            store.wf(),
            op.tensors_ok(store@.len()),
            op.spec_last_binding() < u32::MAX,
            result@.wf(),
        ensures
            r is Ok <==> !(op is Var) && valid_shape(op.spec_desc(store@).shape)
                && op.spec_desc(store@).kind.spec_size_bytes() * shape_product(
                op.spec_desc(store@).shape,
            ) <= usize::MAX,
            r is Err && op is Var ==> r->Err_0 is Unimplemented,
            r is Err && !(op is Var) ==> r->Err_0 is ShapeError,
            r is Ok ==> ({
                let sh = r->Ok_0@;
                &&& sh.source == crate::codegen::spec_source(op, store@)
                &&& sh.bindings == crate::shader::table_upto(
                    op,
                    store@,
                    op.spec_last_binding() + 1,
                )
                &&& sh.result_binding == op.spec_last_binding() + 1
                &&& sh.desc == op.spec_desc(store@)
                &&& sh.result_tensor == result@
                &&& sh.wf()
                &&& sh.binds_ok(store@.len())
                &&& sh.synced(store@)
            }),
    {
        Shader::build(op, store, result)
    }

    /// Finish one execution from the bytes the backend read back; the
    /// same contract as [`Shader::apply_readback`]: the decoded kind and
    /// shape must match what the artifact's result tensor declares.
    pub fn execute(&self, artifact: &mut Shader, readback: Vec<u8>) -> (r: Result<
        Tensor,
        TensorError,
    >)
        requires
            old(artifact)@.wf(),
            old(artifact)@.result_tensor.version < u64::MAX,
        ensures
            r is Ok <==> readback@.len() == old(artifact)@.out_bytes && old(artifact)@.desc.kind
                == old(artifact)@.result_tensor.kind && old(artifact)@.desc.shape == old(
                artifact,
            )@.result_tensor.shape,
            r is Err ==> final(artifact)@ == old(artifact)@,
            r is Ok ==> final(artifact)@ == (ShaderView {
                result_tensor: crate::tensor::TensorView {
                    data: readback@,
                    version: (old(artifact)@.result_tensor.version + 1) as u64,
                    ..old(artifact)@.result_tensor
                },
                ..old(artifact)@
            }),
            r is Ok ==> ({
                let t = r->Ok_0@;
                &&& t.kind == old(artifact)@.desc.kind
                &&& t.shape == old(artifact)@.desc.shape
                &&& t.data == readback@
                &&& t.version == 0
            }),
    {
        artifact.apply_readback(readback)
    }
}

} // verus!
