//! An owning side table of tensors, addressed by integer handles.
//!
//! The expression graph refers to tensors through these handles instead
//! of borrowed references, so a graph and the tensors it reads can live
//! and mutate independently; handle equality is the reference identity
//! that binding deduplication goes by.

use vstd::prelude::*;

use crate::tensor::{Tensor, TensorError, TensorView};

verus! {

/// The owner of every tensor a graph may reference. A handle is the
/// index at which the tensor was inserted; handles are never reused.
pub struct TensorStore {
    tensors: Vec<Tensor>,
}

impl View for TensorStore {
    type V = Seq<TensorView>;

    closed spec fn view(&self) -> Seq<TensorView> {
        self.tensors@.map(|i: int, t: Tensor| t@)
    }
}

impl TensorStore {
    /// Every held tensor is well-formed.
    pub open spec fn wf(self) -> bool {
        forall|i: int| 0 <= i < self@.len() ==> self@[i].wf()
    }

    pub fn new() -> (s: TensorStore)
        ensures
            s@ =~= Seq::<TensorView>::empty(),
            s.wf(),
    {
        TensorStore { tensors: Vec::new() }
    }

    pub fn len(&self) -> (r: usize)
        ensures
            r == self@.len(),
    {
        self.tensors.len()
    }

    /// Hand a tensor over to the store; the returned handle addresses it
    /// from now on.
    pub fn insert(&mut self, t: Tensor) -> (id: usize)
        requires
            t@.wf(),
        ensures
            final(self)@ =~= old(self)@.push(t@),
            id == old(self)@.len(),
            old(self).wf() ==> final(self).wf(),
    {
        let id = self.tensors.len();
        self.tensors.push(t);
        proof {
            assert(self@ =~= old(self)@.push(t@));
        }
        id
    }

    /// Read a held tensor.
    pub fn get(&self, id: usize) -> (r: &Tensor)
        requires
            id < self@.len(),
        ensures
            r@ == self@[id as int],
    {
        &self.tensors[id]
    }

    /// The version counter of a held tensor.
    pub fn version_of(&self, id: usize) -> (r: u64)
        requires
            id < self@.len(),
        ensures
            r == self@[id as int].version,
    {
        self.tensors[id].get_change()
    }

    /// Replace a held tensor's element buffer through its handle; the
    /// same contract as [`Tensor::change_value`].
    pub fn change_value(&mut self, id: usize, val: Vec<u8>) -> (r: Result<(), TensorError>)
        requires
            id < old(self)@.len(),
            old(self)@[id as int].version < u64::MAX,
        ensures
            r is Ok <==> val@.len() == old(self)@[id as int].data.len(),
            r is Ok ==> final(self)@ =~= old(self)@.update(
                id as int,
                TensorView {
                    data: val@,
                    version: (old(self)@[id as int].version + 1) as u64,
                    ..old(self)@[id as int]
                },
            ),
            r is Err ==> final(self)@ =~= old(self)@ && r->Err_0 is ShapeError,
    {
        let t = &mut self.tensors[id];
        let r = t.change_value(val);
        proof {
            if r is Ok {
                assert(self@ =~= old(self)@.update(
                    id as int,
                    TensorView {
                        data: val@,
                        version: (old(self)@[id as int].version + 1) as u64,
                        ..old(self)@[id as int]
                    },
                ));
            } else {
                assert(self@ =~= old(self)@);
            }
        }
        r
    }
}

} // verus!
