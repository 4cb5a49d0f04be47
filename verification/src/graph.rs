//! The immutable expression graph, its eager shape/type inference, and
//! the binding allocator.
//!
//! A graph is a tree of `Var` leaves (tensor references), unary
//! `SingleOp` nodes and binary `DualOp` nodes; every composite node
//! carries the descriptor of its own output, computed when the node is
//! built so that a malformed graph fails before any device resource is
//! touched. Each distinct tensor referenced by a graph gets one integer
//! binding slot: a repeated reference reuses the existing slot, and when
//! two independently built graphs merge, one side's slots are shifted to
//! start just past the other's, preserving their relative order.

use vstd::prelude::*;

use crate::kind::{ElemKind, SingleValueOperation, TwoValueOperation};
use crate::store::TensorStore;
use crate::tensor::{TensorError, TensorView};

verus! {

/// The shape and element kind of a node's output.
pub struct ResultDesc {
    pub kind: ElemKind,
    pub shape: Vec<usize>,
}

/// The mathematical value of a [`ResultDesc`].
pub ghost struct DescView {
    pub kind: ElemKind,
    pub shape: Seq<usize>,
}

impl View for ResultDesc {
    type V = DescView;

    open spec fn view(&self) -> DescView {
        DescView { kind: self.kind, shape: self.shape@ }
    }
}

impl ResultDesc {
    pub fn copy(&self) -> (r: ResultDesc)
        ensures
            r@ == self@,
    {
        ResultDesc { kind: self.kind, shape: clone_shape(&self.shape) }
    }
}

/// An exact copy of a shape vector.
pub fn clone_shape(v: &Vec<usize>) -> (r: Vec<usize>)
    ensures
        r@ == v@,
{
    let mut out: Vec<usize> = Vec::new();
    let mut i: usize = 0;
    while i < v.len()
        invariant
            i <= v@.len(),
            out@ == v@.take(i as int),
        decreases v@.len() - i,
    {
        out.push(v[i]);
        proof {
            assert(out@ =~= v@.take(i + 1));
        }
        i = i + 1;
    }
    proof {
        assert(v@.take(v@.len() as int) =~= v@);
    }
    out
}

/// Whether two shape vectors are equal, dimension by dimension.
pub fn shapes_equal(a: &Vec<usize>, b: &Vec<usize>) -> (r: bool)
    ensures
        r == (a@ == b@),
{
    if a.len() != b.len() {
        assert(a@ != b@);
        return false;
    }
    let mut i: usize = 0;
    while i < a.len()
        invariant
            i <= a@.len(),
            a@.len() == b@.len(),
            forall|j: int| 0 <= j < i ==> a@[j] == b@[j],
        decreases a@.len() - i,
    {
        if a[i] != b[i] {
            assert(a@ != b@);
            return false;
        }
        i = i + 1;
    }
    proof {
        assert(a@ =~= b@);
    }
    true
}

/// The single-element shape that broadcasts against anything.
pub open spec fn is_scalar_shape(s: Seq<usize>) -> bool {
    s.len() == 1 && s[0] == 1
}

/// The scalar-broadcast rule: a `[1]` operand takes the other side's
/// shape; otherwise the shapes must be equal, rank and dimensions alike.
pub open spec fn spec_broadcast(s1: Seq<usize>, s2: Seq<usize>) -> Option<Seq<usize>> {
    if is_scalar_shape(s1) {
        Some(s2)
    } else if is_scalar_shape(s2) {
        Some(s1)
    } else if s1 == s2 {
        Some(s1)
    } else {
        None
    }
}

/// Combine two operand shapes under the scalar-broadcast rule, or
/// report why they are incompatible.
pub fn infer_shape(s1: &Vec<usize>, s2: &Vec<usize>) -> (r: Result<Vec<usize>, TensorError>)
    ensures
        r is Ok <==> spec_broadcast(s1@, s2@) is Some,
        r is Ok ==> r->Ok_0@ == spec_broadcast(s1@, s2@)->Some_0,
        r is Err ==> r->Err_0 is ShapeError,
{
    if s1.len() == 1 && s1[0] == 1 {
        return Ok(clone_shape(s2));
    }
    if s2.len() == 1 && s2[0] == 1 {
        return Ok(clone_shape(s1));
    }
    if shapes_equal(s1, s2) {
        return Ok(clone_shape(s1));
    }
    Err(TensorError::ShapeError(String::from_str(
        "operand shapes neither match nor broadcast",
    )))
}

/// Combine two operand descriptors: the shape follows the broadcast
/// rule and the element kind is the stronger operand's. The operator
/// itself never changes the descriptor.
pub fn infer(d1: &ResultDesc, d2: &ResultDesc, op: TwoValueOperation) -> (r: Result<
    ResultDesc,
    TensorError,
>)
    ensures
        r is Ok <==> spec_broadcast(d1@.shape, d2@.shape) is Some,
        r is Ok ==> r->Ok_0@ == (DescView {
            kind: ElemKind::spec_promote(d1@.kind, d2@.kind),
            shape: spec_broadcast(d1@.shape, d2@.shape)->Some_0,
        }),
        r is Err ==> r->Err_0 is ShapeError,
{
    let shape = match infer_shape(&d1.shape, &d2.shape) {
        Ok(s) => s,
        Err(e) => {
            return Err(e);
        },
    };
    Ok(ResultDesc { kind: ElemKind::promote(d1.kind, d2.kind), shape })
}

/// An expression-graph node. `Var` references one tensor of the store
/// through its handle and carries its binding slot; composite nodes
/// carry the descriptor of their own output.
#[allow(inconsistent_fields)]
pub enum Operation {
    Var { binding: u32, tensor: usize },
    SingleOp { value: Box<Operation>, op: SingleValueOperation, desc: ResultDesc },
    DualOp { left: Box<Operation>, right: Box<Operation>, op: TwoValueOperation, desc: ResultDesc },
}

impl Operation {
    /// Every referenced tensor handle is below the store's length.
    pub open spec fn tensors_ok(self, n: nat) -> bool
        decreases self,
    {
        match self {
            Operation::Var { binding, tensor } => (tensor as nat) < n,
            Operation::SingleOp { value, .. } => (*value).tensors_ok(n),
            Operation::DualOp { left, right, .. } => (*left).tensors_ok(n) && (*right).tensors_ok(
                n,
            ),
        }
    }

    /// The greatest binding slot used by any leaf.
    pub open spec fn spec_last_binding(self) -> nat
        decreases self,
    {
        match self {
            Operation::Var { binding, .. } => binding as nat,
            Operation::SingleOp { value, .. } => (*value).spec_last_binding(),
            Operation::DualOp { left, right, .. } => {
                let l = (*left).spec_last_binding();
                let r = (*right).spec_last_binding();
                if l >= r {
                    l
                } else {
                    r
                }
            },
        }
    }

    /// The binding slot of the first leaf (in traversal order) that
    /// references tensor `t`, if any.
    pub open spec fn spec_find_tensor(self, t: usize) -> Option<u32>
        decreases self,
    {
        match self {
            Operation::Var { binding, tensor } => if tensor == t {
                Some(binding)
            } else {
                None
            },
            Operation::SingleOp { value, .. } => (*value).spec_find_tensor(t),
            Operation::DualOp { left, right, .. } => if (*left).spec_find_tensor(t) is Some {
                (*left).spec_find_tensor(t)
            } else {
                (*right).spec_find_tensor(t)
            },
        }
    }

    /// The tensor handle of the first leaf (in traversal order) whose
    /// binding slot is `id`, if any.
    pub open spec fn spec_find_var(self, id: u32) -> Option<usize>
        decreases self,
    {
        match self {
            Operation::Var { binding, tensor } => if binding == id {
                Some(tensor)
            } else {
                None
            },
            Operation::SingleOp { value, .. } => (*value).spec_find_var(id),
            Operation::DualOp { left, right, .. } => if (*left).spec_find_var(id) is Some {
                (*left).spec_find_var(id)
            } else {
                (*right).spec_find_var(id)
            },
        }
    }

    /// `b` with every binding slot raised by `off` is exactly `a`.
    pub open spec fn shift_rel(a: Operation, b: Operation, off: u32) -> bool
        decreases b,
    {
        match (a, b) {
            (
                Operation::Var { binding: ab, tensor: at },
                Operation::Var { binding: bb, tensor: bt },
            ) => at == bt && ab == bb + off,
            (
                Operation::SingleOp { value: av, op: ao, desc: ad },
                Operation::SingleOp { value: bv, op: bo, desc: bd },
            ) => ao == bo && ad == bd && Operation::shift_rel(*av, *bv, off),
            (
                Operation::DualOp { left: al, right: ar, op: ao, desc: ad },
                Operation::DualOp { left: bl, right: br, op: bo, desc: bd },
            ) => ao == bo && ad == bd && Operation::shift_rel(*al, *bl, off)
                && Operation::shift_rel(*ar, *br, off),
            _ => false,
        }
    }

    /// The descriptor of this node's output: a leaf reads the referenced
    /// tensor's kind and shape, a composite node carries its own.
    pub open spec fn spec_desc(self, s: Seq<TensorView>) -> DescView {
        match self {
            Operation::Var { tensor, .. } => DescView {
                kind: s[tensor as int].kind,
                shape: s[tensor as int].shape,
            },
            Operation::SingleOp { desc, .. } => desc@,
            Operation::DualOp { desc, .. } => desc@,
        }
    }

    /// Left operand of a binary node.
    pub open spec fn spec_left(self) -> Operation {
        match self {
            Operation::DualOp { left, .. } => *left,
            _ => self,
        }
    }

    /// Right operand of a binary node.
    pub open spec fn spec_right(self) -> Operation {
        match self {
            Operation::DualOp { right, .. } => *right,
            _ => self,
        }
    }

    /// Operator tag of a binary node.
    pub open spec fn spec_dual_op(self) -> TwoValueOperation {
        match self {
            Operation::DualOp { op, .. } => op,
            _ => TwoValueOperation::Add,
        }
    }

    /// The greatest binding slot used by any leaf.
    pub fn get_last_binding(&self) -> (r: u32)
        ensures
            r as nat == self.spec_last_binding(),
        decreases *self,
    {
        match self {
            Operation::Var { binding, .. } => *binding,
            Operation::SingleOp { value, .. } => value.get_last_binding(),
            Operation::DualOp { left, right, .. } => {
                let l = left.get_last_binding();
                let r = right.get_last_binding();
                if l >= r {
                    l
                } else {
                    r
                }
            },
        }
    }

    /// The binding slot already assigned to tensor `t` in this graph,
    /// if the graph references it.
    pub fn contains_tensor(&self, t: usize) -> (r: Option<u32>)
        ensures
            r == self.spec_find_tensor(t),
        decreases *self,
    {
        match self {
            Operation::Var { binding, tensor } => if *tensor == t {
                Some(*binding)
            } else {
                None
            },
            Operation::SingleOp { value, .. } => value.contains_tensor(t),
            Operation::DualOp { left, right, .. } => match left.contains_tensor(t) {
                Some(b) => Some(b),
                None => right.contains_tensor(t),
            },
        }
    }

    /// The tensor handle bound to slot `id`, if any leaf uses that slot.
    pub fn find_var(&self, id: u32) -> (r: Option<usize>)
        ensures
            r == self.spec_find_var(id),
        decreases *self,
    {
        match self {
            Operation::Var { binding, tensor } => if *binding == id {
                Some(*tensor)
            } else {
                None
            },
            Operation::SingleOp { value, .. } => value.find_var(id),
            Operation::DualOp { left, right, .. } => match left.find_var(id) {
                Some(t) => Some(t),
                None => right.find_var(id),
            },
        }
    }

    /// Raise every binding slot by `off`, preserving the slots' relative
    /// order and any sharing between leaves.
    pub fn shift_bindings(&mut self, off: u32)
        requires
            old(self).spec_last_binding() + off <= u32::MAX,
        ensures
            Operation::shift_rel(*final(self), *old(self), off),
        decreases *old(self),
    {
        match self {
            Operation::Var { binding, tensor } => {
                *binding = *binding + off;
            },
            Operation::SingleOp { value, .. } => {
                value.shift_bindings(off);
            },
            Operation::DualOp { left, right, .. } => {
                left.shift_bindings(off);
                right.shift_bindings(off);
            },
        }
    }

    /// The descriptor of this node's output, as a value.
    pub fn desc_of(&self, store: &TensorStore) -> (r: ResultDesc)
        requires
            self.tensors_ok(store@.len()),
        ensures
            r@ == self.spec_desc(store@),
        decreases *self,
    {
        match self {
            Operation::Var { tensor, .. } => {
                let t = store.get(*tensor);
                ResultDesc { kind: t.get_kind(), shape: clone_shape(t.get_shape()) }
            },
            Operation::SingleOp { desc, .. } => desc.copy(),
            Operation::DualOp { desc, .. } => desc.copy(),
        }
    }

    /// A binary node over two fresh tensor references: the left one gets
    /// slot 0, the right one reuses slot 0 when it is the same tensor and
    /// gets slot 1 otherwise. Fails with a `ShapeError` when the operand
    /// shapes neither match nor broadcast.
    pub fn of_tensors(store: &TensorStore, a: usize, b: usize, op: TwoValueOperation) -> (r: Result<
        Operation,
        TensorError,
    >)
        requires
            a < store@.len(),
            b < store@.len(),
        ensures
            r is Ok <==> spec_broadcast(store@[a as int].shape, store@[b as int].shape) is Some,
            r is Err ==> r->Err_0 is ShapeError,
            r is Ok ==> ({
                let g = r->Ok_0;
                &&& g is DualOp
                &&& g.spec_left() == (Operation::Var { binding: 0u32, tensor: a })
                &&& g.spec_right() == (Operation::Var {
                    binding: if a == b {
                        0u32
                    } else {
                        1u32
                    },
                    tensor: b,
                })
                &&& g.spec_dual_op() == op
                &&& g.spec_desc(store@) == (DescView {
                    kind: ElemKind::spec_promote(store@[a as int].kind, store@[b as int].kind),
                    shape: spec_broadcast(store@[a as int].shape, store@[b as int].shape)->Some_0,
                })
                &&& g.tensors_ok(store@.len())
                &&& g.spec_last_binding() <= 1
            }),
    {
        let ta = store.get(a);
        let tb = store.get(b);
        let shape = match infer_shape(ta.get_shape(), tb.get_shape()) {
            Ok(s) => s,
            Err(e) => {
                return Err(e);
            },
        };
        let kind = ElemKind::promote(ta.get_kind(), tb.get_kind());
        let rb: u32 = if a == b {
            0
        } else {
            1
        };
        let lvar = Operation::Var { binding: 0, tensor: a };
        let rvar = Operation::Var { binding: rb, tensor: b };
        let g = Operation::DualOp {
            left: Box::new(lvar),
            right: Box::new(rvar),
            op,
            desc: ResultDesc { kind, shape },
        };
        proof {
            assert(g.spec_left() == lvar);
            assert(g.spec_right() == rvar);
            assert(g.spec_dual_op() == op);
            assert(g.spec_desc(store@).kind == ElemKind::spec_promote(
                store@[a as int].kind,
                store@[b as int].kind,
            ));
            assert(g.spec_desc(store@).shape == spec_broadcast(
                store@[a as int].shape,
                store@[b as int].shape,
            )->Some_0);
            assert(lvar.spec_last_binding() == 0);
            assert(rvar.spec_last_binding() == rb);
            assert(lvar.tensors_ok(store@.len()));
            assert(rvar.tensors_ok(store@.len()));
            assert(g.spec_last_binding() <= 1);
            assert(g.tensors_ok(store@.len()));
        }
        Ok(g)
    }

    /// `self OP t`: the graph becomes the left operand and the tensor the
    /// right one. A tensor the graph already references keeps its binding
    /// slot; a new one gets the next unused slot.
    pub fn then_tensor(self, store: &TensorStore, t: usize, op: TwoValueOperation) -> (r: Result<
        Operation,
        TensorError,
    >)
        requires
            t < store@.len(),
            self.tensors_ok(store@.len()),
            self.spec_last_binding() < u32::MAX,
        ensures
            r is Ok <==> spec_broadcast(self.spec_desc(store@).shape, store@[t as int].shape)
                is Some,
            r is Err ==> r->Err_0 is ShapeError,
            r is Ok ==> ({
                let g = r->Ok_0;
                &&& g is DualOp
                &&& g.spec_left() == self
                &&& g.spec_right() == (Operation::Var { binding: self.binding_for(t), tensor: t })
                &&& g.spec_dual_op() == op
                &&& g.spec_desc(store@) == (DescView {
                    kind: ElemKind::spec_promote(self.spec_desc(store@).kind, store@[t as int].kind),
                    shape: spec_broadcast(
                        self.spec_desc(store@).shape,
                        store@[t as int].shape,
                    )->Some_0,
                })
            }),
    {
        let d1 = self.desc_of(store);
        let tt = store.get(t);
        let shape = match infer_shape(&d1.shape, tt.get_shape()) {
            Ok(s) => s,
            Err(e) => {
                return Err(e);
            },
        };
        let kind = ElemKind::promote(d1.kind, tt.get_kind());
        let binding = match self.contains_tensor(t) {
            Some(b) => b,
            None => self.get_last_binding() + 1,
        };
        Ok(Operation::DualOp {
            left: Box::new(self),
            right: Box::new(Operation::Var { binding, tensor: t }),
            op,
            desc: ResultDesc { kind, shape },
        })
    }

    /// `t OP self`: the tensor becomes the left operand and the graph the
    /// right one, under the same slot-reuse rule as [`Self::then_tensor`].
    pub fn tensor_then(store: &TensorStore, t: usize, graph: Operation, op: TwoValueOperation) -> (r:
        Result<Operation, TensorError>)
        requires
            t < store@.len(),
            graph.tensors_ok(store@.len()),
            graph.spec_last_binding() < u32::MAX,
        ensures
            r is Ok <==> spec_broadcast(store@[t as int].shape, graph.spec_desc(store@).shape)
                is Some,
            r is Err ==> r->Err_0 is ShapeError,
            r is Ok ==> ({
                let g = r->Ok_0;
                &&& g is DualOp
                &&& g.spec_left() == (Operation::Var { binding: graph.binding_for(t), tensor: t })
                &&& g.spec_right() == graph
                &&& g.spec_dual_op() == op
                &&& g.spec_desc(store@) == (DescView {
                    kind: ElemKind::spec_promote(
                        store@[t as int].kind,
                        graph.spec_desc(store@).kind,
                    ),
                    shape: spec_broadcast(
                        store@[t as int].shape,
                        graph.spec_desc(store@).shape,
                    )->Some_0,
                })
            }),
    {
        let d2 = graph.desc_of(store);
        let tt = store.get(t);
        let shape = match infer_shape(tt.get_shape(), &d2.shape) {
            Ok(s) => s,
            Err(e) => {
                return Err(e);
            },
        };
        let kind = ElemKind::promote(tt.get_kind(), d2.kind);
        let binding = match graph.contains_tensor(t) {
            Some(b) => b,
            None => graph.get_last_binding() + 1,
        };
        Ok(Operation::DualOp {
            left: Box::new(Operation::Var { binding, tensor: t }),
            right: Box::new(graph),
            op,
            desc: ResultDesc { kind, shape },
        })
    }

    /// The slot a tensor would be bound to when joined onto this graph:
    /// its existing slot if the graph references it, the next unused slot
    /// otherwise.
    pub open spec fn binding_for(self, t: usize) -> u32 {
        if self.spec_find_tensor(t) is Some {
            self.spec_find_tensor(t)->Some_0
        } else {
            (self.spec_last_binding() + 1) as u32
        }
    }

    /// `self OP other` for two independently built graphs: the right
    /// side's binding slots are shifted to start just past the left
    /// side's greatest slot, preserving their relative order.
    pub fn combine(self, store: &TensorStore, other: Operation, op: TwoValueOperation) -> (r: Result<
        Operation,
        TensorError,
    >)
        requires
            self.tensors_ok(store@.len()),
            other.tensors_ok(store@.len()),
            self.spec_last_binding() + 1 + other.spec_last_binding() <= u32::MAX,
        ensures
            r is Ok <==> spec_broadcast(
                self.spec_desc(store@).shape,
                other.spec_desc(store@).shape,
            ) is Some,
            r is Err ==> r->Err_0 is ShapeError,
            r is Ok ==> ({
                let g = r->Ok_0;
                &&& g is DualOp
                &&& g.spec_left() == self
                &&& Operation::shift_rel(
                    g.spec_right(),
                    other,
                    (self.spec_last_binding() + 1) as u32,
                )
                &&& g.spec_dual_op() == op
                &&& g.spec_desc(store@) == (DescView {
                    kind: ElemKind::spec_promote(
                        self.spec_desc(store@).kind,
                        other.spec_desc(store@).kind,
                    ),
                    shape: spec_broadcast(
                        self.spec_desc(store@).shape,
                        other.spec_desc(store@).shape,
                    )->Some_0,
                })
            }),
    {
        let d1 = self.desc_of(store);
        let d2 = other.desc_of(store);
        let shape = match infer_shape(&d1.shape, &d2.shape) {
            Ok(s) => s,
            Err(e) => {
                return Err(e);
            },
        };
        let kind = ElemKind::promote(d1.kind, d2.kind);
        let off = self.get_last_binding() + 1;
        let mut right = other;
        right.shift_bindings(off);
        proof {
            lemma_shift_rel_desc(right, other, off, store@, store@.len());
        }
        Ok(Operation::DualOp {
            left: Box::new(self),
            right: Box::new(right),
            op,
            desc: ResultDesc { kind, shape },
        })
    }
}

/// A shifted graph keeps its structure: the same tensors, the same
/// descriptors, every slot raised uniformly.
pub proof fn lemma_shift_rel_desc(a: Operation, b: Operation, off: u32, s: Seq<TensorView>, n: nat)
    requires
        Operation::shift_rel(a, b, off),
    ensures
        a.spec_desc(s) == b.spec_desc(s),
        a.spec_last_binding() == b.spec_last_binding() + off,
        b.tensors_ok(n) ==> a.tensors_ok(n),
    decreases b,
{
    match (a, b) {
        (Operation::Var { .. }, Operation::Var { .. }) => {},
        (Operation::SingleOp { value: av, .. }, Operation::SingleOp { value: bv, .. }) => {
            lemma_shift_rel_desc(*av, *bv, off, s, n);
        },
        (
            Operation::DualOp { left: al, right: ar, .. },
            Operation::DualOp { left: bl, right: br, .. },
        ) => {
            lemma_shift_rel_desc(*al, *bl, off, s, n);
            lemma_shift_rel_desc(*ar, *br, off, s, n);
        },
        _ => {},
    }
}

} // verus!
