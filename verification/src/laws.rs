//! The library's cross-cutting guarantees, stated and proved over the
//! same spec functions the component contracts use.

use vstd::prelude::*;

use crate::graph::Operation;
use crate::kind::{ElemKind, TwoValueOperation};
use crate::shader::{refreshed, stale_uploads, table_upto, Binding, UploadCmdView};
use crate::tensor::TensorView;
use crate::words::word_at;

verus! {

/// 32-bit wrap-around addition on word bit patterns: the kernel's
/// integer addition.
pub open spec fn wrap_add_u32(a: u32, b: u32) -> u32 {
    ((a + b) % 0x1_0000_0000) as u32
}

/// 32-bit wrap-around subtraction on word bit patterns: the kernel's
/// integer subtraction.
pub open spec fn wrap_sub_u32(a: u32, b: u32) -> u32 {
    ((a + 0x1_0000_0000 - b) % 0x1_0000_0000) as u32
}

/// 32-bit wrap-around multiplication on word bit patterns: the
/// kernel's integer multiplication.
pub open spec fn wrap_mul_u32(a: u32, b: u32) -> u32 {
    ((a * b) % 0x1_0000_0000) as u32
}

/// The kernel's 32-bit integer semantics of an operator on word bit
/// patterns. Division rounds towards the backend's rules and is not
/// modelled here.
pub open spec fn word_op(op: TwoValueOperation, a: u32, b: u32) -> u32
    recommends
        op != TwoValueOperation::Divide,
{
    match op {
        TwoValueOperation::Add => wrap_add_u32(a, b),
        TwoValueOperation::Subtract => wrap_sub_u32(a, b),
        TwoValueOperation::Multiply => wrap_mul_u32(a, b),
        TwoValueOperation::Divide => 0u32,
    }
}

/// A byte buffer holds, word by word, the elementwise combination of
/// two others under the operator's integer semantics.
pub open spec fn words_elementwise(
    r: Seq<u8>,
    a: Seq<u8>,
    b: Seq<u8>,
    op: TwoValueOperation,
    n: nat,
) -> bool {
    forall|i: int| 0 <= i < n ==> word_at(r, i) == word_op(op, word_at(a, i), word_at(b, i))
}

/// Any binding slot a graph hands out for a tensor is within the
/// graph's slot range.
pub proof fn lemma_find_tensor_le_last(g: Operation, t: usize)
    requires
        g.spec_find_tensor(t) is Some,
    ensures
        (g.spec_find_tensor(t)->Some_0 as nat) <= g.spec_last_binding(),
    decreases g,
{
    match g {
        Operation::Var { .. } => {},
        Operation::SingleOp { value, .. } => {
            lemma_find_tensor_le_last(*value, t);
        },
        Operation::DualOp { left, right, .. } => {
            if (*left).spec_find_tensor(t) is Some {
                lemma_find_tensor_le_last(*left, t);
            } else {
                lemma_find_tensor_le_last(*right, t);
            }
        },
    }
}

/// A slot handed out for a tensor is a slot some leaf already uses.
pub proof fn lemma_find_tensor_var(g: Operation, t: usize)
    requires
        g.spec_find_tensor(t) is Some,
    ensures
        g.spec_find_var(g.spec_find_tensor(t)->Some_0) is Some,
    decreases g,
{
    match g {
        Operation::Var { .. } => {},
        Operation::SingleOp { value, .. } => {
            lemma_find_tensor_var(*value, t);
        },
        Operation::DualOp { left, right, .. } => {
            if (*left).spec_find_tensor(t) is Some {
                lemma_find_tensor_var(*left, t);
            } else {
                lemma_find_tensor_var(*right, t);
            }
        },
    }
}

/// Binding deduplication: joining a tensor the graph already references
/// onto it (as `then_tensor` does) allocates no new binding slot — the
/// combined graph resolves every slot exactly as the old graph did, its
/// slot range does not grow, and so its binding table, and with it what
/// is uploaded, is the old one. The tensor is uploaded through one
/// slot, once.
pub proof fn lemma_binding_dedup(
    g: Operation,
    g2: Operation,
    t: usize,
    s: Seq<TensorView>,
    n: nat,
)
    requires
        g.spec_find_tensor(t) is Some,
        g2 is DualOp,
        g2.spec_left() == g,
        g2.spec_right() == (Operation::Var { binding: g.binding_for(t), tensor: t }),
    ensures
        forall|id: u32| #[trigger] g2.spec_find_var(id) == g.spec_find_var(id),
        table_upto(g2, s, n) == table_upto(g, s, n),
        g2.spec_last_binding() == g.spec_last_binding(),
    decreases n,
{
    let b = g.spec_find_tensor(t)->Some_0;
    lemma_find_tensor_var(g, t);
    lemma_find_tensor_le_last(g, t);
    assert forall|id: u32| #[trigger] g2.spec_find_var(id) == g.spec_find_var(id) by {
        match g2 {
            Operation::DualOp { left, right, .. } => {
                assert(*left == g);
                assert(*right == (Operation::Var { binding: b, tensor: t }));
                assert((Operation::Var { binding: b, tensor: t }).spec_find_var(id) == (if id == b {
                    Some(t)
                } else {
                    None
                }));
                if g.spec_find_var(id) is None && id == b {
                    assert(g.spec_find_var(b) is Some);
                }
            },
            _ => {},
        }
    }
    match g2 {
        Operation::DualOp { left, right, .. } => {
            assert(*left == g);
            assert((*right).spec_last_binding() == b as nat);
        },
        _ => {},
    }
    if n > 0 {
        lemma_binding_dedup(g, g2, t, s, (n - 1) as nat);
    }
    assert(table_upto(g2, s, n) =~= table_upto(g, s, n));
}

/// Some leaf of the graph binds slot `id` to tensor `t`.
pub open spec fn has_leaf(g: Operation, id: u32, t: usize) -> bool
    decreases g,
{
    match g {
        Operation::Var { binding, tensor } => binding == id && tensor == t,
        Operation::SingleOp { value, .. } => has_leaf(*value, id, t),
        Operation::DualOp { left, right, .. } => has_leaf(*left, id, t) || has_leaf(
            *right,
            id,
            t,
        ),
    }
}

/// Each binding slot stands for one tensor: leaves may share a slot
/// only when they reference the same tensor. Every graph the four
/// composition steps build has this shape.
pub open spec fn binds_functional(g: Operation) -> bool {
    forall|id: u32, t1: usize, t2: usize|
        #[trigger] has_leaf(g, id, t1) && #[trigger] has_leaf(g, id, t2) ==> t1 == t2
}

/// A slot the graph resolves is bound by some leaf.
pub proof fn lemma_find_var_has_leaf(g: Operation, id: u32)
    requires
        g.spec_find_var(id) is Some,
    ensures
        has_leaf(g, id, g.spec_find_var(id)->Some_0),
    decreases g,
{
    match g {
        Operation::Var { .. } => {},
        Operation::SingleOp { value, .. } => {
            lemma_find_var_has_leaf(*value, id);
        },
        Operation::DualOp { left, right, .. } => {
            if (*left).spec_find_var(id) is Some {
                lemma_find_var_has_leaf(*left, id);
            } else {
                lemma_find_var_has_leaf(*right, id);
            }
        },
    }
}

/// The slot a graph hands out for a tensor is bound to that tensor by
/// some leaf.
pub proof fn lemma_find_tensor_has_leaf(g: Operation, t: usize)
    requires
        g.spec_find_tensor(t) is Some,
    ensures
        has_leaf(g, g.spec_find_tensor(t)->Some_0, t),
    decreases g,
{
    match g {
        Operation::Var { .. } => {},
        Operation::SingleOp { value, .. } => {
            lemma_find_tensor_has_leaf(*value, t);
        },
        Operation::DualOp { left, right, .. } => {
            if (*left).spec_find_tensor(t) is Some {
                lemma_find_tensor_has_leaf(*left, t);
            } else {
                lemma_find_tensor_has_leaf(*right, t);
            }
        },
    }
}

/// No leaf binds a slot past the graph's greatest one.
pub proof fn lemma_has_leaf_le_last(g: Operation, id: u32, t: usize)
    requires
        has_leaf(g, id, t),
    ensures
        (id as nat) <= g.spec_last_binding(),
    decreases g,
{
    match g {
        Operation::Var { .. } => {},
        Operation::SingleOp { value, .. } => {
            lemma_has_leaf_le_last(*value, id, t);
        },
        Operation::DualOp { left, right, .. } => {
            if has_leaf(*left, id, t) {
                lemma_has_leaf_le_last(*left, id, t);
            } else {
                lemma_has_leaf_le_last(*right, id, t);
            }
        },
    }
}

/// The binding table is laid out in strictly ascending slot order, one
/// entry per slot: no buffer is declared, bound or uploaded twice.
pub proof fn lemma_table_ordered(g: Operation, s: Seq<TensorView>, n: nat)
    requires
        n <= u32::MAX + 1,
    ensures
        forall|i: int, j: int|
            #![trigger table_upto(g, s, n)[i], table_upto(g, s, n)[j]]
            0 <= i < j < table_upto(g, s, n).len() ==> table_upto(g, s, n)[i].id < table_upto(
                g,
                s,
                n,
            )[j].id,
        forall|i: int| #![trigger table_upto(g, s, n)[i]]
            0 <= i < table_upto(g, s, n).len() ==> (table_upto(g, s, n)[i].id as nat) < n,
    decreases n,
{
    if n > 0 {
        lemma_table_ordered(g, s, (n - 1) as nat);
        let prev = table_upto(g, s, (n - 1) as nat);
        let cur = table_upto(g, s, n);
        match g.spec_find_var((n - 1) as u32) {
            Some(t) => {
                assert(cur =~= prev + seq![
                    Binding { id: (n - 1) as u32, tensor: t, last_seen: s[t as int].version },
                ]);
            },
            None => {
                assert(cur =~= prev);
            },
        }
        assert forall|i: int| #![trigger cur[i]] 0 <= i < cur.len() implies (cur[i].id as nat)
            < n by {
            if i < prev.len() {
                assert(cur[i] == prev[i]);
            }
        }
        assert forall|i: int, j: int|
            #![trigger cur[i], cur[j]]
            0 <= i < j < cur.len() implies cur[i].id < cur[j].id by {
            assert(cur[i] == prev[i]);
            if j < prev.len() {
                assert(cur[j] == prev[j]);
            } else {
                assert((cur[j].id as nat) == n - 1);
                assert((prev[i].id as nat) < n - 1);
            }
        }
    }
}

/// A two-leaf graph, as `of_tensors` builds it, binds each slot to one
/// tensor: either the tensors differ and sit in slots 0 and 1, or they
/// are the same tensor sharing slot 0.
pub proof fn lemma_of_tensors_functional(g: Operation, a: usize, b: usize)
    requires
        g is DualOp,
        g.spec_left() == (Operation::Var { binding: 0u32, tensor: a }),
        g.spec_right() == (Operation::Var {
            binding: if a == b {
                0u32
            } else {
                1u32
            },
            tensor: b,
        }),
    ensures
        binds_functional(g),
{
    assert forall|id: u32, t1: usize, t2: usize|
        #[trigger] has_leaf(g, id, t1) && #[trigger] has_leaf(g, id, t2) implies t1 == t2 by {
        match g {
            Operation::DualOp { left, right, .. } => {
                let rb: u32 = if a == b {
                    0
                } else {
                    1
                };
                assert(*left == (Operation::Var { binding: 0u32, tensor: a }));
                assert(*right == (Operation::Var { binding: rb, tensor: b }));
                assert(has_leaf(*left, id, t1) == (id == 0 && t1 == a));
                assert(has_leaf(*right, id, t1) == (id == rb && t1 == b));
                assert(has_leaf(*left, id, t2) == (id == 0 && t2 == a));
                assert(has_leaf(*right, id, t2) == (id == rb && t2 == b));
            },
            _ => {},
        }
    }
}

/// Joining a tensor onto a graph under the slot-reuse rule (as
/// `then_tensor` and `tensor_then` do) keeps each slot bound to one
/// tensor.
pub proof fn lemma_join_tensor_functional(g: Operation, g2: Operation, t: usize)
    requires
        binds_functional(g),
        g.spec_last_binding() < u32::MAX,
        g2 is DualOp,
        g2.spec_left() == g || g2.spec_right() == g,
        g2.spec_left() == g ==> g2.spec_right() == (Operation::Var {
            binding: g.binding_for(t),
            tensor: t,
        }),
        g2.spec_right() == g ==> g2.spec_left() == (Operation::Var {
            binding: g.binding_for(t),
            tensor: t,
        }),
    ensures
        binds_functional(g2),
{
    let bnew = g.binding_for(t);
    assert forall|id: u32, t1: usize, t2: usize|
        #[trigger] has_leaf(g2, id, t1) && #[trigger] has_leaf(g2, id, t2) implies t1 == t2 by {
        match g2 {
            Operation::DualOp { left, right, .. } => {
                let var = Operation::Var { binding: bnew, tensor: t };
                assert((*left == g && *right == var) || (*left == var && *right == g));
                assert(has_leaf(var, id, t1) == (id == bnew && t1 == t));
                assert(has_leaf(var, id, t2) == (id == bnew && t2 == t));
                assert(has_leaf(g, id, t1) || (id == bnew && t1 == t));
                assert(has_leaf(g, id, t2) || (id == bnew && t2 == t));
                if has_leaf(g, id, t1) && has_leaf(g, id, t2) {
                } else if has_leaf(g, id, t1) && id == bnew && t2 == t {
                    lemma_join_leaf_agrees(g, t, id, t1);
                } else if has_leaf(g, id, t2) && id == bnew && t1 == t {
                    lemma_join_leaf_agrees(g, t, id, t2);
                }
            },
            _ => {},
        }
    }
}

/// A leaf of the old graph that sits in the slot the join hands out for
/// tensor `t` already references `t` itself.
proof fn lemma_join_leaf_agrees(g: Operation, t: usize, id: u32, t1: usize)
    requires
        binds_functional(g),
        g.spec_last_binding() < u32::MAX,
        has_leaf(g, id, t1),
        id == g.binding_for(t),
    ensures
        t1 == t,
{
    if g.spec_find_tensor(t) is Some {
        lemma_find_tensor_has_leaf(g, t);
        assert(has_leaf(g, id, t));
    } else {
        lemma_has_leaf_le_last(g, id, t1);
        assert((id as nat) == g.spec_last_binding() + 1);
    }
}

/// A shifted leaf sits `off` slots above the leaf it came from.
pub proof fn lemma_shift_has_leaf_fwd(a: Operation, b: Operation, off: u32, id: u32, t: usize)
    requires
        Operation::shift_rel(a, b, off),
        has_leaf(a, id, t),
    ensures
        id >= off,
        has_leaf(b, (id - off) as u32, t),
    decreases b,
{
    match (a, b) {
        (Operation::Var { .. }, Operation::Var { .. }) => {},
        (Operation::SingleOp { value: av, .. }, Operation::SingleOp { value: bv, .. }) => {
            lemma_shift_has_leaf_fwd(*av, *bv, off, id, t);
        },
        (
            Operation::DualOp { left: al, right: ar, .. },
            Operation::DualOp { left: bl, right: br, .. },
        ) => {
            if has_leaf(*al, id, t) {
                lemma_shift_has_leaf_fwd(*al, *bl, off, id, t);
            } else {
                lemma_shift_has_leaf_fwd(*ar, *br, off, id, t);
            }
        },
        _ => {},
    }
}

/// Merging two graphs, the right one's slots shifted past the left
/// one's (as `combine` does), keeps each slot bound to one tensor: the
/// two sides' slot ranges cannot meet.
pub proof fn lemma_combine_functional(
    g2: Operation,
    l: Operation,
    shifted: Operation,
    orig: Operation,
    off: u32,
)
    requires
        binds_functional(l),
        binds_functional(orig),
        Operation::shift_rel(shifted, orig, off),
        off as nat == l.spec_last_binding() + 1,
        g2 is DualOp,
        g2.spec_left() == l,
        g2.spec_right() == shifted,
    ensures
        binds_functional(g2),
{
    assert forall|id: u32, t1: usize, t2: usize|
        #[trigger] has_leaf(g2, id, t1) && #[trigger] has_leaf(g2, id, t2) implies t1 == t2 by {
        match g2 {
            Operation::DualOp { left, right, .. } => {
                assert(has_leaf(l, id, t1) || has_leaf(shifted, id, t1));
                assert(has_leaf(l, id, t2) || has_leaf(shifted, id, t2));
                if has_leaf(l, id, t1) && has_leaf(l, id, t2) {
                } else if has_leaf(shifted, id, t1) && has_leaf(shifted, id, t2) {
                    lemma_shift_has_leaf_fwd(shifted, orig, off, id, t1);
                    lemma_shift_has_leaf_fwd(shifted, orig, off, id, t2);
                } else if has_leaf(l, id, t1) && has_leaf(shifted, id, t2) {
                    lemma_has_leaf_le_last(l, id, t1);
                    lemma_shift_has_leaf_fwd(shifted, orig, off, id, t2);
                } else {
                    lemma_has_leaf_le_last(l, id, t2);
                    lemma_shift_has_leaf_fwd(shifted, orig, off, id, t1);
                }
            },
            _ => {},
        }
    }
}

/// Binding deduplication with the tensor on the left (as `tensor_then`
/// builds it): in a graph whose slots each stand for one tensor,
/// rejoining a tensor it already references allocates no new slot, and
/// the binding table is unchanged.
pub proof fn lemma_binding_dedup_left(
    g: Operation,
    g2: Operation,
    t: usize,
    s: Seq<TensorView>,
    n: nat,
)
    requires
        binds_functional(g),
        g.spec_find_tensor(t) is Some,
        g2 is DualOp,
        g2.spec_right() == g,
        g2.spec_left() == (Operation::Var { binding: g.binding_for(t), tensor: t }),
    ensures
        forall|id: u32| #[trigger] g2.spec_find_var(id) == g.spec_find_var(id),
        table_upto(g2, s, n) == table_upto(g, s, n),
        g2.spec_last_binding() == g.spec_last_binding(),
    decreases n,
{
    let b = g.spec_find_tensor(t)->Some_0;
    lemma_find_tensor_var(g, t);
    lemma_find_tensor_le_last(g, t);
    lemma_find_tensor_has_leaf(g, t);
    lemma_find_var_has_leaf(g, b);
    assert forall|id: u32| #[trigger] g2.spec_find_var(id) == g.spec_find_var(id) by {
        match g2 {
            Operation::DualOp { left, right, .. } => {
                assert(*right == g);
                assert(*left == (Operation::Var { binding: b, tensor: t }));
                assert((Operation::Var { binding: b, tensor: t }).spec_find_var(id) == (if id == b {
                    Some(t)
                } else {
                    None
                }));
                if id == b {
                    assert(g.spec_find_var(b) == Some(t));
                }
            },
            _ => {},
        }
    }
    match g2 {
        Operation::DualOp { left, right, .. } => {
            assert(*right == g);
            assert((*left).spec_last_binding() == b as nat);
        },
        _ => {},
    }
    if n > 0 {
        lemma_binding_dedup_left(g, g2, t, s, (n - 1) as nat);
    }
    assert(table_upto(g2, s, n) =~= table_upto(g, s, n));
}

/// Version/cache invariant: a binding table in which every slot has
/// already seen its tensor's current version — as the table stands
/// right after a build or a planning sweep — orders no upload and no
/// rebind on the next sweep, and the sweep leaves it unchanged.
pub proof fn lemma_no_change_no_upload(bs: Seq<Binding>, s: Seq<TensorView>)
    requires
        forall|i: int| 0 <= i < bs.len() ==> bs[i].last_seen >= s[bs[i].tensor as int].version,
    ensures
        stale_uploads(bs, s).len() == 0,
        refreshed(bs, s) == bs,
    decreases bs.len(),
{
    if bs.len() > 0 {
        lemma_no_change_no_upload(bs.drop_last(), s);
    }
    assert(refreshed(bs, s) =~= bs);
}

/// The uploads a sweep owes when exactly tensor `t` changed: one order
/// per slot bound to `t`, in table order, carrying the new bytes.
pub open spec fn uploads_of_tensor(bs: Seq<Binding>, t: usize, d: Seq<u8>) -> Seq<UploadCmdView>
    decreases bs.len(),
{
    if bs.len() == 0 {
        Seq::empty()
    } else {
        uploads_of_tensor(bs.drop_last(), t, d) + if bs.last().tensor == t {
            seq![UploadCmdView { binding: bs.last().id, data: d }]
        } else {
            Seq::empty()
        }
    }
}

/// Change propagation: starting from a table that has seen exactly the
/// current versions, after one tensor advances, the next sweep orders a
/// rewrite for precisely the slots bound to that tensor, carrying its
/// new bytes; every other input is left untouched.
pub proof fn lemma_change_propagation(
    bs: Seq<Binding>,
    s0: Seq<TensorView>,
    s1: Seq<TensorView>,
    t: usize,
)
    requires
        s0.len() == s1.len(),
        forall|i: int| #![trigger bs[i]] 0 <= i < bs.len() ==> 0 <= bs[i].tensor < s0.len(),
        forall|i: int| #![trigger bs[i]]
            0 <= i < bs.len() ==> bs[i].last_seen == s0[bs[i].tensor as int].version,
        s1[t as int].version > s0[t as int].version,
        forall|j: int| #![trigger s1[j]] 0 <= j < s0.len() && j != t ==> s1[j] == s0[j],
    ensures
        stale_uploads(bs, s1) == uploads_of_tensor(bs, t, s1[t as int].data),
    decreases bs.len(),
{
    if bs.len() > 0 {
        lemma_change_propagation(bs.drop_last(), s0, s1, t);
    }
    assert(stale_uploads(bs, s1) =~= uploads_of_tensor(bs, t, s1[t as int].data));
}

/// Elementwise execution: the artifact that `build` makes out of the
/// graph `a + b` (or `a - b`) for two equal-shape integer tensors hands
/// the backend exactly those two tensors' buffers and the elementwise
/// kernel for their slots, and the tensor that execution returns holds
/// exactly what the backend computed. So against any backend that meets
/// the kernel-source contract — the readback holds, word by word, the
/// operator applied to the operand words — the returned tensor is the
/// elementwise combination of `a` and `b`, under the tensors' shape.
pub proof fn lemma_execute_elementwise(
    s: Seq<TensorView>,
    ha: usize,
    hb: usize,
    g: Operation,
    readback: Seq<u8>,
    result: TensorView,
    op: TwoValueOperation,
)
    requires
        ha < s.len(),
        hb < s.len(),
        ha != hb,
        s[ha as int].kind == ElemKind::Int || s[ha as int].kind == ElemKind::UInt,
        s[hb as int].kind == s[ha as int].kind,
        s[ha as int].shape == s[hb as int].shape,
        // the graph `of_tensors` builds for two distinct tensors
        g is DualOp,
        g.spec_left() == (Operation::Var { binding: 0u32, tensor: ha }),
        g.spec_right() == (Operation::Var { binding: 1u32, tensor: hb }),
        g.spec_dual_op() == op,
        op != TwoValueOperation::Divide,
        // what a contract-meeting backend reads back
        words_elementwise(
            readback,
            s[ha as int].data,
            s[hb as int].data,
            op,
            crate::tensor::shape_product(s[ha as int].shape),
        ),
        // what `apply_readback` returns on success
        result.data == readback,
        result.shape == s[ha as int].shape,
    ensures
        // the artifact's binding table is exactly tensor `a` in slot 0
        // and tensor `b` in slot 1, each at its current version
        table_upto(g, s, 2) == seq![
            Binding { id: 0u32, tensor: ha, last_seen: s[ha as int].version },
            Binding { id: 1u32, tensor: hb, last_seen: s[hb as int].version },
        ],
        // and the returned tensor is the elementwise combination
        words_elementwise(
            result.data,
            s[ha as int].data,
            s[hb as int].data,
            op,
            crate::tensor::shape_product(result.shape),
        ),
{
    match g {
        Operation::DualOp { left, right, .. } => {
            assert(*left == (Operation::Var { binding: 0u32, tensor: ha }));
            assert(*right == (Operation::Var { binding: 1u32, tensor: hb }));
            assert((*left).spec_find_var(0u32) == Some(ha));
            assert((*right).spec_find_var(1u32) == Some(hb));
            assert((*left).spec_find_var(1u32) is None);
        },
        _ => {},
    }
    assert(g.spec_find_var(0u32) == Some(ha));
    assert(g.spec_find_var(1u32) == Some(hb));
    assert(table_upto(g, s, 0) =~= Seq::<Binding>::empty());
    assert(table_upto(g, s, 1) =~= seq![
        Binding { id: 0u32, tensor: ha, last_seen: s[ha as int].version },
    ]);
    assert(table_upto(g, s, 2) =~= seq![
        Binding { id: 0u32, tensor: ha, last_seen: s[ha as int].version },
        Binding { id: 1u32, tensor: hb, last_seen: s[hb as int].version },
    ]);
}

} // verus!
