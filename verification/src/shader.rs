//! The compiled artifact: kernel source, the binding table with its
//! per-input version cache, and the persistent output tensor.
//!
//! Executing an artifact is split into the two decisions the host makes
//! around the backend's work: [`Shader::plan_execute`] compares every
//! bound tensor's version against the last one seen and says exactly
//! which device buffers must be rewritten (unchanged inputs cause
//! neither re-upload nor re-binding), and [`Shader::apply_readback`]
//! decodes the bytes read back from the device into the artifact's
//! output tensor, checking them against the expected kind and shape.

use vstd::prelude::*;

use crate::codegen::{render, spec_source};
use crate::graph::{clone_shape, DescView, Operation, ResultDesc};
use crate::store::TensorStore;
use crate::tensor::{shape_product, valid_shape, Tensor, TensorError, TensorView};

verus! {

/// One slot of the binding table: which tensor feeds buffer `id`, and
/// the version of it the device buffer currently holds.
#[derive(Clone, Copy, PartialEq, Eq, Structural, Debug)]
pub struct Binding {
    pub id: u32,
    pub tensor: usize,
    pub last_seen: u64,
}

/// An order to rewrite input buffer `binding` with `data`.
pub struct UploadCmd {
    pub binding: u32,
    pub data: Vec<u8>,
}

/// The mathematical value of an [`UploadCmd`].
pub ghost struct UploadCmdView {
    pub binding: u32,
    pub data: Seq<u8>,
}

impl View for UploadCmd {
    type V = UploadCmdView;

    open spec fn view(&self) -> UploadCmdView {
        UploadCmdView { binding: self.binding, data: self.data@ }
    }
}

/// What one execution asks of the backend: the stale buffers to
/// rewrite, whether the resource-binding table must be rebuilt, the
/// invocation count, and how many bytes to read back.
pub struct ExecutePlan {
    pub uploads: Vec<UploadCmd>,
    pub rebind: bool,
    pub invocations: usize,
    pub readback_len: usize,
}

/// The binding table a graph induces: one slot per used binding id,
/// ascending, each remembering the bound tensor's current version.
pub open spec fn table_upto(g: Operation, s: Seq<TensorView>, n: nat) -> Seq<Binding>
    decreases n,
{
    if n == 0 {
        Seq::empty()
    } else {
        table_upto(g, s, (n - 1) as nat) + match g.spec_find_var((n - 1) as u32) {
            Some(t) => seq![
                Binding {
                    id: (n - 1) as u32,
                    tensor: t,
                    last_seen: s[t as int].version,
                },
            ],
            None => Seq::empty(),
        }
    }
}

/// The binding table after one staleness sweep: every slot whose tensor
/// moved past the last seen version records the current one.
pub open spec fn refreshed(bs: Seq<Binding>, s: Seq<TensorView>) -> Seq<Binding> {
    Seq::new(
        bs.len(),
        |i: int|
            Binding {
                last_seen: if s[bs[i].tensor as int].version > bs[i].last_seen {
                    s[bs[i].tensor as int].version
                } else {
                    bs[i].last_seen
                },
                ..bs[i]
            },
    )
}

/// The uploads one staleness sweep orders: one per stale slot, in table
/// order, carrying the bound tensor's current bytes.
pub open spec fn stale_uploads(bs: Seq<Binding>, s: Seq<TensorView>) -> Seq<UploadCmdView>
    decreases bs.len(),
{
    if bs.len() == 0 {
        Seq::empty()
    } else {
        stale_uploads(bs.drop_last(), s) + if s[bs.last().tensor as int].version
            > bs.last().last_seen {
            seq![UploadCmdView { binding: bs.last().id, data: s[bs.last().tensor as int].data }]
        } else {
            Seq::empty()
        }
    }
}

/// The mathematical value of a [`Shader`].
pub ghost struct ShaderView {
    pub source: Seq<char>,
    pub bindings: Seq<Binding>,
    pub result_binding: u32,
    pub desc: DescView,
    pub result_tensor: TensorView,
    pub out_count: usize,
    pub out_bytes: usize,
}

impl ShaderView {
    /// Every bound tensor handle is below the store's length.
    pub open spec fn binds_ok(self, n: nat) -> bool {
        forall|i: int| 0 <= i < self.bindings.len() ==> (self.bindings[i].tensor as nat) < n
    }

    /// The cached output sizes agree with the output descriptor, and the
    /// output tensor is well-formed.
    pub open spec fn wf(self) -> bool {
        &&& valid_shape(self.desc.shape)
        &&& self.out_count == shape_product(self.desc.shape)
        &&& self.out_bytes == self.desc.kind.spec_size_bytes() * shape_product(self.desc.shape)
        &&& self.result_tensor.wf()
    }

    /// Every slot's remembered version is at least the bound tensor's
    /// current one: nothing on the device is stale.
    pub open spec fn synced(self, s: Seq<TensorView>) -> bool {
        forall|i: int| 0 <= i < self.bindings.len() ==> self.bindings[i].last_seen >= s[
            self.bindings[i].tensor as int
        ].version
    }
}

/// A compiled artifact: kernel source for the backend, the binding
/// table, the reserved output binding slot, the output descriptor and
/// the persistent output tensor that execution mutates in place.
pub struct Shader {
    source: String,
    bindings: Vec<Binding>,
    result_binding: u32,
    desc: ResultDesc,
    result_tensor: Tensor,
    out_count: usize,
    out_bytes: usize,
}

impl View for Shader {
    type V = ShaderView;

    closed spec fn view(&self) -> ShaderView {
        ShaderView {
            source: self.source@,
            bindings: self.bindings@,
            result_binding: self.result_binding,
            desc: self.desc@,
            result_tensor: self.result_tensor@,
            out_count: self.out_count,
            out_bytes: self.out_bytes,
        }
    }
}

/// Every slot of the binding table references a tensor the store holds,
/// and remembers that tensor's current version.
pub proof fn lemma_table_upto_ok(g: Operation, s: Seq<TensorView>, n: nat, bound: nat)
    requires
        g.tensors_ok(bound),
    ensures
        forall|i: int| #![trigger table_upto(g, s, n)[i]]
            0 <= i < table_upto(g, s, n).len() ==> {
                let b = table_upto(g, s, n)[i];
                &&& (b.tensor as nat) < bound
                &&& b.last_seen == s[b.tensor as int].version
            },
    decreases n,
{
    if n > 0 {
        lemma_table_upto_ok(g, s, (n - 1) as nat, bound);
        if g.spec_find_var((n - 1) as u32) is Some {
            crate::codegen::lemma_find_var_in_range(g, (n - 1) as u32, bound);
        }
    }
}

/// An exact copy of a byte buffer.
fn clone_bytes(v: &Vec<u8>) -> (r: Vec<u8>)
    ensures
        r@ == v@,
{
    let mut out: Vec<u8> = Vec::new();
    let mut i: usize = 0;
    while i < v.len()
        invariant
            i <= v@.len(),
            out@ == v@.take(i as int),
        decreases v@.len() - i,
    {
        out.push(v[i]);
        proof {
            assert(out@ =~= v@.take(i + 1));
        }
        i = i + 1;
    }
    proof {
        assert(v@.take(v@.len() as int) =~= v@);
    }
    out
}

impl Shader {
    /// Build an artifact from a composed graph: render the kernel
    /// source, lay out the binding table with every tensor's current
    /// version, and adopt `result` as the persistent output tensor.
    /// A bare tensor reference is not an executable graph and is
    /// rejected as unimplemented; an output descriptor no machine word
    /// can measure is rejected as a shape error.
    pub fn build(op: Operation, store: &TensorStore, result: Tensor) -> (r: Result<
        Shader,
        TensorError,
    >)
        requires
            store.wf(),
            op.tensors_ok(store@.len()),
            op.spec_last_binding() < u32::MAX,
            result@.wf(),
        ensures
            r is Ok <==> !(op is Var) && valid_shape(op.spec_desc(store@).shape)
                && op.spec_desc(store@).kind.spec_size_bytes() * shape_product(
                op.spec_desc(store@).shape,
            ) <= usize::MAX,
            r is Err && op is Var ==> r->Err_0 is Unimplemented,
            r is Err && !(op is Var) ==> r->Err_0 is ShapeError,
            r is Ok ==> ({
                let sh = r->Ok_0@;
                &&& sh.source == spec_source(op, store@)
                &&& sh.bindings == table_upto(op, store@, op.spec_last_binding() + 1)
                &&& sh.result_binding == op.spec_last_binding() + 1
                &&& sh.desc == op.spec_desc(store@)
                &&& sh.result_tensor == result@
                &&& sh.out_count == shape_product(op.spec_desc(store@).shape)
                &&& sh.wf()
                &&& sh.binds_ok(store@.len())
                &&& sh.synced(store@)
            }),
    {
        let is_leaf = match &op {
            Operation::Var { .. } => true,
            _ => false,
        };
        if is_leaf {
            return Err(TensorError::Unimplemented(String::from_str(
                "a bare tensor reference is not an executable graph",
            )));
        }
        assert(!(op is Var));
        let desc = op.desc_of(store);
        assert(desc@ == op.spec_desc(store@));
        if desc.shape.len() == 0 {
            return Err(TensorError::ShapeError(String::from_str(
                "output shape needs at least one dimension",
            )));
        }
        let mut i: usize = 0;
        while i < desc.shape.len()
            invariant
                i <= desc.shape@.len(),
                forall|j: int| 0 <= j < i ==> desc.shape@[j] >= 1,
                !(op is Var),
                desc@ == op.spec_desc(store@),
                desc.shape@.len() > 0,
            decreases desc.shape@.len() - i,
        {
            if desc.shape[i] == 0 {
                return Err(TensorError::ShapeError(String::from_str(
                    "output shape dimensions must be positive",
                )));
            }
            i = i + 1;
        }
        let out_count = match crate::tensor::checked_shape_product(&desc.shape) {
            Some(c) => c,
            None => {
                assert(shape_product(desc.shape@) > usize::MAX ==> desc@.kind.spec_size_bytes()
                    * shape_product(desc.shape@) > usize::MAX) by (nonlinear_arith)
                    requires
                        desc@.kind.spec_size_bytes() >= 1,
                ;
                return Err(TensorError::ShapeError(String::from_str(
                    "output shape describes more elements than a machine word can count",
                )));
            },
        };
        let out_bytes = match out_count.checked_mul(desc.kind.size_bytes()) {
            Some(b) => b,
            None => {
                assert(desc@.kind.spec_size_bytes() * shape_product(desc.shape@) > usize::MAX)
                    by (nonlinear_arith)
                    requires
                        out_count == shape_product(desc.shape@),
                        out_count * desc@.kind.spec_size_bytes() > usize::MAX,
                ;
                return Err(TensorError::ShapeError(String::from_str(
                    "output shape describes more bytes than a machine word can count",
                )));
            },
        };
        assert(out_bytes == desc@.kind.spec_size_bytes() * shape_product(desc.shape@))
            by (nonlinear_arith)
            requires
                out_bytes == out_count * desc@.kind.spec_size_bytes(),
                out_count == shape_product(desc.shape@),
        ;
        let (source, result_binding) = render(&op, store);
        let last = op.get_last_binding();
        let mut bindings: Vec<Binding> = Vec::new();
        let mut id: u32 = 0;
        while id <= last
            invariant
                id <= last + 1,
                last == op.spec_last_binding(),
                last < u32::MAX,
                store.wf(),
                op.tensors_ok(store@.len()),
                bindings@ == table_upto(op, store@, id as nat),
            decreases last + 1 - id,
        {
            match op.find_var(id) {
                Some(t) => {
                    proof {
                        crate::codegen::lemma_find_var_in_range(op, id, store@.len());
                    }
                    let v = store.version_of(t);
                    bindings.push(Binding { id, tensor: t, last_seen: v });
                },
                None => {},
            }
            proof {
                assert(bindings@ =~= table_upto(op, store@, (id + 1) as nat));
            }
            id = id + 1;
        }
        proof {
            lemma_table_upto_ok(op, store@, (last + 1) as nat, store@.len());
        }
        Ok(Shader {
            source,
            bindings,
            result_binding,
            desc,
            result_tensor: result,
            out_count,
            out_bytes,
        })
    }

    /// The kernel source the backend must compile.
    pub fn source(&self) -> (r: &String)
        ensures
            r@ == self@.source,
    {
        &self.source
    }

    /// The binding table.
    pub fn bindings(&self) -> (r: &Vec<Binding>)
        ensures
            r@ == self@.bindings,
    {
        &self.bindings
    }

    /// The binding slot reserved for the output buffer.
    pub fn result_binding(&self) -> (r: u32)
        ensures
            r == self@.result_binding,
    {
        self.result_binding
    }

    /// The output descriptor.
    pub fn result_desc(&self) -> (r: ResultDesc)
        ensures
            r@ == self@.desc,
    {
        ResultDesc { kind: self.desc.kind, shape: clone_shape(&self.desc.shape) }
    }

    /// The output element count: one kernel invocation per element.
    pub fn out_count(&self) -> (r: usize)
        ensures
            r == self@.out_count,
    {
        self.out_count
    }

    /// The output buffer width in bytes.
    pub fn out_bytes(&self) -> (r: usize)
        ensures
            r == self@.out_bytes,
    {
        self.out_bytes
    }

    /// The version counter of the persistent output tensor.
    pub fn result_version(&self) -> (r: u64)
        ensures
            r == self@.result_tensor.version,
    {
        self.result_tensor.get_change()
    }

    /// One staleness sweep over the binding table: order a rewrite for
    /// exactly the inputs whose tensor version moved past the last seen
    /// one, remember the versions now seen, and ask for a rebind only
    /// when something was rewritten. Unchanged inputs cause neither
    /// re-upload nor re-binding.
    pub fn plan_execute(&mut self, store: &TensorStore) -> (plan: ExecutePlan)
        requires
            store.wf(),
            old(self)@.binds_ok(store@.len()),
        ensures
            final(self)@ == (ShaderView {
                bindings: refreshed(old(self)@.bindings, store@),
                ..old(self)@
            }),
            final(self)@.synced(store@),
            plan.uploads@.map(|i: int, c: UploadCmd| c@) == stale_uploads(
                old(self)@.bindings,
                store@,
            ),
            plan.rebind == (stale_uploads(old(self)@.bindings, store@).len() > 0),
            plan.invocations == old(self)@.out_count,
            plan.readback_len == old(self)@.out_bytes,
    {
        let ghost obs = self.bindings@;
        let mut uploads: Vec<UploadCmd> = Vec::new();
        proof {
            assert(forall|j: int| 0 <= j < obs.len() ==> (obs[j].tensor as nat) < store@.len());
            assert(obs.take(0) =~= Seq::<Binding>::empty());
            assert(uploads@.map(|k: int, c: UploadCmd| c@) =~= stale_uploads(
                obs.take(0),
                store@,
            ));
        }
        let mut i: usize = 0;
        while i < self.bindings.len()
            invariant
                i <= self.bindings@.len(),
                self.bindings@.len() == obs.len(),
                store.wf(),
                forall|j: int| 0 <= j < obs.len() ==> (obs[j].tensor as nat) < store@.len(),
                forall|j: int| i <= j < obs.len() ==> self.bindings@[j] == obs[j],
                forall|j: int| 0 <= j < i ==> self.bindings@[j] == refreshed(obs, store@)[j],
                uploads@.map(|k: int, c: UploadCmd| c@) == stale_uploads(
                    obs.take(i as int),
                    store@,
                ),
                self@ == (ShaderView { bindings: self.bindings@, ..old(self)@ }),
            decreases self.bindings@.len() - i,
        {
            let b = self.bindings[i];
            proof {
                assert(self.bindings@[i as int] == obs[i as int]);
                assert((obs[i as int].tensor as nat) < store@.len());
            }
            let v = store.version_of(b.tensor);
            if v > b.last_seen {
                let nb = Binding { id: b.id, tensor: b.tensor, last_seen: v };
                self.bindings[i] = nb;
                let data = clone_bytes(store.get(b.tensor).get_value());
                uploads.push(UploadCmd { binding: b.id, data });
            }
            proof {
                assert(obs.take(i + 1).drop_last() =~= obs.take(i as int));
                assert(uploads@.map(|k: int, c: UploadCmd| c@) =~= stale_uploads(
                    obs.take(i + 1),
                    store@,
                ));
            }
            i = i + 1;
        }
        proof {
            assert(obs.take(obs.len() as int) =~= obs);
            assert(self.bindings@ =~= refreshed(obs, store@));
        }
        let rebind = uploads.len() > 0;
        proof {
            if uploads@.len() > 0 {
                assert(stale_uploads(obs, store@).len() > 0);
            }
        }
        ExecutePlan {
            uploads,
            rebind,
            invocations: self.out_count,
            readback_len: self.out_bytes,
        }
    }

    /// Decode the bytes read back from the device: they must be exactly
    /// the output buffer's width (anything else is a device failure),
    /// and the output descriptor's kind and shape must match what the
    /// caller's result tensor declares. On success the bytes become the
    /// output tensor's new value, its version increases, and a copy is
    /// handed back.
    pub fn apply_readback(&mut self, bytes: Vec<u8>) -> (r: Result<Tensor, TensorError>)
        requires
            old(self)@.wf(),
            old(self)@.result_tensor.version < u64::MAX,
        ensures
            r is Ok <==> bytes@.len() == old(self)@.out_bytes && old(self)@.desc.kind == old(
                self,
            )@.result_tensor.kind && old(self)@.desc.shape == old(self)@.result_tensor.shape,
            r is Err ==> final(self)@ == old(self)@,
            r is Err && bytes@.len() != old(self)@.out_bytes ==> r->Err_0 is DeviceError,
            r is Err && bytes@.len() == old(self)@.out_bytes && old(self)@.desc.kind != old(
                self,
            )@.result_tensor.kind ==> r->Err_0 is TypeError,
            r is Err && bytes@.len() == old(self)@.out_bytes && old(self)@.desc.kind == old(
                self,
            )@.result_tensor.kind ==> r->Err_0 is ShapeError,
            r is Ok ==> final(self)@ == (ShaderView {
                result_tensor: TensorView {
                    data: bytes@,
                    version: (old(self)@.result_tensor.version + 1) as u64,
                    ..old(self)@.result_tensor
                },
                ..old(self)@
            }),
            r is Ok ==> ({
                let t = r->Ok_0@;
                &&& t.kind == old(self)@.desc.kind
                &&& t.shape == old(self)@.desc.shape
                &&& t.data == bytes@
                &&& t.version == 0
            }),
    {
        if bytes.len() != self.out_bytes {
            return Err(TensorError::DeviceError(String::from_str(
                "readback returned the wrong number of bytes",
            )));
        }
        let rk = self.result_tensor.get_kind();
        if !(self.desc.kind == rk) {
            return Err(TensorError::TypeError(String::from_str(
                "decoded element kind does not match the requested tensor",
            )));
        }
        if !self.result_tensor.matches_shape(&self.desc.shape) {
            return Err(TensorError::ShapeError(String::from_str(
                "decoded shape does not match the requested tensor",
            )));
        }
        proof {
            assert(old(self)@.result_tensor.data.len() == old(self)@.out_bytes);
        }
        let r = self.result_tensor.change_value(bytes);
        proof {
            assert(r is Ok);
        }
        Ok(self.result_tensor.copy())
    }
}

} // verus!
