//! Tensors: a contiguous element buffer, a shape descriptor and a
//! monotonically increasing version counter, plus the error taxonomy
//! shared by the whole compute pipeline.
//!
//! Element buffers are kept as raw little-endian bytes tagged with an
//! [`ElemKind`], which is exactly the form a device buffer takes; the
//! arithmetic itself happens in the compiled kernel, never on the host.

use vstd::arithmetic::div_mod::{lemma_div_by_multiple, lemma_fundamental_div_mod};
use vstd::prelude::*;

use crate::kind::ElemKind;
use crate::words::{encode_i32s, encode_u32s, i32s_le_bytes, u32s_le_bytes};

verus! {

/// Why a tensor or compute request was rejected.
#[derive(Debug)]
pub enum TensorError {
    /// Incompatible or non-broadcastable shapes at graph-build or
    /// value-assignment time.
    ShapeError(String),
    /// A decoded result's element kind does not match the requested one.
    TypeError(String),
    /// The backend rejected generated kernel source.
    CompileError(String),
    /// No backend available, or a dispatch or readback failed.
    DeviceError(String),
    /// An operator or type combination that is not supported yet.
    Unimplemented(String),
}

/// A shape is valid when it has at least one dimension and every
/// dimension is positive.
pub open spec fn valid_shape(s: Seq<usize>) -> bool {
    &&& s.len() > 0
    &&& forall|i: int| 0 <= i < s.len() ==> s[i] > 0
}

/// The element count described by a shape: the product of its dimensions.
pub open spec fn shape_product(s: Seq<usize>) -> nat
    decreases s.len(),
{
    if s.len() == 0 {
        1
    } else {
        shape_product(s.drop_last()) * s.last() as nat
    }
}

pub proof fn lemma_shape_product_step(s: Seq<usize>, i: int)
    requires
        0 <= i < s.len(),
    ensures
        shape_product(s.take(i + 1)) == shape_product(s.take(i)) * s[i],
{
    assert(s.take(i + 1).drop_last() =~= s.take(i));
}

pub proof fn lemma_shape_product_all(s: Seq<usize>)
    ensures
        shape_product(s.take(s.len() as int)) == shape_product(s),
{
    assert(s.take(s.len() as int) =~= s);
}

/// With positive dimensions, the product only grows as dimensions
/// are appended.
pub proof fn lemma_shape_product_monotone(s: Seq<usize>, i: int)
    requires
        0 <= i <= s.len(),
        forall|j: int| 0 <= j < s.len() ==> s[j] >= 1,
    ensures
        shape_product(s) >= shape_product(s.take(i)),
        shape_product(s) >= 1,
    decreases s.len(),
{
    if s.len() == 0 {
    } else if i == s.len() {
        assert(s.take(i) =~= s);
        lemma_shape_product_monotone(s.drop_last(), s.len() - 1);
        assert(shape_product(s.drop_last()) * s.last() >= shape_product(s.drop_last()) * 1) by (nonlinear_arith)
            requires
                shape_product(s.drop_last()) >= 0,
                s.last() >= 1,
        ;
        assert(s.drop_last().take(s.len() - 1) =~= s.drop_last());
    } else {
        lemma_shape_product_monotone(s.drop_last(), i);
        assert(s.drop_last().take(i) =~= s.take(i));
        assert(shape_product(s.drop_last()) * s.last() >= shape_product(s.drop_last()) * 1) by (nonlinear_arith)
            requires
                shape_product(s.drop_last()) >= 0,
                s.last() >= 1,
        ;
    }
}

/// The element count of a shape, or `None` when it cannot be held in a
/// machine word.
pub fn checked_shape_product(shape: &Vec<usize>) -> (r: Option<usize>)
    requires
        forall|j: int| 0 <= j < shape@.len() ==> shape@[j] >= 1,
    ensures
        match r {
            Some(p) => p == shape_product(shape@),
            None => shape_product(shape@) > usize::MAX,
        },
{
    let mut acc: usize = 1;
    let mut i: usize = 0;
    while i < shape.len()
        invariant
            i <= shape@.len(),
            acc == shape_product(shape@.take(i as int)),
            forall|j: int| 0 <= j < shape@.len() ==> shape@[j] >= 1,
        decreases shape@.len() - i,
    {
        proof {
            lemma_shape_product_step(shape@, i as int);
        }
        match acc.checked_mul(shape[i]) {
            Some(next) => {
                acc = next;
            },
            None => {
                proof {
                    lemma_shape_product_monotone(shape@, i + 1);
                }
                return None;
            },
        }
        i = i + 1;
    }
    proof {
        lemma_shape_product_all(shape@);
    }
    Some(acc)
}

/// Row-major linear position of a multi-dimensional index.
pub open spec fn linear_index(idx: Seq<usize>, shape: Seq<usize>) -> nat
    decreases idx.len(),
{
    if idx.len() == 0 {
        0
    } else {
        linear_index(idx.drop_last(), shape.drop_last()) * shape.last() as nat + idx.last() as nat
    }
}

pub proof fn lemma_linear_index_bound(idx: Seq<usize>, shape: Seq<usize>)
    requires
        idx.len() == shape.len(),
        forall|i: int| 0 <= i < idx.len() ==> idx[i] < shape[i],
    ensures
        linear_index(idx, shape) < shape_product(shape),
    decreases idx.len(),
{
    if idx.len() == 0 {
    } else {
        lemma_linear_index_bound(idx.drop_last(), shape.drop_last());
        let l = linear_index(idx.drop_last(), shape.drop_last());
        let p = shape_product(shape.drop_last());
        assert(l * (shape.last() as nat) + (idx.last() as nat) < p * (shape.last() as nat))
            by (nonlinear_arith)
            requires
                l < p,
                idx.last() < shape.last(),
        ;
    }
}

/// `e` repeated `n` times, flattened.
pub open spec fn repeat_elem(e: Seq<u8>, n: nat) -> Seq<u8>
    decreases n,
{
    if n == 0 {
        Seq::empty()
    } else {
        repeat_elem(e, (n - 1) as nat) + e
    }
}

pub proof fn lemma_repeat_elem_len(e: Seq<u8>, n: nat)
    ensures
        repeat_elem(e, n).len() == e.len() * n,
    decreases n,
{
    if n == 0 {
    } else {
        lemma_repeat_elem_len(e, (n - 1) as nat);
        assert(e.len() * n == e.len() * (n - 1) + e.len()) by (nonlinear_arith);
    }
}

/// The all-zero element of a kind, as buffer bytes.
pub open spec fn zero_elem(kind: ElemKind) -> Seq<u8> {
    Seq::new(kind.spec_size_bytes(), |i: int| 0u8)
}

/// The mathematical value of a [`Tensor`].
pub ghost struct TensorView {
    pub kind: ElemKind,
    pub data: Seq<u8>,
    pub shape: Seq<usize>,
    pub version: u64,
}

impl TensorView {
    /// Well-formedness: a valid shape, and a buffer of exactly one
    /// element's width per described element.
    pub open spec fn wf(self) -> bool {
        &&& valid_shape(self.shape)
        &&& self.data.len() == self.kind.spec_size_bytes() * shape_product(self.shape)
    }

    /// Element count.
    pub open spec fn count(self) -> nat {
        shape_product(self.shape)
    }
}

/// A tensor: one contiguous little-endian element buffer, its shape,
/// and a version counter that increases on every mutation and never
/// otherwise changes.
#[derive(Debug)]
pub struct Tensor {
    kind: ElemKind,
    data: Vec<u8>,
    shape: Vec<usize>,
    version: u64,
}

impl View for Tensor {
    type V = TensorView;

    closed spec fn view(&self) -> TensorView {
        TensorView { kind: self.kind, data: self.data@, shape: self.shape@, version: self.version }
    }
}

impl Tensor {
    /// A tensor over a flat buffer; the shape defaults to one dimension
    /// holding every element.
    pub fn new(kind: ElemKind, data: Vec<u8>) -> (t: Tensor)
        requires
            data@.len() > 0,
            data@.len() % kind.spec_size_bytes() == 0,
        ensures
            t@.kind == kind,
            t@.data == data@,
            t@.shape =~= seq![(data@.len() / kind.spec_size_bytes()) as usize],
            t@.version == 0,
            t@.wf(),
    {
        let count = data.len() / kind.size_bytes();
        proof {
            lemma_fundamental_div_mod(data@.len() as int, kind.spec_size_bytes() as int);
        }
        let shape = vec![count];
        proof {
            assert(shape@ =~= seq![count]);
            assert(seq![count].drop_last() =~= Seq::<usize>::empty());
            assert(shape_product(Seq::<usize>::empty()) == 1);
            assert(shape_product(seq![count]) == shape_product(seq![count].drop_last()) * count as nat);
        }
        Tensor { kind, data, shape, version: 0 }
    }

    /// A tensor over a flat buffer with an explicit shape; rejected with
    /// a `ShapeError` unless the shape is valid and describes exactly the
    /// buffer's element count.
    pub fn with_shape(kind: ElemKind, data: Vec<u8>, shape: Vec<usize>) -> (r: Result<
        Tensor,
        TensorError,
    >)
        ensures
            r is Ok <==> valid_shape(shape@) && data@.len() == kind.spec_size_bytes()
                * shape_product(shape@),
            r is Ok ==> r->Ok_0@ == (TensorView {
                kind,
                data: data@,
                shape: shape@,
                version: 0u64,
            }) && r->Ok_0@.wf(),
            r is Err ==> r->Err_0 is ShapeError,
    {
        let dlen = data.len();
        if shape.len() == 0 {
            return Err(TensorError::ShapeError(String::from_str(
                "a shape needs at least one dimension",
            )));
        }
        let mut i: usize = 0;
        while i < shape.len()
            invariant
                i <= shape@.len(),
                forall|j: int| 0 <= j < i ==> shape@[j] >= 1,
            decreases shape@.len() - i,
        {
            if shape[i] == 0 {
                return Err(TensorError::ShapeError(String::from_str(
                    "shape dimensions must be positive",
                )));
            }
            i = i + 1;
        }
        let count = match checked_shape_product(&shape) {
            Some(c) => c,
            None => {
                assert(dlen < kind.spec_size_bytes() * shape_product(shape@)) by (nonlinear_arith)
                    requires
                        shape_product(shape@) > usize::MAX,
                        kind.spec_size_bytes() >= 1,
                        dlen <= usize::MAX,
                ;
                return Err(TensorError::ShapeError(String::from_str(
                    "shape describes more elements than the buffer can hold",
                )));
            },
        };
        let expected = match count.checked_mul(kind.size_bytes()) {
            Some(b) => b,
            None => {
                assert(dlen < kind.spec_size_bytes() * shape_product(shape@)) by (nonlinear_arith)
                    requires
                        count == shape_product(shape@),
                        count * kind.spec_size_bytes() > usize::MAX,
                        dlen <= usize::MAX,
                ;
                return Err(TensorError::ShapeError(String::from_str(
                    "shape describes more bytes than the buffer can hold",
                )));
            },
        };
        if data.len() != expected {
            return Err(TensorError::ShapeError(String::from_str(
                "buffer length does not match the shape's element count",
            )));
        }
        Ok(Tensor { kind, data, shape, version: 0 })
    }

    /// A tensor of the given shape with every element equal to `elem`.
    pub fn from_shape_and_value(kind: ElemKind, elem: Vec<u8>, shape: Vec<usize>) -> (t: Tensor)
        requires
            elem@.len() == kind.spec_size_bytes(),
            valid_shape(shape@),
            kind.spec_size_bytes() * shape_product(shape@) <= usize::MAX,
        ensures
            t@.kind == kind,
            t@.shape == shape@,
            t@.version == 0,
            t@.data == repeat_elem(elem@, shape_product(shape@)),
            t@.wf(),
    {
        proof {
            lemma_shape_product_monotone(shape@, 0);
        }
        let count = match checked_shape_product(&shape) {
            Some(c) => c,
            None => {
                proof {
                    assert(kind.spec_size_bytes() * shape_product(shape@) >= 1 * shape_product(
                        shape@,
                    )) by (nonlinear_arith)
                        requires
                            kind.spec_size_bytes() >= 1,
                            shape_product(shape@) >= 0,
                    ;
                }
                unreached()
            },
        };
        let mut data: Vec<u8> = Vec::new();
        let mut j: usize = 0;
        while j < count
            invariant
                j <= count,
                count == shape_product(shape@),
                elem@.len() == kind.spec_size_bytes(),
                kind.spec_size_bytes() * shape_product(shape@) <= usize::MAX,
                data@ == repeat_elem(elem@, j as nat),
                data@.len() == kind.spec_size_bytes() * j,
            decreases count - j,
        {
            proof {
                lemma_repeat_elem_len(elem@, (j + 1) as nat);
                assert(kind.spec_size_bytes() * (j + 1) <= kind.spec_size_bytes() * shape_product(
                    shape@,
                )) by (nonlinear_arith)
                    requires
                        j + 1 <= shape_product(shape@),
                        kind.spec_size_bytes() >= 1,
                ;
            }
            data.extend_from_slice(elem.as_slice());
            assert(data@.len() == kind.spec_size_bytes() * (j + 1)) by (nonlinear_arith)
                requires
                    data@.len() == kind.spec_size_bytes() * j + kind.spec_size_bytes(),
            ;
            j = j + 1;
        }
        Tensor { kind, data, shape, version: 0 }
    }

    /// A zero-filled tensor of the given shape.
    pub fn zeros_from_shape(kind: ElemKind, shape: Vec<usize>) -> (t: Tensor)
        requires
            valid_shape(shape@),
            kind.spec_size_bytes() * shape_product(shape@) <= usize::MAX,
        ensures
            t@.kind == kind,
            t@.shape == shape@,
            t@.version == 0,
            t@.data == repeat_elem(zero_elem(kind), shape_product(shape@)),
            t@.wf(),
    {
        let elem = vec![0u8; kind.size_bytes()];
        assert(elem@ =~= zero_elem(kind));
        Tensor::from_shape_and_value(kind, elem, shape)
    }

    /// The element kind of this tensor.
    pub fn get_kind(&self) -> (r: ElemKind)
        ensures
            r == self@.kind,
    {
        self.kind
    }

    /// Element count: the product of the shape's dimensions.
    pub fn shape_len(&self) -> (r: usize)
        requires
            self@.wf(),
        ensures
            r == self@.count(),
    {
        proof {
            lemma_div_by_multiple(shape_product(self@.shape) as int, self@.kind.spec_size_bytes() as int);
        }
        self.data.len() / self.kind.size_bytes()
    }

    /// Whether the tensor holds exactly one element.
    pub fn is_single(&self) -> (r: bool)
        requires
            self@.wf(),
        ensures
            r == (self@.count() == 1),
    {
        self.shape_len() == 1
    }

    /// The element buffer, as little-endian bytes.
    pub fn get_value(&self) -> (r: &Vec<u8>)
        ensures
            r@ == self@.data,
    {
        &self.data
    }

    /// The shape descriptor.
    pub fn get_shape(&self) -> (r: &Vec<usize>)
        ensures
            r@ == self@.shape,
    {
        &self.shape
    }

    /// The current version counter.
    pub fn get_change(&self) -> (r: u64)
        ensures
            r == self@.version,
    {
        self.version
    }

    /// Replace the element buffer. Fails with a `ShapeError`, leaving the
    /// tensor untouched, unless the new buffer has exactly the length the
    /// declared shape requires; on success the version increases by one.
    pub fn change_value(&mut self, val: Vec<u8>) -> (r: Result<(), TensorError>)
        requires
            old(self)@.version < u64::MAX,
        ensures
            r is Ok <==> val@.len() == old(self)@.data.len(),
            r is Ok ==> final(self)@ == (TensorView {
                data: val@,
                version: (old(self)@.version + 1) as u64,
                ..old(self)@
            }),
            r is Err ==> final(self)@ == old(self)@ && r->Err_0 is ShapeError,
    {
        if val.len() != self.data.len() {
            return Err(TensorError::ShapeError(String::from_str(
                "new buffer length does not match the tensor's element count",
            )));
        }
        self.data = val;
        self.version = self.version + 1;
        Ok(())
    }

    /// A fresh tensor with the same kind, buffer and shape, and a version
    /// counter restarted at zero.
    pub fn copy(&self) -> (t: Tensor)
        ensures
            t@.kind == self@.kind,
            t@.data == self@.data,
            t@.shape == self@.shape,
            t@.version == 0,
    {
        Tensor {
            kind: self.kind,
            data: self.data.clone(),
            shape: self.shape.clone(),
            version: 0,
        }
    }

    /// A one-dimensional tensor of 32-bit signed integers.
    pub fn new_i32(values: Vec<i32>) -> (t: Tensor)
        requires
            values@.len() > 0,
        ensures
            t@.kind == ElemKind::Int,
            t@.data == i32s_le_bytes(values@),
            t@.shape =~= seq![values@.len() as usize],
            t@.version == 0,
            t@.wf(),
    {
        let data = encode_i32s(&values);
        let t = Tensor::new(ElemKind::Int, data);
        proof {
            vstd::arithmetic::div_mod::lemma_div_by_multiple(values@.len() as int, 4);
        }
        t
    }

    /// A one-dimensional tensor of 32-bit unsigned integers.
    pub fn new_u32(values: Vec<u32>) -> (t: Tensor)
        requires
            values@.len() > 0,
        ensures
            t@.kind == ElemKind::UInt,
            t@.data == u32s_le_bytes(values@),
            t@.shape =~= seq![values@.len() as usize],
            t@.version == 0,
            t@.wf(),
    {
        let data = encode_u32s(&values);
        let t = Tensor::new(ElemKind::UInt, data);
        proof {
            vstd::arithmetic::div_mod::lemma_div_by_multiple(values@.len() as int, 4);
        }
        t
    }

    /// The bytes of one element, addressed by a full multi-dimensional
    /// index in row-major order.
    pub fn get(&self, idx: &Vec<usize>) -> (r: Vec<u8>)
        requires
            self@.wf(),
            idx@.len() == self@.shape.len(),
            forall|i: int| 0 <= i < idx@.len() ==> idx@[i] < self@.shape[i],
        ensures
            r@ == self@.data.subrange(
                self@.kind.spec_size_bytes() * linear_index(idx@, self@.shape) as int,
                self@.kind.spec_size_bytes() * (linear_index(idx@, self@.shape) + 1) as int,
            ),
    {
        let ghost shape = self@.shape;
        let dlen = self.data.len();
        let size = self.kind.size_bytes();
        proof {
            lemma_shape_product_monotone(shape, 0);
            assert(shape_product(shape) <= self@.kind.spec_size_bytes() * shape_product(shape))
                by (nonlinear_arith)
                requires
                    self@.kind.spec_size_bytes() >= 1,
                    shape_product(shape) >= 0,
            ;
        }
        let mut acc: usize = 0;
        let mut i: usize = 0;
        while i < idx.len()
            invariant
                i <= idx@.len(),
                idx@.len() == shape.len(),
                shape == self@.shape,
                self@.wf(),
                dlen == self@.data.len(),
                forall|j: int| 0 <= j < idx@.len() ==> idx@[j] < shape[j],
                acc == linear_index(idx@.take(i as int), shape.take(i as int)),
                acc < shape_product(shape.take(i as int)),
                shape_product(shape) <= dlen,
            decreases idx@.len() - i,
        {
            proof {
                lemma_shape_product_step(shape, i as int);
                assert(idx@.take(i + 1).drop_last() =~= idx@.take(i as int));
                assert(shape.take(i + 1).drop_last() =~= shape.take(i as int));
                assert(acc * (shape[i as int] as nat) + (idx@[i as int] as nat) < shape_product(
                    shape.take(i as int),
                ) * (shape[i as int] as nat)) by (nonlinear_arith)
                    requires
                        acc < shape_product(shape.take(i as int)),
                        idx@[i as int] < shape[i as int],
                ;
                lemma_shape_product_monotone(shape, i + 1);
            }
            acc = acc * self.shape[i] + idx[i];
            i = i + 1;
        }
        proof {
            assert(idx@.take(idx@.len() as int) =~= idx@);
            assert(shape.take(shape.len() as int) =~= shape);
            lemma_linear_index_bound(idx@, shape);
            assert((acc + 1) * self@.kind.spec_size_bytes() <= shape_product(shape)
                * self@.kind.spec_size_bytes()) by (nonlinear_arith)
                requires
                    acc + 1 <= shape_product(shape),
                    self@.kind.spec_size_bytes() >= 0,
            ;
            assert(shape_product(shape) * self@.kind.spec_size_bytes() == self@.data.len())
                by (nonlinear_arith)
                requires
                    self@.data.len() == self@.kind.spec_size_bytes() * shape_product(shape),
            ;
            assert((acc + 1) * self@.kind.spec_size_bytes() == acc * self@.kind.spec_size_bytes()
                + self@.kind.spec_size_bytes()) by (nonlinear_arith);
        }
        let start = acc * size;
        assert(start == self@.kind.spec_size_bytes() * linear_index(idx@, shape))
            by (nonlinear_arith)
            requires
                start == acc * self@.kind.spec_size_bytes(),
                acc == linear_index(idx@, shape),
        ;
        let mut out: Vec<u8> = Vec::new();
        let mut k: usize = 0;
        while k < size
            invariant
                k <= size,
                size == self@.kind.spec_size_bytes(),
                dlen == self@.data.len(),
                start + size <= dlen,
                out@ == self@.data.subrange(start as int, start + k),
            decreases size - k,
        {
            out.push(self.data[start + k]);
            proof {
                assert(out@ =~= self@.data.subrange(start as int, start + k + 1));
            }
            k = k + 1;
        }
        proof {
            assert(out@ =~= self@.data.subrange(
                self@.kind.spec_size_bytes() * linear_index(idx@, self@.shape) as int,
                self@.kind.spec_size_bytes() * (linear_index(idx@, self@.shape) + 1) as int,
            ));
        }
        out
    }

    /// Whether both tensors declare the same shape, dimension by dimension.
    pub fn same_shape_as(&self, other: &Tensor) -> (r: bool)
        ensures
            r == (self@.shape == other@.shape),
    {
        self.matches_shape(&other.shape)
    }

    /// Whether this tensor declares exactly the given shape.
    pub fn matches_shape(&self, s2: &Vec<usize>) -> (r: bool)
        ensures
            r == (self@.shape == s2@),
    {
        if self.shape.len() != s2.len() {
            assert(self@.shape != s2@);
            return false;
        }
        let mut i: usize = 0;
        while i < self.shape.len()
            invariant
                i <= self@.shape.len(),
                self@.shape.len() == s2@.len(),
                forall|j: int| 0 <= j < i ==> self@.shape[j] == s2@[j],
            decreases self@.shape.len() - i,
        {
            if self.shape[i] != s2[i] {
                assert(self@.shape != s2@);
                return false;
            }
            i = i + 1;
        }
        proof {
            assert(self@.shape =~= s2@);
        }
        true
    }
}

} // verus!
