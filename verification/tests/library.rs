//! Tensors, shape and type inference, binding allocation, the version
//! cache, codegen text, and the error taxonomy, exercised on concrete
//! values.

use gda_core::graph::{clone_shape, infer_shape, Operation, ResultDesc};
use gda_core::instruction::{
    AddInstruction, DivInstruction, MultInstruction, SqrtInstruction, SubtInstruction,
};
use gda_core::kind::{ElemKind, TwoValueOperation};
use gda_core::processor::{Processor, ProcessorSelectionConstraint};
use gda_core::store::TensorStore;
use gda_core::tensor::{Tensor, TensorError};
use gda_core::{build_shader, run};

fn f32_bytes(vals: &[f32]) -> Vec<u8> {
    let mut out: Vec<u8> = Vec::new();
    for v in vals {
        out.extend_from_slice(&v.to_le_bytes());
    }
    out
}

fn f32_at(t: &Tensor, idx: &Vec<usize>) -> f32 {
    let b = t.get(idx);
    f32::from_le_bytes([b[0], b[1], b[2], b[3]])
}

#[test]
fn test_tensor_indexing_1() {
    let a = Tensor::new(ElemKind::Float, f32_bytes(&[0.0, 1.0, 2.0, 3.0]));

    assert_eq!(f32_at(&a, &vec![0]), 0f32);
    assert_eq!(f32_at(&a, &vec![1]), 1f32);
    assert_eq!(f32_at(&a, &vec![2]), 2f32);
    assert_eq!(f32_at(&a, &vec![3]), 3f32);
}

#[test]
fn test_tensor_indexing_2() {
    let a = Tensor::with_shape(
        ElemKind::Float,
        f32_bytes(&[0.0, 0.1, 0.2, 1.0, 1.1, 1.2]),
        vec![2, 3],
    )
    .unwrap();

    assert_eq!(f32_at(&a, &vec![0, 0]), 0f32);
    assert_eq!(f32_at(&a, &vec![0, 1]), 0.1f32);
    assert_eq!(f32_at(&a, &vec![0, 2]), 0.2f32);
    assert_eq!(f32_at(&a, &vec![1, 0]), 1.0f32);
    assert_eq!(f32_at(&a, &vec![1, 1]), 1.1f32);
    assert_eq!(f32_at(&a, &vec![1, 2]), 1.2f32);
}

#[test]
fn with_shape_round_trip() {
    let v = f32_bytes(&[1.5, 2.5, 3.5, 4.5, 5.5, 6.5]);
    let t = Tensor::with_shape(ElemKind::Float, v.clone(), vec![3, 2]).unwrap();
    assert_eq!(t.get_value(), &v);
    assert_eq!(t.get_shape(), &vec![3, 2]);
    assert_eq!(t.get_change(), 0);
}

#[test]
fn with_shape_wrong_count_is_shape_error() {
    let v = f32_bytes(&[1.0, 2.0]);
    let r = Tensor::with_shape(ElemKind::Float, v, vec![3]);
    assert!(matches!(r, Err(TensorError::ShapeError(_))));
}

#[test]
fn change_value_wrong_count_is_shape_error() {
    let mut t = Tensor::new_i32(vec![1, 2, 3]);
    let r = t.change_value(vec![0u8; 8]);
    assert!(matches!(r, Err(TensorError::ShapeError(_))));
    assert_eq!(t.get_change(), 0);
    let r2 = t.change_value(vec![0u8; 12]);
    assert!(r2.is_ok());
    assert_eq!(t.get_change(), 1);
}

#[test]
fn zeros_from_shape_is_zero_filled() {
    let t = Tensor::zeros_from_shape(ElemKind::Double, vec![2, 2]);
    assert_eq!(t.get_value(), &vec![0u8; 32]);
    assert_eq!(t.get_shape(), &vec![2, 2]);
}

#[test]
fn new_i32_encodes_little_endian() {
    let t = Tensor::new_i32(vec![-1, 2]);
    assert_eq!(
        t.get_value(),
        &vec![0xff, 0xff, 0xff, 0xff, 2, 0, 0, 0]
    );
    assert_eq!(t.get_shape(), &vec![2]);
    let u = Tensor::new_u32(vec![0x01020304]);
    assert_eq!(u.get_value(), &vec![4, 3, 2, 1]);
}

#[test]
fn broadcast_rules() {
    assert_eq!(infer_shape(&vec![1], &vec![5]).unwrap(), vec![5]);
    assert_eq!(infer_shape(&vec![5], &vec![1]).unwrap(), vec![5]);
    assert_eq!(infer_shape(&vec![2, 3], &vec![2, 3]).unwrap(), vec![2, 3]);
    assert!(matches!(
        infer_shape(&vec![3], &vec![2]),
        Err(TensorError::ShapeError(_))
    ));
    assert!(matches!(
        infer_shape(&vec![2, 3], &vec![3]),
        Err(TensorError::ShapeError(_))
    ));
}

#[test]
fn type_promotion_is_by_strength() {
    assert_eq!(ElemKind::promote(ElemKind::Int, ElemKind::Float), ElemKind::Float);
    assert_eq!(ElemKind::promote(ElemKind::Double, ElemKind::UInt), ElemKind::Double);
    assert_eq!(ElemKind::promote(ElemKind::UInt, ElemKind::Int), ElemKind::UInt);
    assert!(ElemKind::Int.strength() < ElemKind::UInt.strength());
    assert!(ElemKind::UInt.strength() < ElemKind::Float.strength());
    assert!(ElemKind::Float.strength() < ElemKind::Double.strength());
}

#[test]
fn mixed_kind_graph_promotes() {
    let mut store = TensorStore::new();
    let a = store.insert(Tensor::new_i32(vec![1, 2, 3]));
    let b = store.insert(Tensor::new(ElemKind::Float, f32_bytes(&[1.0])));
    let op = Operation::of_tensors(&store, a, b, TwoValueOperation::Multiply).unwrap();
    let desc = op.desc_of(&store);
    assert_eq!(desc.kind, ElemKind::Float);
    assert_eq!(desc.shape, vec![3]);
}

#[test]
fn tensor_on_the_left_keeps_operand_order() {
    let mut store = TensorStore::new();
    let a = store.insert(Tensor::new_i32(vec![1, 2, 3]));
    let b = store.insert(Tensor::new_i32(vec![4, 5, 6]));
    let c = store.insert(Tensor::new_i32(vec![7, 8, 9]));
    let op = Operation::of_tensors(&store, a, b, TwoValueOperation::Add).unwrap();
    let op = Operation::tensor_then(&store, c, op, TwoValueOperation::Subtract).unwrap();
    let gpu = Processor::new(ProcessorSelectionConstraint::Any);
    let result_tensor = Tensor::zeros_from_shape(ElemKind::Int, vec![3]);
    let shader = gpu.build(&store, op, result_tensor).unwrap();
    // the fresh tensor stands on the left of the rendered expression,
    // bound to the next unused slot
    assert!(shader
        .source()
        .as_str()
        .contains("result[index] = (inv2[index] - (inv0[index] + inv1[index]));"));
}

#[test]
fn incompatible_shapes_fail_at_build_time() {
    let mut store = TensorStore::new();
    let a = store.insert(Tensor::new_i32(vec![1, 2, 3]));
    let b = store.insert(Tensor::new_i32(vec![1, 2]));
    let r = Operation::of_tensors(&store, a, b, TwoValueOperation::Add);
    assert!(matches!(r, Err(TensorError::ShapeError(_))));
}

#[test]
fn binding_dedup_same_tensor_twice() {
    let mut store = TensorStore::new();
    let a = store.insert(Tensor::new_i32(vec![1, 2, 3]));
    let b = store.insert(Tensor::new_i32(vec![4, 5, 6]));

    // a + a: both leaves share slot 0
    let op = Operation::of_tensors(&store, a, a, TwoValueOperation::Add).unwrap();
    assert_eq!(op.get_last_binding(), 0);

    // (a + b) * a: the second reference to `a` reuses slot 0
    let op = Operation::of_tensors(&store, a, b, TwoValueOperation::Add).unwrap();
    let op = op.then_tensor(&store, a, TwoValueOperation::Multiply).unwrap();
    assert_eq!(op.get_last_binding(), 1);

    let gpu = Processor::new(ProcessorSelectionConstraint::GPU);
    let result_tensor = Tensor::zeros_from_shape(ElemKind::Int, vec![3]);
    let mut shader = gpu.build(&store, op, result_tensor).unwrap();
    assert_eq!(shader.bindings().len(), 2);

    // one version change of `a` orders exactly one upload
    let new_a = Tensor::new_i32(vec![7, 8, 9]);
    store.change_value(a, new_a.get_value().clone()).unwrap();
    let plan = shader.plan_execute(&store);
    assert_eq!(plan.uploads.len(), 1);
    assert_eq!(plan.uploads[0].binding, 0);
}

#[test]
fn unchanged_artifact_re_uploads_nothing() {
    let mut store = TensorStore::new();
    let a = store.insert(Tensor::new_i32(vec![1, 2, 3]));
    let b = store.insert(Tensor::new_i32(vec![4, 5, 6]));
    let op = Operation::of_tensors(&store, a, b, TwoValueOperation::Add).unwrap();
    let gpu = Processor::new(ProcessorSelectionConstraint::Any);
    let result_tensor = Tensor::zeros_from_shape(ElemKind::Int, vec![3]);
    let mut shader = gpu.build(&store, op, result_tensor).unwrap();

    let plan1 = shader.plan_execute(&store);
    assert_eq!(plan1.uploads.len(), 0);
    assert!(!plan1.rebind);
    let readback: Vec<u8> = vec![5, 0, 0, 0, 7, 0, 0, 0, 9, 0, 0, 0];
    let out1 = gpu.execute(&mut shader, readback.clone()).unwrap();

    let plan2 = shader.plan_execute(&store);
    assert_eq!(plan2.uploads.len(), 0);
    assert!(!plan2.rebind);
    let out2 = gpu.execute(&mut shader, readback).unwrap();

    assert_eq!(out1.get_value(), out2.get_value());
    assert_eq!(out1.get_shape(), out2.get_shape());
}

#[test]
fn change_value_re_uploads_exactly_that_input() {
    let mut store = TensorStore::new();
    let a = store.insert(Tensor::new_i32(vec![1, 2, 3]));
    let b = store.insert(Tensor::new_i32(vec![4, 5, 6]));
    let op = Operation::of_tensors(&store, a, b, TwoValueOperation::Add).unwrap();
    let gpu = Processor::new(ProcessorSelectionConstraint::Any);
    let result_tensor = Tensor::zeros_from_shape(ElemKind::Int, vec![3]);
    let mut shader = gpu.build(&store, op, result_tensor).unwrap();

    let new_b = Tensor::new_i32(vec![10, 11, 12]);
    store.change_value(b, new_b.get_value().clone()).unwrap();

    let plan = shader.plan_execute(&store);
    assert_eq!(plan.uploads.len(), 1);
    assert_eq!(plan.uploads[0].binding, 1);
    assert_eq!(&plan.uploads[0].data, new_b.get_value());
    assert!(plan.rebind);

    // and the sweep after that is quiet again
    let plan2 = shader.plan_execute(&store);
    assert_eq!(plan2.uploads.len(), 0);
}

#[test]
fn int_add_matches_elementwise() {
    let mut store = TensorStore::new();
    let a = store.insert(Tensor::new_i32(vec![10, 20, 30]));
    let b = store.insert(Tensor::new_i32(vec![1, 2, 3]));
    let op = Operation::of_tensors(&store, a, b, TwoValueOperation::Add).unwrap();
    let gpu = Processor::new(ProcessorSelectionConstraint::Any);
    let result_tensor = Tensor::zeros_from_shape(ElemKind::Int, vec![3]);
    let mut shader = gpu.build(&store, op, result_tensor).unwrap();

    // a backend meeting the kernel contract returns the elementwise sum
    let _plan = shader.plan_execute(&store);
    let av: Vec<i32> = store
        .get(a)
        .get_value()
        .chunks_exact(4)
        .map(|c| i32::from_le_bytes([c[0], c[1], c[2], c[3]]))
        .collect();
    let bv: Vec<i32> = store
        .get(b)
        .get_value()
        .chunks_exact(4)
        .map(|c| i32::from_le_bytes([c[0], c[1], c[2], c[3]]))
        .collect();
    let mut readback: Vec<u8> = Vec::new();
    for i in 0..3 {
        readback.extend_from_slice(&(av[i].wrapping_add(bv[i])).to_le_bytes());
    }
    let out = gpu.execute(&mut shader, readback).unwrap();
    let ov: Vec<i32> = out
        .get_value()
        .chunks_exact(4)
        .map(|c| i32::from_le_bytes([c[0], c[1], c[2], c[3]]))
        .collect();
    assert_eq!(ov, vec![11, 22, 33]);
    assert_eq!(out.get_shape(), &vec![3]);
}

#[test]
fn leaf_graph_is_unimplemented() {
    let mut store = TensorStore::new();
    let a = store.insert(Tensor::new_i32(vec![1, 2, 3]));
    let gpu = Processor::new(ProcessorSelectionConstraint::Any);
    let result_tensor = Tensor::zeros_from_shape(ElemKind::Int, vec![3]);
    let r = gpu.build(&store, Operation::Var { binding: 0, tensor: a }, result_tensor);
    assert!(matches!(r, Err(TensorError::Unimplemented(_))));
}

#[test]
fn execute_checks_kind_and_shape() {
    let mut store = TensorStore::new();
    let a = store.insert(Tensor::new_i32(vec![1, 2, 3]));
    let b = store.insert(Tensor::new_i32(vec![4, 5, 6]));
    let gpu = Processor::new(ProcessorSelectionConstraint::Any);

    // result tensor of the wrong element kind: a type error
    let op = Operation::of_tensors(&store, a, b, TwoValueOperation::Add).unwrap();
    let wrong_kind = Tensor::zeros_from_shape(ElemKind::Float, vec![3]);
    let mut shader = gpu.build(&store, op, wrong_kind).unwrap();
    let r = gpu.execute(&mut shader, vec![0u8; 12]);
    assert!(matches!(r, Err(TensorError::TypeError(_))));

    // result tensor of the wrong shape: a shape error
    let op = Operation::of_tensors(&store, a, b, TwoValueOperation::Add).unwrap();
    let wrong_shape = Tensor::zeros_from_shape(ElemKind::Int, vec![4]);
    let mut shader = gpu.build(&store, op, wrong_shape).unwrap();
    let r = gpu.execute(&mut shader, vec![0u8; 12]);
    assert!(matches!(r, Err(TensorError::ShapeError(_))));

    // readback of the wrong width: a device error
    let op = Operation::of_tensors(&store, a, b, TwoValueOperation::Add).unwrap();
    let right = Tensor::zeros_from_shape(ElemKind::Int, vec![3]);
    let mut shader = gpu.build(&store, op, right).unwrap();
    let r = gpu.execute(&mut shader, vec![0u8; 8]);
    assert!(matches!(r, Err(TensorError::DeviceError(_))));
}

#[test]
fn rendered_source_is_exact() {
    let src = build_shader().unwrap();
    let expected = "#version 450\n\
                    layout(local_size_x = 1) in;\n\
                    \n\
                    readonly layout(set = 0, binding = 0) buffer b0 {\n\
                    int[] inv0;\n\
                    };\n\
                    \n\
                    readonly layout(set = 0, binding = 1) buffer b1 {\n\
                    int[] inv1;\n\
                    };\n\
                    \n\
                    layout(set = 0, binding = 2) buffer b2 {\n\
                    int[] result;\n\
                    };\n\
                    \n\
                    void main() {\n\
                    uint index = gl_GlobalInvocationID.x;\n\
                    result[index] = (inv0[index] + inv1[index]);\n\
                    }\n";
    assert_eq!(src, expected);
}

#[test]
fn scalar_operand_renders_unindexed() {
    let mut store = TensorStore::new();
    let a = store.insert(Tensor::new(ElemKind::Float, f32_bytes(&[1.0, 2.0, 3.0])));
    let b = store.insert(Tensor::new(ElemKind::Float, f32_bytes(&[2.0])));
    let op = Operation::of_tensors(&store, a, b, TwoValueOperation::Divide).unwrap();
    let gpu = Processor::new(ProcessorSelectionConstraint::Any);
    let result_tensor = Tensor::zeros_from_shape(ElemKind::Float, vec![3]);
    let shader = gpu.build(&store, op, result_tensor).unwrap();
    let src = shader.source().as_str();
    assert!(src.contains("float inv1;"));
    assert!(src.contains("float[] inv0;"));
    assert!(src.contains("result[index] = (inv0[index] / inv1);"));
    assert_eq!(shader.result_binding(), 2);
    assert_eq!(shader.out_count(), 3);
    assert_eq!(shader.out_bytes(), 12);
}

#[test]
fn instruction_text() {
    assert_eq!(
        AddInstruction::build_gpu(String::from("a"), String::from("b")),
        "a + b"
    );
    assert_eq!(
        SubtInstruction::build_gpu(String::from("a"), String::from("b")),
        "a - b"
    );
    assert_eq!(
        MultInstruction::build_gpu(String::from("x"), String::from("y")),
        "x * y"
    );
    assert_eq!(
        DivInstruction::build_gpu(String::from("x"), String::from("y")),
        "x / y"
    );
    assert_eq!(SqrtInstruction::build_gpu(String::from("v")), "sqrt(v)");
}

#[test]
fn run_returns_nothing_yet() {
    assert_eq!(run(), Vec::<u32>::new());
}

#[test]
fn desc_copy_and_clone_shape() {
    let d = ResultDesc { kind: ElemKind::UInt, shape: vec![4, 2] };
    let c = d.copy();
    assert_eq!(c.kind, ElemKind::UInt);
    assert_eq!(c.shape, vec![4, 2]);
    assert_eq!(clone_shape(&vec![7, 1]), vec![7, 1]);
}
