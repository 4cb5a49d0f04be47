//! Elementwise computation through the whole pipeline, with the test
//! standing in for the accelerator backend: it keeps the device-buffer
//! copies that build and upload orders populate, evaluates the kernel's
//! arithmetic over those copies, and hands the bytes back for decoding.

use gda_core::graph::Operation;
use gda_core::kind::{ElemKind, TwoValueOperation};
use gda_core::processor::{Processor, ProcessorSelectionConstraint};
use gda_core::shader::{ExecutePlan, Shader};
use gda_core::store::TensorStore;
use gda_core::tensor::Tensor;

fn f32_bytes(vals: &[f32]) -> Vec<u8> {
    let mut out: Vec<u8> = Vec::new();
    for v in vals {
        out.extend_from_slice(&v.to_le_bytes());
    }
    out
}

fn f32_vals(bytes: &[u8]) -> Vec<f32> {
    bytes
        .chunks_exact(4)
        .map(|c| f32::from_le_bytes([c[0], c[1], c[2], c[3]]))
        .collect()
}

/// The device buffers as they stand after `Shader::build`: one copy of
/// each bound tensor's bytes, keyed by binding slot.
fn buffers_init(shader: &Shader, store: &TensorStore) -> Vec<(u32, Vec<u8>)> {
    shader
        .bindings()
        .iter()
        .map(|b| (b.id, store.get(b.tensor).get_value().clone()))
        .collect()
}

/// Apply one planned sweep's upload orders to the device buffers.
fn apply_uploads(buffers: &mut Vec<(u32, Vec<u8>)>, plan: &ExecutePlan) {
    for cmd in plan.uploads.iter() {
        for slot in buffers.iter_mut() {
            if slot.0 == cmd.binding {
                slot.1 = cmd.data.clone();
            }
        }
    }
}

fn buf<'a>(buffers: &'a [(u32, Vec<u8>)], id: u32) -> Vec<f32> {
    for slot in buffers.iter() {
        if slot.0 == id {
            return f32_vals(&slot.1);
        }
    }
    panic!("no buffer bound to that slot");
}

#[test]
fn test_add_1() {
    let mut store = TensorStore::new();
    let a = store.insert(Tensor::new(ElemKind::Float, f32_bytes(&[1.0, 2.0, 3.0])));
    let b = store.insert(Tensor::new(ElemKind::Float, f32_bytes(&[1.0])));
    let result_tensor = Tensor::zeros_from_shape(ElemKind::Float, vec![3]);
    let op = Operation::of_tensors(&store, a, b, TwoValueOperation::Add).unwrap();
    let gpu = Processor::new(ProcessorSelectionConstraint::Any);
    let mut shader = gpu.build(&store, op, result_tensor).unwrap();
    let mut buffers = buffers_init(&shader, &store);
    let plan = shader.plan_execute(&store);
    apply_uploads(&mut buffers, &plan);
    let av = buf(&buffers, 0);
    let bv = buf(&buffers, 1);
    let readback = f32_bytes(&[av[0] + bv[0], av[1] + bv[0], av[2] + bv[0]]);
    let res1 = gpu.execute(&mut shader, readback);

    let v_result = f32_vals(res1.unwrap().get_value());

    assert_eq!(v_result[0], 2f32);
    assert_eq!(v_result[1], 3f32);
    assert_eq!(v_result[2], 4f32);
}

#[test]
fn test_add_2() {
    let mut store = TensorStore::new();
    let a = store.insert(Tensor::new(ElemKind::Float, f32_bytes(&[1.0, 2.0, 3.0])));
    let b = store.insert(Tensor::new(ElemKind::Float, f32_bytes(&[2.0])));
    let result_tensor = Tensor::zeros_from_shape(ElemKind::Float, vec![3]);
    let op = Operation::of_tensors(&store, a, b, TwoValueOperation::Add).unwrap();
    let gpu = Processor::new(ProcessorSelectionConstraint::Any);
    let mut shader = gpu.build(&store, op, result_tensor).unwrap();
    let mut buffers = buffers_init(&shader, &store);
    let plan = shader.plan_execute(&store);
    apply_uploads(&mut buffers, &plan);
    let av = buf(&buffers, 0);
    let bv = buf(&buffers, 1);
    let readback = f32_bytes(&[av[0] + bv[0], av[1] + bv[0], av[2] + bv[0]]);
    let res1 = gpu.execute(&mut shader, readback);

    let v_result = f32_vals(res1.unwrap().get_value());

    assert_eq!(v_result[0], 3f32);
    assert_eq!(v_result[1], 4f32);
    assert_eq!(v_result[2], 5f32);
}

#[test]
fn test_add_t() {
    let mut store = TensorStore::new();
    let a = store.insert(Tensor::new(ElemKind::Float, f32_bytes(&[1.0, 2.0, 3.0])));
    let b = store.insert(Tensor::new(ElemKind::Float, f32_bytes(&[1.0, 2.0, 3.0])));
    let result_tensor = Tensor::zeros_from_shape(ElemKind::Float, vec![3]);
    let op = Operation::of_tensors(&store, a, b, TwoValueOperation::Add).unwrap();
    let gpu = Processor::new(ProcessorSelectionConstraint::Any);
    let mut shader = gpu.build(&store, op, result_tensor).unwrap();
    let mut buffers = buffers_init(&shader, &store);
    let plan = shader.plan_execute(&store);
    apply_uploads(&mut buffers, &plan);
    let av = buf(&buffers, 0);
    let bv = buf(&buffers, 1);
    let readback = f32_bytes(&[av[0] + bv[0], av[1] + bv[1], av[2] + bv[2]]);
    let res1 = gpu.execute(&mut shader, readback);

    let v_result = f32_vals(res1.unwrap().get_value());

    assert_eq!(v_result[0], 2f32);
    assert_eq!(v_result[1], 4f32);
    assert_eq!(v_result[2], 6f32);
}

#[test]
fn test_subt_1() {
    let mut store = TensorStore::new();
    let a = store.insert(Tensor::new(ElemKind::Float, f32_bytes(&[1.0, 2.0, 3.0])));
    let b = store.insert(Tensor::new(ElemKind::Float, f32_bytes(&[1.0])));
    let result_tensor = Tensor::zeros_from_shape(ElemKind::Float, vec![3]);
    let op = Operation::of_tensors(&store, a, b, TwoValueOperation::Subtract).unwrap();
    let gpu = Processor::new(ProcessorSelectionConstraint::Any);
    let mut shader = gpu.build(&store, op, result_tensor).unwrap();
    let mut buffers = buffers_init(&shader, &store);
    let plan = shader.plan_execute(&store);
    apply_uploads(&mut buffers, &plan);
    let av = buf(&buffers, 0);
    let bv = buf(&buffers, 1);
    let readback = f32_bytes(&[av[0] - bv[0], av[1] - bv[0], av[2] - bv[0]]);
    let res1 = gpu.execute(&mut shader, readback);

    let v_result = f32_vals(res1.unwrap().get_value());

    assert_eq!(v_result[0], 0f32);
    assert_eq!(v_result[1], 1f32);
    assert_eq!(v_result[2], 2f32);
}

#[test]
fn test_subt_2() {
    let mut store = TensorStore::new();
    let a = store.insert(Tensor::new(ElemKind::Float, f32_bytes(&[1.0, 2.0, 3.0])));
    let b = store.insert(Tensor::new(ElemKind::Float, f32_bytes(&[2.0])));
    let result_tensor = Tensor::zeros_from_shape(ElemKind::Float, vec![3]);
    let op = Operation::of_tensors(&store, a, b, TwoValueOperation::Subtract).unwrap();
    let gpu = Processor::new(ProcessorSelectionConstraint::Any);
    let mut shader = gpu.build(&store, op, result_tensor).unwrap();
    let mut buffers = buffers_init(&shader, &store);
    let plan = shader.plan_execute(&store);
    apply_uploads(&mut buffers, &plan);
    let av = buf(&buffers, 0);
    let bv = buf(&buffers, 1);
    let readback = f32_bytes(&[av[0] - bv[0], av[1] - bv[0], av[2] - bv[0]]);
    let res1 = gpu.execute(&mut shader, readback);

    let v_result = f32_vals(res1.unwrap().get_value());

    assert_eq!(v_result[0], -1f32);
    assert_eq!(v_result[1], 0f32);
    assert_eq!(v_result[2], 1f32);
}

#[test]
fn test_subt_t() {
    let mut store = TensorStore::new();
    let a = store.insert(Tensor::new(ElemKind::Float, f32_bytes(&[2.0, 4.0, 17.0])));
    let b = store.insert(Tensor::new(ElemKind::Float, f32_bytes(&[1.0, 2.0, 3.0])));
    let result_tensor = Tensor::zeros_from_shape(ElemKind::Float, vec![3]);
    let op = Operation::of_tensors(&store, a, b, TwoValueOperation::Subtract).unwrap();
    let gpu = Processor::new(ProcessorSelectionConstraint::Any);
    let mut shader = gpu.build(&store, op, result_tensor).unwrap();
    let mut buffers = buffers_init(&shader, &store);
    let plan = shader.plan_execute(&store);
    apply_uploads(&mut buffers, &plan);
    let av = buf(&buffers, 0);
    let bv = buf(&buffers, 1);
    let readback = f32_bytes(&[av[0] - bv[0], av[1] - bv[1], av[2] - bv[2]]);
    let res1 = gpu.execute(&mut shader, readback);

    let v_result = f32_vals(res1.unwrap().get_value());

    assert_eq!(v_result[0], 1f32);
    assert_eq!(v_result[1], 2f32);
    assert_eq!(v_result[2], 14f32);
}

#[test]
fn test_complex_op() {
    let mut store = TensorStore::new();
    let a = store.insert(Tensor::new(ElemKind::Float, f32_bytes(&[2.0, 4.0, 17.0])));
    let b = store.insert(Tensor::new(ElemKind::Float, f32_bytes(&[1.0, 2.0, 3.0])));
    let c = store.insert(Tensor::new(ElemKind::Float, f32_bytes(&[1.0, 1.0, 4.0])));
    let d = store.insert(Tensor::new(ElemKind::Float, f32_bytes(&[1.0, 2.0, 3.0])));
    let e = store.insert(Tensor::new(ElemKind::Float, f32_bytes(&[1.0])));
    let result_tensor = Tensor::zeros_from_shape(ElemKind::Float, vec![3]);

    let op = Operation::of_tensors(&store, a, b, TwoValueOperation::Add).unwrap();
    let op = op
        .then_tensor(&store, c, TwoValueOperation::Subtract)
        .unwrap();
    let op2 = Operation::of_tensors(&store, d, e, TwoValueOperation::Subtract).unwrap();
    let op = op.combine(&store, op2, TwoValueOperation::Subtract).unwrap();

    let gpu = Processor::new(ProcessorSelectionConstraint::Any);
    let mut shader = gpu.build(&store, op, result_tensor).unwrap();
    assert_eq!(shader.bindings().len(), 5);
    let mut buffers = buffers_init(&shader, &store);
    let plan = shader.plan_execute(&store);
    apply_uploads(&mut buffers, &plan);
    let av = buf(&buffers, 0);
    let bv = buf(&buffers, 1);
    let cv = buf(&buffers, 2);
    let dv = buf(&buffers, 3);
    let ev = buf(&buffers, 4);
    let readback = f32_bytes(&[
        ((av[0] + bv[0]) - cv[0]) - (dv[0] - ev[0]),
        ((av[1] + bv[1]) - cv[1]) - (dv[1] - ev[0]),
        ((av[2] + bv[2]) - cv[2]) - (dv[2] - ev[0]),
    ]);
    let res1 = gpu.execute(&mut shader, readback);

    let v_result = f32_vals(res1.unwrap().get_value());

    assert_eq!(v_result[0], (2f32 + 1f32 - 1f32) - (1f32 - 1f32));
    assert_eq!(v_result[1], (4f32 + 2f32 - 1f32) - (2f32 - 1f32));
    assert_eq!(v_result[2], (17f32 + 3f32 - 4f32) - (3f32 - 1f32));
}
