use cvitek::descriptor::{
    snapshot_tensors, tensor_slot_mut, tensor_slot_ref, CviShape, CviTensor, TensorMeta,
    TensorShape,
};
use cvitek::error::NnError;
use cvitek::format::CviFmt;

fn tensor(name: Option<&[u8]>, dims: &[i32], fmt: CviFmt, count: usize) -> CviTensor {
    let mut dim = [0i32; 6];
    dim[..dims.len()].copy_from_slice(dims);
    CviTensor {
        name: name.map(|n| n.to_vec()),
        shape: CviShape { dim, dim_size: dims.len() },
        fmt,
        count,
        sys_mem: None,
        qscale: 0.5f32.to_bits(),
        zero_point: -4,
    }
}

fn meta(name: &str) -> TensorMeta {
    TensorMeta {
        name: name.to_string(),
        shape: TensorShape::new(vec![1]),
        fmt: CviFmt::Fp32,
        count: 1,
        qscale: 0,
        zero_point: 0,
    }
}

#[test]
fn recorded_fields() {
    let array = Some(vec![
        tensor(Some(b"image"), &[1, 3, 384, 640], CviFmt::Int8, 737_280),
        tensor(None, &[-1, 5, -7], CviFmt::Fp32, 5),
    ]);
    let metas = snapshot_tensors(&array, 2).unwrap();
    assert_eq!(metas.len(), 2);
    assert_eq!(metas[0].name, "image");
    assert_eq!(metas[0].shape.dims(), &[1, 3, 384, 640]);
    assert_eq!(metas[0].fmt, CviFmt::Int8);
    assert_eq!(metas[0].count, 737_280);
    assert_eq!(metas[0].qscale, 0.5f32.to_bits());
    assert_eq!(metas[0].zero_point, -4);
    assert_eq!(metas[1].name, "");
    assert_eq!(metas[1].shape.dims(), &[0, 5, 0]);
}

#[test]
fn no_tensors_are_recorded_from_an_empty_array() {
    assert_eq!(snapshot_tensors(&None, 0).unwrap().len(), 0);
    assert_eq!(snapshot_tensors(&Some(vec![]), 0).unwrap().len(), 0);
}

#[test]
fn null_array_is_refused() {
    match snapshot_tensors(&None, 1) {
        Err(NnError::ModelLoad(text)) => assert_eq!(text, "tensor array pointer is null"),
        other => panic!("unexpected: {:?}", other),
    }
}

#[test]
fn rank_zero_and_rank_six() {
    let array = Some(vec![
        tensor(Some(b"a"), &[], CviFmt::Fp32, 1),
        tensor(Some(b"b"), &[1, 2, 3, 4, 5, 6], CviFmt::Fp32, 720),
    ]);
    let metas = snapshot_tensors(&array, 2).unwrap();
    assert!(metas[0].shape.dims().is_empty());
    assert_eq!(metas[1].shape.dims(), &[1, 2, 3, 4, 5, 6]);
}

#[test]
fn ill_formed_names_are_announced_repaired() {
    let array = Some(vec![tensor(Some(b"a\xffb"), &[1], CviFmt::Fp32, 1)]);
    let metas = snapshot_tensors(&array, 1).unwrap();
    assert_eq!(metas[0].name, "a\u{fffd}b");
}

#[test]
fn ill_formed_names_are_not_found() {
    let slots = vec![tensor(Some(b"a\xffb"), &[1], CviFmt::Fp32, 1)];
    match tensor_slot_ref(&slots, &meta("a\u{fffd}b")) {
        Err(NnError::InvalidInput(text)) => assert_eq!(
            text,
            "tensor 'a\u{fffd}b' not present in runtime descriptor"
        ),
        other => panic!("unexpected: {:?}", other),
    }
    assert!(tensor_slot_ref(&slots, &meta("")).is_ok());
}

#[test]
fn names_in_other_scripts_are_found() {
    let name = "τένσορ-画像";
    let slots = vec![
        tensor(None, &[1], CviFmt::Fp32, 1),
        tensor(Some(name.as_bytes()), &[1], CviFmt::Int8, 1),
    ];
    assert_eq!(tensor_slot_ref(&slots, &meta(name)).unwrap().fmt, CviFmt::Int8);
}

#[test]
fn first_of_equal_names_is_found() {
    let mut slots = vec![
        tensor(Some(b"x"), &[1], CviFmt::Fp32, 1),
        tensor(Some(b"y"), &[1], CviFmt::Int8, 2),
        tensor(Some(b"y"), &[1], CviFmt::Uint8, 3),
    ];
    assert_eq!(tensor_slot_ref(&slots, &meta("y")).unwrap().count, 2);
    tensor_slot_mut(&mut slots, &meta("y")).unwrap().count = 7;
    assert_eq!(slots[0].count, 1);
    assert_eq!(slots[1].count, 7);
    assert_eq!(slots[2].count, 3);
}

#[test]
fn missing_slot_is_an_invalid_input() {
    let mut slots = vec![tensor(Some(b"x"), &[1], CviFmt::Fp32, 1)];
    match tensor_slot_mut(&mut slots, &meta("z")) {
        Err(NnError::InvalidInput(text)) => {
            assert_eq!(text, "tensor 'z' not present in runtime descriptor")
        }
        other => panic!("unexpected: {:?}", other),
    }
}

#[test]
fn recorded_tensors_are_found_again() {
    let slots = vec![
        tensor(Some(b"one"), &[1], CviFmt::Fp32, 1),
        tensor(Some(b"two"), &[1], CviFmt::Fp32, 2),
        tensor(Some(b"three"), &[1], CviFmt::Fp32, 3),
    ];
    let array = Some(slots);
    let metas = snapshot_tensors(&array, 3).unwrap();
    let slots = array.unwrap();
    for i in 0..3 {
        assert_eq!(tensor_slot_ref(&slots, &metas[i]).unwrap().count, i + 1);
    }
}

#[test]
fn shapes_are_copied() {
    let shape = TensorShape::new(vec![2, 3]);
    assert_eq!(shape.clone().dims(), shape.dims());
}
