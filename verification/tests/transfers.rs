use cvitek::descriptor::{CviShape, CviTensor, TensorMeta, TensorShape};
use cvitek::error::NnError;
use cvitek::format::CviFmt;
use cvitek::scale::effective_scale;
use cvitek::tensor::{InputTensor, OutputData, OutputTensor};
use cvitek::transfer::{can_read, can_write, read_tensor, write_tensor};

fn slot(sys_mem: Option<Vec<u8>>) -> CviTensor {
    CviTensor {
        name: Some(b"t".to_vec()),
        shape: CviShape { dim: [0; 6], dim_size: 0 },
        fmt: CviFmt::Fp32,
        count: 0,
        sys_mem,
        qscale: 0,
        zero_point: 0,
    }
}

fn meta(fmt: CviFmt, dims: Vec<usize>, qscale: f32, zero_point: i32) -> TensorMeta {
    TensorMeta {
        name: "t".to_string(),
        count: dims.iter().product(),
        shape: TensorShape::new(dims),
        fmt,
        qscale: qscale.to_bits(),
        zero_point,
    }
}

fn input(dims: Vec<usize>, values: &[f32]) -> InputTensor {
    InputTensor {
        shape: TensorShape::new(dims),
        values: Ok(values.iter().map(|v| v.to_bits()).collect()),
    }
}

fn quotients(values: &[f32], meta: &TensorMeta) -> Vec<i32> {
    let scale = f32::from_bits(effective_scale(meta.qscale));
    values.iter().map(|v| (v / scale).round() as i32).collect()
}

fn values(tensor: &OutputTensor) -> Vec<f32> {
    let data = match tensor {
        OutputTensor::Float4D { data, .. } => data,
        OutputTensor::FloatND { data, .. } => data,
    };
    match data {
        OutputData::Bits(bits) => bits.iter().map(|b| f32::from_bits(*b)).collect(),
        OutputData::Scaled { distances, scale } => {
            let scale = f32::from_bits(*scale);
            distances.iter().map(|d| *d as f32 * scale).collect()
        }
    }
}

#[test]
fn floats_are_written_verbatim_and_read_back() {
    let m = meta(CviFmt::Fp32, vec![1, 1, 2, 2], 0.0, 9);
    let given = [1.5f32, -0.0, f32::MAX, 1e-40];
    let user = input(vec![1, 1, 2, 2], &given);
    let mut cvi = slot(Some(vec![0xee; 18]));
    assert!(can_write(&user, &vec![], &cvi, &m));
    assert!(write_tensor(&user, &vec![], &mut cvi, &m).is_ok());
    let bytes = cvi.sys_mem.clone().unwrap();
    assert_eq!(&bytes[..4], &1.5f32.to_le_bytes());
    assert_eq!(&bytes[16..], &[0xee, 0xee]);
    assert!(can_read(&cvi, &m));
    match read_tensor(&cvi, &m) {
        Ok(OutputTensor::Float4D { shape, data: OutputData::Bits(bits) }) => {
            assert_eq!(shape.dims(), &[1, 1, 2, 2]);
            assert_eq!(bits, user.values.unwrap());
        }
        other => panic!("unexpected: {:?}", other),
    }
}

#[test]
fn signed_values_are_quantised_and_read_back() {
    let m = meta(CviFmt::Int8, vec![5], 0.5, 3);
    let given = [0.0f32, 1.0, -1.3, 1000.0, -1000.0];
    let user = input(vec![5], &given);
    let q = quotients(&given, &m);
    let mut cvi = slot(Some(vec![0; 5]));
    assert!(can_write(&user, &q, &cvi, &m));
    assert!(write_tensor(&user, &q, &mut cvi, &m).is_ok());
    assert_eq!(cvi.sys_mem, Some(vec![3, 5, 0, 127, 128]));
    assert!(can_read(&cvi, &m));
    let tensor = read_tensor(&cvi, &m).unwrap();
    assert_eq!(values(&tensor), vec![0.0, 1.0, -1.5, 62.0, -65.5]);
}

#[test]
fn unsigned_values_are_quantised_and_read_back() {
    let m = meta(CviFmt::Uint8, vec![2, 2], 0.25, 128);
    let given = [0.0f32, -32.0, 31.75, 100.0];
    let user = input(vec![4], &given);
    let q = quotients(&given, &m);
    let mut cvi = slot(Some(vec![1; 6]));
    assert!(write_tensor(&user, &q, &mut cvi, &m).is_ok());
    assert_eq!(cvi.sys_mem, Some(vec![128, 0, 255, 255, 1, 1]));
    let tensor = read_tensor(&cvi, &m).unwrap();
    assert_eq!(values(&tensor), vec![0.0, -32.0, 31.75, 31.75]);
}

#[test]
fn scale_of_zero_is_floored_on_the_way_out() {
    let m = meta(CviFmt::Int8, vec![1], 0.0, 0);
    let cvi = slot(Some(vec![2]));
    match read_tensor(&cvi, &m) {
        Ok(OutputTensor::FloatND { data: OutputData::Scaled { distances, scale }, .. }) => {
            assert_eq!(distances, vec![2]);
            assert_eq!(scale, f32::EPSILON.to_bits());
        }
        other => panic!("unexpected: {:?}", other),
    }
}

#[test]
fn values_that_are_no_floats_are_refused_before_all_else() {
    let errors = || {
        vec![
            NnError::ModelLoad("a".to_string()),
            NnError::InvalidInput("b".to_string()),
            NnError::Inference("c".to_string()),
            NnError::ShapeMismatch { expected: vec![1, 2], actual: vec![3] },
            NnError::TensorOp("d".to_string()),
            NnError::Unsupported("e".to_string()),
        ]
    };
    for (given, want) in errors().into_iter().zip(errors()) {
        // The count, the element type and the buffer are all wrong too.
        for (fmt, mem) in [(CviFmt::Bf16, None), (CviFmt::Int8, Some(vec![7]))] {
            let m = meta(fmt, vec![1, 2, 2, 1], 1.0, i32::MAX);
            let user = InputTensor {
                shape: TensorShape::new(vec![9]),
                values: Err(given.clone()),
            };
            let mut cvi = slot(mem.clone());
            assert!(can_write(&user, &vec![], &cvi, &m));
            let error = write_tensor(&user, &vec![], &mut cvi, &m).unwrap_err();
            assert_eq!(format!("{:?}", error), format!("{:?}", want));
            assert_eq!(cvi.sys_mem, mem);
        }
    }
}

#[test]
fn writing_what_was_read_keeps_the_buffer() {
    let all: Vec<u8> = (0..=255).collect();
    for fmt in [CviFmt::Int8, CviFmt::Uint8] {
        let m = meta(fmt, vec![256], 0.5, -9);
        let mut held = all.clone();
        held.extend_from_slice(&[0xaa, 0xbb]);
        let mut cvi = slot(Some(held.clone()));
        let tensor = read_tensor(&cvi, &m).unwrap();
        let floats = values(&tensor);
        let q = quotients(&floats, &m);
        match &tensor {
            OutputTensor::FloatND { data: OutputData::Scaled { distances, .. }, .. } => {
                assert_eq!(&q, distances)
            }
            other => panic!("unexpected: {:?}", other),
        }
        assert!(write_tensor(&input(vec![256], &floats), &q, &mut cvi, &m).is_ok());
        assert_eq!(cvi.sys_mem, Some(held));
    }
    let m = meta(CviFmt::Fp32, vec![2, 32], 0.0, 0);
    let mut cvi = slot(Some(all.clone()));
    let bits = match read_tensor(&cvi, &m).unwrap() {
        OutputTensor::FloatND { data: OutputData::Bits(bits), .. } => bits,
        other => panic!("unexpected: {:?}", other),
    };
    let user = InputTensor { shape: TensorShape::new(vec![64]), values: Ok(bits) };
    cvi.sys_mem.as_mut().unwrap()[17] = 0;
    assert!(write_tensor(&user, &vec![], &mut cvi, &m).is_ok());
    assert_eq!(cvi.sys_mem, Some(all));
}

#[test]
fn quantised_bytes_keep_the_order_of_the_quotients() {
    let q = vec![-400, -3, 0, 0, 5, 90, 400];
    let user = input(vec![7], &[0.0; 7]);
    let mut cvi = slot(Some(vec![0; 7]));
    let signed = meta(CviFmt::Int8, vec![7], 1.0, 10);
    assert!(write_tensor(&user, &q, &mut cvi, &signed).is_ok());
    assert_eq!(cvi.sys_mem, Some(vec![0x80, 7, 10, 10, 15, 100, 127]));
    let unsigned = meta(CviFmt::Uint8, vec![7], 1.0, 10);
    assert!(write_tensor(&user, &q, &mut cvi, &unsigned).is_ok());
    assert_eq!(cvi.sys_mem, Some(vec![0, 7, 10, 10, 15, 100, 255]));
}

#[test]
fn wrong_element_count_is_a_shape_mismatch() {
    let m = meta(CviFmt::Fp32, vec![1, 2, 2, 1], 1.0, 0);
    let user = input(vec![3], &[1.0, 2.0, 3.0]);
    // The count is looked at before the buffer.
    let mut cvi = slot(None);
    match write_tensor(&user, &vec![], &mut cvi, &m) {
        Err(NnError::ShapeMismatch { expected, actual }) => {
            assert_eq!(expected, vec![1, 2, 2, 1]);
            assert_eq!(actual, vec![3]);
        }
        other => panic!("unexpected: {:?}", other),
    }
}

#[test]
fn other_shapes_with_the_right_count_are_taken() {
    let m = meta(CviFmt::Fp32, vec![1, 2, 2, 1], 1.0, 0);
    let user = input(vec![4], &[1.0, 2.0, 3.0, 4.0]);
    let mut cvi = slot(Some(vec![0; 16]));
    assert!(write_tensor(&user, &vec![], &mut cvi, &m).is_ok());
}

#[test]
fn missing_input_buffer_is_an_inference_error() {
    let m = meta(CviFmt::Int8, vec![1], 1.0, 0);
    let user = input(vec![1], &[1.0]);
    let mut cvi = slot(None);
    match write_tensor(&user, &vec![1], &mut cvi, &m) {
        Err(NnError::Inference(text)) => assert_eq!(
            text,
            "input 't' has no sys_mem buffer (runtime did not allocate)"
        ),
        other => panic!("unexpected: {:?}", other),
    }
}

#[test]
fn short_float_buffer_is_an_inference_error() {
    let m = meta(CviFmt::Fp32, vec![3], 1.0, 0);
    let user = input(vec![3], &[1.0, 2.0, 3.0]);
    let mut cvi = slot(Some(vec![0; 11]));
    match write_tensor(&user, &vec![], &mut cvi, &m) {
        Err(NnError::Inference(text)) => {
            assert_eq!(text, "input 't' buffer too small: got 11 bytes, need 12")
        }
        other => panic!("unexpected: {:?}", other),
    }
    assert_eq!(cvi.sys_mem, Some(vec![0; 11]));
}

#[test]
fn short_byte_buffers_are_inference_errors() {
    for (fmt, want) in [
        (CviFmt::Int8, "input 't' int8 buffer too small (1 < 3)"),
        (CviFmt::Uint8, "input 't' uint8 buffer too small (1 < 3)"),
    ] {
        let m = meta(fmt, vec![3], 1.0, 0);
        let user = input(vec![3], &[1.0, 2.0, 3.0]);
        let mut cvi = slot(Some(vec![0; 1]));
        match write_tensor(&user, &vec![1, 2, 3], &mut cvi, &m) {
            Err(NnError::Inference(text)) => assert_eq!(text, want),
            other => panic!("unexpected: {:?}", other),
        }
    }
}

#[test]
fn other_element_types_are_unsupported() {
    for (fmt, ident) in [
        (CviFmt::Int32, "Int32"),
        (CviFmt::Uint32, "Uint32"),
        (CviFmt::Bf16, "Bf16"),
        (CviFmt::Int16, "Int16"),
        (CviFmt::Uint16, "Uint16"),
    ] {
        let m = meta(fmt, vec![1], 1.0, 0);
        let user = input(vec![1], &[1.0]);
        let mut cvi = slot(Some(vec![0; 4]));
        match write_tensor(&user, &vec![], &mut cvi, &m) {
            Err(NnError::Unsupported(text)) => {
                assert_eq!(text, format!("input 't' uses unsupported dtype {}", ident))
            }
            other => panic!("unexpected: {:?}", other),
        }
        assert!(can_read(&cvi, &m));
        match read_tensor(&cvi, &m) {
            Err(NnError::Unsupported(text)) => {
                assert_eq!(text, format!("output 't' uses unsupported dtype {}", ident))
            }
            other => panic!("unexpected: {:?}", other),
        }
    }
}

#[test]
fn missing_output_buffer_is_an_inference_error() {
    let m = meta(CviFmt::Bf16, vec![1], 1.0, 0);
    let cvi = slot(None);
    assert!(can_read(&cvi, &m));
    match read_tensor(&cvi, &m) {
        Err(NnError::Inference(text)) => assert_eq!(text, "output 't' has no sys_mem buffer"),
        other => panic!("unexpected: {:?}", other),
    }
}

#[test]
fn output_whose_shape_does_not_fit_is_refused() {
    let mut m = meta(CviFmt::Uint8, vec![2, 2], 1.0, 0);
    m.count = 3;
    let cvi = slot(Some(vec![0; 3]));
    match read_tensor(&cvi, &m) {
        Err(NnError::TensorOp(text)) => assert_eq!(
            text,
            "reshape failed for 't': ShapeError/OutOfBounds: out of bounds indexing"
        ),
        other => panic!("unexpected: {:?}", other),
    }
}

#[test]
fn readiness_is_noticed() {
    let user = input(vec![2], &[1.0, 2.0]);
    let i8_meta = meta(CviFmt::Int8, vec![2], 1.0, 1);
    let room = slot(Some(vec![0; 2]));
    assert!(can_write(&user, &vec![1, 2], &room, &i8_meta));
    assert!(!can_write(&user, &vec![1], &room, &i8_meta));
    assert!(!can_write(&user, &vec![1, i32::MAX], &room, &i8_meta));
    assert!(can_write(&user, &vec![1, i32::MAX], &slot(Some(vec![0])), &i8_meta));
    assert!(can_write(&user, &vec![], &slot(None), &i8_meta));
    assert!(!can_read(&slot(Some(vec![0])), &i8_meta));
    assert!(!can_read(&slot(Some(vec![0; 7])), &meta(CviFmt::Fp32, vec![2], 1.0, 0)));
    assert!(can_read(&slot(Some(vec![0; 8])), &meta(CviFmt::Fp32, vec![2], 1.0, 0)));
}
