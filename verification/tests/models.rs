use cvitek::backend::{CviTekBackend, CVI_RC_SUCCESS};
use cvitek::descriptor::{CviShape, CviTensor, TensorShape};
use cvitek::error::NnError;
use cvitek::format::CviFmt;
use cvitek::tensor::{InputTensor, OutputData, OutputTensor};
use cvitek::tensor_map::TensorMap;

fn tensor(name: &str, dims: &[i32], fmt: CviFmt, mem: Option<usize>) -> CviTensor {
    let mut dim = [0i32; 6];
    dim[..dims.len()].copy_from_slice(dims);
    CviTensor {
        name: Some(name.as_bytes().to_vec()),
        shape: CviShape { dim, dim_size: dims.len() },
        fmt,
        count: dims.iter().map(|d| *d as usize).product(),
        sys_mem: mem.map(|n| vec![0u8; n]),
        qscale: 0.5f32.to_bits(),
        zero_point: 1,
    }
}

fn load(inputs: Vec<CviTensor>, outputs: Vec<CviTensor>) -> CviTekBackend {
    let pending = CviTekBackend::from_file("/opt/model.cvimodel").unwrap();
    let registered = pending.registered(CVI_RC_SUCCESS, false).unwrap();
    let (n, m) = (inputs.len(), outputs.len());
    let listed = registered
        .listed(CVI_RC_SUCCESS, &Some(inputs), n, &Some(outputs), m)
        .unwrap();
    listed.described(&Some(b"cv181x".to_vec()), (1, 4))
}

fn slots() -> Vec<CviTensor> {
    vec![
        tensor("image", &[1, 1, 2, 2], CviFmt::Int8, Some(4)),
        tensor("bias", &[2], CviFmt::Fp32, Some(9)),
    ]
}

fn input(values: &[f32]) -> InputTensor {
    InputTensor {
        shape: TensorShape::new(vec![values.len()]),
        values: Ok(values.iter().map(|v| v.to_bits()).collect()),
    }
}

fn inputs() -> TensorMap<InputTensor> {
    let mut map = TensorMap::new();
    map.insert("image".to_string(), input(&[0.0, 0.5, -1.0, 99.0]));
    map.insert("bias".to_string(), input(&[1.0, 2.0]));
    map.insert("unused".to_string(), input(&[3.0]));
    map
}

fn load_text(error: NnError) -> String {
    match error {
        NnError::ModelLoad(text) => text,
        other => panic!("unexpected: {:?}", other),
    }
}

#[test]
fn path_becomes_a_c_string() {
    let pending = CviTekBackend::from_file("/m/é.cvimodel").unwrap();
    let mut want = "/m/é.cvimodel".as_bytes().to_vec();
    want.push(0);
    assert_eq!(pending.c_path(), &want[..]);
    assert_eq!(CviTekBackend::from_file("").unwrap().c_path(), &[0u8][..]);
}

#[test]
fn path_with_a_nul_byte_is_refused() {
    let error = CviTekBackend::from_file("é\0b\0").unwrap_err();
    assert_eq!(
        load_text(error),
        "model path contains interior NUL byte: é\0b\0 (nul byte found in provided data at \
         position: 2)"
    );
}

#[test]
fn failed_registration_carries_code_and_path() {
    let pending = CviTekBackend::from_file("a.cvimodel").unwrap();
    assert_eq!(
        load_text(pending.registered(-7, true).unwrap_err()),
        "CVI_NN_RegisterModel failed (rc=-7, path=a.cvimodel)"
    );
    let pending = CviTekBackend::from_file("a.cvimodel").unwrap();
    assert_eq!(
        load_text(pending.registered(0, true).unwrap_err()),
        "CVI_NN_RegisterModel failed (rc=0, path=a.cvimodel)"
    );
    let pending = CviTekBackend::from_file("a.cvimodel").unwrap();
    assert_eq!(
        load_text(pending.registered(i32::MIN, false).unwrap_err()),
        "CVI_NN_RegisterModel failed (rc=-2147483648, path=a.cvimodel)"
    );
}

#[test]
fn failed_listing_releases_the_model() {
    let registered = CviTekBackend::from_file("a").unwrap().registered(0, false).unwrap();
    let failure = registered.listed(13, &None, 0, &None, 0).unwrap_err();
    assert!(failure.release);
    assert_eq!(
        load_text(failure.error),
        "CVI_NN_GetInputOutputTensors failed (rc=13)"
    );
}

#[test]
fn null_arrays_fail_without_release() {
    for (ins, outs) in [(1usize, 0usize), (0, 1)] {
        let registered = CviTekBackend::from_file("a").unwrap().registered(0, false).unwrap();
        let failure = registered.listed(0, &None, ins, &None, outs).unwrap_err();
        assert!(!failure.release);
        assert_eq!(load_text(failure.error), "tensor array pointer is null");
    }
}

#[test]
fn target_defaults_to_unknown() {
    let registered = CviTekBackend::from_file("a").unwrap().registered(0, false).unwrap();
    let listed = registered.listed(0, &None, 0, &None, 0).unwrap();
    let backend = listed.described(&None, (0, 0));
    assert_eq!(backend.target(), "unknown");
    assert_eq!(backend.model_version(), (0, 0));
    assert!(backend.input_names().is_empty());
    assert_eq!(backend.memory_usage(), 0);
}

#[test]
fn ill_formed_target_is_repaired() {
    let registered = CviTekBackend::from_file("a").unwrap().registered(0, false).unwrap();
    let listed = registered.listed(0, &None, 0, &None, 0).unwrap();
    let backend = listed.described(&Some(b"cv\xfe".to_vec()), (2, 3));
    assert_eq!(backend.target(), "cv\u{fffd}");
    assert_eq!(backend.model_version(), (2, 3));
}

#[test]
fn loaded_model_describes_itself() {
    let backend = load(slots(), vec![tensor("pose", &[1, 3], CviFmt::Bf16, None)]);
    assert_eq!(backend.name(), "cvitek");
    assert!(backend.is_available());
    assert_eq!(backend.target(), "cv181x");
    assert_eq!(backend.model_version(), (1, 4));
    assert_eq!(backend.input_names(), vec!["image", "bias"]);
    assert_eq!(backend.output_names(), vec!["pose"]);
    assert_eq!(backend.input_shape("image").unwrap().dims(), &[1, 1, 2, 2]);
    assert_eq!(backend.input_shape("bias").unwrap().dims(), &[2]);
    assert!(backend.input_shape("pose").is_none());
    assert_eq!(backend.output_shape("pose").unwrap().dims(), &[1, 3]);
    assert!(backend.output_shape("image").is_none());
    let info = backend.inputs_info();
    assert_eq!(info.len(), 2);
    assert_eq!(info[0].0, "image");
    assert_eq!(info[0].1.dims(), &[1, 1, 2, 2]);
    assert_eq!(info[0].2, "int8");
    assert_eq!(f32::from_bits(info[0].3), 0.5);
    assert_eq!(info[0].4, 1);
    assert_eq!(info[1].2, "fp32");
    let info = backend.outputs_info();
    assert_eq!(info[0].0, "pose");
    assert_eq!(info[0].2, "bf16");
    assert!(backend.memory_usage_fits());
    assert_eq!(backend.memory_usage(), 4 + 2 * 4 + 3 * 2);
    assert_eq!(backend.quotient_scales(), vec![Some(0.5f32.to_bits()), None]);
}

#[test]
fn first_of_equal_names_gives_the_shape() {
    let twice = vec![
        tensor("x", &[2], CviFmt::Fp32, None),
        tensor("x", &[3], CviFmt::Fp32, None),
    ];
    let backend = load(twice, vec![]);
    assert_eq!(backend.input_shape("x").unwrap().dims(), &[2]);
}

#[test]
fn sizes_beyond_the_machine_are_noticed() {
    let mut huge = tensor("x", &[1], CviFmt::Fp32, None);
    huge.count = usize::MAX;
    assert!(!load(vec![huge], vec![]).memory_usage_fits());
    let mut most = tensor("x", &[1], CviFmt::Int8, None);
    most.count = usize::MAX;
    let backend = load(vec![most], vec![]);
    assert!(backend.memory_usage_fits());
    assert_eq!(backend.memory_usage(), usize::MAX);
    let mut most = tensor("x", &[1], CviFmt::Int8, None);
    most.count = usize::MAX;
    let backend = load(vec![most], vec![tensor("y", &[1], CviFmt::Uint8, None)]);
    assert!(!backend.memory_usage_fits());
}

#[test]
fn inputs_are_staged_in_their_buffers() {
    let backend = load(slots(), vec![]);
    let mut runtime = slots();
    let quotients = vec![vec![0, 1, -2, 198], vec![]];
    let done = backend.stage_inputs(&inputs(), &quotients, &mut runtime);
    assert!(matches!(done, Some(Ok(()))));
    assert_eq!(runtime[0].sys_mem, Some(vec![1, 2, 0xff, 127]));
    let mut bias = vec![];
    bias.extend_from_slice(&1.0f32.to_le_bytes());
    bias.extend_from_slice(&2.0f32.to_le_bytes());
    bias.push(0);
    assert_eq!(runtime[1].sys_mem, Some(bias));
}

#[test]
fn slots_may_stand_in_another_order() {
    let backend = load(slots(), vec![]);
    let mut runtime = slots();
    runtime.reverse();
    let quotients = vec![vec![0, 1, -2, 198], vec![]];
    assert!(matches!(
        backend.stage_inputs(&inputs(), &quotients, &mut runtime),
        Some(Ok(()))
    ));
    assert_eq!(runtime[1].sys_mem, Some(vec![1, 2, 0xff, 127]));
}

#[test]
fn missing_input_is_named() {
    let backend = load(slots(), vec![]);
    let mut runtime = slots();
    let mut given = TensorMap::new();
    given.insert("image".to_string(), input(&[0.0, 0.5, -1.0, 99.0]));
    let quotients = vec![vec![0, 1, -2, 198]];
    match backend.stage_inputs(&given, &quotients, &mut runtime) {
        Some(Err(NnError::InvalidInput(text))) => {
            assert_eq!(text, "missing input tensor 'bias'")
        }
        other => panic!("unexpected: {:?}", other),
    }
    // The input before it was written.
    assert_eq!(runtime[0].sys_mem, Some(vec![1, 2, 0xff, 127]));
    assert_eq!(runtime[1].sys_mem, Some(vec![0; 9]));
}

#[test]
fn first_refused_input_decides() {
    let backend = load(slots(), vec![]);
    let mut runtime = slots();
    runtime[0].sys_mem = None;
    runtime[1].sys_mem = None;
    match backend.stage_inputs(&inputs(), &vec![], &mut runtime) {
        Some(Err(NnError::Inference(text))) => assert_eq!(
            text,
            "input 'image' has no sys_mem buffer (runtime did not allocate)"
        ),
        other => panic!("unexpected: {:?}", other),
    }
}

#[test]
fn input_that_gives_no_floats_is_refused_with_its_own_error() {
    let backend = load(slots(), vec![]);
    let mut runtime = slots();
    runtime[1].sys_mem = None;
    let mut given = inputs();
    given.insert(
        "bias".to_string(),
        InputTensor {
            shape: TensorShape::new(vec![7]),
            values: Err(NnError::TensorOp("not a float tensor".to_string())),
        },
    );
    match backend.stage_inputs(&given, &vec![vec![0, 1, -2, 198], vec![]], &mut runtime) {
        Some(Err(NnError::TensorOp(text))) => assert_eq!(text, "not a float tensor"),
        other => panic!("unexpected: {:?}", other),
    }
    // The input before it was written.
    assert_eq!(runtime[0].sys_mem, Some(vec![1, 2, 0xff, 127]));
    assert_eq!(runtime[1].sys_mem, None);
}

#[test]
fn nameless_input_is_found_under_the_empty_name() {
    let nameless = || {
        let mut x = tensor("", &[2], CviFmt::Int8, Some(2));
        x.name = None;
        vec![tensor("image", &[1], CviFmt::Int8, Some(1)), x]
    };
    let backend = load(nameless(), vec![]);
    assert_eq!(backend.input_names(), vec!["image", ""]);
    let mut given = TensorMap::new();
    given.insert("image".to_string(), input(&[0.0]));
    given.insert("".to_string(), input(&[1.0, 2.0]));
    let mut runtime = nameless();
    assert!(matches!(
        backend.stage_inputs(&given, &vec![vec![0], vec![2, 4]], &mut runtime),
        Some(Ok(()))
    ));
    assert_eq!(runtime[0].sys_mem, Some(vec![1]));
    assert_eq!(runtime[1].sys_mem, Some(vec![3, 5]));
}

#[test]
fn input_without_a_slot_is_refused() {
    let backend = load(slots(), vec![]);
    let mut runtime = vec![];
    match backend.stage_inputs(&inputs(), &vec![], &mut runtime) {
        Some(Err(NnError::InvalidInput(text))) => {
            assert_eq!(text, "tensor 'image' not present in runtime descriptor")
        }
        other => panic!("unexpected: {:?}", other),
    }
}

#[test]
fn unusable_quotients_stop_the_pass() {
    let backend = load(slots(), vec![]);
    for quotients in [vec![], vec![vec![0, 1, 2]], vec![vec![0, 1, 2, i32::MAX], vec![]]] {
        let mut runtime = slots();
        assert!(backend.stage_inputs(&inputs(), &quotients, &mut runtime).is_none());
        assert_eq!(runtime[0].sys_mem, Some(vec![0; 4]));
    }
}

#[test]
fn other_runtime_tensors_are_untouched() {
    let backend = load(slots(), vec![]);
    let mut runtime = slots();
    runtime.insert(1, tensor("scratch", &[4], CviFmt::Int8, Some(4)));
    let quotients = vec![vec![0, 1, -2, 198], vec![]];
    assert!(matches!(
        backend.stage_inputs(&inputs(), &quotients, &mut runtime),
        Some(Ok(()))
    ));
    assert_eq!(runtime[1].sys_mem, Some(vec![0; 4]));
    assert_eq!(runtime.len(), 3);
    assert_eq!(runtime[0].name, Some(b"image".to_vec()));
    assert_eq!(runtime[0].count, 4);
}

#[test]
fn forward_code_is_reported() {
    let backend = load(vec![], vec![]);
    assert!(backend.forward_status(CVI_RC_SUCCESS).is_ok());
    match backend.forward_status(-3) {
        Err(NnError::Inference(text)) => assert_eq!(text, "CVI_NN_Forward failed (rc=-3)"),
        other => panic!("unexpected: {:?}", other),
    }
}

#[test]
fn outputs_are_collected_by_name() {
    let outs = || {
        vec![
            tensor("pose", &[1, 1, 1, 2], CviFmt::Fp32, Some(8)),
            tensor("mask", &[3], CviFmt::Uint8, Some(3)),
        ]
    };
    let backend = load(vec![], outs());
    let mut runtime = outs();
    let mut bytes = 1.25f32.to_le_bytes().to_vec();
    bytes.extend_from_slice(&(-8.0f32).to_le_bytes());
    runtime[0].sys_mem = Some(bytes);
    runtime[1].sys_mem = Some(vec![0, 1, 255]);
    let map = backend.collect_outputs(&runtime).unwrap().unwrap();
    match map.get(&"pose".to_string()) {
        Some(OutputTensor::Float4D { shape, data: OutputData::Bits(bits) }) => {
            assert_eq!(shape.dims(), &[1, 1, 1, 2]);
            assert_eq!(bits, &vec![1.25f32.to_bits(), (-8.0f32).to_bits()]);
        }
        other => panic!("unexpected: {:?}", other),
    }
    match map.get(&"mask".to_string()) {
        Some(OutputTensor::FloatND { shape, data: OutputData::Scaled { distances, scale } }) => {
            assert_eq!(shape.dims(), &[3]);
            assert_eq!(distances, &vec![-1, 0, 254]);
            assert_eq!(*scale, 0.5f32.to_bits());
        }
        other => panic!("unexpected: {:?}", other),
    }
    assert!(map.get(&"other".to_string()).is_none());
}

#[test]
fn last_of_equal_output_names_stays() {
    let outs = || {
        vec![
            tensor("x", &[1], CviFmt::Uint8, Some(1)),
            tensor("x", &[1, 1], CviFmt::Uint8, Some(1)),
        ]
    };
    let backend = load(vec![], outs());
    let map = backend.collect_outputs(&outs()).unwrap().unwrap();
    match map.get(&"x".to_string()) {
        Some(OutputTensor::FloatND { shape, .. }) => assert_eq!(shape.dims(), &[1, 1]),
        other => panic!("unexpected: {:?}", other),
    }
}

#[test]
fn first_refused_output_decides() {
    let outs = || {
        vec![
            tensor("a", &[1], CviFmt::Uint8, Some(1)),
            tensor("b", &[1], CviFmt::Int16, Some(2)),
            tensor("c", &[1], CviFmt::Uint8, None),
        ]
    };
    let backend = load(vec![], outs());
    match backend.collect_outputs(&outs()) {
        Some(Err(NnError::Unsupported(text))) => {
            assert_eq!(text, "output 'b' uses unsupported dtype Int16")
        }
        other => panic!("unexpected: {:?}", other),
    }
    let mut runtime = outs();
    runtime.remove(0);
    match backend.collect_outputs(&runtime) {
        Some(Err(NnError::InvalidInput(text))) => {
            assert_eq!(text, "tensor 'a' not present in runtime descriptor")
        }
        other => panic!("unexpected: {:?}", other),
    }
}

#[test]
fn short_output_buffer_stops_the_pass() {
    let outs = vec![tensor("a", &[2], CviFmt::Fp32, Some(7))];
    let backend = load(vec![], vec![tensor("a", &[2], CviFmt::Fp32, None)]);
    assert!(backend.collect_outputs(&outs).is_none());
}

#[test]
fn messages_tell_return_codes_apart() {
    let backend = load(vec![], vec![]);
    let texts: Vec<String> = [-12, -2, -1, 1, 2, 12]
        .iter()
        .map(|rc| format!("{:?}", backend.forward_status(*rc)))
        .collect();
    for i in 0..texts.len() {
        for j in 0..i {
            assert_ne!(texts[i], texts[j]);
        }
    }
}
