use cvitek::error::NnError;
use cvitek::tensor::{tensor_from_shape, OutputData, OutputTensor};

fn fault(dims: &[usize], len: usize) -> String {
    match tensor_from_shape(dims, OutputData::Bits(vec![0; len]), "out") {
        Err(NnError::TensorOp(text)) => text,
        other => panic!("unexpected: {:?}", other),
    }
}

#[test]
fn four_axes_make_a_4d_tensor() {
    let data = OutputData::Bits((0..24).collect());
    match tensor_from_shape(&[1, 2, 3, 4], data, "out") {
        Ok(OutputTensor::Float4D { shape, data: OutputData::Bits(bits) }) => {
            assert_eq!(shape.dims(), &[1, 2, 3, 4]);
            assert_eq!(bits, (0..24).collect::<Vec<u32>>());
        }
        other => panic!("unexpected: {:?}", other),
    }
}

#[test]
fn other_ranks_make_an_nd_tensor() {
    for dims in [vec![], vec![6], vec![2, 3], vec![1, 1, 2, 1, 3], vec![1, 2, 1, 3, 1, 1]] {
        let len = dims.iter().product::<usize>();
        let distances: Vec<i32> = (0..len as i32).collect();
        let data = OutputData::Scaled { distances: distances.clone(), scale: 77 };
        match tensor_from_shape(&dims, data, "out") {
            Ok(OutputTensor::FloatND {
                shape,
                data: OutputData::Scaled { distances: kept, scale },
            }) => {
                assert_eq!(shape.dims(), &dims[..]);
                assert_eq!(kept, distances);
                assert_eq!(scale, 77);
            }
            other => panic!("unexpected: {:?}", other),
        }
    }
}

#[test]
fn shapes_that_do_not_fit_are_refused() {
    let few = "reshape failed for 'out': ShapeError/OutOfBounds: out of bounds indexing";
    let many = "reshape failed for 'out': ShapeError/IncompatibleShape: incompatible shapes";
    let overflow = "reshape failed for 'out': ShapeError/Overflow: arithmetic overflow";
    assert_eq!(fault(&[1, 2, 3, 4], 23), few);
    assert_eq!(fault(&[1, 2, 3, 4], 25), many);
    assert_eq!(fault(&[2, 3], 5), few);
    assert_eq!(fault(&[2, 3], 7), many);
    assert_eq!(fault(&[], 0), few);
    assert_eq!(fault(&[], 2), many);
    assert_eq!(fault(&[0, 2, 3, 4], 1), many);
    assert_eq!(fault(&[usize::MAX, 2, 1, 1], 2), overflow);
    assert_eq!(fault(&[usize::MAX, 2], 2), overflow);
    assert_eq!(fault(&[isize::MAX as usize + 1], 2), overflow);
    assert_eq!(fault(&[isize::MAX as usize], 2), few);
    assert_eq!(fault(&[0, usize::MAX, 2, 2], 0), overflow);
    assert_eq!(fault(&[usize::MAX, usize::MAX, 0, usize::MAX, 3], 0), overflow);
}

#[test]
fn axes_of_length_zero_take_no_values() {
    for dims in [vec![0, 2, 3, 4], vec![5, 0], vec![0]] {
        assert!(tensor_from_shape(&dims, OutputData::Bits(vec![]), "out").is_ok());
    }
}
