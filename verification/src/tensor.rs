//! Tensors that go into a pass and come out of it.
use vstd::prelude::*;

use crate::descriptor::TensorShape;
use crate::error::{NnError, NnErrorView};
use crate::text::join3;

verus! {

/// A caller's tensor: its axis lengths, and its values as the bit patterns of floats, or the
/// error with which it refuses to give them as floats.
#[derive(Debug)]
pub struct InputTensor {
    pub shape: TensorShape,
    pub values: Result<Vec<u32>, NnError>,
}

/// An [`InputTensor`] with sequences.
pub struct InputTensorView {
    pub dims: Seq<usize>,
    pub values: Result<Seq<u32>, NnErrorView>,
}

impl View for InputTensor {
    type V = InputTensorView;

    open spec fn view(&self) -> InputTensorView {
        InputTensorView {
            dims: self.shape@,
            values: match self.values {
                Ok(bits) => Ok(bits@),
                Err(e) => Err(e@),
            },
        }
    }
}

/// The values of an output tensor.
#[derive(Debug)]
pub enum OutputData {
    /// The bit patterns of the floats themselves.
    Bits(Vec<u32>),
    /// Each value is a distance from the zero point times the scale, whose bit pattern is
    /// given.
    Scaled { distances: Vec<i32>, scale: u32 },
}

/// An [`OutputData`] with sequences.
pub enum OutputDataView {
    Bits(Seq<u32>),
    Scaled { distances: Seq<i32>, scale: u32 },
}

impl View for OutputData {
    type V = OutputDataView;

    open spec fn view(&self) -> OutputDataView {
        match self {
            OutputData::Bits(bits) => OutputDataView::Bits(bits@),
            OutputData::Scaled { distances, scale } => OutputDataView::Scaled {
                distances: distances@,
                scale: *scale,
            },
        }
    }
}

impl OutputDataView {
    /// Number of values.
    pub open spec fn len(self) -> nat {
        match self {
            OutputDataView::Bits(bits) => bits.len(),
            OutputDataView::Scaled { distances, .. } => distances.len(),
        }
    }
}

/// A tensor read from the runtime, in row-major order.
#[derive(Debug)]
pub enum OutputTensor {
    /// A tensor of rank four.
    Float4D { shape: TensorShape, data: OutputData },
    /// A tensor of any other rank.
    FloatND { shape: TensorShape, data: OutputData },
}

/// An [`OutputTensor`] with sequences.
pub enum OutputTensorView {
    Float4D { dims: Seq<usize>, data: OutputDataView },
    FloatND { dims: Seq<usize>, data: OutputDataView },
}

impl View for OutputTensor {
    type V = OutputTensorView;

    open spec fn view(&self) -> OutputTensorView {
        match self {
            OutputTensor::Float4D { shape, data } => OutputTensorView::Float4D {
                dims: shape@,
                data: data@,
            },
            OutputTensor::FloatND { shape, data } => OutputTensorView::FloatND {
                dims: shape@,
                data: data@,
            },
        }
    }
}

impl OutputTensorView {
    /// The axis lengths.
    pub open spec fn dims(self) -> Seq<usize> {
        match self {
            OutputTensorView::Float4D { dims, .. } => dims,
            OutputTensorView::FloatND { dims, .. } => dims,
        }
    }

    /// The values.
    pub open spec fn data(self) -> OutputDataView {
        match self {
            OutputTensorView::Float4D { data, .. } => data,
            OutputTensorView::FloatND { data, .. } => data,
        }
    }
}

/// Number of elements of a tensor with these axis lengths.
pub open spec fn element_count(dims: Seq<usize>) -> nat
    decreases dims.len(),
{
    if dims.len() == 0 {
        1
    } else {
        element_count(dims.drop_last()) * (dims.last() as nat)
    }
}

/// The product of the axis lengths that are not zero.
pub open spec fn nonzero_extent(dims: Seq<usize>) -> nat
    decreases dims.len(),
{
    if dims.len() == 0 {
        1
    } else if dims.last() == 0 {
        nonzero_extent(dims.drop_last())
    } else {
        nonzero_extent(dims.drop_last()) * (dims.last() as nat)
    }
}

/// Why `len` elements cannot take the given axis lengths, if they cannot.
pub open spec fn reshape_fault(dims: Seq<usize>, len: nat) -> Option<Seq<char>> {
    if nonzero_extent(dims) > isize::MAX {
        Some("ShapeError/Overflow: arithmetic overflow"@)
    } else if element_count(dims) > len {
        Some("ShapeError/OutOfBounds: out of bounds indexing"@)
    } else if element_count(dims) < len {
        Some("ShapeError/IncompatibleShape: incompatible shapes"@)
    } else {
        None
    }
}

/// Calls [`ndarray::Array4::from_shape_vec`] with four axis lengths in row-major order and
/// hands the array's elements back. It refuses a shape whose non-zero axis lengths multiply to
/// more than `isize::MAX`, then one with more elements than there are, then one with fewer;
/// the text is that of its [`ndarray::ShapeError`].
#[verifier::external_body]
fn array4_from_shape_vec<T>(d0: usize, d1: usize, d2: usize, d3: usize, data: Vec<T>) -> (shaped:
    Result<Vec<T>, String>)
    ensures
        match reshape_fault(seq![d0, d1, d2, d3], data@.len()) {
            None => shaped matches Ok(elements) && elements@ == data@,
            Some(fault) => shaped matches Err(text) && text@ == fault,
        },
{
    match ndarray::Array4::from_shape_vec((d0, d1, d2, d3), data) {
        Ok(array) => Ok(array.into_raw_vec()),
        Err(e) => Err(e.to_string()),
    }
}

/// Calls [`ndarray::ArrayD::from_shape_vec`] with any number of axis lengths in row-major order
/// and hands the array's elements back. It refuses the same shapes as for four axes.
#[verifier::external_body]
fn array_from_shape_vec<T>(dims: &[usize], data: Vec<T>) -> (shaped: Result<Vec<T>, String>)
    ensures
        match reshape_fault(dims@, data@.len()) {
            None => shaped matches Ok(elements) && elements@ == data@,
            Some(fault) => shaped matches Err(text) && text@ == fault,
        },
{
    match ndarray::ArrayD::from_shape_vec(ndarray::IxDyn(dims), data) {
        Ok(array) => Ok(array.into_raw_vec()),
        Err(e) => Err(e.to_string()),
    }
}

fn shape_elements<T>(dims: &[usize], data: Vec<T>) -> (shaped: Result<Vec<T>, String>)
    ensures
        match reshape_fault(dims@, data@.len()) {
            None => shaped matches Ok(elements) && elements@ == data@,
            Some(fault) => shaped matches Err(text) && text@ == fault,
        },
{
    if dims.len() == 4 {
        assert(dims@ =~= seq![dims@[0], dims@[1], dims@[2], dims@[3]]);
        array4_from_shape_vec(dims[0], dims[1], dims[2], dims[3], data)
    } else {
        array_from_shape_vec(dims, data)
    }
}

/// The tensor that values form under the given axis lengths, or the error in its place.
pub open spec fn shaped(dims: Seq<usize>, data: OutputDataView, name: Seq<char>) -> Result<
    OutputTensorView,
    NnErrorView,
> {
    match reshape_fault(dims, data.len()) {
        Some(fault) => Err(
            NnErrorView::TensorOp("reshape failed for '"@ + name + "': "@ + fault),
        ),
        None => Ok(
            if dims.len() == 4 {
                OutputTensorView::Float4D { dims, data }
            } else {
                OutputTensorView::FloatND { dims, data }
            },
        ),
    }
}

/// A tensor, or the error in its place, as a view.
pub open spec fn tensor_result_view(r: Result<OutputTensor, NnError>) -> Result<
    OutputTensorView,
    NnErrorView,
> {
    match r {
        Ok(t) => Ok(t@),
        Err(e) => Err(e@),
    }
}

/// Brings values into the given axis lengths.
pub fn tensor_from_shape(dims: &[usize], data: OutputData, name: &str) -> (tensor: Result<
    OutputTensor,
    NnError,
>)
    ensures
        tensor_result_view(tensor) == shaped(dims@, data@, name@),
{
    let kept: Result<OutputData, String> = match data {
        OutputData::Bits(bits) => match shape_elements(dims, bits) {
            Ok(elements) => Ok(OutputData::Bits(elements)),
            Err(fault) => Err(fault),
        },
        OutputData::Scaled { distances, scale } => match shape_elements(dims, distances) {
            Ok(elements) => Ok(OutputData::Scaled { distances: elements, scale }),
            Err(fault) => Err(fault),
        },
    };
    match kept {
        Ok(data) => {
            let shape = TensorShape::new(vstd::slice::slice_to_vec(dims));
            if dims.len() == 4 {
                Ok(OutputTensor::Float4D { shape, data })
            } else {
                Ok(OutputTensor::FloatND { shape, data })
            }
        },
        Err(fault) => {
            let mut text = join3("reshape failed for '", name, "': ");
            text.append(fault.as_str());
            Err(NnError::TensorOp(text))
        },
    }
}

/// A tensor that comes out has as many values as its axis lengths say, keeps those lengths and
/// values, and is four-dimensional exactly when there are four axes.
pub proof fn law_shape_holds_the_values(dims: Seq<usize>, data: OutputDataView, name: Seq<char>)
    ensures
        shaped(dims, data, name) matches Ok(t) ==> {
            &&& element_count(t.dims()) == t.data().len()
            &&& t.dims() == dims
            &&& t.data() == data
            &&& (t is Float4D <==> dims.len() == 4)
        },
{
}

/// What is said of a caller's tensor is said of its own axis lengths and values.
pub proof fn law_inputs_are_seen_as_they_are(input: InputTensor)
    ensures
        input@.dims == input.shape@,
        input.values matches Ok(bits) ==> input@.values == Ok::<Seq<u32>, NnErrorView>(bits@),
        input.values matches Err(e) ==> input@.values == Err::<Seq<u32>, NnErrorView>(e@),
{
}

/// What is said of a tensor that comes out is said of its own rank, axis lengths and values.
pub proof fn law_outputs_are_seen_as_they_are(result: Result<OutputTensor, NnError>)
    ensures
        result matches Err(e) ==> tensor_result_view(result) == Err::<
            OutputTensorView,
            NnErrorView,
        >(e@),
        result matches Ok(OutputTensor::Float4D { shape, data }) ==> tensor_result_view(result)
            == Ok::<OutputTensorView, NnErrorView>(
            OutputTensorView::Float4D { dims: shape@, data: data@ },
        ),
        result matches Ok(OutputTensor::FloatND { shape, data }) ==> tensor_result_view(result)
            == Ok::<OutputTensorView, NnErrorView>(
            OutputTensorView::FloatND { dims: shape@, data: data@ },
        ),
{
}

/// What is said of values that come out is said of the values themselves.
pub proof fn law_output_values_are_seen_as_they_are(data: OutputData)
    ensures
        data matches OutputData::Bits(bits) ==> data@ == OutputDataView::Bits(bits@) && data@.len()
            == bits@.len(),
        data matches OutputData::Scaled { distances, scale } ==> data@ == (
        OutputDataView::Scaled { distances: distances@, scale }) && data@.len() == distances@.len(),
{
}

/// The parts of a tensor are those that it was made of, whatever its rank.
pub proof fn law_tensors_have_their_parts(dims: Seq<usize>, data: OutputDataView)
    ensures
        (OutputTensorView::Float4D { dims, data }).dims() == dims,
        (OutputTensorView::Float4D { dims, data }).data() == data,
        (OutputTensorView::FloatND { dims, data }).dims() == dims,
        (OutputTensorView::FloatND { dims, data }).data() == data,
{
}

/// A tensor without axes has one element, and a further axis multiplies the number of elements
/// by its length. The extent goes the same way, except that an axis of length zero does not
/// count in it.
pub proof fn law_axes_multiply(dims: Seq<usize>, d: usize)
    ensures
        element_count(Seq::empty()) == 1,
        nonzero_extent(Seq::empty()) == 1,
        element_count(dims.push(d)) == element_count(dims) * d,
        d > 0 ==> nonzero_extent(dims.push(d)) == nonzero_extent(dims) * d,
        d == 0 ==> nonzero_extent(dims.push(d)) == nonzero_extent(dims),
{
    assert(dims.push(d).drop_last() =~= dims);
}

/// The elements of a tensor whose axes are those of two others are as many as there are pairs of
/// elements of the two.
pub proof fn law_element_counts_multiply(a: Seq<usize>, b: Seq<usize>)
    ensures
        element_count(a + b) == element_count(a) * element_count(b),
    decreases b.len(),
{
    if b.len() == 0 {
        assert(a + b =~= a);
        assert(element_count(a) * element_count(b) == element_count(a)) by (nonlinear_arith)
            requires
                element_count(b) == 1,
        ;
    } else {
        assert((a + b).last() == b.last());
        assert((a + b).drop_last() =~= a + b.drop_last());
        law_element_counts_multiply(a, b.drop_last());
        assert(element_count(a) * element_count(b.drop_last()) * (b.last() as nat) == element_count(
            a,
        ) * (element_count(b.drop_last()) * (b.last() as nat))) by (nonlinear_arith);
    }
}

/// Values take a shape exactly when they are as many as its axis lengths multiply to and the
/// lengths that are not zero multiply to a number that an `isize` can hold. This is so at every
/// rank. The tensor then has these axis lengths and values, and is four-dimensional exactly when
/// there are four axes.
pub proof fn law_values_that_fill_a_shape_take_it(
    dims: Seq<usize>,
    data: OutputDataView,
    name: Seq<char>,
)
    ensures
        shaped(dims, data, name) is Ok <==> element_count(dims) == data.len() && nonzero_extent(
            dims,
        ) <= isize::MAX,
        shaped(dims, data, name) is Ok && dims.len() == 4 ==> shaped(dims, data, name) == Ok::<
            OutputTensorView,
            NnErrorView,
        >(OutputTensorView::Float4D { dims, data }),
        shaped(dims, data, name) is Ok && dims.len() != 4 ==> shaped(dims, data, name) == Ok::<
            OutputTensorView,
            NnErrorView,
        >(OutputTensorView::FloatND { dims, data }),
{
}

/// Values that do not fill a shape are refused with a message that names the tensor and says
/// whether the shape is too large for the machine, asks for more values or asks for fewer.
pub proof fn law_values_that_do_not_fill_a_shape_are_refused(
    dims: Seq<usize>,
    data: OutputDataView,
    name: Seq<char>,
)
    ensures
        ({
            let fault = if nonzero_extent(dims) > isize::MAX {
                "ShapeError/Overflow: arithmetic overflow"@
            } else if element_count(dims) > data.len() {
                "ShapeError/OutOfBounds: out of bounds indexing"@
            } else {
                "ShapeError/IncompatibleShape: incompatible shapes"@
            };
            nonzero_extent(dims) > isize::MAX || element_count(dims) != data.len() ==> shaped(
                dims,
                data,
                name,
            ) == Err::<OutputTensorView, NnErrorView>(
                NnErrorView::TensorOp("reshape failed for '"@ + name + "': "@ + fault),
            )
        }),
{
}

} // verus!
