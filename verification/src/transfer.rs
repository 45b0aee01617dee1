//! Moving one tensor into or out of its runtime buffer.
use vstd::prelude::*;

use crate::descriptor::{CviTensor, CviTensorView, TensorMeta, TensorMetaView};
use crate::error::{NnError, NnErrorView};
use crate::format::CviFmt;
use crate::quantise::{
    bytes_to_words, can_read_i8, can_read_u8, dequantise_i8, dequantise_u8, distances_i8,
    distances_u8, law_distances_lead_back_to_the_bytes, law_signed_bytes_hold_the_moved_quotient,
    law_unfit_quotients_leave_32_bits, law_unreadable_bytes_are_few_or_far,
    law_unsigned_bytes_hold_the_moved_quotient, law_words_are_read_least_byte_first,
    law_words_are_written_least_byte_first, law_written_bytes_stand_in_front, overwrite,
    quantise_into_i8, quantise_into_u8, quantised_i8, quantised_u8, quotients_fit, read_words,
    readable_i8, readable_u8, short_buffer_error, sums_fit, words_to_bytes, write_words,
};
use crate::scale::{effective_scale, floored_scale, law_scale_is_the_larger_one};
use crate::tensor::{
    element_count, law_values_that_fill_a_shape_take_it, nonzero_extent, shaped,
    tensor_from_shape, tensor_result_view, InputTensor, InputTensorView, OutputData,
    OutputDataView, OutputTensor, OutputTensorView,
};
use crate::text::{decimal, decimal_text, join3};

verus! {

/// Whether the elements are stored as bytes around a zero point.
pub open spec fn is_quantised(fmt: CviFmt) -> bool {
    fmt == CviFmt::Int8 || fmt == CviFmt::Uint8
}

/// Why a caller's tensor cannot be written to the runtime tensor `cvi`, if it cannot. A tensor
/// that does not give its values as floats is refused with its own error, before all else.
pub open spec fn write_error(
    user: InputTensorView,
    cvi: CviTensorView,
    meta: TensorMetaView,
) -> Option<NnErrorView> {
    match user.values {
        Err(error) => Some(error),
        Ok(bits) => bits_error(user.dims, bits, cvi, meta),
    }
}

/// Why the given values cannot be written to the runtime tensor `cvi`, if they cannot.
pub open spec fn bits_error(
    dims: Seq<usize>,
    bits: Seq<u32>,
    cvi: CviTensorView,
    meta: TensorMetaView,
) -> Option<NnErrorView> {
    if bits.len() != meta.count {
        Some(NnErrorView::ShapeMismatch { expected: meta.dims, actual: dims })
    } else {
        match cvi.sys_mem {
            None => Some(
                NnErrorView::Inference(
                    "input '"@ + meta.name
                        + "' has no sys_mem buffer (runtime did not allocate)"@,
                ),
            ),
            Some(buffer) => match meta.fmt {
                CviFmt::Fp32 => if buffer.len() < 4 * meta.count {
                    Some(
                        NnErrorView::Inference(
                            "input '"@ + meta.name + "' buffer too small: got "@ + decimal(
                                buffer.len(),
                            ) + " bytes, need "@ + decimal(4 * (meta.count as nat)),
                        ),
                    )
                } else {
                    None
                },
                CviFmt::Int8 => if buffer.len() < meta.count {
                    Some(
                        short_buffer_error(
                            meta.name,
                            "' int8 buffer too small ("@,
                            buffer.len(),
                            meta.count as nat,
                        ),
                    )
                } else {
                    None
                },
                CviFmt::Uint8 => if buffer.len() < meta.count {
                    Some(
                        short_buffer_error(
                            meta.name,
                            "' uint8 buffer too small ("@,
                            buffer.len(),
                            meta.count as nat,
                        ),
                    )
                } else {
                    None
                },
                other => Some(
                    NnErrorView::Unsupported(
                        "input '"@ + meta.name + "' uses unsupported dtype "@ + other.ident(),
                    ),
                ),
            },
        }
    }
}

/// The bytes that a caller's tensor becomes. The quotients stand in for the values where the
/// tensor is quantised.
pub open spec fn encoded(
    user: InputTensorView,
    quotients: Seq<i32>,
    meta: TensorMetaView,
) -> Seq<u8>
    recommends
        user.values is Ok,
{
    match meta.fmt {
        CviFmt::Int8 => quotients.map_values(
            |q: i32| quantised_i8(q as int, meta.zero_point as int),
        ),
        CviFmt::Uint8 => quotients.map_values(
            |q: i32| quantised_u8(q as int, meta.zero_point as int),
        ),
        _ => words_to_bytes(user.values->Ok_0),
    }
}

/// Whether a write that comes to the point of quantising can do so: there is one quotient for
/// each value, and where the buffer has room no quotient leaves 32 bits.
pub open spec fn quotients_ready(
    user: InputTensorView,
    quotients: Seq<i32>,
    cvi: CviTensorView,
    meta: TensorMetaView,
) -> bool {
    match (user.values, cvi.sys_mem) {
        (Ok(bits), Some(buffer)) => is_quantised(meta.fmt) && bits.len() == meta.count ==> {
            &&& quotients.len() == meta.count
            &&& (meta.count <= buffer.len() ==> sums_fit(quotients, meta.zero_point))
        },
        _ => true,
    }
}

/// The runtime tensor `cvi` with `bytes` at the front of its buffer.
pub open spec fn with_bytes(cvi: CviTensorView, bytes: Seq<u8>) -> CviTensorView {
    CviTensorView {
        sys_mem: match cvi.sys_mem {
            Some(buffer) => Some(overwrite(buffer, bytes)),
            None => None,
        },
        ..cvi
    }
}

/// Computes [`quotients_ready`].
pub fn can_write(
    user: &InputTensor,
    quotients: &Vec<i32>,
    cvi: &CviTensor,
    meta: &TensorMeta,
) -> (can: bool)
    ensures
        can == quotients_ready(user@, quotients@, cvi@, meta@),
{
    match (&user.values, &cvi.sys_mem) {
        (Ok(bits), Some(buffer)) => if (meta.fmt == CviFmt::Int8 || meta.fmt == CviFmt::Uint8)
            && bits.len() == meta.count {
            quotients.len() == meta.count && (meta.count > buffer.len() || quotients_fit(
                quotients.as_slice(),
                meta.zero_point,
            ))
        } else {
            true
        },
        _ => true,
    }
}

/// Copies a caller's tensor into the buffer of a runtime tensor. Floats are written as they
/// are; where the tensor is quantised, the quotients are written in place of the values. A
/// caller's tensor that does not give its values hands its own error on.
pub fn write_tensor(
    user: &InputTensor,
    quotients: &Vec<i32>,
    cvi: &mut CviTensor,
    meta: &TensorMeta,
) -> (done: Result<(), NnError>)
    requires
        quotients_ready(user@, quotients@, old(cvi)@, meta@),
    ensures
        match write_error(user@, old(cvi)@, meta@) {
            Some(error) => done matches Err(e) && e@ == error && final(cvi)@ == old(cvi)@,
            None => done is Ok && final(cvi)@ == with_bytes(
                old(cvi)@,
                encoded(user@, quotients@, meta@),
            ),
        },
{
    let bits = match &user.values {
        Ok(bits) => bits,
        Err(e) => {
            return Err(e.clone());
        },
    };
    if bits.len() != meta.count {
        return Err(
            NnError::ShapeMismatch {
                expected: vstd::slice::slice_to_vec(meta.shape.dims()),
                actual: vstd::slice::slice_to_vec(user.shape.dims()),
            },
        );
    }
    match &mut cvi.sys_mem {
        None => Err(
            NnError::Inference(
                join3(
                    "input '",
                    meta.name.as_str(),
                    "' has no sys_mem buffer (runtime did not allocate)",
                ),
            ),
        ),
        Some(dst) => match meta.fmt {
            CviFmt::Fp32 => {
                let need: u128 = meta.count as u128 * 4;
                if (dst.len() as u128) < need {
                    let mut text = join3(
                        "input '",
                        meta.name.as_str(),
                        "' buffer too small: got ",
                    );
                    text.append(decimal_text(dst.len() as u128).as_str());
                    text.append(" bytes, need ");
                    text.append(decimal_text(need).as_str());
                    return Err(NnError::Inference(text));
                }
                write_words(bits.as_slice(), dst);
                Ok(())
            },
            CviFmt::Int8 => quantise_into_i8(
                quotients.as_slice(),
                dst,
                meta.zero_point,
                meta.name.as_str(),
            ),
            CviFmt::Uint8 => quantise_into_u8(
                quotients.as_slice(),
                dst,
                meta.zero_point,
                meta.name.as_str(),
            ),
            other => {
                let mut text = join3("input '", meta.name.as_str(), "' uses unsupported dtype ");
                text.append(other.identifier());
                Err(NnError::Unsupported(text))
            },
        },
    }
}

/// Why the runtime tensor `cvi` cannot be read, if it cannot.
pub open spec fn read_error(cvi: CviTensorView, meta: TensorMetaView) -> Option<NnErrorView> {
    if cvi.sys_mem is None {
        Some(
            NnErrorView::Inference("output '"@ + meta.name + "' has no sys_mem buffer"@),
        )
    } else {
        match meta.fmt {
            CviFmt::Fp32 | CviFmt::Int8 | CviFmt::Uint8 => None,
            other => Some(
                NnErrorView::Unsupported(
                    "output '"@ + meta.name + "' uses unsupported dtype "@ + other.ident(),
                ),
            ),
        }
    }
}

/// Whether a read that comes to the point of taking the elements finds them: the buffer holds
/// them all, and no distance from the zero point leaves 32 bits.
pub open spec fn elements_ready(cvi: CviTensorView, meta: TensorMetaView) -> bool {
    match cvi.sys_mem {
        Some(buffer) => match meta.fmt {
            CviFmt::Fp32 => 4 * meta.count <= buffer.len(),
            CviFmt::Int8 => readable_i8(buffer, meta.count as nat, meta.zero_point),
            CviFmt::Uint8 => readable_u8(buffer, meta.count as nat, meta.zero_point),
            _ => true,
        },
        None => true,
    }
}

/// The values in the buffer of a runtime tensor.
pub open spec fn decoded(cvi: CviTensorView, meta: TensorMetaView) -> OutputDataView
    recommends
        cvi.sys_mem is Some,
{
    let buffer = cvi.sys_mem->0;
    let count = meta.count as nat;
    match meta.fmt {
        CviFmt::Int8 => OutputDataView::Scaled {
            distances: distances_i8(buffer, count, meta.zero_point),
            scale: floored_scale(meta.qscale),
        },
        CviFmt::Uint8 => OutputDataView::Scaled {
            distances: distances_u8(buffer, count, meta.zero_point),
            scale: floored_scale(meta.qscale),
        },
        _ => OutputDataView::Bits(bytes_to_words(buffer, count)),
    }
}

/// The outcome of reading a runtime tensor.
pub open spec fn read_outcome(cvi: CviTensorView, meta: TensorMetaView) -> Result<
    OutputTensorView,
    NnErrorView,
> {
    match read_error(cvi, meta) {
        Some(error) => Err(error),
        None => shaped(meta.dims, decoded(cvi, meta), meta.name),
    }
}

/// Computes [`elements_ready`].
pub fn can_read(cvi: &CviTensor, meta: &TensorMeta) -> (can: bool)
    ensures
        can == elements_ready(cvi@, meta@),
{
    match &cvi.sys_mem {
        Some(buffer) => match meta.fmt {
            CviFmt::Fp32 => (meta.count as u128) * 4 <= buffer.len() as u128,
            CviFmt::Int8 => can_read_i8(buffer, meta.count, meta.zero_point),
            CviFmt::Uint8 => can_read_u8(buffer, meta.count, meta.zero_point),
            _ => true,
        },
        None => true,
    }
}

/// Reads a runtime tensor back.
pub fn read_tensor(cvi: &CviTensor, meta: &TensorMeta) -> (tensor: Result<OutputTensor, NnError>)
    requires
        elements_ready(cvi@, meta@),
    ensures
        tensor_result_view(tensor) == read_outcome(cvi@, meta@),
{
    let src = match &cvi.sys_mem {
        None => {
            return Err(
                NnError::Inference(
                    join3("output '", meta.name.as_str(), "' has no sys_mem buffer"),
                ),
            );
        },
        Some(src) => src,
    };
    let data = match meta.fmt {
        CviFmt::Fp32 => OutputData::Bits(read_words(src, meta.count)),
        CviFmt::Int8 => OutputData::Scaled {
            distances: dequantise_i8(src, meta.count, meta.zero_point),
            scale: effective_scale(meta.qscale),
        },
        CviFmt::Uint8 => OutputData::Scaled {
            distances: dequantise_u8(src, meta.count, meta.zero_point),
            scale: effective_scale(meta.qscale),
        },
        other => {
            let mut text = join3("output '", meta.name.as_str(), "' uses unsupported dtype ");
            text.append(other.identifier());
            return Err(NnError::Unsupported(text));
        },
    };
    tensor_from_shape(meta.shape.dims(), data, meta.name.as_str())
}

/// The elements of signed and unsigned bytes are quantised, and no others.
pub proof fn law_bytes_are_quantised(fmt: CviFmt)
    ensures
        is_quantised(fmt) <==> fmt is Int8 || fmt is Uint8,
{
}

/// A write succeeds exactly when the caller gives floats, as many as the model asks for, the
/// element type is one that is converted, and the runtime has a buffer with room for the
/// elements: four bytes for each float, one for each quantised value.
pub proof fn law_writes_succeed_with_the_right_count_and_room(
    user: InputTensorView,
    cvi: CviTensorView,
    meta: TensorMetaView,
)
    ensures
        write_error(user, cvi, meta) is None <==> {
            &&& user.values matches Ok(bits)
            &&& bits.len() == meta.count
            &&& cvi.sys_mem matches Some(buffer)
            &&& (meta.fmt is Fp32 && 4 * meta.count <= buffer.len()) || ((meta.fmt is Int8
                || meta.fmt is Uint8) && meta.count <= buffer.len())
        },
{
}

/// A write that is refused is refused for the first of these reasons that applies: the caller's
/// own error, the wrong number of values, no buffer, then a buffer that is too small or an
/// element type that is not converted. The message names the input.
pub proof fn law_writes_are_refused_for_the_first_reason(
    user: InputTensorView,
    cvi: CviTensorView,
    meta: TensorMetaView,
)
    ensures
        user.values matches Err(error) ==> write_error(user, cvi, meta) == Some(error),
        user.values matches Ok(bits) ==> {
            &&& bits.len() != meta.count ==> write_error(user, cvi, meta) == Some(
                NnErrorView::ShapeMismatch { expected: meta.dims, actual: user.dims },
            )
            &&& bits.len() == meta.count && cvi.sys_mem is None ==> write_error(user, cvi, meta)
                == Some(
                NnErrorView::Inference(
                    "input '"@ + meta.name
                        + "' has no sys_mem buffer (runtime did not allocate)"@,
                ),
            )
            &&& bits.len() == meta.count ==> (cvi.sys_mem matches Some(buffer) ==> {
                &&& meta.fmt is Fp32 && buffer.len() < 4 * meta.count ==> write_error(
                    user,
                    cvi,
                    meta,
                ) == Some(
                    NnErrorView::Inference(
                        "input '"@ + meta.name + "' buffer too small: got "@ + decimal(
                            buffer.len(),
                        ) + " bytes, need "@ + decimal(4 * (meta.count as nat)),
                    ),
                )
                &&& meta.fmt is Int8 && buffer.len() < meta.count ==> write_error(user, cvi, meta)
                    == Some(
                    NnErrorView::Inference(
                        "input '"@ + meta.name + "' int8 buffer too small ("@ + decimal(
                            buffer.len(),
                        ) + " < "@ + decimal(meta.count as nat) + ")"@,
                    ),
                )
                &&& meta.fmt is Uint8 && buffer.len() < meta.count ==> write_error(user, cvi, meta)
                    == Some(
                    NnErrorView::Inference(
                        "input '"@ + meta.name + "' uint8 buffer too small ("@ + decimal(
                            buffer.len(),
                        ) + " < "@ + decimal(meta.count as nat) + ")"@,
                    ),
                )
                &&& !(meta.fmt is Fp32 || meta.fmt is Int8 || meta.fmt is Uint8) ==> write_error(
                    user,
                    cvi,
                    meta,
                ) == Some(
                    NnErrorView::Unsupported(
                        "input '"@ + meta.name + "' uses unsupported dtype "@ + meta.fmt.ident(),
                    ),
                )
            })
        },
{
}

/// A write cannot be decided only where it would quantise: there is a buffer and the right number
/// of values, but not one quotient for each, or room for them and one that leaves 32 bits when
/// it is moved by the zero point.
pub proof fn law_only_unfit_quotients_stop_a_write(
    user: InputTensorView,
    quotients: Seq<i32>,
    cvi: CviTensorView,
    meta: TensorMetaView,
)
    ensures
        !quotients_ready(user, quotients, cvi, meta) <==> {
            &&& meta.fmt is Int8 || meta.fmt is Uint8
            &&& user.values matches Ok(bits)
            &&& bits.len() == meta.count
            &&& cvi.sys_mem matches Some(buffer)
            &&& quotients.len() != meta.count || (meta.count <= buffer.len() && exists|i: int|
                0 <= i < quotients.len() && !(-0x8000_0000 <= #[trigger] quotients[i]
                    + meta.zero_point <= 0x7fff_ffff))
        },
{
    law_unfit_quotients_leave_32_bits(quotients, meta.zero_point);
}

/// After a write, element `i` stands in its place in the buffer: a float as its four bytes, the
/// least significant first, and a quantised value as the sum of its quotient and the zero point,
/// stopped at the bounds of a byte. `after` is the runtime tensor that the write leaves behind.
pub proof fn law_written_elements_are_in_place(
    user: InputTensor,
    quotients: Vec<i32>,
    before: CviTensor,
    meta: TensorMeta,
    after: CviTensor,
    i: int,
)
    requires
        quotients_ready(user@, quotients@, before@, meta@),
        write_error(user@, before@, meta@) is None,
        after@ == with_bytes(before@, encoded(user@, quotients@, meta@)),
        0 <= i < meta.count,
    ensures
        after.sys_mem matches Some(bytes) && {
            &&& meta.fmt is Fp32 ==> {
                &&& 4 * meta.count <= bytes@.len()
                &&& user.values matches Ok(bits)
                &&& bits@.len() == meta.count
                &&& bytes@[4 * i] + 0x100 * bytes@[4 * i + 1] + 0x1_0000 * bytes@[4 * i + 2]
                    + 0x100_0000 * bytes@[4 * i + 3] == bits@[i]
            }
            &&& meta.fmt is Int8 ==> {
                let sum = quotients@[i] + meta.zero_point;
                &&& quotients@.len() == meta.count <= bytes@.len()
                &&& sum >= 127 ==> bytes@[i] == 127
                &&& 0 <= sum <= 127 ==> bytes@[i] == sum
                &&& -128 <= sum < 0 ==> bytes@[i] == sum + 256
                &&& sum <= -128 ==> bytes@[i] == 128
            }
            &&& meta.fmt is Uint8 ==> {
                let sum = quotients@[i] + meta.zero_point;
                &&& quotients@.len() == meta.count <= bytes@.len()
                &&& sum >= 255 ==> bytes@[i] == 255
                &&& 0 <= sum <= 255 ==> bytes@[i] == sum
                &&& sum <= 0 ==> bytes@[i] == 0
            }
        },
{
    let buffer = before@.sys_mem->0;
    if meta.fmt is Fp32 {
        law_words_are_written_least_byte_first(buffer, user@.values->Ok_0, i);
    } else {
        let sum = quotients@[i] + meta.zero_point;
        let bytes = encoded(user@, quotients@, meta@);
        law_signed_bytes_hold_the_moved_quotient(quotients@[i] as int, meta.zero_point as int);
        law_unsigned_bytes_hold_the_moved_quotient(quotients@[i] as int, meta.zero_point as int);
        law_written_bytes_stand_in_front(buffer, bytes, i);
    }
}

/// A write changes nothing but the bytes that the elements take: the buffer keeps its length and
/// what lies behind them, and the runtime tensor keeps its description.
pub proof fn law_writes_touch_only_the_elements(
    user: InputTensor,
    quotients: Vec<i32>,
    before: CviTensor,
    meta: TensorMeta,
    after: CviTensor,
    i: int,
)
    requires
        quotients_ready(user@, quotients@, before@, meta@),
        write_error(user@, before@, meta@) is None,
        after@ == with_bytes(before@, encoded(user@, quotients@, meta@)),
    ensures
        after@.name == before@.name,
        after.shape == before.shape,
        after.fmt == before.fmt,
        after.count == before.count,
        after.qscale == before.qscale,
        after.zero_point == before.zero_point,
        before.sys_mem matches Some(old_bytes) && after.sys_mem matches Some(bytes) && {
            &&& bytes@.len() == old_bytes@.len()
            &&& meta.fmt is Fp32 && 4 * meta.count <= i < bytes@.len() ==> bytes@[i]
                == old_bytes@[i]
            &&& !(meta.fmt is Fp32) && meta.count <= i < bytes@.len() ==> bytes@[i] == old_bytes@[i]
        },
{
}

/// A runtime tensor that is written to without a buffer stays without one.
pub proof fn law_absent_buffers_stay_absent(cvi: CviTensorView, bytes: Seq<u8>)
    ensures
        cvi.sys_mem is None ==> with_bytes(cvi, bytes) == cvi,
{
}

/// A read cannot be decided only where it would take elements that the buffer does not hold, or
/// a byte whose distance from the zero point leaves 32 bits.
pub proof fn law_only_missing_or_far_elements_stop_a_read(
    cvi: CviTensorView,
    meta: TensorMetaView,
)
    ensures
        !elements_ready(cvi, meta) <==> {
            &&& cvi.sys_mem matches Some(buffer)
            &&& {
                ||| meta.fmt is Fp32 && buffer.len() < 4 * meta.count
                ||| meta.fmt is Uint8 && (buffer.len() < meta.count || exists|i: int|
                    0 <= i < meta.count && !(-0x8000_0000 <= #[trigger] buffer[i] - meta.zero_point
                        <= 0x7fff_ffff))
                ||| meta.fmt is Int8 && (buffer.len() < meta.count || exists|i: int|
                    0 <= i < meta.count && !(-0x8000_0000 <= (if (#[trigger] buffer[i]) < 0x80 {
                        buffer[i] as int
                    } else {
                        buffer[i] - 256
                    }) - meta.zero_point <= 0x7fff_ffff))
            }
        },
{
    if let Some(buffer) = cvi.sys_mem {
        law_unreadable_bytes_are_few_or_far(buffer, meta.count as nat, meta.zero_point);
    }
}

/// A read succeeds exactly when there is a buffer, the element type is one that is converted, and
/// the axis lengths ask for as many values as the model reports. A read that does not is refused
/// with a message that names the output.
pub proof fn law_reads_succeed_with_a_buffer_and_a_shape(
    cvi: CviTensorView,
    meta: TensorMetaView,
)
    requires
        elements_ready(cvi, meta),
    ensures
        read_outcome(cvi, meta) is Ok <==> {
            &&& cvi.sys_mem is Some
            &&& meta.fmt is Fp32 || meta.fmt is Int8 || meta.fmt is Uint8
            &&& element_count(meta.dims) == meta.count
            &&& nonzero_extent(meta.dims) <= isize::MAX
        },
        cvi.sys_mem is None ==> read_outcome(cvi, meta) == Err::<OutputTensorView, NnErrorView>(
            NnErrorView::Inference("output '"@ + meta.name + "' has no sys_mem buffer"@),
        ),
        cvi.sys_mem is Some && !(meta.fmt is Fp32 || meta.fmt is Int8 || meta.fmt is Uint8)
            ==> read_outcome(cvi, meta) == Err::<OutputTensorView, NnErrorView>(
            NnErrorView::Unsupported(
                "output '"@ + meta.name + "' uses unsupported dtype "@ + meta.fmt.ident(),
            ),
        ),
        cvi.sys_mem is Some && (meta.fmt is Fp32 || meta.fmt is Int8 || meta.fmt is Uint8)
            ==> read_outcome(cvi, meta) == shaped(meta.dims, decoded(cvi, meta), meta.name) && decoded(
            cvi,
            meta,
        ).len() == meta.count,
        read_error(cvi, meta) is None <==> cvi.sys_mem is Some && (meta.fmt is Fp32
            || meta.fmt is Int8 || meta.fmt is Uint8),
{
}

/// In a tensor that was read, value `i` is that of element `i` of the buffer: a float is what its
/// four bytes add up to with the least significant first; of a quantised value the distance and
/// the zero point add up to the byte, read with a sign for signed bytes. The scale is the larger
/// of the reported one and two to the power of minus 23, whose patterns are compared as numbers.
/// The axis lengths are those that were recorded. `result` is what the read comes to.
pub proof fn law_read_values_are_those_of_the_buffer(
    cvi: CviTensor,
    meta: TensorMeta,
    result: Result<OutputTensor, NnError>,
    i: int,
)
    requires
        elements_ready(cvi@, meta@),
        tensor_result_view(result) == read_outcome(cvi@, meta@),
        result is Ok,
        0 <= i < meta.count,
    ensures
        ({
            let (shape, data) = match result->Ok_0 {
                OutputTensor::Float4D { shape, data } => (shape, data),
                OutputTensor::FloatND { shape, data } => (shape, data),
            };
            let bytes = cvi.sys_mem->0@;
            &&& cvi.sys_mem is Some
            &&& shape@ == meta.shape@
            &&& result->Ok_0 is Float4D <==> meta.shape@.len() == 4
            &&& meta.fmt is Fp32 ==> (data matches OutputData::Bits(bits) && bits@.len()
                == meta.count && bits@[i] == bytes[4 * i] + 0x100 * bytes[4 * i + 1] + 0x1_0000
                * bytes[4 * i + 2] + 0x100_0000 * bytes[4 * i + 3])
            &&& meta.fmt is Uint8 || meta.fmt is Int8 ==> (data matches OutputData::Scaled {
                distances,
                scale,
            } && distances@.len() == meta.count && distances@[i] + meta.zero_point == (if meta.fmt
                is Int8 && bytes[i] >= 0x80 {
                bytes[i] - 256
            } else {
                bytes[i] as int
            }) && scale == (if 0x3400_0000 <= meta.qscale <= 0x7f80_0000 {
                meta.qscale
            } else {
                0x3400_0000
            }))
        }),
{
    let bytes = cvi@.sys_mem->0;
    law_scale_is_the_larger_one(meta.qscale);
    if meta.fmt is Fp32 {
        law_words_are_read_least_byte_first(bytes, meta.count as nat, i);
    } else {
        law_distances_lead_back_to_the_bytes(bytes, meta.count as nat, meta.zero_point, i);
    }
    law_values_that_fill_a_shape_take_it(meta@.dims, decoded(cvi@, meta@), meta@.name);
}

} // verus!
