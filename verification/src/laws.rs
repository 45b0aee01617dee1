//! What holds of loading and running a model as a whole.
use vstd::prelude::*;
use vstd::utf8::valid_utf8;

use crate::backend::{forward_error, quotient_scale, CVI_RC_SUCCESS};
use crate::descriptor::{
    is_slot, lemma_slot_is_unique, meta_of, slot_of, CviTensorView, TensorMetaView,
};
use crate::error::NnErrorView;
use crate::format::CviFmt;
use crate::load::{list_error, listing, nul_error, register_error};
use crate::names::lookup_name;
use crate::pass::{
    collected, input_verdict, input_written, output_added, quotients_for, staged, Collected,
    Staged,
};
use crate::quantise::{
    distance_i8, distance_u8, distances_i8, distances_u8, fits_i32, i8_value,
    law_bytes_survive_as_words, law_bytes_survive_requantising, law_quantising_keeps_order,
    law_words_survive_the_buffer, overwrite, quantised_i8, quantised_u8, saturate, sums_fit,
};
use crate::scale::{floored_scale, law_scale_is_the_larger_one};
use crate::tensor::{element_count, InputTensorView, OutputDataView, OutputTensorView};
use crate::text::{lemma_number_ends, signed_decimal};
use crate::transfer::{
    decoded, elements_ready, encoded, quotients_ready, read_error, read_outcome, with_bytes,
    write_error,
};

verus! {

/// Whether two states of a runtime tensor differ at most in the bytes of the buffer.
pub open spec fn same_descriptor(a: CviTensorView, b: CviTensorView) -> bool {
    &&& a.name == b.name
    &&& a.shape == b.shape
    &&& a.fmt == b.fmt
    &&& a.count == b.count
    &&& a.qscale == b.qscale
    &&& a.zero_point == b.zero_point
    &&& match (a.sys_mem, b.sys_mem) {
        (Some(x), Some(y)) => x.len() == y.len(),
        (None, None) => true,
        _ => false,
    }
}

/// Whether two states of a list of runtime tensors differ at most in the bytes of the buffers.
pub open spec fn same_descriptors(a: Seq<CviTensorView>, b: Seq<CviTensorView>) -> bool {
    &&& a.len() == b.len()
    &&& forall|i: int| 0 <= i < a.len() ==> same_descriptor(#[trigger] a[i], b[i])
}

proof fn lemma_slots_agree(a: Seq<CviTensorView>, b: Seq<CviTensorView>, name: Seq<char>)
    requires
        same_descriptors(a, b),
    ensures
        slot_of(a, name) == slot_of(b, name),
{
    assert forall|i: int| is_slot(a, name, i) <==> is_slot(b, name, i) by {
        if is_slot(a, name, i) {
            assert(same_descriptor(a[i], b[i]));
            assert forall|j: int| 0 <= j < i implies lookup_name((#[trigger] b[j]).name)
                != name by {
                assert(same_descriptor(a[j], b[j]));
            }
        }
        if is_slot(b, name, i) {
            assert(same_descriptor(a[i], b[i]));
            assert forall|j: int| 0 <= j < i implies lookup_name((#[trigger] a[j]).name)
                != name by {
                assert(same_descriptor(a[j], b[j]));
            }
        }
    }
    if exists|i: int| is_slot(a, name, i) {
        let i = choose|i: int| is_slot(a, name, i);
        lemma_slot_is_unique(a, name, i);
        lemma_slot_is_unique(b, name, i);
    } else {
        assert(forall|i: int| !is_slot(b, name, i));
    }
}

proof fn lemma_verdicts_agree(
    meta: TensorMetaView,
    inputs: Map<Seq<char>, InputTensorView>,
    quotients: Seq<i32>,
    a: Seq<CviTensorView>,
    b: Seq<CviTensorView>,
)
    requires
        same_descriptors(a, b),
    ensures
        input_verdict(meta, inputs, quotients, a) == input_verdict(meta, inputs, quotients, b),
{
    lemma_slots_agree(a, b, meta.name);
    if let Some(i) = slot_of(a, meta.name) {
        assert(is_slot(a, meta.name, i));
        assert(same_descriptor(a[i], b[i]));
    }
}

proof fn lemma_write_fits(
    user: InputTensorView,
    quotients: Seq<i32>,
    cvi: CviTensorView,
    meta: TensorMetaView,
)
    requires
        quotients_ready(user, quotients, cvi, meta),
        write_error(user, cvi, meta) is None,
    ensures
        cvi.sys_mem is Some,
        encoded(user, quotients, meta).len() <= cvi.sys_mem->0.len(),
        same_descriptor(cvi, with_bytes(cvi, encoded(user, quotients, meta))),
{
}

/// Filling the input buffers changes bytes in buffers and nothing else: the runtime tensors
/// keep their number, their names, their descriptions and the size of their buffers, also when
/// an input is refused.
pub proof fn law_staging_keeps_descriptors(
    metas: Seq<TensorMetaView>,
    inputs: Map<Seq<char>, InputTensorView>,
    quotients: Seq<Seq<i32>>,
    slots: Seq<CviTensorView>,
    k: nat,
)
    ensures
        same_descriptors(slots, staged(metas, inputs, quotients, slots, k).1),
    decreases k,
{
    if k > 0 {
        law_staging_keeps_descriptors(metas, inputs, quotients, slots, (k - 1) as nat);
        let (outcome, current) = staged(metas, inputs, quotients, slots, (k - 1) as nat);
        let meta = metas[k - 1];
        let own = quotients_for(quotients, k - 1);
        if outcome is Going && input_verdict(meta, inputs, own, current) is Going {
            let i = slot_of(current, meta.name)->0;
            assert(is_slot(current, meta.name, i));
            lemma_write_fits(inputs[meta.name], own, current[i], meta);
            let next = input_written(meta, inputs, own, current);
            assert forall|j: int| 0 <= j < slots.len() implies same_descriptor(
                #[trigger] slots[j],
                next[j],
            ) by {
                assert(same_descriptor(slots[j], current[j]));
            }
        }
    }
}

/// Whether an input can be written does not depend on the inputs before it, and the first
/// input that cannot be written decides the outcome: all are written exactly when each one
/// could be written alone, and otherwise the outcome is that of the first one that could not.
pub proof fn law_first_refused_input_decides(
    metas: Seq<TensorMetaView>,
    inputs: Map<Seq<char>, InputTensorView>,
    quotients: Seq<Seq<i32>>,
    slots: Seq<CviTensorView>,
    n: nat,
)
    requires
        n <= metas.len(),
    ensures
        (staged(metas, inputs, quotients, slots, n).0 is Going) <==> (forall|j: int|
            0 <= j < n ==> input_verdict(
                #[trigger] metas[j],
                inputs,
                quotients_for(quotients, j),
                slots,
            ) is Going),
        forall|k: int|
            0 <= k < n && !(input_verdict(
                #[trigger] metas[k],
                inputs,
                quotients_for(quotients, k),
                slots,
            ) is Going) && (forall|j: int|
                0 <= j < k ==> input_verdict(
                    #[trigger] metas[j],
                    inputs,
                    quotients_for(quotients, j),
                    slots,
                ) is Going) ==> staged(metas, inputs, quotients, slots, n).0 == input_verdict(
                metas[k],
                inputs,
                quotients_for(quotients, k),
                slots,
            ),
    decreases n,
{
    if n > 0 {
        let m = (n - 1) as nat;
        law_first_refused_input_decides(metas, inputs, quotients, slots, m);
        law_staging_keeps_descriptors(metas, inputs, quotients, slots, m);
        let (outcome, current) = staged(metas, inputs, quotients, slots, m);
        lemma_verdicts_agree(
            metas[n - 1],
            inputs,
            quotients_for(quotients, n - 1),
            slots,
            current,
        );
    }
}

/// A pass to which any input of the model is missing does not get as far as the forward call.
pub proof fn law_missing_input_is_refused(
    metas: Seq<TensorMetaView>,
    inputs: Map<Seq<char>, InputTensorView>,
    quotients: Seq<Seq<i32>>,
    slots: Seq<CviTensorView>,
    k: int,
)
    requires
        0 <= k < metas.len(),
        !inputs.contains_key(metas[k].name),
    ensures
        !(staged(metas, inputs, quotients, slots, metas.len()).0 is Going),
{
    law_first_refused_input_decides(metas, inputs, quotients, slots, metas.len());
    assert(!(input_verdict(metas[k], inputs, quotients_for(quotients, k), slots) is Going));
}

/// A runtime tensor that belongs to none of the inputs keeps its bytes.
pub proof fn law_other_tensors_are_untouched(
    metas: Seq<TensorMetaView>,
    inputs: Map<Seq<char>, InputTensorView>,
    quotients: Seq<Seq<i32>>,
    slots: Seq<CviTensorView>,
    n: nat,
    i: int,
)
    requires
        n <= metas.len(),
        0 <= i < slots.len(),
        forall|k: int| 0 <= k < n ==> slot_of(slots, (#[trigger] metas[k]).name) != Some(i),
    ensures
        staged(metas, inputs, quotients, slots, n).1[i] == slots[i],
    decreases n,
{
    if n > 0 {
        let m = (n - 1) as nat;
        law_other_tensors_are_untouched(metas, inputs, quotients, slots, m, i);
        law_staging_keeps_descriptors(metas, inputs, quotients, slots, m);
        let current = staged(metas, inputs, quotients, slots, m).1;
        lemma_slots_agree(slots, current, metas[n - 1].name);
        assert(slot_of(slots, metas[n - 1].name) != Some(i));
    }
}

/// After all inputs were written, the buffer of each one starts with that input's bytes, unless
/// a later input of the same name was written over it.
pub proof fn law_staged_inputs_are_in_place(
    metas: Seq<TensorMetaView>,
    inputs: Map<Seq<char>, InputTensorView>,
    quotients: Seq<Seq<i32>>,
    slots: Seq<CviTensorView>,
    n: nat,
    k: int,
)
    requires
        0 <= k < n <= metas.len(),
        staged(metas, inputs, quotients, slots, n).0 is Going,
        forall|j: int| k < j < n ==> (#[trigger] metas[j]).name != metas[k].name,
    ensures
        ({
            let bytes = encoded(inputs[metas[k].name], quotients_for(quotients, k), metas[k]);
            let slot = slot_of(slots, metas[k].name);
            let after = staged(metas, inputs, quotients, slots, n).1;
            &&& slot is Some
            &&& after[slot->0].sys_mem matches Some(buffer)
            &&& bytes.len() <= buffer.len()
            &&& buffer.take(bytes.len() as int) == bytes
        }),
    decreases n,
{
    let m = (n - 1) as nat;
    law_staging_keeps_descriptors(metas, inputs, quotients, slots, m);
    let current = staged(metas, inputs, quotients, slots, m).1;
    lemma_slots_agree(slots, current, metas[n - 1].name);
    let i = slot_of(current, metas[n - 1].name)->0;
    assert(is_slot(current, metas[n - 1].name, i));
    if k < n - 1 {
        law_staged_inputs_are_in_place(metas, inputs, quotients, slots, m, k);
        assert(metas[n - 1].name != metas[k].name);
        assert(is_slot(slots, metas[k].name, slot_of(slots, metas[k].name)->0));
        assert(is_slot(slots, metas[n - 1].name, i));
    } else {
        let own = quotients_for(quotients, k);
        let bytes = encoded(inputs[metas[k].name], own, metas[k]);
        lemma_write_fits(inputs[metas[k].name], own, current[i], metas[k]);
        assert(overwrite(current[i].sys_mem->0, bytes).take(bytes.len() as int) =~= bytes);
    }
}

/// A tensor that was recorded is found again as itself, where its name is absent or valid UTF-8
/// and no tensor before it is found under the same name.
pub proof fn law_recorded_tensors_are_found(tensors: Seq<CviTensorView>, i: int)
    requires
        0 <= i < tensors.len(),
        tensors[i].name matches Some(bytes) ==> valid_utf8(bytes),
        forall|j: int|
            0 <= j < i ==> lookup_name((#[trigger] tensors[j]).name) != lookup_name(
                tensors[i].name,
            ),
    ensures
        slot_of(tensors, meta_of(tensors[i]).name) == Some(i),
{
    let name = meta_of(tensors[i]).name;
    assert(is_slot(tensors, name, i));
    lemma_slot_is_unique(tensors, name, i);
}

/// Of a model whose tensors have names that are absent or valid UTF-8, and no two of which are
/// found under the same name, every tensor that was recorded is found again as itself.
pub proof fn law_distinct_names_are_all_found(tensors: Seq<CviTensorView>)
    requires
        forall|j: int|
            0 <= j < tensors.len() ==> ((#[trigger] tensors[j]).name matches Some(bytes)
                ==> valid_utf8(bytes)),
        forall|j: int, k: int|
            0 <= j < k < tensors.len() ==> lookup_name((#[trigger] tensors[j]).name)
                != lookup_name((#[trigger] tensors[k]).name),
    ensures
        forall|i: int|
            0 <= i < tensors.len() ==> slot_of(tensors, meta_of(#[trigger] tensors[i]).name)
                == Some(i),
{
    assert forall|i: int| 0 <= i < tensors.len() implies slot_of(
        tensors,
        meta_of(#[trigger] tensors[i]).name,
    ) == Some(i) by {
        law_recorded_tensors_are_found(tensors, i);
    }
}

/// What reading one output on its own comes to.
pub open spec fn output_verdict(meta: TensorMetaView, slots: Seq<CviTensorView>) -> Collected {
    output_added(meta, slots, Map::empty())
}

/// The first output that cannot be read decides the outcome: all are collected exactly when
/// each one could be read alone, and otherwise the outcome is that of the first one that could
/// not.
pub proof fn law_first_refused_output_decides(
    metas: Seq<TensorMetaView>,
    slots: Seq<CviTensorView>,
    n: nat,
)
    requires
        n <= metas.len(),
    ensures
        (collected(metas, slots, n) is Going) <==> (forall|j: int|
            0 <= j < n ==> output_verdict(#[trigger] metas[j], slots) is Going),
        forall|k: int|
            0 <= k < n && !(output_verdict(#[trigger] metas[k], slots) is Going) && (forall|j: int|
                0 <= j < k ==> output_verdict(#[trigger] metas[j], slots) is Going) ==> collected(
                metas,
                slots,
                n,
            ) == output_verdict(metas[k], slots),
    decreases n,
{
    if n > 0 {
        law_first_refused_output_decides(metas, slots, (n - 1) as nat);
    }
}

/// The collected outputs are named exactly as the model's outputs are.
pub proof fn law_collected_names_are_the_models(
    metas: Seq<TensorMetaView>,
    slots: Seq<CviTensorView>,
    n: nat,
    name: Seq<char>,
)
    requires
        n <= metas.len(),
        collected(metas, slots, n) is Going,
    ensures
        collected(metas, slots, n)->Going_0.contains_key(name) <==> exists|k: int|
            0 <= k < n && (#[trigger] metas[k]).name == name,
    decreases n,
{
    if n > 0 {
        law_collected_names_are_the_models(metas, slots, (n - 1) as nat, name);
        let before = collected(metas, slots, (n - 1) as nat)->Going_0;
        if before.contains_key(name) {
            let k = choose|k: int| 0 <= k < n - 1 && (#[trigger] metas[k]).name == name;
            assert(0 <= k < n && metas[k].name == name);
        }
        assert(collected(metas, slots, n)->Going_0.contains_key(name) ==> metas[n - 1].name == name
            || before.contains_key(name));
    }
}

/// Under the name of an output, unless a later one has the same name, stands what was read of
/// it, with the axis lengths that the model reports and as many values as they ask for.
pub proof fn law_collected_output_is_what_was_read(
    metas: Seq<TensorMetaView>,
    slots: Seq<CviTensorView>,
    n: nat,
    k: int,
)
    requires
        0 <= k < n <= metas.len(),
        collected(metas, slots, n) is Going,
        forall|j: int| k < j < n ==> (#[trigger] metas[j]).name != metas[k].name,
    ensures
        ({
            let outputs = collected(metas, slots, n)->Going_0;
            let tensor = outputs[metas[k].name];
            &&& outputs.contains_key(metas[k].name)
            &&& slot_of(slots, metas[k].name) matches Some(i)
            &&& read_outcome(slots[i], metas[k]) == Ok::<OutputTensorView, NnErrorView>(tensor)
            &&& tensor.dims() == metas[k].dims
            &&& tensor.data().len() == metas[k].count
            &&& element_count(metas[k].dims) == metas[k].count
        }),
    decreases n,
{
    if k < n - 1 {
        assert(metas[n - 1].name != metas[k].name);
        law_collected_output_is_what_was_read(metas, slots, (n - 1) as nat, k);
    }
}

/// Floats that were written to a buffer are read back as they were.
pub proof fn law_floats_survive_the_buffer(
    user: InputTensorView,
    quotients: Seq<i32>,
    cvi: CviTensorView,
    meta: TensorMetaView,
)
    requires
        meta.fmt == CviFmt::Fp32,
        write_error(user, cvi, meta) is None,
    ensures
        ({
            let after = with_bytes(cvi, encoded(user, quotients, meta));
            &&& elements_ready(after, meta)
            &&& decoded(after, meta) == OutputDataView::Bits(user.values->Ok_0)
        }),
{
    law_words_survive_the_buffer(cvi.sys_mem->0, user.values->Ok_0);
}

/// The distance from the zero point that a byte can hold nearest to `quotient`.
pub open spec fn nearest_distance(quotient: i32, meta: TensorMetaView) -> i32 {
    if meta.fmt == CviFmt::Int8 {
        saturate(quotient as int, -128 - meta.zero_point, 127 - meta.zero_point) as i32
    } else {
        saturate(quotient as int, 0 - meta.zero_point, 255 - meta.zero_point) as i32
    }
}

/// Quotients that were written to a buffer as bytes are read back as the distances from the
/// zero point that a byte can hold nearest to them, and with the scale in use.
pub proof fn law_quotients_survive_the_buffer(
    user: InputTensorView,
    quotients: Seq<i32>,
    cvi: CviTensorView,
    meta: TensorMetaView,
)
    requires
        meta.fmt == CviFmt::Int8 || meta.fmt == CviFmt::Uint8,
        write_error(user, cvi, meta) is None,
        quotients_ready(user, quotients, cvi, meta),
        // The distance of any unsigned byte from the lowest zero point leaves 32 bits.
        meta.fmt == CviFmt::Uint8 && meta.zero_point == i32::MIN ==> quotients.len() == 0,
    ensures
        ({
            let after = with_bytes(cvi, encoded(user, quotients, meta));
            &&& elements_ready(after, meta)
            &&& decoded(after, meta) == OutputDataView::Scaled {
                distances: quotients.map_values(|q: i32| nearest_distance(q, meta)),
                scale: floored_scale(meta.qscale),
            }
        }),
{
    let after = with_bytes(cvi, encoded(user, quotients, meta));
    let buffer = after.sys_mem->0;
    let zp = meta.zero_point;
    assert(sums_fit(quotients, zp));
    if meta.fmt == CviFmt::Int8 {
        assert forall|i: int| 0 <= i < quotients.len() implies fits_i32(
            #[trigger] distance_i8(buffer[i], zp),
        ) by {
            assert(buffer[i] == quantised_i8(quotients[i] as int, zp as int));
            assert(i32::MIN <= quotients[i] + zp <= i32::MAX);
        }
        assert(distances_i8(buffer, meta.count as nat, zp) =~= quotients.map_values(
            |q: i32| nearest_distance(q, meta),
        ));
    } else {
        assert forall|i: int| 0 <= i < quotients.len() implies fits_i32(
            #[trigger] distance_u8(buffer[i], zp),
        ) by {
            assert(buffer[i] == quantised_u8(quotients[i] as int, zp as int));
            assert(i32::MIN <= quotients[i] + zp <= i32::MAX);
        }
        assert(distances_u8(buffer, meta.count as nat, zp) =~= quotients.map_values(
            |q: i32| nearest_distance(q, meta),
        ));
    }
}

/// Where an input whose turn has come has a runtime tensor but does not give its values as
/// floats, the pass fails with the input's own error, whatever that tensor and the quotients
/// are, and the runtime tensors stay as they were.
pub proof fn law_unreadable_values_are_refused_first(
    metas: Seq<TensorMetaView>,
    inputs: Map<Seq<char>, InputTensorView>,
    quotients: Seq<Seq<i32>>,
    slots: Seq<CviTensorView>,
    k: nat,
    error: NnErrorView,
)
    requires
        k < metas.len(),
        staged(metas, inputs, quotients, slots, k).0 is Going,
        inputs.contains_key(metas[k as int].name),
        inputs[metas[k as int].name].values == Err::<Seq<u32>, NnErrorView>(error),
        slot_of(slots, metas[k as int].name) is Some,
    ensures
        staged(metas, inputs, quotients, slots, k + 1) == (
            Staged::Failed(error),
            staged(metas, inputs, quotients, slots, k).1,
        ),
{
    let current = staged(metas, inputs, quotients, slots, k).1;
    law_staging_keeps_descriptors(metas, inputs, quotients, slots, k);
    lemma_slots_agree(slots, current, metas[k as int].name);
}

/// Writing what was just read leaves the whole buffer as it was: floats as they were read, and
/// for a quantised tensor the distances that were read as the quotients to write.
pub proof fn law_writing_what_was_read_keeps_the_buffer(
    user: InputTensorView,
    quotients: Seq<i32>,
    cvi: CviTensorView,
    meta: TensorMetaView,
)
    requires
        read_error(cvi, meta) is None,
        elements_ready(cvi, meta),
        user.values matches Ok(bits) && bits.len() == meta.count,
        match decoded(cvi, meta) {
            OutputDataView::Bits(bits) => user.values == Ok::<Seq<u32>, NnErrorView>(bits),
            OutputDataView::Scaled { distances, .. } => quotients == distances,
        },
    ensures
        quotients_ready(user, quotients, cvi, meta),
        write_error(user, cvi, meta) is None,
        with_bytes(cvi, encoded(user, quotients, meta)) == cvi,
{
    let buffer = cvi.sys_mem->0;
    let zp = meta.zero_point;
    let bytes = encoded(user, quotients, meta);
    match meta.fmt {
        CviFmt::Int8 => {
            assert forall|i: int| 0 <= i < meta.count implies i32::MIN <= #[trigger] quotients[i]
                + zp <= i32::MAX && bytes[i] == buffer[i] by {
                assert(fits_i32(distance_i8(buffer[i], zp)));
                law_bytes_survive_requantising(buffer[i], zp);
            }
        },
        CviFmt::Uint8 => {
            assert forall|i: int| 0 <= i < meta.count implies i32::MIN <= #[trigger] quotients[i]
                + zp <= i32::MAX && bytes[i] == buffer[i] by {
                assert(fits_i32(distance_u8(buffer[i], zp)));
                law_bytes_survive_requantising(buffer[i], zp);
            }
        },
        _ => {
            law_bytes_survive_as_words(buffer, meta.count as nat);
        },
    }
    assert(overwrite(buffer, bytes) =~= buffer);
}

/// In the bytes of a quantised tensor the order of the quotients is kept, wherever they stand;
/// equal quotients become equal bytes.
pub proof fn law_encoding_keeps_order(
    user: InputTensorView,
    quotients: Seq<i32>,
    meta: TensorMetaView,
    i: int,
    j: int,
)
    requires
        meta.fmt == CviFmt::Int8 || meta.fmt == CviFmt::Uint8,
        0 <= i < quotients.len(),
        0 <= j < quotients.len(),
        quotients[i] <= quotients[j],
    ensures
        ({
            let bytes = encoded(user, quotients, meta);
            &&& meta.fmt == CviFmt::Int8 ==> i8_value(bytes[i]) <= i8_value(bytes[j])
            &&& meta.fmt == CviFmt::Uint8 ==> bytes[i] <= bytes[j]
            &&& quotients[i] == quotients[j] ==> bytes[i] == bytes[j]
        }),
{
    law_quantising_keeps_order(
        quotients[i] as int,
        quotients[j] as int,
        meta.zero_point as int,
    );
}

/// Every way in which a load can fail is reported as a failed load.
pub proof fn law_load_failures_are_load_errors(
    path: Seq<char>,
    position: nat,
    rc: i32,
    inputs: Option<Seq<CviTensorView>>,
    input_num: nat,
    outputs: Option<Seq<CviTensorView>>,
    output_num: nat,
)
    ensures
        nul_error(path, position) is ModelLoad,
        register_error(path, rc) is ModelLoad,
        listing(rc, inputs, input_num, outputs, output_num) matches Err((error, _)) ==> error
            is ModelLoad,
{
}

/// A registered model is released by a failed load exactly when its tensors were not listed.
pub proof fn law_unlisted_model_is_released(
    rc: i32,
    inputs: Option<Seq<CviTensorView>>,
    input_num: nat,
    outputs: Option<Seq<CviTensorView>>,
    output_num: nat,
)
    ensures
        (listing(rc, inputs, input_num, outputs, output_num) matches Err((_, release)) && release)
            <==> rc != CVI_RC_SUCCESS,
{
}

/// The messages of failed runtime calls carry the return code: two messages of the same call
/// are the same only if the codes are, whatever the path of the model.
pub proof fn law_messages_tell_return_codes_apart(
    path_a: Seq<char>,
    a: i32,
    path_b: Seq<char>,
    b: i32,
)
    ensures
        register_error(path_a, a) == register_error(path_b, b) ==> a == b,
        list_error(a) == list_error(b) ==> a == b,
        forward_error(a) == forward_error(b) ==> a == b,
{
    reveal_strlit(", path=");
    reveal_strlit(")");
    if register_error(path_a, a) == register_error(path_b, b) {
        let prefix = "CVI_NN_RegisterModel failed (rc="@;
        let text_a = prefix + signed_decimal(a as int) + ", path="@ + path_a + ")"@;
        let text_b = prefix + signed_decimal(b as int) + ", path="@ + path_b + ")"@;
        assert(register_error(path_a, a) == NnErrorView::ModelLoad(text_a));
        assert(register_error(path_b, b) == NnErrorView::ModelLoad(text_b));
        assert(text_a =~= prefix + signed_decimal(a as int) + (", path="@ + path_a + ")"@));
        assert(text_b =~= prefix + signed_decimal(b as int) + (", path="@ + path_b + ")"@));
        lemma_number_ends(
            prefix,
            a as int,
            ", path="@ + path_a + ")"@,
            b as int,
            ", path="@ + path_b + ")"@,
        );
    }
    if list_error(a) == list_error(b) {
        lemma_number_ends(
            "CVI_NN_GetInputOutputTensors failed (rc="@,
            a as int,
            ")"@,
            b as int,
            ")"@,
        );
    }
    if forward_error(a) == forward_error(b) {
        lemma_number_ends("CVI_NN_Forward failed (rc="@, a as int, ")"@, b as int, ")"@);
    }
}

/// The values of a quantised input, signed or not, are divided by the same scale with which a
/// tensor of the same record is multiplied when it is read back: the reported one, but no
/// smaller than two to the power of minus 23. Values that are not quantised are not divided.
/// `scales` are those that a model with these inputs hands out.
pub proof fn law_values_are_divided_by_the_scale_of_the_way_back(
    metas: Seq<TensorMetaView>,
    scales: Vec<Option<u32>>,
    cvi: CviTensorView,
    k: int,
)
    requires
        scales@ == metas.map_values(|m: TensorMetaView| quotient_scale(m)),
        0 <= k < metas.len(),
    ensures
        scales@.len() == metas.len(),
        metas[k].fmt is Int8 || metas[k].fmt is Uint8 ==> {
            &&& 0x3400_0000 <= metas[k].qscale <= 0x7f80_0000 ==> scales@[k] == Some(metas[k].qscale)
            &&& metas[k].qscale < 0x3400_0000 || metas[k].qscale > 0x7f80_0000 ==> scales@[k]
                == Some(0x3400_0000u32)
            &&& decoded(cvi, metas[k]) matches OutputDataView::Scaled { scale, .. }
            &&& scales@[k] == Some(scale)
        },
        !(metas[k].fmt is Int8 || metas[k].fmt is Uint8) ==> scales@[k] is None && decoded(
            cvi,
            metas[k],
        ) is Bits,
{
    law_scale_is_the_larger_one(metas[k].qscale);
}

/// The scale that is handed out for an input grows with the one that the runtime reports: of two
/// quantised inputs, the one with the larger reported scale is not divided by the smaller one.
pub proof fn law_larger_scales_divide_by_more(a: TensorMetaView, b: TensorMetaView)
    requires
        a.fmt is Int8 || a.fmt is Uint8,
        b.fmt is Int8 || b.fmt is Uint8,
        a.qscale <= b.qscale <= 0x7f80_0000,
    ensures
        quotient_scale(a) matches Some(x) && quotient_scale(b) matches Some(y) && x <= y,
{
    law_scale_is_the_larger_one(a.qscale);
    law_scale_is_the_larger_one(b.qscale);
}

} // verus!
