//! The two halves of a pass: filling the input buffers before the runtime's forward call, and
//! collecting the outputs after it.
use vstd::prelude::*;

use crate::descriptor::{
    is_slot, meta_views, slot_error, slot_of, tensor_slot_mut, tensor_slot_ref, tensor_views, CviTensor,
    CviTensorView, TensorMeta, TensorMetaView,
};
use crate::error::{NnError, NnErrorView};
use crate::tensor::{InputTensor, InputTensorView, OutputTensor, OutputTensorView};
use crate::tensor_map::TensorMap;
use crate::text::join3;
use crate::transfer::{
    can_read, can_write, elements_ready, encoded, quotients_ready, read_outcome, read_tensor,
    with_bytes, write_error, write_tensor,
};

verus! {

/// How far the filling of the input buffers has come.
pub enum Staged {
    /// Every input so far was written.
    Going,
    /// An input was refused.
    Failed(NnErrorView),
    /// An input could not be quantised, because its quotients are not one for each value or
    /// leave 32 bits.
    Stuck,
}

/// The error for an input that the caller did not give.
pub open spec fn missing_error(name: Seq<char>) -> NnErrorView {
    NnErrorView::InvalidInput("missing input tensor '"@ + name + "'"@)
}

/// The list of quotients for input `k`; empty where there is none.
pub open spec fn quotients_for(quotients: Seq<Seq<i32>>, k: int) -> Seq<i32> {
    if 0 <= k < quotients.len() {
        quotients[k]
    } else {
        Seq::empty()
    }
}

/// What writing one input comes to.
pub open spec fn input_verdict(
    meta: TensorMetaView,
    inputs: Map<Seq<char>, InputTensorView>,
    quotients: Seq<i32>,
    slots: Seq<CviTensorView>,
) -> Staged {
    if !inputs.contains_key(meta.name) {
        Staged::Failed(missing_error(meta.name))
    } else {
        match slot_of(slots, meta.name) {
            None => Staged::Failed(slot_error(meta.name)),
            Some(i) => if !quotients_ready(inputs[meta.name], quotients, slots[i], meta) {
                Staged::Stuck
            } else {
                match write_error(inputs[meta.name], slots[i], meta) {
                    Some(error) => Staged::Failed(error),
                    None => Staged::Going,
                }
            },
        }
    }
}

/// The runtime tensors after one input was written.
pub open spec fn input_written(
    meta: TensorMetaView,
    inputs: Map<Seq<char>, InputTensorView>,
    quotients: Seq<i32>,
    slots: Seq<CviTensorView>,
) -> Seq<CviTensorView>
    recommends
        input_verdict(meta, inputs, quotients, slots) is Going,
{
    let i = slot_of(slots, meta.name)->0;
    slots.update(i, with_bytes(slots[i], encoded(inputs[meta.name], quotients, meta)))
}

/// The outcome of writing the first `k` inputs in order, up to the first that cannot be
/// written, and the runtime tensors then.
pub open spec fn staged(
    metas: Seq<TensorMetaView>,
    inputs: Map<Seq<char>, InputTensorView>,
    quotients: Seq<Seq<i32>>,
    slots: Seq<CviTensorView>,
    k: nat,
) -> (Staged, Seq<CviTensorView>)
    decreases k,
{
    if k == 0 {
        (Staged::Going, slots)
    } else {
        let (outcome, current) = staged(metas, inputs, quotients, slots, (k - 1) as nat);
        if outcome is Going {
            let meta = metas[k - 1];
            let own = quotients_for(quotients, k - 1);
            let verdict = input_verdict(meta, inputs, own, current);
            (
                verdict,
                if verdict is Going {
                    input_written(meta, inputs, own, current)
                } else {
                    current
                },
            )
        } else {
            (outcome, current)
        }
    }
}

/// Once an input is refused, the later ones change nothing.
proof fn lemma_staged_stops(
    metas: Seq<TensorMetaView>,
    inputs: Map<Seq<char>, InputTensorView>,
    quotients: Seq<Seq<i32>>,
    slots: Seq<CviTensorView>,
    k: nat,
    n: nat,
)
    requires
        k <= n,
        !(staged(metas, inputs, quotients, slots, k).0 is Going),
    ensures
        staged(metas, inputs, quotients, slots, n) == staged(metas, inputs, quotients, slots, k),
    decreases n - k,
{
    if k < n {
        lemma_staged_stops(metas, inputs, quotients, slots, k, (n - 1) as nat);
    }
}

/// The quotient lists as sequences.
pub open spec fn quotient_views(quotients: Seq<Vec<i32>>) -> Seq<Seq<i32>> {
    quotients.map_values(|q: Vec<i32>| q@)
}

/// Whether `done` reports `outcome`.
pub open spec fn reports(done: Option<Result<(), NnError>>, outcome: Staged) -> bool {
    match outcome {
        Staged::Going => done matches Some(Ok(_)),
        Staged::Failed(error) => done matches Some(Err(e)) && e@ == error,
        Staged::Stuck => done is None,
    }
}

fn stage_one(
    meta: &TensorMeta,
    inputs: &TensorMap<InputTensor>,
    quotients: &Vec<i32>,
    slots: &mut Vec<CviTensor>,
) -> (done: Option<Result<(), NnError>>)
    requires
        inputs.wf(),
    ensures
        reports(done, input_verdict(meta@, inputs@, quotients@, tensor_views(old(slots)@))),
        tensor_views(final(slots)@) == if input_verdict(
            meta@,
            inputs@,
            quotients@,
            tensor_views(old(slots)@),
        ) is Going {
            input_written(meta@, inputs@, quotients@, tensor_views(old(slots)@))
        } else {
            tensor_views(old(slots)@)
        },
{
    let user = match inputs.get(&meta.name) {
        Some(user) => user,
        None => {
            return Some(
                Err(
                    NnError::InvalidInput(
                        join3("missing input tensor '", meta.name.as_str(), "'"),
                    ),
                ),
            );
        },
    };
    match tensor_slot_mut(slots, meta) {
        Err(e) => Some(Err(e)),
        Ok(slot) => {
            if !can_write(user, quotients, slot, meta) {
                return None;
            }
            Some(write_tensor(user, quotients, slot, meta))
        },
    }
}

/// Writes the inputs of a model, in its order, into the runtime's buffers, up to the first
/// that cannot be written. `None` says that an input could not be quantised.
pub fn stage(
    metas: &Vec<TensorMeta>,
    inputs: &TensorMap<InputTensor>,
    quotients: &Vec<Vec<i32>>,
    slots: &mut Vec<CviTensor>,
) -> (done: Option<Result<(), NnError>>)
    requires
        inputs.wf(),
    ensures
        ({
            let (outcome, after) = staged(
                meta_views(metas@),
                inputs@,
                quotient_views(quotients@),
                tensor_views(old(slots)@),
                metas@.len(),
            );
            reports(done, outcome) && tensor_views(final(slots)@) == after
        }),
{
    let ghost views = meta_views(metas@);
    let ghost lists = quotient_views(quotients@);
    let ghost before = tensor_views(slots@);
    let none: Vec<i32> = Vec::new();
    for k in 0..metas.len()
        invariant
            inputs.wf(),
            none@ == Seq::<i32>::empty(),
            views == meta_views(metas@),
            lists == quotient_views(quotients@),
            before == tensor_views(old(slots)@),
            staged(views, inputs@, lists, before, k as nat) == (
                Staged::Going,
                tensor_views(slots@),
            ),
    {
        let own = if k < quotients.len() {
            &quotients[k]
        } else {
            &none
        };
        assert(own@ == quotients_for(lists, k as int));
        assert(views[k as int] == metas@[k as int]@);
        match stage_one(&metas[k], inputs, own, slots) {
            Some(Ok(())) => {},
            other => {
                proof {
                    lemma_staged_stops(
                        views,
                        inputs@,
                        lists,
                        before,
                        (k + 1) as nat,
                        metas@.len(),
                    );
                }
                return other;
            },
        }
    }
    Some(Ok(()))
}

/// How far the collection of the outputs has come.
pub enum Collected {
    /// The outputs so far, by name.
    Going(Map<Seq<char>, OutputTensorView>),
    /// An output was refused.
    Failed(NnErrorView),
    /// An output could not be read, because its buffer is too short or a distance from its
    /// zero point leaves 32 bits.
    Stuck,
}

/// What becomes of the outputs so far when one more is read.
pub open spec fn output_added(
    meta: TensorMetaView,
    slots: Seq<CviTensorView>,
    outputs: Map<Seq<char>, OutputTensorView>,
) -> Collected {
    match slot_of(slots, meta.name) {
        None => Collected::Failed(slot_error(meta.name)),
        Some(i) => if !elements_ready(slots[i], meta) {
            Collected::Stuck
        } else {
            match read_outcome(slots[i], meta) {
                Err(error) => Collected::Failed(error),
                Ok(tensor) => Collected::Going(outputs.insert(meta.name, tensor)),
            }
        },
    }
}

/// The outcome of reading the first `k` outputs in order, up to the first that cannot be read.
pub open spec fn collected(
    metas: Seq<TensorMetaView>,
    slots: Seq<CviTensorView>,
    k: nat,
) -> Collected
    decreases k,
{
    if k == 0 {
        Collected::Going(Map::empty())
    } else {
        match collected(metas, slots, (k - 1) as nat) {
            Collected::Going(outputs) => output_added(metas[k - 1], slots, outputs),
            other => other,
        }
    }
}

/// Once an output is refused, the later ones change nothing.
proof fn lemma_collected_stops(
    metas: Seq<TensorMetaView>,
    slots: Seq<CviTensorView>,
    k: nat,
    n: nat,
)
    requires
        k <= n,
        !(collected(metas, slots, k) is Going),
    ensures
        collected(metas, slots, n) == collected(metas, slots, k),
    decreases n - k,
{
    if k < n {
        lemma_collected_stops(metas, slots, k, (n - 1) as nat);
    }
}

/// Whether `done` hands out what `outcome` says.
pub open spec fn delivers(
    done: Option<Result<TensorMap<OutputTensor>, NnError>>,
    outcome: Collected,
) -> bool {
    match outcome {
        Collected::Going(outputs) => done matches Some(Ok(map)) && map.wf() && map@ == outputs,
        Collected::Failed(error) => done matches Some(Err(e)) && e@ == error,
        Collected::Stuck => done is None,
    }
}

/// Reads the outputs of a model, in its order, up to the first that cannot be read. `None`
/// says that a buffer does not hold the elements that it should.
pub fn collect(metas: &Vec<TensorMeta>, slots: &Vec<CviTensor>) -> (done: Option<
    Result<TensorMap<OutputTensor>, NnError>,
>)
    ensures
        delivers(
            done,
            collected(meta_views(metas@), tensor_views(slots@), metas@.len()),
        ),
{
    let ghost views = meta_views(metas@);
    let ghost all = tensor_views(slots@);
    let mut outputs: TensorMap<OutputTensor> = TensorMap::new();
    for k in 0..metas.len()
        invariant
            views == meta_views(metas@),
            all == tensor_views(slots@),
            outputs.wf(),
            collected(views, all, k as nat) == Collected::Going(outputs@),
    {
        let meta = &metas[k];
        assert(views[k as int] == meta@);
        proof {
            if !(collected(views, all, (k + 1) as nat) is Going) {
                lemma_collected_stops(views, all, (k + 1) as nat, metas@.len());
            }
        }
        let slot = match tensor_slot_ref(slots, meta) {
            Ok(slot) => slot,
            Err(e) => {
                return Some(Err(e));
            },
        };
        assert(all[slot_of(all, meta.name@)->0] == slot@);
        if !can_read(slot, meta) {
            return None;
        }
        match read_tensor(slot, meta) {
            Ok(tensor) => {
                outputs.insert(meta.name.clone(), tensor);
            },
            Err(e) => {
                return Some(Err(e));
            },
        }
    }
    Some(Ok(outputs))
}

/// The quotients of an input are those that stand in its place in the list, and none where the
/// list is shorter.
pub proof fn law_quotients_go_by_place(quotients: Seq<Vec<i32>>, k: int)
    ensures
        quotient_views(quotients).len() == quotients.len(),
        0 <= k < quotients.len() ==> quotients_for(quotient_views(quotients), k) == quotients[k]@,
        !(0 <= k < quotients.len()) ==> quotients_for(quotient_views(quotients), k).len() == 0,
{
}

/// The filling of the input buffers takes the inputs in the model's order and each from where
/// the one before it left the runtime tensors. An input that was not given, has no runtime
/// tensor, or cannot be written changes nothing; one that can be written changes its own runtime
/// tensor. After a refusal nothing more is done.
pub proof fn law_inputs_are_written_one_by_one(
    metas: Seq<TensorMetaView>,
    inputs: Map<Seq<char>, InputTensorView>,
    quotients: Seq<Seq<i32>>,
    slots: Seq<CviTensorView>,
    k: nat,
)
    requires
        k < metas.len(),
    ensures
        staged(metas, inputs, quotients, slots, 0) == (Staged::Going, slots),
        !(staged(metas, inputs, quotients, slots, k).0 is Going) ==> staged(
            metas,
            inputs,
            quotients,
            slots,
            k + 1,
        ) == staged(metas, inputs, quotients, slots, k),
        staged(metas, inputs, quotients, slots, k).0 is Going ==> {
            let m = metas[k as int];
            let user = inputs[m.name];
            let own = quotients_for(quotients, k as int);
            let before = staged(metas, inputs, quotients, slots, k).1;
            let (outcome, after) = staged(metas, inputs, quotients, slots, k + 1);
            &&& !inputs.contains_key(m.name) ==> after == before && outcome == Staged::Failed(
                NnErrorView::InvalidInput("missing input tensor '"@ + m.name + "'"@),
            )
            &&& inputs.contains_key(m.name) && slot_of(before, m.name) is None ==> after == before
                && outcome == Staged::Failed(slot_error(m.name))
            &&& inputs.contains_key(m.name) ==> (slot_of(before, m.name) matches Some(i) ==> {
                let ready = quotients_ready(user, own, before[i], m);
                &&& !ready ==> after == before && outcome is Stuck
                &&& ready ==> (write_error(user, before[i], m) matches Some(error) ==> after
                    == before && outcome == Staged::Failed(error))
                &&& ready && write_error(user, before[i], m) is None ==> {
                    &&& outcome is Going
                    &&& after.len() == before.len()
                    &&& after[i] == with_bytes(before[i], encoded(user, own, m))
                    &&& forall|j: int|
                        0 <= j < before.len() && j != i ==> #[trigger] after[j] == before[j]
                }
            })
        },
{
    let m = metas[k as int];
    let before = staged(metas, inputs, quotients, slots, k).1;
    if let Some(i) = slot_of(before, m.name) {
        assert(is_slot(before, m.name, i));
    }
}

/// The caller is told what the filling came to: success where it went through, the error where
/// an input was refused, and nothing where one could not be quantised.
pub proof fn law_staging_is_reported(done: Option<Result<(), NnError>>, error: NnErrorView)
    ensures
        reports(done, Staged::Going) <==> done is Some && done->0 is Ok,
        reports(done, Staged::Failed(error)) <==> done is Some && done->0 is Err && done->0->Err_0@
            == error,
        reports(done, Staged::Stuck) <==> done is None,
{
}

/// The outputs are collected in the model's order, each under its name and in place of one of
/// the same name before it. One that has no runtime tensor or cannot be read ends the collection
/// with its error, and after that nothing more is done.
pub proof fn law_outputs_are_collected_one_by_one(
    metas: Seq<TensorMetaView>,
    slots: Seq<CviTensorView>,
    k: nat,
)
    requires
        k < metas.len(),
    ensures
        collected(metas, slots, 0) == Collected::Going(Map::empty()),
        !(collected(metas, slots, k) is Going) ==> collected(metas, slots, k + 1) == collected(
            metas,
            slots,
            k,
        ),
        collected(metas, slots, k) matches Collected::Going(before) ==> {
            let m = metas[k as int];
            let outcome = collected(metas, slots, k + 1);
            &&& slot_of(slots, m.name) is None ==> outcome == Collected::Failed(slot_error(m.name))
            &&& slot_of(slots, m.name) matches Some(i) ==> {
                let ready = elements_ready(slots[i], m);
                &&& !ready ==> outcome is Stuck
                &&& ready ==> (read_outcome(slots[i], m) matches Err(error) ==> outcome
                    == Collected::Failed(error))
                &&& ready ==> (read_outcome(slots[i], m) matches Ok(tensor) ==> outcome
                    == Collected::Going(before.insert(m.name, tensor)))
            }
        },
{
}

/// The caller is told what the collection came to: the outputs where all were read, the error
/// where one was refused, and nothing where a buffer did not hold its elements.
pub proof fn law_collection_is_delivered(
    done: Option<Result<TensorMap<OutputTensor>, NnError>>,
    outputs: Map<Seq<char>, OutputTensorView>,
    error: NnErrorView,
)
    ensures
        delivers(done, Collected::Going(outputs)) <==> done is Some && done->0 is Ok
            && done->0->Ok_0.wf() && done->0->Ok_0@ == outputs,
        delivers(done, Collected::Failed(error)) <==> done is Some && done->0 is Err
            && done->0->Err_0@ == error,
        delivers(done, Collected::Stuck) <==> done is None,
{
}

} // verus!
