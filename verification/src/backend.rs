//! A loaded model: what it asks for, and the two halves of a pass around the runtime's forward
//! call.
use vstd::prelude::*;

use crate::descriptor::{
    meta_views, tensor_views, CviTensor, TensorMeta, TensorMetaView, TensorShape,
};
use crate::error::{NnError, NnErrorView};
use crate::format::{fmt_name, fmt_size, CviFmt};
use crate::pass::{collect, collected, delivers, quotient_views, reports, stage, staged};
use crate::scale::{effective_scale, floored_scale};
use crate::tensor::{InputTensor, OutputTensor};
use crate::tensor_map::TensorMap;
use crate::text::{join3, signed_decimal, signed_text};
use crate::transfer::is_quantised;

verus! {

/// `CVI_RC_SUCCESS`: the return code of a runtime call that succeeded.
pub const CVI_RC_SUCCESS: i32 = 0;

/// What the backend knows of a loaded model.
#[derive(Debug)]
pub struct CviTekBackend {
    inputs: Vec<TensorMeta>,
    outputs: Vec<TensorMeta>,
    target: String,
    version: (i32, i32),
}

/// A [`CviTekBackend`] with sequences.
pub struct CviTekBackendView {
    pub inputs: Seq<TensorMetaView>,
    pub outputs: Seq<TensorMetaView>,
    pub target: Seq<char>,
    pub version: (i32, i32),
}

impl View for CviTekBackend {
    type V = CviTekBackendView;

    closed spec fn view(&self) -> CviTekBackendView {
        CviTekBackendView {
            inputs: meta_views(self.inputs@),
            outputs: meta_views(self.outputs@),
            target: self.target@,
            version: self.version,
        }
    }
}

/// The diagnostic record of a tensor: its name, its axis lengths, the name of its element type,
/// the bit pattern of its scale, and its zero point.
pub type TensorInfo = (String, TensorShape, &'static str, u32, i32);

/// A [`TensorInfo`] with sequences.
pub type TensorInfoView = (Seq<char>, Seq<usize>, Seq<char>, u32, i32);

/// The view of a diagnostic record.
pub open spec fn info_view(info: TensorInfo) -> TensorInfoView {
    (info.0@, info.1@, info.2@, info.3, info.4)
}

/// The diagnostic record of `meta`.
pub open spec fn info_of(meta: TensorMetaView) -> TensorInfoView {
    (meta.name, meta.dims, meta.fmt.label(), meta.qscale, meta.zero_point)
}

/// The scale by which values for `meta` are divided; `None` where it is not quantised.
pub open spec fn quotient_scale(meta: TensorMetaView) -> Option<u32> {
    if is_quantised(meta.fmt) {
        Some(floored_scale(meta.qscale))
    } else {
        None
    }
}

/// The error for a forward call that returned `rc`.
pub open spec fn forward_error(rc: i32) -> NnErrorView {
    NnErrorView::Inference("CVI_NN_Forward failed (rc="@ + signed_decimal(rc as int) + ")"@)
}

/// Whether `i` is the first of `metas` called `name`.
pub open spec fn is_first_named(metas: Seq<TensorMetaView>, name: Seq<char>, i: int) -> bool {
    &&& 0 <= i < metas.len()
    &&& metas[i].name == name
    &&& forall|j: int| 0 <= j < i ==> (#[trigger] metas[j]).name != name
}

/// Bytes that the elements of all of `metas` take together.
pub open spec fn byte_total(metas: Seq<TensorMetaView>) -> nat
    decreases metas.len(),
{
    if metas.len() == 0 {
        0
    } else {
        byte_total(metas.drop_last()) + (metas.last().count as nat) * metas.last().fmt.size()
    }
}

proof fn lemma_byte_total_grows(metas: Seq<TensorMetaView>, k: int)
    requires
        0 <= k <= metas.len(),
    ensures
        byte_total(metas.take(k)) <= byte_total(metas),
    decreases metas.len() - k,
{
    if k < metas.len() {
        lemma_byte_total_grows(metas, k + 1);
        assert(metas.take(k + 1).drop_last() =~= metas.take(k));
    } else {
        assert(metas.take(k) =~= metas);
    }
}

fn infos(metas: &Vec<TensorMeta>) -> (infos: Vec<TensorInfo>)
    ensures
        infos@.map_values(|t: TensorInfo| info_view(t)) == meta_views(metas@).map_values(
            |m: TensorMetaView| info_of(m),
        ),
{
    let ghost want = meta_views(metas@).map_values(|m: TensorMetaView| info_of(m));
    let mut infos: Vec<TensorInfo> = Vec::with_capacity(metas.len());
    for i in 0..metas.len()
        invariant
            want == meta_views(metas@).map_values(|m: TensorMetaView| info_of(m)),
            infos@.len() == i,
            forall|j: int| 0 <= j < i ==> info_view(#[trigger] infos@[j]) == want[j],
    {
        let m = &metas[i];
        infos.push((m.name.clone(), m.shape.clone(), fmt_name(m.fmt), m.qscale, m.zero_point));
    }
    assert(infos@.map_values(|t: TensorInfo| info_view(t)) =~= want);
    infos
}

fn names(metas: &Vec<TensorMeta>) -> (names: Vec<String>)
    ensures
        names@.map_values(|n: String| n@) == meta_views(metas@).map_values(
            |m: TensorMetaView| m.name,
        ),
{
    let ghost want = meta_views(metas@).map_values(|m: TensorMetaView| m.name);
    let mut names: Vec<String> = Vec::with_capacity(metas.len());
    for i in 0..metas.len()
        invariant
            want == meta_views(metas@).map_values(|m: TensorMetaView| m.name),
            names@.len() == i,
            forall|j: int| 0 <= j < i ==> (#[trigger] names@[j])@ == want[j],
    {
        names.push(metas[i].name.clone());
    }
    assert(names@.map_values(|n: String| n@) =~= want);
    names
}

fn shape_named(metas: &Vec<TensorMeta>, name: &str) -> (shape: Option<TensorShape>)
    ensures
        match shape {
            Some(s) => exists|i: int| #[trigger]
                is_first_named(meta_views(metas@), name@, i) && s@ == meta_views(metas@)[i].dims,
            None => forall|i: int|
                0 <= i < metas@.len() ==> (#[trigger] meta_views(metas@)[i]).name != name@,
        },
{
    let ghost views = meta_views(metas@);
    let key = name.to_owned();
    for i in 0..metas.len()
        invariant
            views == meta_views(metas@),
            key@ == name@,
            forall|j: int| 0 <= j < i ==> (#[trigger] views[j]).name != name@,
    {
        assert(views[i as int] == metas@[i as int]@);
        if metas[i].name == key {
            assert(is_first_named(views, name@, i as int));
            return Some(metas[i].shape.clone());
        }
    }
    None
}

/// Adds the bytes of `metas` to `start`; `None` where the sum does not fit.
fn add_bytes(metas: &Vec<TensorMeta>, start: usize) -> (sum: Option<usize>)
    ensures
        match sum {
            Some(s) => s == start + byte_total(meta_views(metas@)),
            None => start + byte_total(meta_views(metas@)) > usize::MAX,
        },
{
    let ghost views = meta_views(metas@);
    let mut sum: usize = start;
    for i in 0..metas.len()
        invariant
            views == meta_views(metas@),
            sum == start + byte_total(views.take(i as int)),
    {
        let m = &metas[i];
        let size: usize = fmt_size(m.fmt);
        proof {
            assert(views.take(i + 1).drop_last() =~= views.take(i as int));
            assert(views.take(i + 1).last() == m@);
            lemma_byte_total_grows(views, i + 1);
            assert(m.count * size <= m.count * 4) by (nonlinear_arith)
                requires
                    size <= 4,
            ;
        }
        let total: u128 = sum as u128 + (m.count as u128) * (size as u128);
        if total > usize::MAX as u128 {
            return None;
        }
        sum = total as usize;
    }
    assert(views.take(views.len() as int) =~= views);
    Some(sum)
}

impl CviTekBackend {
    /// A backend for a model with the given tensors, chip target and format version.
    pub(crate) fn new(
        inputs: Vec<TensorMeta>,
        outputs: Vec<TensorMeta>,
        target: String,
        version: (i32, i32),
    ) -> (backend: CviTekBackend)
        ensures
            backend@ == (CviTekBackendView {
                inputs: meta_views(inputs@),
                outputs: meta_views(outputs@),
                target: target@,
                version,
            }),
    {
        CviTekBackend { inputs, outputs, target, version }
    }

    /// The model's chip target, such as `cv183x`.
    pub fn target(&self) -> (target: &str)
        ensures
            target@ == self@.target,
    {
        self.target.as_str()
    }

    /// The version of the model's file format, major before minor.
    pub fn model_version(&self) -> (version: (i32, i32))
        ensures
            version == self@.version,
    {
        self.version
    }

    /// Diagnostic records of the inputs.
    pub fn inputs_info(&self) -> (info: Vec<TensorInfo>)
        ensures
            info@.map_values(|t: TensorInfo| info_view(t)) == self@.inputs.map_values(
                |m: TensorMetaView| info_of(m),
            ),
    {
        infos(&self.inputs)
    }

    /// Diagnostic records of the outputs.
    pub fn outputs_info(&self) -> (info: Vec<TensorInfo>)
        ensures
            info@.map_values(|t: TensorInfo| info_view(t)) == self@.outputs.map_values(
                |m: TensorMetaView| info_of(m),
            ),
    {
        infos(&self.outputs)
    }

    /// The name of this kind of backend.
    pub fn name(&self) -> (name: &str)
        ensures
            name@ == "cvitek"@,
    {
        "cvitek"
    }

    /// A backend that was made can be used.
    pub fn is_available(&self) -> (available: bool)
        ensures
            available,
    {
        true
    }

    /// The names of the inputs, in the runtime's order.
    pub fn input_names(&self) -> (list: Vec<String>)
        ensures
            list@.map_values(|n: String| n@) == self@.inputs.map_values(
                |m: TensorMetaView| m.name,
            ),
    {
        names(&self.inputs)
    }

    /// The names of the outputs, in the runtime's order.
    pub fn output_names(&self) -> (list: Vec<String>)
        ensures
            list@.map_values(|n: String| n@) == self@.outputs.map_values(
                |m: TensorMetaView| m.name,
            ),
    {
        names(&self.outputs)
    }

    /// The shape of the first input called `name`.
    pub fn input_shape(&self, name: &str) -> (shape: Option<TensorShape>)
        ensures
            match shape {
                Some(s) => exists|i: int| #[trigger]
                    is_first_named(self@.inputs, name@, i) && s@ == self@.inputs[i].dims,
                None => forall|i: int|
                    0 <= i < self@.inputs.len() ==> (#[trigger] self@.inputs[i]).name != name@,
            },
    {
        shape_named(&self.inputs, name)
    }

    /// The shape of the first output called `name`.
    pub fn output_shape(&self, name: &str) -> (shape: Option<TensorShape>)
        ensures
            match shape {
                Some(s) => exists|i: int| #[trigger]
                    is_first_named(self@.outputs, name@, i) && s@ == self@.outputs[i].dims,
                None => forall|i: int|
                    0 <= i < self@.outputs.len() ==> (#[trigger] self@.outputs[i]).name != name@,
            },
    {
        shape_named(&self.outputs, name)
    }

    /// Whether the size of all tensors is a number that [`CviTekBackend::memory_usage`] can
    /// return.
    pub fn memory_usage_fits(&self) -> (fits: bool)
        ensures
            fits == (byte_total(self@.inputs) + byte_total(self@.outputs) <= usize::MAX),
    {
        match add_bytes(&self.inputs, 0) {
            Some(inputs_bytes) => add_bytes(&self.outputs, inputs_bytes).is_some(),
            None => false,
        }
    }

    /// Bytes that the elements of all inputs and outputs take.
    pub fn memory_usage(&self) -> (bytes: usize)
        requires
            byte_total(self@.inputs) + byte_total(self@.outputs) <= usize::MAX,
        ensures
            bytes == byte_total(self@.inputs) + byte_total(self@.outputs),
    {
        let inputs_bytes = add_bytes(&self.inputs, 0);
        let total = add_bytes(&self.outputs, inputs_bytes.unwrap());
        total.unwrap()
    }

    /// For each input, the scale by which its values are to be divided before
    /// [`CviTekBackend::stage_inputs`]; `None` for one that is not quantised.
    pub fn quotient_scales(&self) -> (scales: Vec<Option<u32>>)
        ensures
            scales@ == self@.inputs.map_values(|m: TensorMetaView| quotient_scale(m)),
    {
        let ghost views = self@.inputs;
        let mut scales: Vec<Option<u32>> = Vec::with_capacity(self.inputs.len());
        for k in 0..self.inputs.len()
            invariant
                views == meta_views(self.inputs@),
                scales@.len() == k,
                forall|j: int| 0 <= j < k ==> #[trigger] scales@[j] == quotient_scale(views[j]),
        {
            let m = &self.inputs[k];
            assert(views[k as int] == m@);
            scales.push(
                if m.fmt == CviFmt::Int8 || m.fmt == CviFmt::Uint8 {
                    Some(effective_scale(m.qscale))
                } else {
                    None
                },
            );
        }
        assert(scales@ =~= views.map_values(|m: TensorMetaView| quotient_scale(m)));
        scales
    }

    /// The first half of a pass: writes the caller's tensors into the runtime's input tensors
    /// `slots`, in the model's order, up to the first that is refused. Entry `k` of
    /// `quotients` holds the values for input `k`, divided by its scale and rounded, where that
    /// input is quantised. `None` says that an input's quotients are not one for each value,
    /// or leave 32 bits when they are moved by the zero point.
    pub fn stage_inputs(
        &self,
        inputs: &TensorMap<InputTensor>,
        quotients: &Vec<Vec<i32>>,
        slots: &mut Vec<CviTensor>,
    ) -> (done: Option<Result<(), NnError>>)
        requires
            inputs.wf(),
        ensures
            ({
                let (outcome, after) = staged(
                    self@.inputs,
                    inputs@,
                    quotient_views(quotients@),
                    tensor_views(old(slots)@),
                    self@.inputs.len(),
                );
                reports(done, outcome) && tensor_views(final(slots)@) == after
            }),
    {
        stage(&self.inputs, inputs, quotients, slots)
    }

    /// Whether the forward call that returned `rc` succeeded.
    pub fn forward_status(&self, rc: i32) -> (status: Result<(), NnError>)
        ensures
            rc == CVI_RC_SUCCESS ==> status is Ok,
            rc != CVI_RC_SUCCESS ==> (status matches Err(e) && e@ == forward_error(rc)),
    {
        if rc != CVI_RC_SUCCESS {
            return Err(
                NnError::Inference(
                    join3("CVI_NN_Forward failed (rc=", signed_text(rc).as_str(), ")"),
                ),
            );
        }
        Ok(())
    }

    /// The second half of a pass: reads the runtime's output tensors `slots`, in the model's
    /// order, up to the first that cannot be read. `None` says that a buffer is shorter than
    /// its elements, or that a distance from a zero point leaves 32 bits.
    pub fn collect_outputs(&self, slots: &Vec<CviTensor>) -> (done: Option<
        Result<TensorMap<OutputTensor>, NnError>,
    >)
        ensures
            delivers(
                done,
                collected(self@.outputs, tensor_views(slots@), self@.outputs.len()),
            ),
    {
        collect(&self.outputs, slots)
    }
}

/// A diagnostic record carries what is kept of the tensor in the same place. `infos` are the
/// records of `metas`.
pub proof fn law_diagnostics_show_what_is_kept(
    metas: Seq<TensorMetaView>,
    infos: Vec<TensorInfo>,
    i: int,
)
    requires
        infos@.map_values(|t: TensorInfo| info_view(t)) == metas.map_values(
            |m: TensorMetaView| info_of(m),
        ),
        0 <= i < metas.len(),
    ensures
        infos@.len() == metas.len(),
        infos@[i].0@ == metas[i].name,
        infos@[i].1@ == metas[i].dims,
        infos@[i].2@ == metas[i].fmt.label(),
        infos@[i].3 == metas[i].qscale,
        infos@[i].4 == metas[i].zero_point,
{
    let seen = infos@.map_values(|t: TensorInfo| info_view(t));
    let want = metas.map_values(|m: TensorMetaView| info_of(m));
    assert(seen.len() == infos@.len());
    assert(want.len() == metas.len());
    assert(seen[i] == info_view(infos@[i]));
    assert(want[i] == info_of(metas[i]));
}

/// The tensor whose shape is given for a name is called that, and no tensor before it is.
pub proof fn law_first_named_is_the_first(metas: Seq<TensorMetaView>, name: Seq<char>, i: int)
    ensures
        is_first_named(metas, name, i) <==> 0 <= i < metas.len() && metas[i].name == name && !(
        exists|j: int| 0 <= j < i && (#[trigger] metas[j]).name == name),
{
}

/// Tensors take no bytes where there are none, and one more takes its elements times the size
/// of one.
pub proof fn law_bytes_add_up(metas: Seq<TensorMetaView>, m: TensorMetaView)
    ensures
        byte_total(Seq::empty()) == 0,
        byte_total(metas.push(m)) == byte_total(metas) + m.count * m.fmt.size(),
{
    assert(metas.push(m).drop_last() =~= metas);
}

/// The bytes of two lists of tensors together are the sum of the bytes of each.
pub proof fn law_byte_totals_add_up(a: Seq<TensorMetaView>, b: Seq<TensorMetaView>)
    ensures
        byte_total(a + b) == byte_total(a) + byte_total(b),
    decreases b.len(),
{
    if b.len() == 0 {
        assert(a + b =~= a);
    } else {
        assert((a + b).last() == b.last());
        assert((a + b).drop_last() =~= a + b.drop_last());
        law_byte_totals_add_up(a, b.drop_last());
    }
}

/// The message of a failed forward call carries the return code.
pub proof fn law_forward_message_carries_the_code(rc: i32)
    ensures
        forward_error(rc) == NnErrorView::Inference(
            "CVI_NN_Forward failed (rc="@ + signed_decimal(rc as int) + ")"@,
        ),
        CVI_RC_SUCCESS == 0,
{
}

} // verus!
