//! What the runtime reports of a model's tensors, and what the backend keeps of it.
use vstd::prelude::*;
use vstd::utf8::{encode_utf8, valid_utf8};

use crate::error::{NnError, NnErrorView};
use crate::format::CviFmt;
use crate::names::{
    announce, announced_name, law_names_encode_the_reported_bytes, lookup, lookup_name, name_view,
    repaired_utf8,
};
use crate::text::join3;

verus! {

/// `CVI_DIM_MAX`: the highest tensor rank that the runtime reports.
pub const CVI_DIM_MAX: usize = 6;

/// `CVI_SHAPE`: the axis lengths of a runtime tensor, of which the first `dim_size` count.
#[derive(Debug, Clone, Copy)]
pub struct CviShape {
    pub dim: [i32; CVI_DIM_MAX],
    pub dim_size: usize,
}

impl CviShape {
    /// Whether the reported rank is one that the runtime can have.
    pub open spec fn valid(self) -> bool {
        self.dim_size <= CVI_DIM_MAX
    }

    /// The axis lengths that count, with a negative one read as zero.
    pub open spec fn axes(self) -> Seq<usize> {
        Seq::new(
            self.dim_size as nat,
            |i: int|
                if self.dim@[i] < 0 {
                    0usize
                } else {
                    self.dim@[i] as usize
                },
        )
    }

    /// Computes [`CviShape::axes`].
    pub fn lengths(&self) -> (dims: Vec<usize>)
        requires
            self.valid(),
        ensures
            dims@ == self.axes(),
    {
        let mut dims: Vec<usize> = Vec::with_capacity(self.dim_size);
        for i in 0..self.dim_size
            invariant
                self.valid(),
                dims@ == self.axes().take(i as int),
        {
            let d: i32 = self.dim[i];
            dims.push(
                if d < 0 {
                    0
                } else {
                    d as usize
                },
            );
        }
        dims
    }
}

/// Axis lengths of a tensor.
#[derive(Debug)]
pub struct TensorShape {
    dims: Vec<usize>,
}

impl View for TensorShape {
    type V = Seq<usize>;

    closed spec fn view(&self) -> Seq<usize> {
        self.dims@
    }
}

impl TensorShape {
    /// A shape with the given axis lengths.
    pub fn new(dims: Vec<usize>) -> (shape: TensorShape)
        ensures
            shape@ == dims@,
    {
        TensorShape { dims }
    }

    /// The axis lengths.
    pub fn dims(&self) -> (dims: &[usize])
        ensures
            dims@ == self@,
    {
        self.dims.as_slice()
    }
}

impl Clone for TensorShape {
    fn clone(&self) -> (shape: TensorShape)
        ensures
            shape@ == self@,
    {
        TensorShape { dims: vstd::slice::slice_to_vec(self.dims.as_slice()) }
    }
}

/// `CVI_TENSOR`: one input or output of a model, as far as the backend reads it.
#[derive(Debug)]
pub struct CviTensor {
    /// The bytes of the name, without the terminator; `None` for a null pointer.
    pub name: Option<Vec<u8>>,
    pub shape: CviShape,
    pub fmt: CviFmt,
    /// Number of elements.
    pub count: usize,
    /// The buffer in system memory; `None` where the runtime allocated none.
    pub sys_mem: Option<Vec<u8>>,
    /// Bit pattern of the quantisation scale.
    pub qscale: u32,
    pub zero_point: i32,
}

/// A [`CviTensor`] with its name and its buffer as sequences.
pub struct CviTensorView {
    pub name: Option<Seq<u8>>,
    pub shape: CviShape,
    pub fmt: CviFmt,
    pub count: usize,
    pub sys_mem: Option<Seq<u8>>,
    pub qscale: u32,
    pub zero_point: i32,
}

impl View for CviTensor {
    type V = CviTensorView;

    open spec fn view(&self) -> CviTensorView {
        CviTensorView {
            name: name_view(self.name),
            shape: self.shape,
            fmt: self.fmt,
            count: self.count,
            sys_mem: match self.sys_mem {
                Some(bytes) => Some(bytes@),
                None => None,
            },
            qscale: self.qscale,
            zero_point: self.zero_point,
        }
    }
}

/// The views of a list of runtime tensors.
pub open spec fn tensor_views(tensors: Seq<CviTensor>) -> Seq<CviTensorView> {
    tensors.map_values(|t: CviTensor| t@)
}

/// What the backend keeps of one tensor.
#[derive(Debug)]
pub struct TensorMeta {
    pub name: String,
    pub shape: TensorShape,
    pub fmt: CviFmt,
    /// Number of elements.
    pub count: usize,
    /// Bit pattern of the quantisation scale.
    pub qscale: u32,
    pub zero_point: i32,
}

/// A [`TensorMeta`] with its name and its axis lengths as sequences.
pub struct TensorMetaView {
    pub name: Seq<char>,
    pub dims: Seq<usize>,
    pub fmt: CviFmt,
    pub count: usize,
    pub qscale: u32,
    pub zero_point: i32,
}

impl View for TensorMeta {
    type V = TensorMetaView;

    open spec fn view(&self) -> TensorMetaView {
        TensorMetaView {
            name: self.name@,
            dims: self.shape@,
            fmt: self.fmt,
            count: self.count,
            qscale: self.qscale,
            zero_point: self.zero_point,
        }
    }
}

/// The views of a list of tensor records.
pub open spec fn meta_views(metas: Seq<TensorMeta>) -> Seq<TensorMetaView> {
    metas.map_values(|m: TensorMeta| m@)
}

/// What is kept of a runtime tensor.
pub open spec fn meta_of(t: CviTensorView) -> TensorMetaView {
    TensorMetaView {
        name: announced_name(t.name),
        dims: t.shape.axes(),
        fmt: t.fmt,
        count: t.count,
        qscale: t.qscale,
        zero_point: t.zero_point,
    }
}

/// Whether every tensor has a rank that the runtime can report.
pub open spec fn shapes_valid(tensors: Seq<CviTensorView>) -> bool {
    forall|i: int| 0 <= i < tensors.len() ==> (#[trigger] tensors[i]).shape.valid()
}

/// The outcome of recording `n` tensors found at `array`, where `None` is a null pointer.
pub open spec fn snapshot(array: Option<Seq<CviTensorView>>, n: nat) -> Result<
    Seq<TensorMetaView>,
    NnErrorView,
> {
    if n == 0 {
        Ok(Seq::empty())
    } else {
        match array {
            None => Err(NnErrorView::ModelLoad("tensor array pointer is null"@)),
            Some(tensors) => Ok(tensors.map_values(|t: CviTensorView| meta_of(t))),
        }
    }
}

/// The tensors of an array that may be absent, as views.
pub open spec fn array_view(array: Option<Vec<CviTensor>>) -> Option<Seq<CviTensorView>> {
    match array {
        Some(tensors) => Some(tensor_views(tensors@)),
        None => None,
    }
}

/// Whether `n` tensors can be recorded from `array`.
pub open spec fn snapshot_ready(array: Option<Seq<CviTensorView>>, n: nat) -> bool {
    n > 0 ==> (array matches Some(tensors) ==> tensors.len() == n && shapes_valid(tensors))
}

/// A list of tensor records, or the error in its place, as a view.
pub open spec fn metas_result_view(r: Result<Vec<TensorMeta>, NnError>) -> Result<
    Seq<TensorMetaView>,
    NnErrorView,
> {
    match r {
        Ok(metas) => Ok(meta_views(metas@)),
        Err(e) => Err(e@),
    }
}

/// Records the `n` tensors of a runtime array; `None` is a null pointer.
pub fn snapshot_tensors(array: &Option<Vec<CviTensor>>, n: usize) -> (metas: Result<
    Vec<TensorMeta>,
    NnError,
>)
    requires
        snapshot_ready(array_view(*array), n as nat),
    ensures
        metas_result_view(metas) == snapshot(array_view(*array), n as nat),
{
    if n == 0 {
        let metas: Vec<TensorMeta> = Vec::new();
        assert(meta_views(metas@) =~= Seq::empty());
        return Ok(metas);
    }
    match array {
        None => Err(NnError::ModelLoad("tensor array pointer is null".to_owned())),
        Some(tensors) => {
            let ghost views = tensor_views(tensors@);
            let ghost recorded = views.map_values(|t: CviTensorView| meta_of(t));
            let mut metas: Vec<TensorMeta> = Vec::with_capacity(n);
            for i in 0..n
                invariant
                    views == tensor_views(tensors@),
                    recorded == views.map_values(|t: CviTensorView| meta_of(t)),
                    views.len() == n,
                    shapes_valid(views),
                    meta_views(metas@) =~= recorded.take(i as int),
            {
                let t = &tensors[i];
                assert(views[i as int] == t@);
                let meta = TensorMeta {
                    name: announce(&t.name),
                    shape: TensorShape::new(t.shape.lengths()),
                    fmt: t.fmt,
                    count: t.count,
                    qscale: t.qscale,
                    zero_point: t.zero_point,
                };
                assert(meta@ == recorded[i as int]);
                let ghost before = meta_views(metas@);
                metas.push(meta);
                assert(meta_views(metas@) =~= before.push(meta@));
            }
            assert(recorded.take(n as int) =~= recorded);
            Ok(metas)
        },
    }
}

/// Every tensor is recorded, in the runtime's order.
pub proof fn law_every_tensor_is_recorded(array: Option<Seq<CviTensorView>>, n: nat, i: int)
    requires
        snapshot_ready(array, n),
        0 <= i < n,
    ensures
        snapshot(array, n) matches Ok(metas) ==> {
            &&& metas.len() == n
            &&& array matches Some(tensors)
            &&& metas[i] == meta_of(tensors[i])
        },
{
}

/// Whether `i` is the first of `tensors` that is found under `name`.
pub open spec fn is_slot(tensors: Seq<CviTensorView>, name: Seq<char>, i: int) -> bool {
    &&& 0 <= i < tensors.len()
    &&& lookup_name(tensors[i].name) == name
    &&& forall|j: int| 0 <= j < i ==> lookup_name((#[trigger] tensors[j]).name) != name
}

/// The index of the first of `tensors` that is found under `name`.
pub open spec fn slot_of(tensors: Seq<CviTensorView>, name: Seq<char>) -> Option<int> {
    if exists|i: int| is_slot(tensors, name, i) {
        Some(choose|i: int| is_slot(tensors, name, i))
    } else {
        None
    }
}

/// The error for a tensor that the runtime no longer lists.
pub open spec fn slot_error(name: Seq<char>) -> NnErrorView {
    NnErrorView::InvalidInput("tensor '"@ + name + "' not present in runtime descriptor"@)
}

/// At most one index is the first under a name.
pub proof fn lemma_slot_is_unique(tensors: Seq<CviTensorView>, name: Seq<char>, i: int)
    requires
        is_slot(tensors, name, i),
    ensures
        slot_of(tensors, name) == Some(i),
{
    let k = choose|k: int| is_slot(tensors, name, k);
    assert(is_slot(tensors, name, k));
    if k < i {
        assert(lookup_name(tensors[k].name) != name);
    } else if i < k {
        assert(lookup_name(tensors[i].name) != name);
    }
}

fn slot_index(slots: &Vec<CviTensor>, name: &String) -> (index: Result<usize, NnError>)
    ensures
        match slot_of(tensor_views(slots@), name@) {
            Some(i) => index matches Ok(k) && k == i && k < slots@.len(),
            None => index matches Err(e) && e@ == slot_error(name@),
        },
{
    let ghost views = tensor_views(slots@);
    for i in 0..slots.len()
        invariant
            views == tensor_views(slots@),
            forall|j: int| 0 <= j < i ==> lookup_name((#[trigger] views[j]).name) != name@,
    {
        assert(views[i as int] == slots@[i as int]@);
        if lookup(&slots[i].name).to_owned() == *name {
            proof {
                assert(is_slot(views, name@, i as int));
                lemma_slot_is_unique(views, name@, i as int);
            }
            return Ok(i);
        }
    }
    assert forall|i: int| !is_slot(views, name@, i) by {
        if 0 <= i < views.len() {
            assert(lookup_name(views[i].name) != name@);
        }
    }
    Err(
        NnError::InvalidInput(
            join3("tensor '", name.as_str(), "' not present in runtime descriptor"),
        ),
    )
}

/// Finds the runtime tensor that belongs to `meta`, to be written.
pub fn tensor_slot_mut<'a>(slots: &'a mut Vec<CviTensor>, meta: &TensorMeta) -> (slot: Result<
    &'a mut CviTensor,
    NnError,
>)
    ensures
        match slot_of(tensor_views(old(slots)@), meta.name@) {
            Some(i) => slot matches Ok(t) && *t == old(slots)@[i] && final(slots)@ == old(
                slots,
            )@.update(i, *final(t)),
            None => slot matches Err(e) && e@ == slot_error(meta.name@) && final(slots)@ == old(
                slots,
            )@,
        },
{
    match slot_index(slots, &meta.name) {
        Ok(i) => Ok(&mut slots[i]),
        Err(e) => Err(e),
    }
}

/// Finds the runtime tensor that belongs to `meta`, to be read.
pub fn tensor_slot_ref<'a>(slots: &'a Vec<CviTensor>, meta: &TensorMeta) -> (slot: Result<
    &'a CviTensor,
    NnError,
>)
    ensures
        match slot_of(tensor_views(slots@), meta.name@) {
            Some(i) => slot matches Ok(t) && 0 <= i < slots@.len() && *t == slots@[i],
            None => slot matches Err(e) && e@ == slot_error(meta.name@),
        },
{
    match slot_index(slots, &meta.name) {
        Ok(i) => Ok(&slots[i]),
        Err(e) => Err(e),
    }
}

/// Axis `i` of a tensor is recorded from the axis that the runtime reports in place `i`, at
/// every rank that the runtime can report, with a negative length read as zero.
pub proof fn law_axes_are_recorded_in_place(shape: CviShape, i: int)
    ensures
        shape.valid() <==> shape.dim_size <= 6,
        shape.axes().len() == shape.dim_size,
        shape.valid() && 0 <= i < shape.dim_size ==> {
            &&& shape.dim@[i] >= 0 ==> shape.axes()[i] == shape.dim@[i]
            &&& shape.dim@[i] < 0 ==> shape.axes()[i] == 0
        },
{
}

/// What is said of a runtime tensor is said of its own fields.
pub proof fn law_runtime_tensors_are_seen_as_they_are(tensors: Seq<CviTensor>, i: int)
    requires
        0 <= i < tensors.len(),
    ensures
        tensor_views(tensors).len() == tensors.len(),
        ({
            let (seen, t) = (tensor_views(tensors)[i], tensors[i]);
            &&& seen == t@
            &&& t.name matches Some(bytes) ==> seen.name == Some(bytes@)
            &&& t.name is None ==> seen.name is None
            &&& seen.shape == t.shape
            &&& seen.fmt == t.fmt
            &&& seen.count == t.count
            &&& t.sys_mem matches Some(bytes) ==> seen.sys_mem == Some(bytes@)
            &&& t.sys_mem is None ==> seen.sys_mem is None
            &&& seen.qscale == t.qscale
            &&& seen.zero_point == t.zero_point
        }),
{
}

/// What is said of a tensor record is said of its own fields.
pub proof fn law_records_are_seen_as_they_are(metas: Seq<TensorMeta>, i: int)
    requires
        0 <= i < metas.len(),
    ensures
        meta_views(metas).len() == metas.len(),
        ({
            let (seen, m) = (meta_views(metas)[i], metas[i]);
            &&& seen == m@
            &&& seen.name == m.name@
            &&& seen.dims == m.shape@
            &&& seen.fmt == m.fmt
            &&& seen.count == m.count
            &&& seen.qscale == m.qscale
            &&& seen.zero_point == m.zero_point
        }),
{
}

/// The record of a tensor carries what the runtime reports of it, field by field: the element
/// type, the number of elements, the scale and the zero point as they are, each axis length in
/// its place, and a valid name as the text that it encodes. `result` is what recording the array
/// comes to.
pub proof fn law_records_carry_what_is_reported(
    tensors: Vec<CviTensor>,
    result: Result<Vec<TensorMeta>, NnError>,
    i: int,
)
    requires
        metas_result_view(result) == snapshot(array_view(Some(tensors)), tensors@.len()),
        0 <= i < tensors@.len(),
        tensors@[i].shape.dim_size <= 6,
    ensures
        result matches Ok(metas) && metas@.len() == tensors@.len() && ({
            let (m, t) = (metas@[i], tensors@[i]);
            &&& m.fmt == t.fmt
            &&& m.count == t.count
            &&& m.qscale == t.qscale
            &&& m.zero_point == t.zero_point
            &&& m.shape@.len() == t.shape.dim_size
            &&& forall|a: int|
                0 <= a < t.shape.dim_size ==> #[trigger] m.shape@[a] == if t.shape.dim@[a] < 0 {
                    0
                } else {
                    t.shape.dim@[a] as int
                }
            &&& t.name is None ==> m.name@.len() == 0
            &&& t.name matches Some(bytes) ==> {
                &&& valid_utf8(bytes@) ==> encode_utf8(m.name@) == bytes@
                &&& !valid_utf8(bytes@) ==> m.name@ == repaired_utf8(bytes@)
            }
        }),
{
    let views = tensor_views(tensors@);
    assert(views[i] == tensors@[i]@);
    assert(snapshot(array_view(Some(tensors)), tensors@.len()) is Ok);
    let metas = result->Ok_0;
    assert(meta_views(metas@).len() == views.len());
    assert(meta_views(metas@)[i] == metas@[i]@);
    assert(metas@[i]@ == meta_of(views[i]));
    if let Some(bytes) = tensors@[i].name {
        law_names_encode_the_reported_bytes(bytes);
    }
    assert forall|a: int| 0 <= a < tensors@[i].shape.dim_size implies #[trigger] metas@[i].shape@[a]
        == if tensors@[i].shape.dim@[a] < 0 {
        0
    } else {
        tensors@[i].shape.dim@[a] as int
    } by {
        law_axes_are_recorded_in_place(tensors@[i].shape, a);
    }
}

/// Where there is nothing to record, nothing is recorded, and the array is not looked at; where
/// there is something to record, an array that is absent is a failed load. `result` is what
/// recording comes to.
pub proof fn law_absent_arrays_are_refused_when_needed(
    array: Option<Vec<CviTensor>>,
    n: nat,
    result: Result<Vec<TensorMeta>, NnError>,
)
    requires
        metas_result_view(result) == snapshot(array_view(array), n),
    ensures
        n == 0 ==> (result matches Ok(metas) && metas@.len() == 0),
        n > 0 && array is None ==> (result matches Err(NnError::ModelLoad(text)) && text@
            == "tensor array pointer is null"@),
        n > 0 && array is Some ==> result is Ok,
{
    if n == 0 {
        assert(meta_views(result->Ok_0@).len() == 0);
    }
}

/// An array can be recorded where it has as many tensors as are asked for and each of them has
/// at most six axes; it does not matter where it is absent or none are asked for.
pub proof fn law_arrays_that_can_be_recorded(array: Option<Vec<CviTensor>>, n: nat)
    ensures
        n == 0 || array is None ==> snapshot_ready(array_view(array), n),
        n > 0 ==> (array matches Some(tensors) ==> (snapshot_ready(array_view(array), n) <==> (
        tensors@.len() == n && forall|i: int|
            0 <= i < n ==> (#[trigger] tensors@[i]).shape.dim_size <= 6))),
{
    if let Some(tensors) = array {
        let views = tensor_views(tensors@);
        assert forall|i: int| 0 <= i < tensors@.len() implies (#[trigger] tensors@[i]).shape.dim_size
            <= 6 <==> views[i].shape.valid() by {
            assert(views[i] == tensors@[i]@);
        }
        if n > 0 && snapshot_ready(array_view(array), n) {
            assert forall|i: int| 0 <= i < n implies (#[trigger] tensors@[i]).shape.dim_size
                <= 6 by {
                assert(views[i].shape.valid());
            }
        }
    }
}

/// The runtime tensor that is found under a name goes by that name and is the first to do so;
/// where none is found, none goes by it.
pub proof fn law_first_tensor_of_a_name_is_found(
    tensors: Seq<CviTensorView>,
    name: Seq<char>,
    j: int,
)
    requires
        0 <= j < tensors.len(),
    ensures
        slot_of(tensors, name) matches Some(i) ==> {
            &&& 0 <= i < tensors.len()
            &&& lookup_name(tensors[i].name) == name
            &&& j < i ==> lookup_name(tensors[j].name) != name
        },
        slot_of(tensors, name) is None ==> lookup_name(tensors[j].name) != name,
        slot_error(name) == NnErrorView::InvalidInput(
            "tensor '"@ + name + "' not present in runtime descriptor"@,
        ),
    decreases j,
{
    if let Some(i) = slot_of(tensors, name) {
        assert(is_slot(tensors, name, i));
    } else if lookup_name(tensors[j].name) == name {
        assert(!is_slot(tensors, name, j));
        let k = choose|k: int| 0 <= k < j && lookup_name((#[trigger] tensors[k]).name) == name;
        law_first_tensor_of_a_name_is_found(tensors, name, k);
    }
}

/// An empty list of runtime tensors holds none of any name.
pub proof fn law_nothing_is_found_in_nothing(name: Seq<char>)
    ensures
        slot_of(Seq::empty(), name) is None,
{
}

} // verus!
