//! Loading a model: the decisions between the calls that the runtime is asked to make.
//!
//! [`CviTekBackend::from_file`] starts a load. The value that it returns, and each one after
//! it, takes what the next runtime call reported, until a [`CviTekBackend`] is there.
use vstd::prelude::*;
use vstd::string::StringSliceAdditionalSpecFns;
use vstd::utf8::{encode_utf8, valid_utf8};

use crate::backend::{CviTekBackend, CviTekBackendView, CVI_RC_SUCCESS};
use crate::descriptor::{
    array_view, meta_views, snapshot, snapshot_ready, snapshot_tensors, CviTensor, CviTensorView,
    TensorMeta, TensorMetaView,
};
use crate::error::{NnError, NnErrorView};
use crate::names::{
    c_text, from_utf8_lossy, law_names_encode_the_reported_bytes, repaired_utf8,
};
use crate::text::{decimal, decimal_text, join3, signed_decimal, signed_text};

verus! {

/// Whether byte `i` is the first NUL of `bytes`.
pub open spec fn is_first_nul(bytes: Seq<u8>, i: int) -> bool {
    &&& 0 <= i < bytes.len()
    &&& bytes[i] == 0
    &&& forall|j: int| 0 <= j < i ==> #[trigger] bytes[j] != 0
}

/// The error for a path whose byte at `position` is the first NUL.
pub open spec fn nul_error(path: Seq<char>, position: nat) -> NnErrorView {
    NnErrorView::ModelLoad(
        "model path contains interior NUL byte: "@ + path
            + " (nul byte found in provided data at position: "@ + decimal(position) + ")"@,
    )
}

/// The error for a model that the runtime did not register.
pub open spec fn register_error(path: Seq<char>, rc: i32) -> NnErrorView {
    NnErrorView::ModelLoad(
        "CVI_NN_RegisterModel failed (rc="@ + signed_decimal(rc as int) + ", path="@ + path
            + ")"@,
    )
}

/// The error for a model whose tensors the runtime did not list.
pub open spec fn list_error(rc: i32) -> NnErrorView {
    NnErrorView::ModelLoad(
        "CVI_NN_GetInputOutputTensors failed (rc="@ + signed_decimal(rc as int) + ")"@,
    )
}

/// A model that is to be registered with the runtime.
#[derive(Debug)]
pub struct PendingModel {
    path: String,
    c_path: Vec<u8>,
}

impl PendingModel {
    /// The path as text.
    pub closed spec fn path(&self) -> Seq<char> {
        self.path@
    }

    /// The path as the bytes of a C string, with the terminator.
    pub closed spec fn c_string(&self) -> Seq<u8> {
        self.c_path@
    }

    /// The argument for `CVI_NN_RegisterModel`: the path with its terminating NUL.
    pub fn c_path(&self) -> (bytes: &[u8])
        ensures
            bytes@ == self.c_string(),
    {
        self.c_path.as_slice()
    }

    /// Takes the return code of `CVI_NN_RegisterModel`, and whether it left the handle null.
    pub fn registered(self, rc: i32, handle_is_null: bool) -> (model: Result<
        RegisteredModel,
        NnError,
    >)
        ensures
            rc == CVI_RC_SUCCESS && !handle_is_null ==> model is Ok,
            rc != CVI_RC_SUCCESS || handle_is_null ==> (model matches Err(e) && e@
                == register_error(self.path(), rc)),
    {
        if rc != CVI_RC_SUCCESS || handle_is_null {
            let mut text = join3(
                "CVI_NN_RegisterModel failed (rc=",
                signed_text(rc).as_str(),
                ", path=",
            );
            text.append(self.path.as_str());
            text.append(")");
            return Err(NnError::ModelLoad(text));
        }
        Ok(RegisteredModel(()))
    }
}

/// A model that the runtime has registered.
#[derive(Debug)]
pub struct RegisteredModel(());

/// A load that failed after the model was registered.
#[derive(Debug)]
pub struct LoadFailure {
    pub error: NnError,
    /// Whether `CVI_NN_CleanupModel` is to be called.
    pub release: bool,
}

/// The tensor records of a model, or the error in their place with whether the model is to be
/// released.
pub open spec fn listing(
    rc: i32,
    inputs: Option<Seq<CviTensorView>>,
    input_num: nat,
    outputs: Option<Seq<CviTensorView>>,
    output_num: nat,
) -> Result<(Seq<TensorMetaView>, Seq<TensorMetaView>), (NnErrorView, bool)> {
    if rc != CVI_RC_SUCCESS {
        Err((list_error(rc), true))
    } else {
        match snapshot(inputs, input_num) {
            Err(error) => Err((error, false)),
            Ok(input_metas) => match snapshot(outputs, output_num) {
                Err(error) => Err((error, false)),
                Ok(output_metas) => Ok((input_metas, output_metas)),
            },
        }
    }
}

/// A listed model, or the failure in its place, as a view.
pub open spec fn listed_view(r: Result<ListedModel, LoadFailure>) -> Result<
    (Seq<TensorMetaView>, Seq<TensorMetaView>),
    (NnErrorView, bool),
> {
    match r {
        Ok(m) => Ok((m.input_metas(), m.output_metas())),
        Err(f) => Err((f.error@, f.release)),
    }
}

impl RegisteredModel {
    /// Takes the return code of `CVI_NN_GetInputOutputTensors` and the two tensor arrays with
    /// their lengths, where `None` is a null pointer. A model whose tensors were not listed is
    /// to be released; one whose array pointer is null is not.
    pub fn listed(
        self,
        rc: i32,
        inputs: &Option<Vec<CviTensor>>,
        input_num: usize,
        outputs: &Option<Vec<CviTensor>>,
        output_num: usize,
    ) -> (model: Result<ListedModel, LoadFailure>)
        requires
            rc == CVI_RC_SUCCESS ==> snapshot_ready(array_view(*inputs), input_num as nat),
            rc == CVI_RC_SUCCESS && (input_num == 0 || inputs is Some) ==> snapshot_ready(
                array_view(*outputs),
                output_num as nat,
            ),
        ensures
            listed_view(model) == listing(
                rc,
                array_view(*inputs),
                input_num as nat,
                array_view(*outputs),
                output_num as nat,
            ),
    {
        if rc != CVI_RC_SUCCESS {
            let text = join3(
                "CVI_NN_GetInputOutputTensors failed (rc=",
                signed_text(rc).as_str(),
                ")",
            );
            return Err(LoadFailure { error: NnError::ModelLoad(text), release: true });
        }
        let inputs = match snapshot_tensors(inputs, input_num) {
            Ok(metas) => metas,
            Err(error) => {
                return Err(LoadFailure { error, release: false });
            },
        };
        let outputs = match snapshot_tensors(outputs, output_num) {
            Ok(metas) => metas,
            Err(error) => {
                return Err(LoadFailure { error, release: false });
            },
        };
        Ok(ListedModel { inputs, outputs })
    }
}

/// A model whose tensors are known.
#[derive(Debug)]
pub struct ListedModel {
    inputs: Vec<TensorMeta>,
    outputs: Vec<TensorMeta>,
}

/// The chip target as text: `unknown` where the runtime gives none.
pub open spec fn target_text(target: Option<Seq<u8>>) -> Seq<char> {
    match target {
        Some(bytes) => c_text(bytes),
        None => "unknown"@,
    }
}

/// The bytes of a C string that may be absent.
pub open spec fn c_string_view(text: Option<Vec<u8>>) -> Option<Seq<u8>> {
    match text {
        Some(bytes) => Some(bytes@),
        None => None,
    }
}

impl ListedModel {
    /// The records of the inputs.
    pub closed spec fn input_metas(&self) -> Seq<TensorMetaView> {
        meta_views(self.inputs@)
    }

    /// The records of the outputs.
    pub closed spec fn output_metas(&self) -> Seq<TensorMetaView> {
        meta_views(self.outputs@)
    }

    /// Takes the bytes of the chip target, where `None` is a null pointer, and the version.
    pub fn described(self, target: &Option<Vec<u8>>, version: (i32, i32)) -> (backend:
        CviTekBackend)
        ensures
            backend@ == (CviTekBackendView {
                inputs: self.input_metas(),
                outputs: self.output_metas(),
                target: target_text(c_string_view(*target)),
                version,
            }),
    {
        let target = match target {
            Some(bytes) => from_utf8_lossy(bytes.as_slice()),
            None => "unknown".to_owned(),
        };
        CviTekBackend::new(self.inputs, self.outputs, target, version)
    }
}

impl CviTekBackend {
    /// Starts to load the model at `path`. A path with a NUL byte in it is refused.
    pub fn from_file(path: &str) -> (model: Result<PendingModel, NnError>)
        ensures
            match model {
                Ok(m) => {
                    &&& forall|i: int|
                        0 <= i < path.spec_bytes().len() ==> #[trigger] path.spec_bytes()[i] != 0
                    &&& m.path() == path@
                    &&& m.c_string() == path.spec_bytes().push(0)
                },
                Err(e) => exists|i: int| #[trigger]
                    is_first_nul(path.spec_bytes(), i) && e@ == nul_error(path@, i as nat),
            },
    {
        let bytes = path.as_bytes();
        let mut c_path: Vec<u8> = Vec::with_capacity(bytes.len());
        for i in 0..bytes.len()
            invariant
                bytes@ == path.spec_bytes(),
                c_path@ == bytes@.take(i as int),
                forall|j: int| 0 <= j < i ==> #[trigger] bytes@[j] != 0,
        {
            let b: u8 = bytes[i];
            if b == 0 {
                assert(is_first_nul(path.spec_bytes(), i as int));
                let mut text = join3(
                    "model path contains interior NUL byte: ",
                    path,
                    " (nul byte found in provided data at position: ",
                );
                text.append(decimal_text(i as u128).as_str());
                text.append(")");
                return Err(NnError::ModelLoad(text));
            }
            c_path.push(b);
        }
        c_path.push(0);
        assert(c_path@ =~= path.spec_bytes().push(0));
        Ok(PendingModel { path: path.to_owned(), c_path })
    }
}

/// The messages of a failed load say what failed, and carry the path, the return code and the
/// position that belong to it.
pub proof fn law_load_messages_carry_their_cause(path: Seq<char>, position: nat, rc: i32)
    ensures
        nul_error(path, position) == NnErrorView::ModelLoad(
            "model path contains interior NUL byte: "@ + path
                + " (nul byte found in provided data at position: "@ + decimal(position) + ")"@,
        ),
        register_error(path, rc) == NnErrorView::ModelLoad(
            "CVI_NN_RegisterModel failed (rc="@ + signed_decimal(rc as int) + ", path="@ + path
                + ")"@,
        ),
        list_error(rc) == NnErrorView::ModelLoad(
            "CVI_NN_GetInputOutputTensors failed (rc="@ + signed_decimal(rc as int) + ")"@,
        ),
{
}

/// The NUL byte of which a message speaks is one, and none stands before it.
pub proof fn law_first_nul_is_the_first(bytes: Seq<u8>, i: int)
    ensures
        is_first_nul(bytes, i) <==> 0 <= i < bytes.len() && bytes[i] == 0 && !bytes.take(
            i,
        ).contains(0),
{
    if 0 <= i < bytes.len() {
        if is_first_nul(bytes, i) && bytes.take(i).contains(0) {
            let j = choose|j: int| 0 <= j < i && bytes.take(i)[j] == 0;
            assert(bytes[j] != 0);
        }
        if !bytes.take(i).contains(0) {
            assert forall|j: int| 0 <= j < i implies #[trigger] bytes[j] != 0 by {
                assert(bytes.take(i)[j] == bytes[j]);
            }
        }
    }
}

/// What a listing comes to: a runtime call that failed is reported with its code, and the model
/// is released; an array that is needed and absent is reported, and the model is not released;
/// otherwise the model has the records of both arrays, the inputs as inputs and the outputs as
/// outputs. `result` is the outcome of the listing.
pub proof fn law_listing_records_both_arrays(
    rc: i32,
    inputs: Option<Vec<CviTensor>>,
    input_num: nat,
    outputs: Option<Vec<CviTensor>>,
    output_num: nat,
    result: Result<ListedModel, LoadFailure>,
)
    requires
        listed_view(result) == listing(
            rc,
            array_view(inputs),
            input_num,
            array_view(outputs),
            output_num,
        ),
    ensures
        rc != 0 ==> (result matches Err(failure) && failure.release && failure.error@
            == NnErrorView::ModelLoad(
            "CVI_NN_GetInputOutputTensors failed (rc="@ + signed_decimal(rc as int) + ")"@,
        )),
        rc == 0 && (input_num > 0 && inputs is None || output_num > 0 && outputs is None) ==> (
        result matches Err(failure) && !failure.release && failure.error@
            == NnErrorView::ModelLoad("tensor array pointer is null"@)),
        rc == 0 && (input_num == 0 || inputs is Some) && (output_num == 0 || outputs is Some) ==> (
        result matches Ok(model) && {
            &&& snapshot(array_view(inputs), input_num) == Ok::<
                Seq<TensorMetaView>,
                NnErrorView,
            >(model.input_metas())
            &&& snapshot(array_view(outputs), output_num) == Ok::<
                Seq<TensorMetaView>,
                NnErrorView,
            >(model.output_metas())
        }),
{
}

/// The chip target is the text that the runtime's bytes encode, and `unknown` where there are
/// none.
pub proof fn law_target_is_what_the_runtime_names(target: Option<Vec<u8>>)
    ensures
        target is None ==> target_text(c_string_view(target)) == "unknown"@,
        target matches Some(bytes) ==> {
            &&& valid_utf8(bytes@) ==> encode_utf8(target_text(c_string_view(target))) == bytes@
            &&& !valid_utf8(bytes@) ==> target_text(c_string_view(target)) == repaired_utf8(bytes@)
        },
{
    if let Some(bytes) = target {
        law_names_encode_the_reported_bytes(bytes);
    }
}

} // verus!
