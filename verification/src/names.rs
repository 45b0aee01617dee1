//! Tensor names, which the runtime reports as C strings of any bytes.
use vstd::prelude::*;
use vstd::utf8::{decode_utf8, decode_utf8_encode_utf8, encode_utf8, valid_utf8};

verus! {

/// What [`String::from_utf8_lossy`] makes of bytes that are not valid UTF-8.
pub uninterp spec fn repaired_utf8(bytes: Seq<u8>) -> Seq<char>;

/// The text of a C string: what the bytes encode, or a repaired form of it where they are not
/// valid UTF-8.
pub open spec fn c_text(bytes: Seq<u8>) -> Seq<char> {
    if valid_utf8(bytes) {
        decode_utf8(bytes)
    } else {
        repaired_utf8(bytes)
    }
}

/// Calls [`String::from_utf8_lossy`], which decodes valid UTF-8 as it is. What it makes of
/// other bytes depends on them alone; how it repairs them is not stated.
#[verifier::external_body]
pub(crate) fn from_utf8_lossy(bytes: &[u8]) -> (text: String)
    ensures
        valid_utf8(bytes@) ==> text@ == decode_utf8(bytes@),
        !valid_utf8(bytes@) ==> text@ == repaired_utf8(bytes@),
{
    String::from_utf8_lossy(bytes).into_owned()
}

/// Calls [`std::str::from_utf8`], which succeeds exactly on valid UTF-8 and then gives the
/// text that the bytes encode.
#[verifier::external_body]
fn from_utf8(bytes: &[u8]) -> (text: Option<&str>)
    ensures
        text is Some <==> valid_utf8(bytes@),
        text matches Some(t) ==> t@ == decode_utf8(bytes@),
{
    std::str::from_utf8(bytes).ok()
}

/// The name under which a tensor is announced: empty when the runtime gives none.
pub open spec fn announced_name(name: Option<Seq<u8>>) -> Seq<char> {
    match name {
        Some(bytes) => c_text(bytes),
        None => Seq::empty(),
    }
}

/// The name by which a runtime tensor is found again: empty when the runtime gives none, or
/// one that is not valid UTF-8.
pub open spec fn lookup_name(name: Option<Seq<u8>>) -> Seq<char> {
    match name {
        Some(bytes) => if valid_utf8(bytes) {
            decode_utf8(bytes)
        } else {
            Seq::empty()
        },
        None => Seq::empty(),
    }
}

/// The bytes of a name, as a sequence.
pub open spec fn name_view(name: Option<Vec<u8>>) -> Option<Seq<u8>> {
    match name {
        Some(bytes) => Some(bytes@),
        None => None,
    }
}

/// Computes [`announced_name`].
pub fn announce(name: &Option<Vec<u8>>) -> (text: String)
    ensures
        text@ == announced_name(name_view(*name)),
{
    match name {
        Some(bytes) => from_utf8_lossy(bytes.as_slice()),
        None => String::new(),
    }
}

/// Computes [`lookup_name`].
pub fn lookup(name: &Option<Vec<u8>>) -> (text: &str)
    ensures
        text@ == lookup_name(name_view(*name)),
{
    proof {
        reveal_strlit("");
        assert(""@ =~= Seq::<char>::empty());
    }
    match name {
        Some(bytes) => match from_utf8(bytes.as_slice()) {
            Some(text) => text,
            None => "",
        },
        None => "",
    }
}

/// The bytes that the text of a name encodes are the bytes that the runtime reported, both
/// where the tensor is announced and where it is found again. Bytes that encode no text are
/// repaired where they are announced, and are found under the empty name.
pub proof fn law_names_encode_the_reported_bytes(bytes: Vec<u8>)
    ensures
        valid_utf8(bytes@) ==> {
            &&& encode_utf8(announced_name(name_view(Some(bytes)))) == bytes@
            &&& encode_utf8(lookup_name(name_view(Some(bytes)))) == bytes@
            &&& encode_utf8(c_text(bytes@)) == bytes@
        },
        !valid_utf8(bytes@) ==> {
            &&& announced_name(name_view(Some(bytes))) == repaired_utf8(bytes@)
            &&& c_text(bytes@) == repaired_utf8(bytes@)
            &&& lookup_name(name_view(Some(bytes))).len() == 0
        },
{
    if valid_utf8(bytes@) {
        decode_utf8_encode_utf8(bytes@);
    }
}

/// A tensor without a name is announced, and found again, under the empty one.
pub proof fn law_absent_names_are_empty()
    ensures
        announced_name(name_view(None)).len() == 0,
        lookup_name(name_view(None)).len() == 0,
{
}

/// A valid name says which bytes were reported: two that are announced, or found, under the
/// same text are the same.
pub proof fn law_valid_names_are_told_apart(a: Seq<u8>, b: Seq<u8>)
    requires
        valid_utf8(a),
        valid_utf8(b),
    ensures
        announced_name(Some(a)) == announced_name(Some(b)) ==> a == b,
        lookup_name(Some(a)) == lookup_name(Some(b)) ==> a == b,
{
    decode_utf8_encode_utf8(a);
    decode_utf8_encode_utf8(b);
}

} // verus!
