//! Element types of runtime tensors.
use vstd::prelude::*;

use crate::text::{decimal, law_decimal_counts_in_tens};

verus! {

/// `CVI_FMT`: the element type of a runtime tensor.
#[derive(Debug, Clone, Copy, PartialEq, Eq, Structural)]
pub enum CviFmt {
    Fp32,
    Int32,
    Uint32,
    Bf16,
    Int16,
    Uint16,
    Int8,
    Uint8,
}

impl CviFmt {
    /// The number by which the runtime's C interface writes this element type.
    pub open spec fn tag(self) -> i32 {
        match self {
            CviFmt::Fp32 => 0,
            CviFmt::Int32 => 1,
            CviFmt::Uint32 => 2,
            CviFmt::Bf16 => 3,
            CviFmt::Int16 => 4,
            CviFmt::Uint16 => 5,
            CviFmt::Int8 => 6,
            CviFmt::Uint8 => 7,
        }
    }

    /// Bits that one element takes.
    pub open spec fn bits(self) -> nat {
        match self {
            CviFmt::Fp32 | CviFmt::Int32 | CviFmt::Uint32 => 32,
            CviFmt::Bf16 | CviFmt::Int16 | CviFmt::Uint16 => 16,
            CviFmt::Int8 | CviFmt::Uint8 => 8,
        }
    }

    /// Bytes that one element takes.
    pub open spec fn size(self) -> nat {
        self.bits() / 8
    }

    /// The lower-case name shown in diagnostics.
    pub open spec fn label(self) -> Seq<char> {
        match self {
            CviFmt::Fp32 => "fp32"@,
            CviFmt::Int32 => "int32"@,
            CviFmt::Uint32 => "uint32"@,
            CviFmt::Bf16 => "bf16"@,
            CviFmt::Int16 => "int16"@,
            CviFmt::Uint16 => "uint16"@,
            CviFmt::Int8 => "int8"@,
            CviFmt::Uint8 => "uint8"@,
        }
    }

    /// The capitalised name that error messages use.
    pub open spec fn ident(self) -> Seq<char> {
        match self {
            CviFmt::Fp32 => "Fp32"@,
            CviFmt::Int32 => "Int32"@,
            CviFmt::Uint32 => "Uint32"@,
            CviFmt::Bf16 => "Bf16"@,
            CviFmt::Int16 => "Int16"@,
            CviFmt::Uint16 => "Uint16"@,
            CviFmt::Int8 => "Int8"@,
            CviFmt::Uint8 => "Uint8"@,
        }
    }

    /// The element type that the runtime writes as `tag`, if there is one.
    pub fn from_tag(tag: i32) -> (fmt: Option<CviFmt>)
        ensures
            fmt matches Some(f) ==> f.tag() == tag,
            fmt is Some <==> 0 <= tag <= 7,
    {
        match tag {
            0 => Some(CviFmt::Fp32),
            1 => Some(CviFmt::Int32),
            2 => Some(CviFmt::Uint32),
            3 => Some(CviFmt::Bf16),
            4 => Some(CviFmt::Int16),
            5 => Some(CviFmt::Uint16),
            6 => Some(CviFmt::Int8),
            7 => Some(CviFmt::Uint8),
            _ => None,
        }
    }

    /// The capitalised name that error messages use.
    pub fn identifier(self) -> (name: &'static str)
        ensures
            name@ == self.ident(),
    {
        match self {
            CviFmt::Fp32 => "Fp32",
            CviFmt::Int32 => "Int32",
            CviFmt::Uint32 => "Uint32",
            CviFmt::Bf16 => "Bf16",
            CviFmt::Int16 => "Int16",
            CviFmt::Uint16 => "Uint16",
            CviFmt::Int8 => "Int8",
            CviFmt::Uint8 => "Uint8",
        }
    }
}

/// Bytes that one element of type `f` takes.
pub fn fmt_size(f: CviFmt) -> (size: usize)
    ensures
        size == f.size(),
        1 <= size <= 4,
{
    match f {
        CviFmt::Fp32 | CviFmt::Int32 | CviFmt::Uint32 => 4,
        CviFmt::Bf16 | CviFmt::Int16 | CviFmt::Uint16 => 2,
        CviFmt::Int8 | CviFmt::Uint8 => 1,
    }
}

/// The lower-case name of element type `f`.
pub fn fmt_name(f: CviFmt) -> (name: &'static str)
    ensures
        name@ == f.label(),
{
    match f {
        CviFmt::Fp32 => "fp32",
        CviFmt::Int32 => "int32",
        CviFmt::Uint32 => "uint32",
        CviFmt::Bf16 => "bf16",
        CviFmt::Int16 => "int16",
        CviFmt::Uint16 => "uint16",
        CviFmt::Int8 => "int8",
        CviFmt::Uint8 => "uint8",
    }
}

/// No two element types share a tag.
pub proof fn law_tags_are_distinct(a: CviFmt, b: CviFmt)
    ensures
        a.tag() == b.tag() ==> a == b,
{
}

/// No two element types share a name.
pub proof fn law_labels_are_distinct(a: CviFmt, b: CviFmt)
    ensures
        a.label() == b.label() ==> a == b,
{
    reveal_strlit("fp32");
    reveal_strlit("int32");
    reveal_strlit("uint32");
    reveal_strlit("bf16");
    reveal_strlit("int16");
    reveal_strlit("uint16");
    reveal_strlit("int8");
    reveal_strlit("uint8");
    let x = a.label();
    let y = b.label();
    assert(x == y ==> x[0] == y[0] && x[1] == y[1] && x[3] == y[3] && x[4] == y[4]);
}

/// The tags of the element types count from zero, floats of 32 bits first and unsigned bytes
/// last.
pub proof fn law_tags_count_from_zero()
    ensures
        CviFmt::Fp32.tag() == 0,
        CviFmt::Int32.tag() == CviFmt::Fp32.tag() + 1,
        CviFmt::Uint32.tag() == CviFmt::Int32.tag() + 1,
        CviFmt::Bf16.tag() == CviFmt::Uint32.tag() + 1,
        CviFmt::Int16.tag() == CviFmt::Bf16.tag() + 1,
        CviFmt::Uint16.tag() == CviFmt::Int16.tag() + 1,
        CviFmt::Int8.tag() == CviFmt::Uint16.tag() + 1,
        CviFmt::Uint8.tag() == CviFmt::Int8.tag() + 1,
{
}

/// The name of an element type is the kind of number and how many bits one takes.
pub proof fn law_labels_tell_kind_and_width(f: CviFmt)
    ensures
        f.label() == (match f {
            CviFmt::Fp32 => "fp"@,
            CviFmt::Bf16 => "bf"@,
            CviFmt::Int32 | CviFmt::Int16 | CviFmt::Int8 => "int"@,
            CviFmt::Uint32 | CviFmt::Uint16 | CviFmt::Uint8 => "uint"@,
        }) + decimal(8 * f.size()),
        f.size() == (match f {
            CviFmt::Fp32 | CviFmt::Int32 | CviFmt::Uint32 => 4nat,
            CviFmt::Bf16 | CviFmt::Int16 | CviFmt::Uint16 => 2,
            CviFmt::Int8 | CviFmt::Uint8 => 1,
        }),
        f.bits() == 8 * f.size(),
{
    reveal_strlit("fp");
    reveal_strlit("bf");
    reveal_strlit("int");
    reveal_strlit("uint");
    reveal_strlit("fp32");
    reveal_strlit("int32");
    reveal_strlit("uint32");
    reveal_strlit("bf16");
    reveal_strlit("int16");
    reveal_strlit("uint16");
    reveal_strlit("int8");
    reveal_strlit("uint8");
    law_decimal_counts_in_tens(3, 2);
    law_decimal_counts_in_tens(1, 6);
    law_decimal_counts_in_tens(0, 8);
    law_decimal_counts_in_tens(0, 3);
    law_decimal_counts_in_tens(0, 1);
    assert(decimal(32) =~= seq!['3', '2']);
    assert(decimal(16) =~= seq!['1', '6']);
    assert(decimal(8) =~= seq!['8']);
    match f {
        CviFmt::Fp32 => assert(f.label() =~= "fp"@ + decimal(32)),
        CviFmt::Bf16 => assert(f.label() =~= "bf"@ + decimal(16)),
        CviFmt::Int32 => assert(f.label() =~= "int"@ + decimal(32)),
        CviFmt::Int16 => assert(f.label() =~= "int"@ + decimal(16)),
        CviFmt::Int8 => assert(f.label() =~= "int"@ + decimal(8)),
        CviFmt::Uint32 => assert(f.label() =~= "uint"@ + decimal(32)),
        CviFmt::Uint16 => assert(f.label() =~= "uint"@ + decimal(16)),
        CviFmt::Uint8 => assert(f.label() =~= "uint"@ + decimal(8)),
    }
}

/// The name in error messages is the one in diagnostics with its first letter in upper case.
pub proof fn law_identifiers_are_capitalised_labels(f: CviFmt, i: int)
    requires
        0 <= i < f.label().len(),
    ensures
        f.ident().len() == f.label().len(),
        i > 0 ==> f.ident()[i] == f.label()[i],
        f.ident()[0] as int == f.label()[0] as int + 'A' as int - 'a' as int,
{
    reveal_strlit("fp32");
    reveal_strlit("int32");
    reveal_strlit("uint32");
    reveal_strlit("bf16");
    reveal_strlit("int16");
    reveal_strlit("uint16");
    reveal_strlit("int8");
    reveal_strlit("uint8");
    reveal_strlit("Fp32");
    reveal_strlit("Int32");
    reveal_strlit("Uint32");
    reveal_strlit("Bf16");
    reveal_strlit("Int16");
    reveal_strlit("Uint16");
    reveal_strlit("Int8");
    reveal_strlit("Uint8");
}

} // verus!
