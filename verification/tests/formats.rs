use cvitek::format::{fmt_name, fmt_size, CviFmt};

#[test]
fn element_sizes() {
    assert_eq!(fmt_size(CviFmt::Fp32), 4);
    assert_eq!(fmt_size(CviFmt::Int32), 4);
    assert_eq!(fmt_size(CviFmt::Uint32), 4);
    assert_eq!(fmt_size(CviFmt::Bf16), 2);
    assert_eq!(fmt_size(CviFmt::Int16), 2);
    assert_eq!(fmt_size(CviFmt::Uint16), 2);
    assert_eq!(fmt_size(CviFmt::Int8), 1);
    assert_eq!(fmt_size(CviFmt::Uint8), 1);
}

#[test]
fn element_names() {
    assert_eq!(fmt_name(CviFmt::Fp32), "fp32");
    assert_eq!(fmt_name(CviFmt::Int32), "int32");
    assert_eq!(fmt_name(CviFmt::Uint32), "uint32");
    assert_eq!(fmt_name(CviFmt::Bf16), "bf16");
    assert_eq!(fmt_name(CviFmt::Int16), "int16");
    assert_eq!(fmt_name(CviFmt::Uint16), "uint16");
    assert_eq!(fmt_name(CviFmt::Int8), "int8");
    assert_eq!(fmt_name(CviFmt::Uint8), "uint8");
}

#[test]
fn identifiers_are_the_debug_names() {
    for tag in 0..8 {
        let fmt = CviFmt::from_tag(tag).unwrap();
        assert_eq!(fmt.identifier(), format!("{:?}", fmt));
    }
}

#[test]
fn tags_follow_the_c_interface() {
    assert_eq!(CviFmt::from_tag(0), Some(CviFmt::Fp32));
    assert_eq!(CviFmt::from_tag(3), Some(CviFmt::Bf16));
    assert_eq!(CviFmt::from_tag(6), Some(CviFmt::Int8));
    assert_eq!(CviFmt::from_tag(7), Some(CviFmt::Uint8));
    assert_eq!(CviFmt::from_tag(8), None);
    assert_eq!(CviFmt::from_tag(-1), None);
}
