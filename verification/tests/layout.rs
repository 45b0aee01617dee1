use cvitek::descriptor::CviShape;

/// Six 32-bit axis lengths and a 64-bit rank, with nothing lost between
/// them.  This shape is never handed to the runtime: the structs that are
/// stand in the application, which checks their size when it is built.
#[test]
fn cvi_shape_layout() {
    assert_eq!(std::mem::size_of::<CviShape>(), 6 * 4 + 8);
}
