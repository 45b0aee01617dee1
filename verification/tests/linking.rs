use cvitek::link::link_directives;

fn rerun() -> Vec<String> {
    vec![
        "cargo:rerun-if-changed=build.rs".to_string(),
        "cargo:rerun-if-env-changed=CVITEK_SDK_DIR".to_string(),
        "cargo:rerun-if-env-changed=CVITEK_LIB_DIR".to_string(),
        "cargo:rerun-if-env-changed=CVITEK_INCLUDE_DIR".to_string(),
    ]
}

#[test]
fn disabled_builds_link_nothing() {
    let lines = link_directives(false, Some("/lib".to_string()), Some("/sdk".to_string()));
    assert_eq!(lines, rerun());
}

#[test]
fn explicit_library_directory_wins() {
    let lines = link_directives(true, Some("/l".to_string()), Some("/sdk".to_string()));
    assert_eq!(lines[..4], rerun()[..]);
    assert_eq!(lines[4], "cargo:rustc-link-search=native=/l");
    assert_eq!(lines[5], "cargo:rustc-link-lib=dylib=cviruntime");
    assert_eq!(lines.len(), 6);
}

#[test]
fn sdk_directory_is_extended() {
    let lines = link_directives(true, None, Some("/sdk".to_string()));
    assert_eq!(lines[4], "cargo:rustc-link-search=native=/sdk/lib");
    assert_eq!(lines.len(), 6);
}

#[test]
fn runtime_is_linked_without_a_directory() {
    let lines = link_directives(true, None, None);
    assert_eq!(lines[..4], rerun()[..]);
    assert_eq!(lines[4], "cargo:rustc-link-lib=dylib=cviruntime");
    assert_eq!(lines.len(), 5);
}
