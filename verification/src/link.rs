//! What a build that uses the runtime tells Cargo.
use vstd::prelude::*;

verus! {

/// The inputs on which a build depends, as Cargo directives.
pub open spec fn rerun_directives() -> Seq<Seq<char>> {
    seq![
        "cargo:rerun-if-changed=build.rs"@,
        "cargo:rerun-if-env-changed=CVITEK_SDK_DIR"@,
        "cargo:rerun-if-env-changed=CVITEK_LIB_DIR"@,
        "cargo:rerun-if-env-changed=CVITEK_INCLUDE_DIR"@,
    ]
}

/// The text of an environment variable that may be unset.
pub open spec fn variable_view(value: Option<String>) -> Option<Seq<char>> {
    match value {
        Some(text) => Some(text@),
        None => None,
    }
}

/// The directory that holds the runtime: the one that was named, else the `lib` directory of
/// the SDK that was named.
pub open spec fn library_dir(lib_dir: Option<Seq<char>>, sdk_dir: Option<Seq<char>>) -> Option<
    Seq<char>,
> {
    match (lib_dir, sdk_dir) {
        (Some(dir), _) => Some(dir),
        (None, Some(sdk)) => Some(sdk + "/lib"@),
        (None, None) => None,
    }
}

/// The directives that link the runtime.
pub open spec fn linking(dir: Option<Seq<char>>) -> Seq<Seq<char>> {
    let library = seq!["cargo:rustc-link-lib=dylib=cviruntime"@];
    match dir {
        Some(path) => seq!["cargo:rustc-link-search=native="@ + path] + library,
        None => library,
    }
}

/// All directives of a build. The runtime is linked where the backend is enabled, also where
/// no directory is named.
pub open spec fn directives(
    enabled: bool,
    lib_dir: Option<Seq<char>>,
    sdk_dir: Option<Seq<char>>,
) -> Seq<Seq<char>> {
    rerun_directives() + if enabled {
        linking(library_dir(lib_dir, sdk_dir))
    } else {
        Seq::empty()
    }
}

/// Lists the directives of a build, in order. `lib_dir` and `sdk_dir` are the values of
/// `CVITEK_LIB_DIR` and `CVITEK_SDK_DIR`.
pub fn link_directives(enabled: bool, lib_dir: Option<String>, sdk_dir: Option<String>) -> (lines:
    Vec<String>)
    ensures
        lines@.map_values(|line: String| line@) == directives(
            enabled,
            variable_view(lib_dir),
            variable_view(sdk_dir),
        ),
{
    let ghost want = directives(enabled, variable_view(lib_dir), variable_view(sdk_dir));
    let mut lines: Vec<String> = Vec::new();
    lines.push("cargo:rerun-if-changed=build.rs".to_owned());
    lines.push("cargo:rerun-if-env-changed=CVITEK_SDK_DIR".to_owned());
    lines.push("cargo:rerun-if-env-changed=CVITEK_LIB_DIR".to_owned());
    lines.push("cargo:rerun-if-env-changed=CVITEK_INCLUDE_DIR".to_owned());
    if enabled {
        let dir: Option<String> = match (lib_dir, sdk_dir) {
            (Some(dir), _) => Some(dir),
            (None, Some(sdk)) => Some(sdk.concat("/lib")),
            (None, None) => None,
        };
        if let Some(path) = dir {
            lines.push("cargo:rustc-link-search=native=".to_owned().concat(path.as_str()));
        }
        lines.push("cargo:rustc-link-lib=dylib=cviruntime".to_owned());
    }
    assert(lines@.map_values(|line: String| line@) =~= want);
    lines
}

/// Every build depends on the build script and three variables. Nothing more is said where the
/// backend is not enabled. Where it is, the runtime is linked, and it is looked for in the
/// library directory that was named, else under the SDK that was named. `lines` are the
/// directives of a build.
pub proof fn law_directives_of_a_build(
    enabled: bool,
    lib_dir: Option<String>,
    sdk_dir: Option<String>,
    lines: Vec<String>,
)
    requires
        lines@.map_values(|line: String| line@) == directives(
            enabled,
            variable_view(lib_dir),
            variable_view(sdk_dir),
        ),
    ensures
        lines@.len() >= 4,
        lines@[0]@ == "cargo:rerun-if-changed=build.rs"@,
        lines@[1]@ == "cargo:rerun-if-env-changed=CVITEK_SDK_DIR"@,
        lines@[2]@ == "cargo:rerun-if-env-changed=CVITEK_LIB_DIR"@,
        lines@[3]@ == "cargo:rerun-if-env-changed=CVITEK_INCLUDE_DIR"@,
        !enabled ==> lines@.len() == 4,
        enabled ==> {
            &&& lines@.last()@ == "cargo:rustc-link-lib=dylib=cviruntime"@
            &&& lib_dir is None && sdk_dir is None ==> lines@.len() == 5
            &&& lib_dir is Some || sdk_dir is Some ==> lines@.len() == 6
            &&& lib_dir matches Some(dir) ==> lines@[4]@ == "cargo:rustc-link-search=native="@
                + dir@
            &&& lib_dir is None ==> (sdk_dir matches Some(sdk) ==> lines@[4]@
                == "cargo:rustc-link-search=native="@ + (sdk@ + "/lib"@))
        },
{
    let texts = lines@.map_values(|line: String| line@);
    assert(texts.len() == lines@.len());
    assert(lines@.len() >= 4);
    assert(texts[0] == lines@[0]@);
    assert(texts[1] == lines@[1]@);
    assert(texts[2] == lines@[2]@);
    assert(texts[3] == lines@[3]@);
    assert(texts.last() == lines@.last()@);
    if enabled && (lib_dir is Some || sdk_dir is Some) {
        assert(texts[4] == lines@[4]@);
    }
}

} // verus!
