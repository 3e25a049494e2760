//! The resolution policy: search order, tie-breaks, and the absence case.

use openvino_finder::resolve::{candidate_paths, find, EnvSnapshot, FsState};
use openvino_finder::platform::Os;

fn empty_env() -> EnvSnapshot {
    EnvSnapshot { install_dir: None, build_dir: None, openvino_dir: None, library_path: None }
}

fn empty_fs() -> FsState {
    FsState { files: Vec::new(), dirs: Vec::new() }
}

fn strings(v: &[&str]) -> Vec<String> {
    v.iter().map(|s| s.to_string()).collect()
}

#[test]
fn nothing_set_returns_none() {
    let r = find(Os::Linux, &empty_env(), &empty_fs(), "foo");
    assert_eq!(r, None);
}

#[test]
fn unset_variables_and_absent_defaults_contribute_no_candidates() {
    // Even with files on disk, no strategy reaches them when every variable
    // is unset and no default root exists as a directory.
    let fs = FsState {
        files: strings(&["/opt/intel/openvino/deployment_tools/ngraph/lib/libfoo.so"]),
        dirs: Vec::new(),
    };
    assert_eq!(candidate_paths(Os::Linux, &empty_env(), &Vec::new(), "foo"), Vec::<String>::new());
    assert_eq!(find(Os::Linux, &empty_env(), &fs, "foo"), None);
}

#[test]
fn install_dir_strategy_finds_file() {
    let env = EnvSnapshot { install_dir: Some("/custom".to_string()), ..empty_env() };
    let fs = FsState {
        files: strings(&["/custom/deployment_tools/inference_engine/lib/intel64/libfoo.so"]),
        dirs: Vec::new(),
    };
    assert_eq!(
        find(Os::Linux, &env, &fs, "foo"),
        Some("/custom/deployment_tools/inference_engine/lib/intel64/libfoo.so".to_string())
    );
}

#[test]
fn install_dir_candidates_in_table_order() {
    let env = EnvSnapshot { install_dir: Some("/r".to_string()), ..empty_env() };
    assert_eq!(
        candidate_paths(Os::Linux, &env, &Vec::new(), "foo"),
        strings(&[
            "/r/deployment_tools/ngraph/lib/libfoo.so",
            "/r/deployment_tools/inference_engine/lib/intel64/libfoo.so",
            "/r/deployment_tools/inference_engine/external/hddl/lib/libfoo.so",
            "/r/deployment_tools/inference_engine/external/gna/lib/libfoo.so",
            "/r/deployment_tools/inference_engine/external/tbb/lib/libfoo.so",
        ])
    );
}

#[test]
fn deterministic_for_fixed_snapshots() {
    let env = EnvSnapshot {
        install_dir: Some("/custom".to_string()),
        library_path: Some("/a:/b".to_string()),
        ..empty_env()
    };
    let fs = FsState {
        files: strings(&["/b/libfoo.so", "/custom/deployment_tools/ngraph/lib/libfoo.so"]),
        dirs: strings(&["/opt/intel/openvino"]),
    };
    let first = find(Os::Linux, &env, &fs, "foo");
    let second = find(Os::Linux, &env, &fs, "foo");
    assert_eq!(first, second);
    assert_eq!(first, Some("/custom/deployment_tools/ngraph/lib/libfoo.so".to_string()));
}

#[test]
fn install_root_beats_default_root() {
    // The same library sits under the user install root and under a default
    // install root; the earlier strategy wins.
    let env = EnvSnapshot { install_dir: Some("/custom".to_string()), ..empty_env() };
    let fs = FsState {
        files: strings(&[
            "/opt/intel/openvino/deployment_tools/ngraph/lib/libfoo.so",
            "/custom/deployment_tools/ngraph/lib/libfoo.so",
        ]),
        dirs: strings(&["/opt/intel/openvino"]),
    };
    assert_eq!(
        find(Os::Linux, &env, &fs, "foo"),
        Some("/custom/deployment_tools/ngraph/lib/libfoo.so".to_string())
    );
}

#[test]
fn build_dir_beats_openvino_dir() {
    let env = EnvSnapshot {
        build_dir: Some("/build".to_string()),
        openvino_dir: Some("/ov".to_string()),
        ..empty_env()
    };
    let fs = FsState {
        files: strings(&[
            "/ov/deployment_tools/ngraph/lib/libfoo.so",
            "/build/bin/intel64/Release/lib/libfoo.so",
        ]),
        dirs: Vec::new(),
    };
    assert_eq!(
        find(Os::Linux, &env, &fs, "foo"),
        Some("/build/bin/intel64/Release/lib/libfoo.so".to_string())
    );
}

#[test]
fn earlier_subdir_entry_wins() {
    // Within one strategy the subdirectory table is itself a priority list:
    // the ngraph entry precedes the intel64 entry.
    let env = EnvSnapshot { install_dir: Some("/r".to_string()), ..empty_env() };
    let fs = FsState {
        files: strings(&[
            "/r/deployment_tools/inference_engine/lib/intel64/libfoo.so",
            "/r/deployment_tools/ngraph/lib/libfoo.so",
        ]),
        dirs: Vec::new(),
    };
    assert_eq!(
        find(Os::Linux, &env, &fs, "foo"),
        Some("/r/deployment_tools/ngraph/lib/libfoo.so".to_string())
    );
}

#[test]
fn openvino_dir_uses_installed_layout() {
    let env = EnvSnapshot { openvino_dir: Some("/opt/intel/openvino_2021".to_string()), ..empty_env() };
    let fs = FsState {
        files: strings(&[
            "/opt/intel/openvino_2021/deployment_tools/inference_engine/external/gna/lib/libgna.so",
        ]),
        dirs: Vec::new(),
    };
    assert_eq!(
        find(Os::Linux, &env, &fs, "gna"),
        Some(
            "/opt/intel/openvino_2021/deployment_tools/inference_engine/external/gna/lib/libgna.so"
                .to_string()
        )
    );
}

#[test]
fn linker_path_probes_each_entry() {
    // A non-existent directory earlier in the list neither aborts the
    // search nor hides a later entry.
    let env = EnvSnapshot { library_path: Some("/does/not/exist:/real".to_string()), ..empty_env() };
    let fs = FsState { files: strings(&["/real/libfoo.so"]), dirs: Vec::new() };
    assert_eq!(find(Os::Linux, &env, &fs, "foo"), Some("/real/libfoo.so".to_string()));
}

#[test]
fn linker_path_entries_in_order() {
    let env = EnvSnapshot { library_path: Some("/a:/b".to_string()), ..empty_env() };
    let fs = FsState { files: strings(&["/b/libfoo.so", "/a/libfoo.so"]), dirs: Vec::new() };
    assert_eq!(find(Os::Linux, &env, &fs, "foo"), Some("/a/libfoo.so".to_string()));
}

#[test]
fn linker_path_windows_delimiter() {
    let env = EnvSnapshot { library_path: Some("C:\\a;C:\\b".to_string()), ..empty_env() };
    let fs = FsState { files: strings(&["C:\\b\\foo.dll"]), dirs: Vec::new() };
    assert_eq!(find(Os::Windows, &env, &fs, "foo"), Some("C:\\b\\foo.dll".to_string()));
}

#[test]
fn default_root_needs_existing_directory() {
    let fs_no_dir = FsState {
        files: strings(&["/opt/intel/openvino/deployment_tools/ngraph/lib/libfoo.so"]),
        dirs: Vec::new(),
    };
    assert_eq!(find(Os::Linux, &empty_env(), &fs_no_dir, "foo"), None);

    let fs_with_dir = FsState {
        files: strings(&["/opt/intel/openvino/deployment_tools/ngraph/lib/libfoo.so"]),
        dirs: strings(&["/opt/intel/openvino"]),
    };
    assert_eq!(
        find(Os::Linux, &empty_env(), &fs_with_dir, "foo"),
        Some("/opt/intel/openvino/deployment_tools/ngraph/lib/libfoo.so".to_string())
    );
}

#[test]
fn default_roots_in_table_order() {
    // Both default roots exist and both hold the library; the versioned
    // root comes first in the table.
    let fs = FsState {
        files: strings(&[
            "/opt/intel/openvino/deployment_tools/ngraph/lib/libfoo.so",
            "/opt/intel/openvino_2021/deployment_tools/ngraph/lib/libfoo.so",
        ]),
        dirs: strings(&["/opt/intel/openvino", "/opt/intel/openvino_2021"]),
    };
    assert_eq!(
        find(Os::Linux, &empty_env(), &fs, "foo"),
        Some("/opt/intel/openvino_2021/deployment_tools/ngraph/lib/libfoo.so".to_string())
    );
}

#[test]
fn build_root_scenario_end_to_end() {
    // A build tree holds the library under bin/intel64/Release/lib; the
    // build-root strategy returns exactly that path, and returns nothing
    // once the file is gone.
    let env = EnvSnapshot { build_dir: Some("/tmp/ovbuild".to_string()), ..empty_env() };
    let fs = FsState {
        files: strings(&["/tmp/ovbuild/bin/intel64/Release/lib/libfoo.so"]),
        dirs: Vec::new(),
    };
    assert_eq!(
        find(Os::Linux, &env, &fs, "foo"),
        Some("/tmp/ovbuild/bin/intel64/Release/lib/libfoo.so".to_string())
    );
    assert_eq!(find(Os::Linux, &env, &empty_fs(), "foo"), None);
}
