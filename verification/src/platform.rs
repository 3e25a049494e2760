//! Platform convention tables.
//!
//! Everything the search depends on that varies by operating system lives
//! here: the shared-library file-name decoration, the name of the dynamic
//! linker's search-path environment variable, the character that separates
//! path components, the character that separates entries of a path list, and
//! the default install roots of the toolkit. The two subdirectory layout
//! tables (installed layout and build layout) are the same on every platform.
//!
//! Each table exists twice: as a `spec` function giving its mathematical
//! value, and as an executable function proved to return exactly that value.

use vstd::prelude::*;
use vstd::string::*;

verus! {

/// The operating-system families the search distinguishes. `Other` is the
/// best-effort fallback for any target not listed: it follows the Linux
/// conventions.
#[derive(Clone, Copy, PartialEq, Eq, Structural)]
pub enum Os {
    Linux,
    MacOs,
    Windows,
    Other,
}

/// Prefix the platform puts before a shared library's logical name.
pub open spec fn spec_dll_prefix(os: Os) -> Seq<char> {
    match os {
        Os::Windows => ""@,
        _ => "lib"@,
    }
}

/// Suffix the platform puts after a shared library's logical name.
pub open spec fn spec_dll_suffix(os: Os) -> Seq<char> {
    match os {
        Os::Linux => ".so"@,
        Os::MacOs => ".dylib"@,
        Os::Windows => ".dll"@,
        Os::Other => ".so"@,
    }
}

/// The character the platform uses between path components.
pub open spec fn spec_separator(os: Os) -> char {
    match os {
        Os::Windows => '\\',
        _ => '/',
    }
}

/// The character the platform uses between entries of a path list, as in the
/// linker search-path variable.
pub open spec fn spec_path_list_delimiter(os: Os) -> char {
    match os {
        Os::Windows => ';',
        _ => ':',
    }
}

/// Name of the environment variable the platform's dynamic linker consults
/// for extra library directories.
pub open spec fn spec_library_path_var(os: Os) -> Seq<char> {
    match os {
        Os::Linux => "LD_LIBRARY_PATH"@,
        Os::MacOs => "DYLD_LIBRARY_PATH"@,
        Os::Windows => "PATH"@,
        Os::Other => "LD_LIBRARY_PATH"@,
    }
}

/// Name of the variable with which a user points the search at an installed
/// toolkit root.
pub open spec fn spec_install_dir_var() -> Seq<char> {
    "OPENVINO_INSTALL_DIR"@
}

/// Name of the variable with which a user points the search at a local build
/// tree.
pub open spec fn spec_build_dir_var() -> Seq<char> {
    "OPENVINO_BUILD_DIR"@
}

/// Name of the variable the toolkit's own setup script exports.
pub open spec fn spec_openvino_dir_var() -> Seq<char> {
    "INTEL_OPENVINO_DIR"@
}

/// Default install roots of the toolkit on this platform. Only roots that
/// exist as directories contribute candidates to the search.
pub open spec fn spec_default_install_dirs(os: Os) -> Seq<Seq<char>> {
    match os {
        Os::Linux => seq!["/opt/intel/openvino_2021"@, "/opt/intel/openvino"@],
        Os::MacOs => seq!["/opt/intel/openvino_2021"@, "/opt/intel/openvino"@],
        Os::Windows => seq![
            "C:\\Program Files (x86)\\Intel\\openvino"@,
            "C:\\Program Files (x86)\\Intel\\openvino_2021"@,
        ],
        Os::Other => Seq::empty(),
    }
}

/// Subdirectories, relative to an installed toolkit root, known to hold the
/// toolkit's libraries. Earlier entries take priority.
pub open spec fn spec_installed_subdirs() -> Seq<Seq<char>> {
    seq![
        "deployment_tools/ngraph/lib"@,
        "deployment_tools/inference_engine/lib/intel64"@,
        "deployment_tools/inference_engine/external/hddl/lib"@,
        "deployment_tools/inference_engine/external/gna/lib"@,
        "deployment_tools/inference_engine/external/tbb/lib"@,
    ]
}

/// Subdirectories, relative to a from-source build tree, known to hold built
/// libraries. Earlier entries take priority.
pub open spec fn spec_build_subdirs() -> Seq<Seq<char>> {
    seq![
        "bin/aarch64/Debug/lib"@,
        "bin/intel64/Debug/lib"@,
        "bin/aarch64/Release/lib"@,
        "bin/intel64/Release/lib"@,
        "inference-engine/temp/tbb/lib"@,
    ]
}

/// Shared-library name prefix for `os`.
pub fn dll_prefix(os: Os) -> (r: &'static str)
    ensures
        r@ == spec_dll_prefix(os),
{
    match os {
        Os::Windows => "",
        _ => "lib",
    }
}

/// Shared-library name suffix for `os`.
pub fn dll_suffix(os: Os) -> (r: &'static str)
    ensures
        r@ == spec_dll_suffix(os),
{
    match os {
        Os::Linux => ".so",
        Os::MacOs => ".dylib",
        Os::Windows => ".dll",
        Os::Other => ".so",
    }
}

/// Path-component separator for `os`.
pub fn separator(os: Os) -> (r: char)
    ensures
        r == spec_separator(os),
{
    match os {
        Os::Windows => '\\',
        _ => '/',
    }
}

/// Path-component separator for `os`, as a one-character string.
pub fn separator_str(os: Os) -> (r: &'static str)
    ensures
        r@ == seq![spec_separator(os)],
{
    proof {
        reveal_strlit("\\");
        reveal_strlit("/");
    }
    match os {
        Os::Windows => "\\",
        _ => "/",
    }
}

/// Path-list delimiter for `os`.
pub fn path_list_delimiter(os: Os) -> (r: char)
    ensures
        r == spec_path_list_delimiter(os),
{
    match os {
        Os::Windows => ';',
        _ => ':',
    }
}

/// Name of the linker search-path variable for `os`.
pub fn library_path_var(os: Os) -> (r: &'static str)
    ensures
        r@ == spec_library_path_var(os),
{
    match os {
        Os::Linux => "LD_LIBRARY_PATH",
        Os::MacOs => "DYLD_LIBRARY_PATH",
        Os::Windows => "PATH",
        Os::Other => "LD_LIBRARY_PATH",
    }
}

/// Name of the user install-root variable.
pub fn install_dir_var() -> (r: &'static str)
    ensures
        r@ == spec_install_dir_var(),
{
    "OPENVINO_INSTALL_DIR"
}

/// Name of the user build-root variable.
pub fn build_dir_var() -> (r: &'static str)
    ensures
        r@ == spec_build_dir_var(),
{
    "OPENVINO_BUILD_DIR"
}

/// Name of the variable exported by the toolkit's setup script.
pub fn openvino_dir_var() -> (r: &'static str)
    ensures
        r@ == spec_openvino_dir_var(),
{
    "INTEL_OPENVINO_DIR"
}

/// Default install roots for `os`.
pub fn default_install_dirs(os: Os) -> (r: Vec<String>)
    ensures
        r.deep_view() == spec_default_install_dirs(os),
{
    let mut v: Vec<String> = Vec::new();
    match os {
        Os::Linux => {
            v.push(String::from_str("/opt/intel/openvino_2021"));
            v.push(String::from_str("/opt/intel/openvino"));
        },
        Os::MacOs => {
            v.push(String::from_str("/opt/intel/openvino_2021"));
            v.push(String::from_str("/opt/intel/openvino"));
        },
        Os::Windows => {
            v.push(String::from_str("C:\\Program Files (x86)\\Intel\\openvino"));
            v.push(String::from_str("C:\\Program Files (x86)\\Intel\\openvino_2021"));
        },
        Os::Other => {},
    }
    proof {
        assert(v.deep_view() =~= spec_default_install_dirs(os));
    }
    v
}

/// The installed-layout subdirectory table.
pub fn installed_subdirs() -> (r: Vec<String>)
    ensures
        r.deep_view() == spec_installed_subdirs(),
{
    let mut v: Vec<String> = Vec::new();
    v.push(String::from_str("deployment_tools/ngraph/lib"));
    v.push(String::from_str("deployment_tools/inference_engine/lib/intel64"));
    v.push(String::from_str("deployment_tools/inference_engine/external/hddl/lib"));
    v.push(String::from_str("deployment_tools/inference_engine/external/gna/lib"));
    v.push(String::from_str("deployment_tools/inference_engine/external/tbb/lib"));
    proof {
        assert(v.deep_view() =~= spec_installed_subdirs());
    }
    v
}

/// The build-layout subdirectory table.
pub fn build_subdirs() -> (r: Vec<String>)
    ensures
        r.deep_view() == spec_build_subdirs(),
{
    let mut v: Vec<String> = Vec::new();
    v.push(String::from_str("bin/aarch64/Debug/lib"));
    v.push(String::from_str("bin/intel64/Debug/lib"));
    v.push(String::from_str("bin/aarch64/Release/lib"));
    v.push(String::from_str("bin/intel64/Release/lib"));
    v.push(String::from_str("inference-engine/temp/tbb/lib"));
    proof {
        assert(v.deep_view() =~= spec_build_subdirs());
    }
    v
}

} // verus!
