//! Path-string arithmetic.
//!
//! The search works on paths as plain character strings. This module defines
//! the three operations it needs: decorating a logical library name with the
//! platform's prefix and suffix, joining a directory with a further component,
//! and splitting a path-list variable's value at the platform's delimiter.

use vstd::prelude::*;
use vstd::string::*;
use crate::platform::{
    dll_prefix, dll_suffix, separator, separator_str, spec_dll_prefix, spec_dll_suffix,
    spec_separator, Os,
};

verus! {

/// File name the platform gives a shared library with logical name `name`:
/// the platform's prefix, then the name, then the platform's suffix.
pub open spec fn spec_file_name(os: Os, name: Seq<char>) -> Seq<char> {
    spec_dll_prefix(os) + name + spec_dll_suffix(os)
}

/// Joining a directory with a further path component. An empty directory
/// leaves the component relative; a directory already ending in the
/// separator gets no second one; otherwise one separator stands between the
/// two parts.
pub open spec fn spec_join(os: Os, dir: Seq<char>, rest: Seq<char>) -> Seq<char> {
    if dir.len() == 0 {
        rest
    } else if dir.last() == spec_separator(os) {
        dir + rest
    } else {
        dir + seq![spec_separator(os)] + rest
    }
}

/// Splitting a string at every occurrence of the delimiter `d`. The result
/// always has one entry more than the string has delimiters; entries between
/// adjacent delimiters are empty strings.
pub open spec fn spec_split(s: Seq<char>, d: char) -> Seq<Seq<char>>
    decreases s.len(),
{
    if s.len() == 0 {
        seq![Seq::<char>::empty()]
    } else if s[0] == d {
        seq![Seq::<char>::empty()] + spec_split(s.drop_first(), d)
    } else {
        let rest = spec_split(s.drop_first(), d);
        seq![seq![s[0]] + rest[0]] + rest.drop_first()
    }
}

/// A split result is never empty.
pub proof fn lemma_split_len(s: Seq<char>, d: char)
    ensures
        spec_split(s, d).len() >= 1,
    decreases s.len(),
{
    if s.len() == 0 {
    } else {
        lemma_split_len(s.drop_first(), d);
    }
}

/// File-name construction is a pure function of the name and the platform,
/// and follows the decoration table exactly: `lib<name>.so` on Linux,
/// `lib<name>.dylib` on macOS, `<name>.dll` on Windows, and the Linux form
/// on any other platform.
pub proof fn lemma_file_name_table(name: Seq<char>)
    ensures
        spec_file_name(Os::Linux, name) == "lib"@ + name + ".so"@,
        spec_file_name(Os::MacOs, name) == "lib"@ + name + ".dylib"@,
        spec_file_name(Os::Windows, name) == ""@ + name + ".dll"@,
        spec_file_name(Os::Other, name) == "lib"@ + name + ".so"@,
{
}

/// Construct the platform file name of the library called `library_name`.
pub fn file_name(os: Os, library_name: &str) -> (r: String)
    ensures
        r@ == spec_file_name(os, library_name@),
{
    let mut s = String::from_str(dll_prefix(os));
    s.append(library_name);
    s.append(dll_suffix(os));
    s
}

/// Join a directory with a further path component.
pub fn join(os: Os, dir: &str, rest: &str) -> (r: String)
    ensures
        r@ == spec_join(os, dir@, rest@),
{
    let n: usize = dir.unicode_len();
    if n == 0 {
        String::from_str(rest)
    } else {
        let mut s = String::from_str(dir);
        if dir.get_char(n - 1) != separator(os) {
            s.append(separator_str(os));
        }
        s.append(rest);
        s
    }
}

/// Split a path-list value at every occurrence of the delimiter `d`.
pub fn split_path_list(s: &str, d: char) -> (r: Vec<String>)
    ensures
        r.deep_view() == spec_split(s@, d),
    decreases s@.len(),
{
    let n: usize = s.unicode_len();
    if n == 0 {
        let mut v: Vec<String> = Vec::new();
        v.push(String::new());
        proof {
            assert(v.deep_view() =~~= spec_split(s@, d));
        }
        v
    } else {
        let c = s.get_char(0);
        let tail = s.substring_char(1, n);
        proof {
            assert(tail@ =~= s@.drop_first());
        }
        let mut rest = split_path_list(tail, d);
        proof {
            lemma_split_len(s@.drop_first(), d);
        }
        if c == d {
            rest.insert(0, String::new());
            proof {
                assert(rest.deep_view() =~~= spec_split(s@, d));
            }
            rest
        } else {
            let head = s.substring_char(0, 1);
            let mut first = String::from_str(head);
            let old0 = rest.remove(0);
            first.append(old0.as_str());
            rest.insert(0, first);
            proof {
                assert(head@ =~= seq![s@[0]]);
                assert(rest.deep_view() =~~= spec_split(s@, d));
            }
            rest
        }
    }
}

} // verus!
