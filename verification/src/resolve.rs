//! The resolution policy: candidate generation and first-match selection.
//!
//! A call works on two snapshots the caller supplies: the values of the four
//! environment variables the search consults ([`EnvSnapshot`]), and the
//! relevant filesystem facts ([`FsState`]) — which paths are regular files
//! and which of the platform's default install roots are directories. With
//! both fixed, resolution is a pure function: [`spec_find`] states it, and
//! [`find`] is proved to compute it.

use vstd::prelude::*;
use crate::pathname::{
    file_name, join, spec_file_name, spec_join, spec_split, split_path_list,
};
use crate::platform::{
    build_subdirs, default_install_dirs, installed_subdirs, path_list_delimiter,
    spec_build_subdirs, spec_default_install_dirs, spec_installed_subdirs,
    spec_path_list_delimiter, Os,
};

verus! {

/// The environment-variable snapshot a resolution works on. A `None` field
/// stands for a variable that is unset (or whose value could not be read);
/// the corresponding strategy then contributes no candidates.
pub struct EnvSnapshot {
    /// Value of the user install-root variable.
    pub install_dir: Option<String>,
    /// Value of the user build-root variable.
    pub build_dir: Option<String>,
    /// Value of the variable exported by the toolkit's setup script.
    pub openvino_dir: Option<String>,
    /// Value of the platform's linker search-path variable.
    pub library_path: Option<String>,
}

/// Mathematical value of an [`EnvSnapshot`].
pub ghost struct EnvView {
    pub install_dir: Option<Seq<char>>,
    pub build_dir: Option<Seq<char>>,
    pub openvino_dir: Option<Seq<char>>,
    pub library_path: Option<Seq<char>>,
}

impl View for EnvSnapshot {
    type V = EnvView;

    open spec fn view(&self) -> EnvView {
        EnvView {
            install_dir: self.install_dir.deep_view(),
            build_dir: self.build_dir.deep_view(),
            openvino_dir: self.openvino_dir.deep_view(),
            library_path: self.library_path.deep_view(),
        }
    }
}

/// The set of strings a list of strings holds.
pub open spec fn string_set(l: Seq<Seq<char>>) -> Set<Seq<char>> {
    Set::new(|p: Seq<char>| l.contains(p))
}

/// The filesystem facts a resolution works on: the candidate paths that
/// exist as regular files, and the default install roots that exist as
/// directories. Paths not listed are taken to be absent.
pub struct FsState {
    /// Paths that exist as regular files.
    pub files: Vec<String>,
    /// Directories that exist.
    pub dirs: Vec<String>,
}

/// Mathematical value of an [`FsState`]: two sets of paths.
pub ghost struct FsView {
    pub files: Set<Seq<char>>,
    pub dirs: Set<Seq<char>>,
}

impl View for FsState {
    type V = FsView;

    open spec fn view(&self) -> FsView {
        FsView {
            files: string_set(self.files.deep_view()),
            dirs: string_set(self.dirs.deep_view()),
        }
    }
}

/// Candidates a single search root contributes: each subdirectory-table
/// entry, in table order, joined between the root and the file name.
pub open spec fn spec_table_candidates(
    os: Os,
    root: Seq<char>,
    subdirs: Seq<Seq<char>>,
    file: Seq<char>,
) -> Seq<Seq<char>> {
    subdirs.map_values(|sub: Seq<char>| spec_join(os, spec_join(os, root, sub), file))
}

/// Candidates an optional search root contributes: none when the variable
/// that would name the root is unset.
pub open spec fn spec_root_candidates(
    os: Os,
    root: Option<Seq<char>>,
    subdirs: Seq<Seq<char>>,
    file: Seq<char>,
) -> Seq<Seq<char>> {
    match root {
        Option::None => Seq::empty(),
        Option::Some(r) => spec_table_candidates(os, r, subdirs, file),
    }
}

/// Candidates the linker search-path variable contributes: its value split
/// at the platform's delimiter, each entry joined directly with the file
/// name (no subdirectory table).
pub open spec fn spec_linker_candidates(
    os: Os,
    library_path: Option<Seq<char>>,
    file: Seq<char>,
) -> Seq<Seq<char>> {
    match library_path {
        Option::None => Seq::empty(),
        Option::Some(v) => spec_split(v, spec_path_list_delimiter(os)).map_values(
            |dir: Seq<char>| spec_join(os, dir, file),
        ),
    }
}

/// Candidates the default install roots contribute: each root that exists
/// as a directory, in table order, with the installed-layout table.
pub open spec fn spec_default_candidates(
    os: Os,
    defaults: Seq<Seq<char>>,
    dirs: Set<Seq<char>>,
    file: Seq<char>,
) -> Seq<Seq<char>>
    decreases defaults.len(),
{
    if defaults.len() == 0 {
        Seq::empty()
    } else {
        (if dirs.contains(defaults[0]) {
            spec_table_candidates(os, defaults[0], spec_installed_subdirs(), file)
        } else {
            Seq::empty()
        }) + spec_default_candidates(os, defaults.drop_first(), dirs, file)
    }
}

/// The full candidate list, in search order: user install root with the
/// installed layout, user build root with the build layout, the setup
/// script's root with the installed layout, the linker search path entries,
/// and the existing default install roots with the installed layout.
pub open spec fn spec_candidates(
    os: Os,
    env: EnvView,
    dirs: Set<Seq<char>>,
    name: Seq<char>,
) -> Seq<Seq<char>> {
    let file = spec_file_name(os, name);
    spec_root_candidates(os, env.install_dir, spec_installed_subdirs(), file)
        + spec_root_candidates(os, env.build_dir, spec_build_subdirs(), file)
        + spec_root_candidates(os, env.openvino_dir, spec_installed_subdirs(), file)
        + spec_linker_candidates(os, env.library_path, file)
        + spec_default_candidates(os, spec_default_install_dirs(os), dirs, file)
}

/// The selection rule: the first candidate, in list order, that is an
/// existing file; `None` when no candidate is.
pub open spec fn spec_first_existing(
    cands: Seq<Seq<char>>,
    files: Set<Seq<char>>,
) -> Option<Seq<char>>
    decreases cands.len(),
{
    if cands.len() == 0 {
        Option::None
    } else if files.contains(cands[0]) {
        Option::Some(cands[0])
    } else {
        spec_first_existing(cands.drop_first(), files)
    }
}

/// What a resolution returns: the first existing file among the candidates
/// the snapshots give rise to.
pub open spec fn spec_find(os: Os, env: EnvView, fs: FsView, name: Seq<char>) -> Option<Seq<char>> {
    spec_first_existing(spec_candidates(os, env, fs.dirs, name), fs.files)
}

/// Whether the string `p` occurs in the list `v`.
fn contains_string(v: &Vec<String>, p: &String) -> (r: bool)
    ensures
        r == string_set(v.deep_view()).contains(p@),
{
    let mut i: usize = 0;
    while i < v.len()
        invariant
            i <= v@.len(),
            forall|j: int| 0 <= j < i ==> v@[j]@ != p@,
        decreases v@.len() - i,
    {
        if v[i].eq(p) {
            proof {
                assert(v.deep_view()[i as int] == p@);
                assert(v.deep_view().contains(p@));
            }
            return true;
        }
        i += 1;
    }
    proof {
        assert forall|q: Seq<char>| !v.deep_view().contains(q) || q != p@ by {
            if v.deep_view().contains(q) && q == p@ {
                let j: int = choose|j: int| 0 <= j < v.deep_view().len() && v.deep_view()[j] == q;
                assert(v@[j]@ == q);
            }
        }
    }
    false
}

/// Append the candidates a single root with a subdirectory table
/// contributes, in table order.
fn push_table_candidates(
    os: Os,
    root: &str,
    subdirs: &Vec<String>,
    file: &str,
    out: &mut Vec<String>,
)
    ensures
        final(out).deep_view() == old(out).deep_view() + spec_table_candidates(
            os,
            root@,
            subdirs.deep_view(),
            file@,
        ),
{
    let ghost base = old(out).deep_view();
    let ghost table = spec_table_candidates(os, root@, subdirs.deep_view(), file@);
    let mut i: usize = 0;
    while i < subdirs.len()
        invariant
            i <= subdirs@.len(),
            table == spec_table_candidates(os, root@, subdirs.deep_view(), file@),
            out.deep_view() =~= base + table.take(i as int),
        decreases subdirs@.len() - i,
    {
        let ghost prev = out.deep_view();
        let dir = join(os, root, subdirs[i].as_str());
        let cand = join(os, dir.as_str(), file);
        out.push(cand);
        proof {
            assert(subdirs.deep_view()[i as int] == subdirs@[i as int]@);
            assert(cand@ == table[i as int]);
            assert(out.deep_view() =~= prev.push(cand@));
            assert(out.deep_view() =~= base + table.take((i + 1) as int));
        }
        i += 1;
    }
    proof {
        assert(out.deep_view() =~= base + table);
    }
}

/// The full candidate list, in search order, for the library called
/// `library_name`. `existing_default_dirs` names those of the platform's
/// default install roots that exist as directories; roots not in it
/// contribute nothing.
pub fn candidate_paths(
    os: Os,
    env: &EnvSnapshot,
    existing_default_dirs: &Vec<String>,
    library_name: &str,
) -> (r: Vec<String>)
    ensures
        r.deep_view() == spec_candidates(
            os,
            env@,
            string_set(existing_default_dirs.deep_view()),
            library_name@,
        ),
{
    let ghost dir_set = string_set(existing_default_dirs.deep_view());
    let file = file_name(os, library_name);
    let ghost f = spec_file_name(os, library_name@);
    let mut out: Vec<String> = Vec::new();

    if let Option::Some(root) = &env.install_dir {
        let table = installed_subdirs();
        push_table_candidates(os, root.as_str(), &table, file.as_str(), &mut out);
    }
    proof {
        assert(out.deep_view() =~= spec_root_candidates(
            os,
            env@.install_dir,
            spec_installed_subdirs(),
            f,
        ));
    }
    let ghost part1 = out.deep_view();

    if let Option::Some(root) = &env.build_dir {
        let table = build_subdirs();
        push_table_candidates(os, root.as_str(), &table, file.as_str(), &mut out);
    }
    proof {
        assert(out.deep_view() =~= part1 + spec_root_candidates(
            os,
            env@.build_dir,
            spec_build_subdirs(),
            f,
        ));
    }
    let ghost part2 = out.deep_view();

    if let Option::Some(root) = &env.openvino_dir {
        let table = installed_subdirs();
        push_table_candidates(os, root.as_str(), &table, file.as_str(), &mut out);
    }
    proof {
        assert(out.deep_view() =~= part2 + spec_root_candidates(
            os,
            env@.openvino_dir,
            spec_installed_subdirs(),
            f,
        ));
    }
    let ghost part3 = out.deep_view();

    if let Option::Some(value) = &env.library_path {
        let entries = split_path_list(value.as_str(), path_list_delimiter(os));
        let ghost split = spec_split(value@, spec_path_list_delimiter(os));
        let mut i: usize = 0;
        while i < entries.len()
            invariant
                i <= entries@.len(),
                entries.deep_view() == split,
                out.deep_view() =~= part3 + split.map_values(
                    |dir: Seq<char>| spec_join(os, dir, f),
                ).take(i as int),
                f == spec_file_name(os, library_name@),
                file@ == f,
            decreases entries@.len() - i,
        {
            let ghost prev = out.deep_view();
            let cand = join(os, entries[i].as_str(), file.as_str());
            out.push(cand);
            proof {
                assert(entries.deep_view()[i as int] == entries@[i as int]@);
                assert(cand@ == split.map_values(|dir: Seq<char>| spec_join(os, dir, f))[
                    i as int
                ]);
                assert(out.deep_view() =~= prev.push(cand@));
                assert(out.deep_view() =~= part3 + split.map_values(
                    |dir: Seq<char>| spec_join(os, dir, f),
                ).take((i + 1) as int));
            }
            i += 1;
        }
        proof {
            assert(split.map_values(|dir: Seq<char>| spec_join(os, dir, f)).take(
                entries@.len() as int,
            ) =~= split.map_values(|dir: Seq<char>| spec_join(os, dir, f)));
        }
    }
    proof {
        assert(out.deep_view() =~= part3 + spec_linker_candidates(os, env@.library_path, f));
    }
    let ghost part4 = out.deep_view();

    let defaults = default_install_dirs(os);
    let ghost dseq = spec_default_install_dirs(os);
    proof {
        assert(dseq.skip(0) =~= dseq);
    }
    let mut i: usize = 0;
    while i < defaults.len()
        invariant
            i <= defaults@.len(),
            defaults.deep_view() == dseq,
            dir_set == string_set(existing_default_dirs.deep_view()),
            part4 + spec_default_candidates(os, dseq, dir_set, f) =~= out.deep_view()
                + spec_default_candidates(os, dseq.skip(i as int), dir_set, f),
            f == spec_file_name(os, library_name@),
            file@ == f,
        decreases defaults@.len() - i,
    {
        let ghost head = (if dir_set.contains(dseq[i as int]) {
            spec_table_candidates(os, dseq[i as int], spec_installed_subdirs(), f)
        } else {
            Seq::<Seq<char>>::empty()
        });
        proof {
            assert(dseq.skip(i as int).drop_first() =~= dseq.skip((i + 1) as int));
            assert(dseq.skip(i as int)[0] == dseq[i as int]);
            assert(spec_default_candidates(os, dseq.skip(i as int), dir_set, f) == head
                + spec_default_candidates(os, dseq.skip((i + 1) as int), dir_set, f));
        }
        let ghost prev = out.deep_view();
        if contains_string(existing_default_dirs, &defaults[i]) {
            proof {
                assert(defaults.deep_view()[i as int] == defaults@[i as int]@);
            }
            let table = installed_subdirs();
            push_table_candidates(os, defaults[i].as_str(), &table, file.as_str(), &mut out);
        }
        proof {
            assert(out.deep_view() =~= prev + head);
            assert(part4 + spec_default_candidates(os, dseq, dir_set, f) =~= out.deep_view()
                + spec_default_candidates(os, dseq.skip((i + 1) as int), dir_set, f));
        }
        i += 1;
    }
    proof {
        assert(dseq.skip(defaults@.len() as int) =~= Seq::<Seq<char>>::empty());
        assert(out.deep_view() =~= part4 + spec_default_candidates(os, dseq, dir_set, f));
        assert(out.deep_view() =~= spec_candidates(os, env@, dir_set, library_name@));
    }
    out
}

/// The selection returns the candidate at `i` when it exists as a file and
/// no earlier candidate does.
proof fn lemma_first_existing_at(cands: Seq<Seq<char>>, files: Set<Seq<char>>, i: int)
    requires
        0 <= i < cands.len(),
        files.contains(cands[i]),
        forall|j: int| 0 <= j < i ==> !files.contains(cands[j]),
    ensures
        spec_first_existing(cands, files) == Option::Some(cands[i]),
    decreases i,
{
    if i == 0 {
    } else {
        lemma_first_existing_at(cands.drop_first(), files, i - 1);
    }
}

/// The selection returns nothing when no candidate exists as a file.
proof fn lemma_first_existing_none(cands: Seq<Seq<char>>, files: Set<Seq<char>>)
    requires
        forall|j: int| 0 <= j < cands.len() ==> !files.contains(cands[j]),
    ensures
        spec_first_existing(cands, files) is None,
    decreases cands.len(),
{
    if cands.len() == 0 {
    } else {
        lemma_first_existing_none(cands.drop_first(), files);
    }
}

/// Resolve the library called `library_name` against the given environment
/// snapshot and filesystem facts: the first candidate path, in search
/// order, that `fs` lists as an existing file.
pub fn find(os: Os, env: &EnvSnapshot, fs: &FsState, library_name: &str) -> (r: Option<String>)
    ensures
        r.deep_view() == spec_find(os, env@, fs@, library_name@),
{
    let cands = candidate_paths(os, env, &fs.dirs, library_name);
    let ghost all = spec_candidates(os, env@, fs@.dirs, library_name@);
    let mut i: usize = 0;
    while i < cands.len()
        invariant
            i <= cands@.len(),
            cands.deep_view() == all,
            all == spec_candidates(os, env@, fs@.dirs, library_name@),
            forall|j: int| 0 <= j < i ==> !fs@.files.contains(all[j]),
        decreases cands@.len() - i,
    {
        if contains_string(&fs.files, &cands[i]) {
            let picked = cands[i].clone();
            proof {
                assert(cands.deep_view()[i as int] == cands@[i as int]@);
                lemma_first_existing_at(all, fs@.files, i as int);
                assert(picked@ == all[i as int]);
            }
            return Option::Some(picked);
        }
        i += 1;
    }
    proof {
        lemma_first_existing_none(all, fs@.files);
    }
    Option::None
}

/// The selection returns something iff some candidate is an existing file,
/// and what it returns is always a candidate confirmed as an existing file.
proof fn lemma_first_existing_characterization(cands: Seq<Seq<char>>, files: Set<Seq<char>>)
    ensures
        (spec_first_existing(cands, files) is Some) <==> (exists|i: int|
            0 <= i < cands.len() && files.contains(cands[i])),
        spec_first_existing(cands, files) matches Some(p) ==> cands.contains(p)
            && files.contains(p),
    decreases cands.len(),
{
    if cands.len() == 0 {
    } else if files.contains(cands[0]) {
        assert(cands.contains(cands[0]));
    } else {
        lemma_first_existing_characterization(cands.drop_first(), files);
        let tail = cands.drop_first();
        if spec_first_existing(cands, files) is Some {
            let i: int = choose|i: int| 0 <= i < tail.len() && files.contains(tail[i]);
            assert(files.contains(cands[i + 1]));
            let p = spec_first_existing(cands, files)->0;
            let j: int = choose|j: int| 0 <= j < tail.len() && tail[j] == p;
            assert(cands[j + 1] == p);
            assert(cands.contains(cands[j + 1]));
        }
        if exists|i: int| 0 <= i < cands.len() && files.contains(cands[i]) {
            let i: int = choose|i: int| 0 <= i < cands.len() && files.contains(cands[i]);
            assert(i != 0);
            assert(files.contains(tail[i - 1]));
        }
    }
}

/// Success is owed exactly when some candidate path is an existing file;
/// the result is then itself a candidate that is an existing file — a
/// returned path is always confirmed, and absence is the only other
/// outcome.
pub proof fn lemma_find_success_condition(os: Os, env: EnvView, fs: FsView, name: Seq<char>)
    ensures
        (spec_find(os, env, fs, name) is Some) <==> (exists|i: int|
            0 <= i < spec_candidates(os, env, fs.dirs, name).len() && fs.files.contains(
                spec_candidates(os, env, fs.dirs, name)[i],
            )),
        spec_find(os, env, fs, name) matches Some(p) ==> spec_candidates(
            os,
            env,
            fs.dirs,
            name,
        ).contains(p) && fs.files.contains(p),
{
    lemma_first_existing_characterization(spec_candidates(os, env, fs.dirs, name), fs.files);
}

/// With the environment snapshot, the filesystem facts and the name fixed,
/// resolution has exactly one possible result: any two values the
/// specification admits are equal.
pub proof fn lemma_find_deterministic(
    os: Os,
    env: EnvView,
    fs: FsView,
    name: Seq<char>,
    r1: Option<Seq<char>>,
    r2: Option<Seq<char>>,
)
    requires
        r1 == spec_find(os, env, fs, name),
        r2 == spec_find(os, env, fs, name),
    ensures
        r1 == r2,
{
}

/// When some candidate at or before position `i` is an existing file, the
/// selection picks a candidate at or before position `i`: a later candidate
/// can never displace an earlier existing one.
pub proof fn lemma_earlier_candidate_wins(cands: Seq<Seq<char>>, files: Set<Seq<char>>, i: int)
    requires
        0 <= i < cands.len(),
        files.contains(cands[i]),
    ensures
        exists|k: int|
            0 <= k <= i && spec_first_existing(cands, files) == Option::Some(cands[k]),
    decreases i,
{
    if files.contains(cands[0]) {
        assert(spec_first_existing(cands, files) == Option::Some(cands[0]));
    } else {
        lemma_earlier_candidate_wins(cands.drop_first(), files, i - 1);
        let k: int = choose|k: int|
            0 <= k <= i - 1 && spec_first_existing(cands.drop_first(), files) == Option::Some(
                cands.drop_first()[k],
            );
        assert(cands.drop_first()[k] == cands[k + 1]);
        assert(spec_first_existing(cands, files) == Option::Some(cands[k + 1]));
    }
}

/// A candidate that is not an existing file has no influence on the
/// selection: removing it leaves the result unchanged. In particular an
/// invalid entry of the linker search path neither aborts the search nor
/// affects its sibling entries.
pub proof fn lemma_absent_candidate_irrelevant(
    cands: Seq<Seq<char>>,
    files: Set<Seq<char>>,
    i: int,
)
    requires
        0 <= i < cands.len(),
        !files.contains(cands[i]),
    ensures
        spec_first_existing(cands.remove(i), files) == spec_first_existing(cands, files),
    decreases i,
{
    if i == 0 {
        assert(cands.remove(0) =~= cands.drop_first());
    } else {
        if files.contains(cands[0]) {
            assert(cands.remove(i)[0] == cands[0]);
        } else {
            lemma_absent_candidate_irrelevant(cands.drop_first(), files, i - 1);
            assert(cands.drop_first().remove(i - 1) =~= cands.remove(i).drop_first());
            assert(cands.remove(i)[0] == cands[0]);
        }
    }
}

/// The linker search-path strategy probes every entry of the split value
/// independently: the strategy contributes one candidate per entry, in
/// entry order, each the entry joined directly with the file name.
pub proof fn lemma_linker_entries_probed(os: Os, value: Seq<char>, file: Seq<char>)
    ensures
        spec_linker_candidates(os, Option::Some(value), file).len() == spec_split(
            value,
            spec_path_list_delimiter(os),
        ).len(),
        forall|k: int|
            0 <= k < spec_split(value, spec_path_list_delimiter(os)).len()
                ==> spec_linker_candidates(os, Option::Some(value), file)[k] == spec_join(
                os,
                spec_split(value, spec_path_list_delimiter(os))[k],
                file,
            ),
{
}

/// Strategy priority: when the user install-root variable is set and some
/// installed-layout candidate under that root is an existing file, the
/// result is one of that strategy's candidates — no later strategy, in
/// particular no default install root, can supply the result.
pub proof fn lemma_install_root_priority(os: Os, env: EnvView, fs: FsView, name: Seq<char>)
    requires
        env.install_dir is Some,
        exists|i: int|
            0 <= i < spec_installed_subdirs().len() && fs.files.contains(
                spec_table_candidates(
                    os,
                    env.install_dir->0,
                    spec_installed_subdirs(),
                    spec_file_name(os, name),
                )[i],
            ),
    ensures
        spec_find(os, env, fs, name) matches Some(p) && spec_table_candidates(
            os,
            env.install_dir->0,
            spec_installed_subdirs(),
            spec_file_name(os, name),
        ).contains(p),
{
    let file = spec_file_name(os, name);
    let table = spec_table_candidates(os, env.install_dir->0, spec_installed_subdirs(), file);
    let all = spec_candidates(os, env, fs.dirs, name);
    let i: int = choose|i: int|
        0 <= i < spec_installed_subdirs().len() && fs.files.contains(table[i]);
    assert(all[i] == table[i]);
    lemma_earlier_candidate_wins(all, fs.files, i);
    let k: int = choose|k: int|
        0 <= k <= i && spec_first_existing(all, fs.files) == Option::Some(all[k]);
    assert(all[k] == table[k]);
    assert(table.contains(table[k]));
}

/// Order within a strategy: when the candidate of the installed-layout
/// table's entry `i` under the user install root is an existing file, the
/// result is the candidate of entry `i` or of an earlier entry — a later
/// table entry can never displace it.
pub proof fn lemma_earlier_subdir_wins(os: Os, env: EnvView, fs: FsView, name: Seq<char>, i: int)
    requires
        env.install_dir is Some,
        0 <= i < spec_installed_subdirs().len(),
        fs.files.contains(
            spec_table_candidates(
                os,
                env.install_dir->0,
                spec_installed_subdirs(),
                spec_file_name(os, name),
            )[i],
        ),
    ensures
        exists|k: int|
            0 <= k <= i && spec_find(os, env, fs, name) == Option::Some(
                spec_table_candidates(
                    os,
                    env.install_dir->0,
                    spec_installed_subdirs(),
                    spec_file_name(os, name),
                )[k],
            ),
{
    let file = spec_file_name(os, name);
    let table = spec_table_candidates(os, env.install_dir->0, spec_installed_subdirs(), file);
    let all = spec_candidates(os, env, fs.dirs, name);
    assert(all[i] == table[i]);
    lemma_earlier_candidate_wins(all, fs.files, i);
    let k: int = choose|k: int|
        0 <= k <= i && spec_first_existing(all, fs.files) == Option::Some(all[k]);
    assert(all[k] == table[k]);
}

/// The default install roots that do not exist as directories contribute no
/// candidates.
proof fn lemma_no_dirs_no_default_candidates(
    os: Os,
    defaults: Seq<Seq<char>>,
    dirs: Set<Seq<char>>,
    file: Seq<char>,
)
    requires
        forall|j: int| 0 <= j < defaults.len() ==> !dirs.contains(defaults[j]),
    ensures
        spec_default_candidates(os, defaults, dirs, file) == Seq::<Seq<char>>::empty(),
    decreases defaults.len(),
{
    if defaults.len() == 0 {
    } else {
        lemma_no_dirs_no_default_candidates(os, defaults.drop_first(), dirs, file);
        assert(spec_default_candidates(os, defaults, dirs, file) =~= Seq::<Seq<char>>::empty());
    }
}

/// Absence: when no environment variable is set and no default install root
/// exists as a directory, there is nothing to search and resolution returns
/// `None` — it has no other failure mode.
pub proof fn lemma_not_found_when_nothing_to_search(
    os: Os,
    env: EnvView,
    fs: FsView,
    name: Seq<char>,
)
    requires
        env.install_dir is None,
        env.build_dir is None,
        env.openvino_dir is None,
        env.library_path is None,
        forall|j: int|
            0 <= j < spec_default_install_dirs(os).len() ==> !fs.dirs.contains(
                spec_default_install_dirs(os)[j],
            ),
    ensures
        spec_find(os, env, fs, name) is None,
{
    let file = spec_file_name(os, name);
    lemma_no_dirs_no_default_candidates(os, spec_default_install_dirs(os), fs.dirs, file);
    assert(spec_candidates(os, env, fs.dirs, name) =~= Seq::<Seq<char>>::empty());
}

} // verus!
