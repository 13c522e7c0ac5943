//! The project's file layout and the targets inferred from it.
use vstd::prelude::*;
use crate::path::{extension_of, file_name, file_name_of, file_stem, file_stem_of, has_extension, join, join_of, str_eq};
use crate::target::{TomlPathValue, TomlTarget, TomlTargetView, plain_target, strs, toml_target_views};

verus! {

/// The source files of a project that the build cares about.
#[derive(Debug)]
pub struct Layout {
    pub root: String,
    pub lib: Option<String>,
    pub bins: Vec<String>,
    pub examples: Vec<String>,
    pub tests: Vec<String>,
    pub benches: Vec<String>,
}

/// What a scan of the project root found: whether the conventional library
/// and main files exist, and the entries of each conventional directory
/// (`None` where the directory could not be read).
#[derive(Debug)]
pub struct LayoutProbe {
    pub lib_exists: bool,
    pub main_exists: bool,
    pub bin_dir: Option<Vec<String>>,
    pub examples_dir: Option<Vec<String>>,
    pub tests_dir: Option<Vec<String>>,
    pub benches_dir: Option<Vec<String>>,
}

/// The Rust source files among `s`, in order.
pub open spec fn rs_files_of(s: Seq<Seq<char>>) -> Seq<Seq<char>>
    decreases s.len(),
{
    if s.len() == 0 {
        seq![]
    } else if extension_of(s.last()) == Some("rs"@) {
        rs_files_of(s.drop_last()).push(s.last())
    } else {
        rs_files_of(s.drop_last())
    }
}

/// The Rust source files of a directory listing; none if it could not be read.
pub open spec fn dir_rs_files_of(d: Option<Vec<String>>) -> Seq<Seq<char>> {
    match d {
        Some(v) => rs_files_of(strs(v@)),
        None => seq![],
    }
}

/// Adds `root` joined with `rel` to `files` when that file exists.
pub fn try_add_file(files: &mut Vec<String>, root: &str, rel: &str, exists: bool)
    ensures
        strs(final(files)@) == (if exists {
            strs(old(files)@).push(join_of(root@, rel@))
        } else {
            strs(old(files)@)
        }),
{
    if exists {
        let p = join(root, rel);
        let ghost before = files@;
        files.push(p);
        assert(strs(files@) =~= strs(before).push(p@));
    }
}

/// Adds the Rust source files of a directory listing to `files`.
pub fn try_add_files(files: &mut Vec<String>, entries: &Option<Vec<String>>)
    ensures
        strs(final(files)@) == strs(old(files)@) + dir_rs_files_of(*entries),
{
    match entries {
        Some(v) => {
            let ghost start = strs(files@);
            let ghost all = strs(v@);
            let mut i: usize = 0;
            assert(strs(files@) =~= start + rs_files_of(all.take(0)));
            while i < v.len()
                invariant
                    i <= v@.len(),
                    all == strs(v@),
                    strs(files@) =~= start + rs_files_of(all.take(i as int)),
                decreases v@.len() - i,
            {
                assert(all.take(i + 1).drop_last() =~= all.take(i as int));
                if has_extension(v[i].as_str(), "rs") {
                    let ghost before = files@;
                    files.push(v[i].clone());
                    assert(strs(files@) =~= strs(before).push(v@[i as int]@));
                }
                i = i + 1;
            }
            assert(all.take(v@.len() as int) =~= all);
        },
        None => {
            assert(strs(files@) =~= strs(files@) + seq![]);
        },
    }
}

/// The layout of the project rooted at `root_path`, from what a scan of
/// it found.
pub fn project_layout(root_path: &String, probe: &LayoutProbe) -> (r: Layout)
    ensures
        r.root@ == root_path@,
        match r.lib {
            Some(l) => probe.lib_exists && l@ == join_of(root_path@, "src/lib.rs"@),
            None => !probe.lib_exists,
        },
        strs(r.bins@) == (if probe.main_exists {
            seq![join_of(root_path@, "src/main.rs"@)]
        } else {
            seq![]
        }) + dir_rs_files_of(probe.bin_dir),
        strs(r.examples@) == dir_rs_files_of(probe.examples_dir),
        strs(r.tests@) == dir_rs_files_of(probe.tests_dir),
        strs(r.benches@) == dir_rs_files_of(probe.benches_dir),
{
    let lib = if probe.lib_exists {
        Some(join(root_path.as_str(), "src/lib.rs"))
    } else {
        None
    };
    let mut bins: Vec<String> = Vec::new();
    let mut examples: Vec<String> = Vec::new();
    let mut tests: Vec<String> = Vec::new();
    let mut benches: Vec<String> = Vec::new();
    assert(strs(bins@) =~= seq![]);
    try_add_file(&mut bins, root_path.as_str(), "src/main.rs", probe.main_exists);
    assert(strs(bins@) =~= if probe.main_exists {
        seq![join_of(root_path@, "src/main.rs"@)]
    } else {
        seq![]
    });
    try_add_files(&mut bins, &probe.bin_dir);
    try_add_files(&mut examples, &probe.examples_dir);
    try_add_files(&mut tests, &probe.tests_dir);
    try_add_files(&mut benches, &probe.benches_dir);
    assert(strs(examples@) =~= dir_rs_files_of(probe.examples_dir));
    assert(strs(tests@) =~= dir_rs_files_of(probe.tests_dir));
    assert(strs(benches@) =~= dir_rs_files_of(probe.benches_dir));
    Layout { root: root_path.clone(), lib, bins, examples, tests, benches }
}

/// The first of `s` whose file name is `main.rs`.
pub open spec fn first_main_of(s: Seq<Seq<char>>) -> Option<Seq<char>>
    decreases s.len(),
{
    if s.len() == 0 {
        None
    } else if file_name_of(s[0]) == "main.rs"@ {
        Some(s[0])
    } else {
        first_main_of(s.drop_first())
    }
}

/// Whether `bin` is the project's conventional main file.
pub open spec fn is_main_file(bin: Seq<char>, root: Seq<char>) -> bool {
    bin == "src/main.rs"@ || bin == join_of(root, "src/main.rs"@)
}

/// The descriptor inferred for one executable file: named after the
/// package for the conventional main file, else after the file.
pub open spec fn inferred_bin_of(name: Seq<char>, root: Seq<char>, bin: Seq<char>) -> TomlTargetView {
    plain_target(
        if is_main_file(bin, root) {
            name
        } else {
            file_stem_of(bin)
        },
        Some(bin),
    )
}

/// The descriptor inferred for one example, test or benchmark file.
pub open spec fn inferred_file_of(p: Seq<char>) -> TomlTargetView {
    plain_target(file_stem_of(p), Some(p))
}

impl Layout {
    /// The first executable whose file name is `main.rs`.
    pub fn main(&self) -> (r: Option<&String>)
        ensures
            match r {
                Some(p) => first_main_of(strs(self.bins@)) == Some(p@),
                None => first_main_of(strs(self.bins@)) is None,
            },
    {
        let ghost all = strs(self.bins@);
        let mut i: usize = 0;
        assert(all.subrange(0, all.len() as int) =~= all);
        while i < self.bins.len()
            invariant
                i <= self.bins@.len(),
                all == strs(self.bins@),
                first_main_of(all) == first_main_of(all.subrange(i as int, all.len() as int)),
            decreases self.bins@.len() - i,
        {
            let ghost rest = all.subrange(i as int, all.len() as int);
            assert(rest.drop_first() =~= all.subrange(i + 1, all.len() as int));
            let f = file_name(self.bins[i].as_str());
            if str_eq(f.as_str(), "main.rs") {
                return Some(&self.bins[i]);
            }
            i = i + 1;
        }
        None
    }
}

/// The library descriptor inferred from the layout, named `name`.
pub fn inferred_lib_target(name: &String, layout: &Layout) -> (r: Vec<TomlTarget>)
    ensures
        toml_target_views(r@) == match layout.lib {
            Some(l) => seq![plain_target(name@, Some(l@))],
            None => seq![],
        },
{
    match &layout.lib {
        Some(l) => {
            let mut t = TomlTarget::new();
            t.name = name.clone();
            t.path = Some(TomlPathValue::TomlPath(l.clone()));
            let r = vec![t];
            assert(toml_target_views(r@) =~= seq![plain_target(name@, Some(l@))]);
            r
        },
        None => {
            let r: Vec<TomlTarget> = Vec::new();
            assert(toml_target_views(r@) =~= seq![]);
            r
        },
    }
}

/// The binary descriptors inferred from the layout; the conventional main
/// file is named `name`.
pub fn inferred_bin_targets(name: &String, layout: &Layout) -> (r: Vec<TomlTarget>)
    ensures
        toml_target_views(r@) == strs(layout.bins@).map_values(
            |b: Seq<char>| inferred_bin_of(name@, layout.root@, b),
        ),
{
    let ghost all = strs(layout.bins@);
    let ghost f = |b: Seq<char>| inferred_bin_of(name@, layout.root@, b);
    let main_path = join(layout.root.as_str(), "src/main.rs");
    let mut r: Vec<TomlTarget> = Vec::new();
    let mut i: usize = 0;
    while i < layout.bins.len()
        invariant
            i <= layout.bins@.len(),
            all == strs(layout.bins@),
            main_path@ == join_of(layout.root@, "src/main.rs"@),
            toml_target_views(r@) =~= all.take(i as int).map_values(
                |b: Seq<char>| inferred_bin_of(name@, layout.root@, b),
            ),
        decreases layout.bins@.len() - i,
    {
        let bin = &layout.bins[i];
        let is_main = str_eq(bin.as_str(), "src/main.rs") || str_eq(bin.as_str(), main_path.as_str());
        let mut t = TomlTarget::new();
        t.name = if is_main {
            name.clone()
        } else {
            file_stem(bin.as_str())
        };
        t.path = Some(TomlPathValue::TomlPath(bin.clone()));
        assert(t@ == inferred_bin_of(name@, layout.root@, bin@));
        let ghost before = r@;
        r.push(t);
        assert(toml_target_views(r@) =~= toml_target_views(before).push(t@));
        assert(all.take(i + 1).map_values(
            |b: Seq<char>| inferred_bin_of(name@, layout.root@, b),
        ) =~= all.take(i as int).map_values(
            |b: Seq<char>| inferred_bin_of(name@, layout.root@, b),
        ).push(inferred_bin_of(name@, layout.root@, bin@)));
        i = i + 1;
    }
    assert(all.take(all.len() as int) =~= all);
    r
}

/// One descriptor per file of `files`, named after the file.
fn inferred_file_targets(files: &Vec<String>) -> (r: Vec<TomlTarget>)
    ensures
        toml_target_views(r@) == strs(files@).map_values(|p: Seq<char>| inferred_file_of(p)),
{
    let ghost all = strs(files@);
    let mut r: Vec<TomlTarget> = Vec::new();
    let mut i: usize = 0;
    while i < files.len()
        invariant
            i <= files@.len(),
            all == strs(files@),
            toml_target_views(r@) =~= all.take(i as int).map_values(|p: Seq<char>| inferred_file_of(p)),
        decreases files@.len() - i,
    {
        let f = &files[i];
        let mut t = TomlTarget::new();
        t.name = file_stem(f.as_str());
        t.path = Some(TomlPathValue::TomlPath(f.clone()));
        let ghost before = r@;
        r.push(t);
        assert(toml_target_views(r@) =~= toml_target_views(before).push(t@));
        assert(all.take(i + 1).map_values(|p: Seq<char>| inferred_file_of(p)) =~= all.take(
            i as int,
        ).map_values(|p: Seq<char>| inferred_file_of(p)).push(inferred_file_of(f@)));
        i = i + 1;
    }
    assert(all.take(all.len() as int) =~= all);
    r
}

/// The example descriptors inferred from the layout.
pub fn inferred_example_targets(layout: &Layout) -> (r: Vec<TomlTarget>)
    ensures
        toml_target_views(r@) == strs(layout.examples@).map_values(|p: Seq<char>| inferred_file_of(p)),
{
    inferred_file_targets(&layout.examples)
}

/// The integration test descriptors inferred from the layout.
pub fn inferred_test_targets(layout: &Layout) -> (r: Vec<TomlTarget>)
    ensures
        toml_target_views(r@) == strs(layout.tests@).map_values(|p: Seq<char>| inferred_file_of(p)),
{
    inferred_file_targets(&layout.tests)
}

/// The benchmark descriptors inferred from the layout.
pub fn inferred_bench_targets(layout: &Layout) -> (r: Vec<TomlTarget>)
    ensures
        toml_target_views(r@) == strs(layout.benches@).map_values(|p: Seq<char>| inferred_file_of(p)),
{
    inferred_file_targets(&layout.benches)
}

} // verus!
