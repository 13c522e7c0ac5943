//! Target synthesis: every descriptor fans out into one target per
//! applicable profile variant.
use vstd::prelude::*;
use crate::path::str_eq;
use crate::profile::{
    Profile, ProfileKind, TomlProfiles, default_profile, merge, merge_of,
};
use crate::target::{
    LibKind, Metadata, MetadataView, Target, TargetKind, TargetView, TomlTarget, TomlTargetView,
    mixed, target_views, toml_target_views,
};

verus! {

pub open spec fn flag_or(f: Option<bool>, d: bool) -> bool {
    match f {
        Some(b) => b,
        None => d,
    }
}

/// The library-only, non-executing variants that let other targets link
/// against a target without running its tests, docs or benchmarks again.
pub open spec fn linkable_variants(ps: TomlProfiles) -> Seq<Profile> {
    seq![
        merge_of(Profile { test: false, harness: false, ..default_profile(ProfileKind::Test) }, ps.test),
        merge_of(Profile { doc: false, harness: false, ..default_profile(ProfileKind::Doc) }, ps.doc),
        merge_of(Profile { test: false, harness: false, ..default_profile(ProfileKind::Bench) }, ps.bench),
    ]
}

/// The profile variants of a library or binary descriptor, in order.
pub open spec fn target_profiles_of(t: TomlTargetView, ps: TomlProfiles, needed: bool) -> Seq<Profile> {
    let s0 = seq![
        merge_of(default_profile(ProfileKind::Dev), ps.dev),
        merge_of(default_profile(ProfileKind::Release), ps.release),
    ];
    let s1 = if flag_or(t.test, true) {
        s0.push(merge_of(default_profile(ProfileKind::Test), ps.test))
    } else {
        s0
    };
    let doc = Profile { doctest: flag_or(t.doctest, true), ..default_profile(ProfileKind::Doc) };
    let s2 = if flag_or(t.doc, true) {
        s1.push(merge_of(doc, ps.doc))
    } else {
        s1
    };
    let s3 = if flag_or(t.bench, true) {
        s2.push(merge_of(default_profile(ProfileKind::Bench), ps.bench))
    } else {
        s2
    };
    let s4 = if needed {
        s3 + linkable_variants(ps)
    } else {
        s3
    };
    if t.plugin == Some(true) {
        s4.map_values(|p: Profile| Profile { for_host: true, ..p })
    } else {
        s4
    }
}

pub open spec fn lib_kind_of(s: Seq<char>) -> Option<LibKind> {
    if s == "lib"@ {
        Some(LibKind::Lib)
    } else if s == "rlib"@ {
        Some(LibKind::Rlib)
    } else if s == "dylib"@ {
        Some(LibKind::Dylib)
    } else if s == "staticlib"@ {
        Some(LibKind::StaticLib)
    } else {
        None
    }
}

/// The kinds named by `ss`, or `None` if one of them names no kind.
pub open spec fn lib_kinds_of(ss: Seq<Seq<char>>) -> Option<Seq<LibKind>>
    decreases ss.len(),
{
    if ss.len() == 0 {
        Some(seq![])
    } else {
        match (lib_kinds_of(ss.drop_last()), lib_kind_of(ss.last())) {
            (Some(ks), Some(k)) => Some(ks.push(k)),
            _ => None,
        }
    }
}

/// The crate kinds of a library: the declared ones when they all parse,
/// else a dynamic library for a plugin and a plain library otherwise.
pub open spec fn crate_types_of(t: TomlTargetView) -> Seq<LibKind> {
    let fallback = if t.plugin == Some(true) {
        seq![LibKind::Dylib]
    } else {
        seq![LibKind::Lib]
    };
    match t.crate_type {
        Some(ss) => match lib_kinds_of(ss) {
            Some(ks) => ks,
            None => fallback,
        },
        None => fallback,
    }
}

/// The target of one profile variant of a library or binary descriptor.
/// Test variants get the fingerprint mixed with `tag`; the others keep the
/// plain fingerprint when `keep` holds, and have none otherwise.
pub open spec fn variant_of(
    kind: TargetKind,
    t: TomlTargetView,
    cts: Seq<LibKind>,
    path: Seq<char>,
    meta: MetadataView,
    tag: Seq<char>,
    keep: bool,
    p: Profile,
) -> TargetView {
    TargetView {
        kind,
        name: t.name,
        crate_types: cts,
        src_path: path,
        profile: p,
        metadata: if p.test {
            Some(mixed(meta, tag))
        } else if keep {
            Some(meta)
        } else {
            None
        },
    }
}

pub open spec fn or_path(p: Option<Seq<char>>, d: Seq<char>) -> Seq<char> {
    match p {
        Some(x) => x,
        None => d,
    }
}

/// One target per profile in `ps`, in order.
pub open spec fn variants_of(
    kind: TargetKind,
    t: TomlTargetView,
    cts: Seq<LibKind>,
    path: Seq<char>,
    meta: MetadataView,
    tag: Seq<char>,
    keep: bool,
    ps: Seq<Profile>,
) -> Seq<TargetView> {
    ps.map_values(|p: Profile| variant_of(kind, t, cts, path, meta, tag, keep, p))
}

/// The targets of the library descriptor `l`; `needed` adds the linkable
/// variants.
pub open spec fn lib_targets_of(l: TomlTargetView, needed: bool, meta: MetadataView, ps: TomlProfiles) -> Seq<TargetView> {
    let path = or_path(l.path, "src/"@ + l.name + ".rs"@);
    variants_of(TargetKind::Lib, l, crate_types_of(l), path, meta, "test"@, true, target_profiles_of(l, ps, needed))
}

/// The conventional path of a binary without a declared path.
pub open spec fn bin_default_path(name: Seq<char>, with_lib: bool) -> Seq<char> {
    if with_lib {
        "src/bin/"@ + name + ".rs"@
    } else {
        "src/"@ + name + ".rs"@
    }
}

/// The targets of one binary descriptor.
pub open spec fn bin_targets_of(
    b: TomlTargetView,
    with_lib: bool,
    needed: bool,
    meta: MetadataView,
    ps: TomlProfiles,
) -> Seq<TargetView> {
    let path = or_path(b.path, bin_default_path(b.name, with_lib));
    variants_of(TargetKind::Bin, b, seq![], path, meta, "bin-"@ + b.name, false, target_profiles_of(b, ps, needed))
}

/// The targets of a sequence of binary descriptors, in order.
pub open spec fn all_bin_targets_of(
    bs: Seq<TomlTargetView>,
    with_lib: bool,
    needed: bool,
    meta: MetadataView,
    ps: TomlProfiles,
) -> Seq<TargetView>
    decreases bs.len(),
{
    if bs.len() == 0 {
        seq![]
    } else {
        all_bin_targets_of(bs.drop_last(), with_lib, needed, meta, ps)
            + bin_targets_of(bs.last(), with_lib, needed, meta, ps)
    }
}

/// The custom build script target for the script at `cmd`.
pub open spec fn custom_build_target_of(cmd: Seq<char>, ps: TomlProfiles) -> TargetView {
    TargetView {
        kind: TargetKind::CustomBuild,
        name: "build-script-"@ + crate::path::file_stem_of(cmd),
        crate_types: seq![],
        src_path: cmd,
        profile: merge_of(
            Profile { for_host: true, custom_build: true, ..default_profile(ProfileKind::Dev) },
            ps.dev,
        ),
        metadata: None,
    }
}

/// The conventional path of an example, test or benchmark without a
/// declared path.
pub open spec fn single_default_path(kind: TargetKind, name: Seq<char>) -> Seq<char> {
    match kind {
        TargetKind::Example => "examples/"@ + name + ".rs"@,
        TargetKind::Test => if name == "test"@ {
            "src/test.rs"@
        } else {
            "tests/"@ + name + ".rs"@
        },
        _ => if name == "bench"@ {
            "src/bench.rs"@
        } else {
            "benches/"@ + name + ".rs"@
        },
    }
}

/// The one target of an example, test or benchmark descriptor.
pub open spec fn single_target_of(
    kind: TargetKind,
    t: TomlTargetView,
    meta: MetadataView,
    ps: TomlProfiles,
) -> TargetView {
    let harness = flag_or(t.harness, true);
    TargetView {
        kind,
        name: t.name,
        crate_types: seq![],
        src_path: or_path(t.path, single_default_path(kind, t.name)),
        profile: match kind {
            TargetKind::Example => merge_of(
                Profile { test: false, ..default_profile(ProfileKind::Test) },
                ps.test,
            ),
            TargetKind::Test => merge_of(
                Profile { harness, ..default_profile(ProfileKind::Test) },
                ps.test,
            ),
            _ => merge_of(Profile { harness, ..default_profile(ProfileKind::Bench) }, ps.bench),
        },
        metadata: match kind {
            TargetKind::Example => None,
            TargetKind::Test => Some(mixed(meta, "test-"@ + t.name)),
            _ => Some(mixed(meta, "bench-"@ + t.name)),
        },
    }
}

pub open spec fn all_single_targets_of(
    kind: TargetKind,
    ts: Seq<TomlTargetView>,
    meta: MetadataView,
    ps: TomlProfiles,
) -> Seq<TargetView> {
    ts.map_values(|t: TomlTargetView| single_target_of(kind, t, meta, ps))
}

/// The whole target list, role by role. Without a library or a binary
/// there is no target at all. The linkable variants go to the library, or
/// to the binaries when there is no library, and only when examples, tests
/// or benchmarks need them.
pub open spec fn normalize_of(
    libs: Seq<TomlTargetView>,
    bins: Seq<TomlTargetView>,
    custom_build: Option<Seq<char>>,
    examples: Seq<TomlTargetView>,
    tests: Seq<TomlTargetView>,
    benches: Seq<TomlTargetView>,
    meta: MetadataView,
    ps: TomlProfiles,
) -> Seq<TargetView> {
    let needed = examples.len() > 0 || tests.len() > 0 || benches.len() > 0;
    let lib_part = if libs.len() > 0 {
        lib_targets_of(libs[0], needed, meta, ps)
    } else {
        seq![]
    };
    let bin_part = all_bin_targets_of(bins, libs.len() > 0, needed && libs.len() == 0, meta, ps);
    let build_part = match custom_build {
        Some(c) => seq![custom_build_target_of(c, ps)],
        None => seq![],
    };
    if libs.len() == 0 && bins.len() == 0 {
        seq![]
    } else {
        lib_part + bin_part + build_part + all_single_targets_of(TargetKind::Example, examples, meta, ps)
            + all_single_targets_of(TargetKind::Test, tests, meta, ps) + all_single_targets_of(
            TargetKind::Bench,
            benches,
            meta,
            ps,
        )
    }
}

fn for_host(p: Profile) -> (r: Profile)
    ensures
        r == (Profile { for_host: true, ..p }),
{
    Profile { for_host: true, ..p }
}

/// The profile variants of a library or binary descriptor.
pub fn target_profiles(t: &TomlTarget, ps: &TomlProfiles, needed: bool) -> (r: Vec<Profile>)
    ensures
        r@ == target_profiles_of(t@, *ps, needed),
{
    let mut ret: Vec<Profile> = Vec::new();
    ret.push(merge(Profile::default_of(ProfileKind::Dev), ps.dev));
    ret.push(merge(Profile::default_of(ProfileKind::Release), ps.release));
    if t.test != Some(false) {
        ret.push(merge(Profile::default_of(ProfileKind::Test), ps.test));
    }
    let doctest = match t.doctest {
        Some(b) => b,
        None => true,
    };
    if t.doc != Some(false) {
        let d = Profile { doctest, ..Profile::default_of(ProfileKind::Doc) };
        ret.push(merge(d, ps.doc));
    }
    if t.bench != Some(false) {
        ret.push(merge(Profile::default_of(ProfileKind::Bench), ps.bench));
    }
    let ghost s3 = ret@;
    if needed {
        let t0 = Profile { test: false, harness: false, ..Profile::default_of(ProfileKind::Test) };
        ret.push(merge(t0, ps.test));
        let d0 = Profile { doc: false, harness: false, ..Profile::default_of(ProfileKind::Doc) };
        ret.push(merge(d0, ps.doc));
        let b0 = Profile { test: false, harness: false, ..Profile::default_of(ProfileKind::Bench) };
        ret.push(merge(b0, ps.bench));
        assert(ret@ =~= s3 + linkable_variants(*ps));
    }
    assert(ret@ =~= if needed { s3 + linkable_variants(*ps) } else { s3 });
    if t.plugin == Some(true) {
        let ghost s4 = ret@;
        let mut out: Vec<Profile> = Vec::new();
        let mut i: usize = 0;
        while i < ret.len()
            invariant
                i <= ret@.len(),
                ret@ == s4,
                out@ =~= s4.take(i as int).map_values(|p: Profile| Profile { for_host: true, ..p }),
            decreases ret@.len() - i,
        {
            out.push(for_host(ret[i]));
            i = i + 1;
        }
        assert(s4.take(s4.len() as int) =~= s4);
        out
    } else {
        ret
    }
}

fn lib_kind(s: &String) -> (r: Option<LibKind>)
    ensures
        r == lib_kind_of(s@),
{
    let t = s.as_str();
    if str_eq(t, "lib") {
        Some(LibKind::Lib)
    } else if str_eq(t, "rlib") {
        Some(LibKind::Rlib)
    } else if str_eq(t, "dylib") {
        Some(LibKind::Dylib)
    } else if str_eq(t, "staticlib") {
        Some(LibKind::StaticLib)
    } else {
        None
    }
}

/// Parses a list of crate kinds; `None` if one of them names no kind.
pub fn lib_kinds(ss: &Vec<String>) -> (r: Option<Vec<LibKind>>)
    ensures
        match r {
            Some(v) => lib_kinds_of(crate::target::strs(ss@)) == Some(v@),
            None => lib_kinds_of(crate::target::strs(ss@)) is None,
        },
{
    let ghost all = crate::target::strs(ss@);
    let mut out: Vec<LibKind> = Vec::new();
    let mut i: usize = 0;
    while i < ss.len()
        invariant
            i <= ss@.len(),
            all == crate::target::strs(ss@),
            lib_kinds_of(all.take(i as int)) == Some(out@),
        decreases ss@.len() - i,
    {
        assert(all.take(i + 1).drop_last() =~= all.take(i as int));
        match lib_kind(&ss[i]) {
            Some(k) => out.push(k),
            None => {
                assert(lib_kinds_of(all.take(i + 1)) is None);
                let mut j: usize = i + 1;
                while j < ss.len()
                    invariant
                        i < j <= ss@.len(),
                        all == crate::target::strs(ss@),
                        lib_kinds_of(all.take(j as int)) is None,
                    decreases ss@.len() - j,
                {
                    assert(all.take(j + 1).drop_last() =~= all.take(j as int));
                    j = j + 1;
                }
                assert(all.take(ss@.len() as int) =~= all);
                return None;
            },
        }
        i = i + 1;
    }
    assert(all.take(ss@.len() as int) =~= all);
    Some(out)
}

fn crate_types(t: &TomlTarget) -> (r: Vec<LibKind>)
    ensures
        r@ == crate_types_of(t@),
{
    let parsed = match &t.crate_type {
        Some(v) => lib_kinds(v),
        None => None,
    };
    match parsed {
        Some(ks) => ks,
        None => {
            if t.plugin == Some(true) {
                let r = vec![LibKind::Dylib];
                assert(r@ =~= seq![LibKind::Dylib]);
                r
            } else {
                let r = vec![LibKind::Lib];
                assert(r@ =~= seq![LibKind::Lib]);
                r
            }
        },
    }
}

/// `a`, `b` and `c` one after the other.
pub fn concat3(a: &str, b: &str, c: &str) -> (r: String)
    ensures
        r@ == a@ + b@ + c@,
{
    let mut s = String::from_str(a);
    s.append(b);
    s.append(c);
    s
}

fn copy_kinds(v: &Vec<LibKind>) -> (r: Vec<LibKind>)
    ensures
        r@ == v@,
{
    let mut r: Vec<LibKind> = Vec::new();
    let mut i: usize = 0;
    while i < v.len()
        invariant
            i <= v@.len(),
            r@ == v@.take(i as int),
        decreases v@.len() - i,
    {
        r.push(v[i]);
        assert(v@.take(i + 1) =~= v@.take(i as int).push(v@[i as int]));
        i = i + 1;
    }
    assert(v@.take(v@.len() as int) =~= v@);
    r
}

/// Pushes one target per profile in `profiles`, as `variant_of` says.
fn push_variants(
    dst: &mut Vec<Target>,
    kind: TargetKind,
    t: &TomlTarget,
    cts: &Vec<LibKind>,
    path: &String,
    profiles: &Vec<Profile>,
    meta: &Metadata,
    tag: &String,
    keep: bool,
)
    ensures
        target_views(final(dst)@) == target_views(old(dst)@) + variants_of(kind, t@, cts@, path@, meta@, tag@, keep, profiles@),
{
    let ghost start = target_views(dst@);
    let mut i: usize = 0;
    assert(target_views(dst@) =~= start + variants_of(kind, t@, cts@, path@, meta@, tag@, keep, profiles@.take(0)));
    while i < profiles.len()
        invariant
            i <= profiles@.len(),
            target_views(dst@) =~= start + variants_of(kind, t@, cts@, path@, meta@, tag@, keep, profiles@.take(i as int)),
        decreases profiles@.len() - i,
    {
        let p = profiles[i];
        let metadata = if p.test {
            let mut m = meta.duplicate();
            m.mix(tag.as_str());
            Some(m)
        } else if keep {
            Some(meta.duplicate())
        } else {
            None
        };
        let tg = Target {
            kind,
            name: t.name.clone(),
            crate_types: copy_kinds(cts),
            src_path: path.clone(),
            profile: p,
            metadata,
        };
        assert(tg@.metadata == variant_of(kind, t@, cts@, path@, meta@, tag@, keep, p).metadata);
        assert(tg@ == variant_of(kind, t@, cts@, path@, meta@, tag@, keep, p));
        let ghost before = dst@;
        dst.push(tg);
        assert(target_views(dst@) =~= target_views(before).push(tg@));
        let ghost v = variant_of(kind, t@, cts@, path@, meta@, tag@, keep, p);
        assert(variants_of(kind, t@, cts@, path@, meta@, tag@, keep, profiles@.take(i + 1)) =~= variants_of(kind, t@, cts@, path@, meta@, tag@, keep, profiles@.take(i as int)).push(v));
        i = i + 1;
    }
    assert(profiles@.take(profiles@.len() as int) =~= profiles@);
}

fn path_or(p: &Option<crate::target::TomlPathValue>, d: String) -> (r: String)
    ensures
        r@ == or_path(
            match p {
                Some(x) => Some(x@),
                None => None,
            },
            d@,
        ),
{
    match p {
        Some(x) => x.to_path(),
        None => d,
    }
}

fn lib_targets(dst: &mut Vec<Target>, l: &TomlTarget, needed: bool, meta: &Metadata, ps: &TomlProfiles)
    ensures
        target_views(final(dst)@) == target_views(old(dst)@) + lib_targets_of(l@, needed, meta@, *ps),
{
    let path = path_or(&l.path, concat3("src/", l.name.as_str(), ".rs"));
    let cts = crate_types(l);
    let profiles = target_profiles(l, ps, needed);
    let tag = String::from_str("test");
    push_variants(dst, TargetKind::Lib, l, &cts, &path, &profiles, meta, &tag, true);
}

fn bin_targets(
    dst: &mut Vec<Target>,
    bins: &Vec<TomlTarget>,
    with_lib: bool,
    needed: bool,
    meta: &Metadata,
    ps: &TomlProfiles,
)
    ensures
        target_views(final(dst)@) == target_views(old(dst)@) + all_bin_targets_of(
            toml_target_views(bins@),
            with_lib,
            needed,
            meta@,
            *ps,
        ),
{
    let ghost bs = toml_target_views(bins@);
    let ghost start = target_views(dst@);
    let mut i: usize = 0;
    assert(bs.take(0) =~= seq![]);
    while i < bins.len()
        invariant
            i <= bins@.len(),
            bs == toml_target_views(bins@),
            target_views(dst@) =~= start + all_bin_targets_of(bs.take(i as int), with_lib, needed, meta@, *ps),
        decreases bins@.len() - i,
    {
        let b = &bins[i];
        let d = if with_lib {
            concat3("src/bin/", b.name.as_str(), ".rs")
        } else {
            concat3("src/", b.name.as_str(), ".rs")
        };
        let path = path_or(&b.path, d);
        let profiles = target_profiles(b, ps, needed);
        let tag = concat3("bin-", b.name.as_str(), "");
        proof { reveal_strlit(""); }
        assert(tag@ =~= "bin-"@ + b.name@);
        let cts: Vec<LibKind> = Vec::new();
        assert(cts@ =~= seq![]);
        push_variants(dst, TargetKind::Bin, b, &cts, &path, &profiles, meta, &tag, false);
        assert(bs.take(i + 1).drop_last() =~= bs.take(i as int));
        assert(bs.take(i + 1).last() == b@);
        i = i + 1;
    }
    assert(bs.take(bins@.len() as int) =~= bs);
}

fn custom_build_target(dst: &mut Vec<Target>, cmd: &String, ps: &TomlProfiles)
    ensures
        target_views(final(dst)@) == target_views(old(dst)@).push(custom_build_target_of(cmd@, *ps)),
{
    let p = Profile { for_host: true, custom_build: true, ..Profile::default_of(ProfileKind::Dev) };
    let stem = crate::path::file_stem(cmd.as_str());
    let name = concat3("build-script-", stem.as_str(), "");
    proof { reveal_strlit(""); }
    assert(name@ =~= "build-script-"@ + stem@);
    let tg = Target {
        kind: TargetKind::CustomBuild,
        name,
        crate_types: Vec::new(),
        src_path: cmd.clone(),
        profile: merge(p, ps.dev),
        metadata: None,
    };
    assert(tg@.crate_types =~= seq![]);
    let ghost before = dst@;
    dst.push(tg);
    assert(target_views(dst@) =~= target_views(before).push(tg@));
}

fn single_default(kind: TargetKind, name: &String) -> (r: String)
    ensures
        r@ == single_default_path(kind, name@),
{
    match kind {
        TargetKind::Example => concat3("examples/", name.as_str(), ".rs"),
        TargetKind::Test => {
            if str_eq(name.as_str(), "test") {
                String::from_str("src/test.rs")
            } else {
                concat3("tests/", name.as_str(), ".rs")
            }
        },
        _ => {
            if str_eq(name.as_str(), "bench") {
                String::from_str("src/bench.rs")
            } else {
                concat3("benches/", name.as_str(), ".rs")
            }
        },
    }
}

fn single_target(kind: TargetKind, t: &TomlTarget, meta: &Metadata, ps: &TomlProfiles) -> (r: Target)
    requires
        kind == TargetKind::Example || kind == TargetKind::Test || kind == TargetKind::Bench,
    ensures
        r@ == single_target_of(kind, t@, meta@, *ps),
{
    let harness = match t.harness {
        Some(b) => b,
        None => true,
    };
    let path = path_or(&t.path, single_default(kind, &t.name));
    let (profile, metadata) = match kind {
        TargetKind::Example => (
            merge(Profile { test: false, ..Profile::default_of(ProfileKind::Test) }, ps.test),
            None,
        ),
        TargetKind::Test => {
            let mut m = meta.duplicate();
            let tag = concat3("test-", t.name.as_str(), "");
            proof { reveal_strlit(""); }
            assert(tag@ =~= "test-"@ + t.name@);
            m.mix(tag.as_str());
            (merge(Profile { harness, ..Profile::default_of(ProfileKind::Test) }, ps.test), Some(m))
        },
        _ => {
            let mut m = meta.duplicate();
            let tag = concat3("bench-", t.name.as_str(), "");
            proof { reveal_strlit(""); }
            assert(tag@ =~= "bench-"@ + t.name@);
            m.mix(tag.as_str());
            (merge(Profile { harness, ..Profile::default_of(ProfileKind::Bench) }, ps.bench), Some(m))
        },
    };
    let r = Target {
        kind,
        name: t.name.clone(),
        crate_types: Vec::new(),
        src_path: path,
        profile,
        metadata,
    };
    assert(r@.crate_types =~= seq![]);
    r
}

fn single_targets(
    dst: &mut Vec<Target>,
    kind: TargetKind,
    ts: &Vec<TomlTarget>,
    meta: &Metadata,
    ps: &TomlProfiles,
)
    requires
        kind == TargetKind::Example || kind == TargetKind::Test || kind == TargetKind::Bench,
    ensures
        target_views(final(dst)@) == target_views(old(dst)@) + all_single_targets_of(
            kind,
            toml_target_views(ts@),
            meta@,
            *ps,
        ),
{
    let ghost vs = toml_target_views(ts@);
    let ghost start = target_views(dst@);
    let mut i: usize = 0;
    assert(target_views(dst@) =~= start + all_single_targets_of(kind, vs.take(0), meta@, *ps));
    while i < ts.len()
        invariant
            i <= ts@.len(),
            vs == toml_target_views(ts@),
            kind == TargetKind::Example || kind == TargetKind::Test || kind == TargetKind::Bench,
            target_views(dst@) =~= start + all_single_targets_of(kind, vs.take(i as int), meta@, *ps),
        decreases ts@.len() - i,
    {
        let tg = single_target(kind, &ts[i], meta, ps);
        let ghost before = dst@;
        dst.push(tg);
        assert(target_views(dst@) =~= target_views(before).push(tg@));
        assert(all_single_targets_of(kind, vs.take(i + 1), meta@, *ps) =~= all_single_targets_of(
            kind,
            vs.take(i as int),
            meta@,
            *ps,
        ).push(tg@));
        i = i + 1;
    }
    assert(vs.take(ts@.len() as int) =~= vs);
}

/// Synthesizes the final target list: the library's variants, then each
/// binary's, the custom build script, the examples, the tests and the
/// benchmarks.
pub fn normalize(
    libs: &Vec<TomlTarget>,
    bins: &Vec<TomlTarget>,
    custom_build: Option<String>,
    examples: &Vec<TomlTarget>,
    tests: &Vec<TomlTarget>,
    benches: &Vec<TomlTarget>,
    metadata: &Metadata,
    profiles: &TomlProfiles,
) -> (r: Vec<Target>)
    ensures
        target_views(r@) == normalize_of(
            toml_target_views(libs@),
            toml_target_views(bins@),
            match custom_build {
                Some(c) => Some(c@),
                None => None,
            },
            toml_target_views(examples@),
            toml_target_views(tests@),
            toml_target_views(benches@),
            metadata@,
            *profiles,
        ),
{
    let mut ret: Vec<Target> = Vec::new();
    let needed = examples.len() > 0 || tests.len() > 0 || benches.len() > 0;
    assert(target_views(ret@) =~= seq![]);
    if libs.len() == 0 && bins.len() == 0 {
        return ret;
    }
    if libs.len() > 0 {
        lib_targets(&mut ret, &libs[0], needed, metadata, profiles);
    }
    bin_targets(&mut ret, bins, libs.len() > 0, needed && libs.len() == 0, metadata, profiles);
    let ghost after_bins = target_views(ret@);
    match &custom_build {
        Some(c) => custom_build_target(&mut ret, c, profiles),
        None => {},
    }
    single_targets(&mut ret, TargetKind::Example, examples, metadata, profiles);
    single_targets(&mut ret, TargetKind::Test, tests, metadata, profiles);
    single_targets(&mut ret, TargetKind::Bench, benches, metadata, profiles);
    assert(target_views(ret@) =~= normalize_of(
        toml_target_views(libs@),
        toml_target_views(bins@),
        match custom_build {
            Some(c) => Some(c@),
            None => None,
        },
        toml_target_views(examples@),
        toml_target_views(tests@),
        toml_target_views(benches@),
        metadata@,
        *profiles,
    ));
    ret
}

} // verus!
