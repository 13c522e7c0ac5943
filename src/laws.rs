//! Properties of the compiler that hold for every input.
use vstd::prelude::*;
use crate::compile::targets_of;
use crate::dependency::{
    DependencyKind, DependencyView, DetailedView, SourceIdView, TomlDependency, default_reference, nested_of,
    record_of, reference_of, version_only,
};
use crate::layout::Layout;
use crate::manifest::{TomlManifest, TomlProject};
use crate::normalize::{
    all_bin_targets_of, all_single_targets_of, custom_build_target_of, flag_or, lib_targets_of, linkable_variants,
    normalize_of, target_profiles_of, variants_of,
};
use crate::outside::parsed_url;
use crate::path::join_of;
use crate::profile::{Profile, ProfileKind, TomlProfiles, default_profile, merge_of};
use crate::target::{MetadataView, TargetKind, TargetView, TomlTargetView, strs};

verus! {

/// A library built alongside examples, tests or benchmarks gets a
/// test-profile variant that neither runs tests nor uses the harness, and,
/// unless it opts out of testing, its normal test variant too.
pub proof fn lemma_library_linkable_test_variant(
    libs: Seq<TomlTargetView>,
    bins: Seq<TomlTargetView>,
    custom_build: Option<Seq<char>>,
    examples: Seq<TomlTargetView>,
    tests: Seq<TomlTargetView>,
    benches: Seq<TomlTargetView>,
    meta: MetadataView,
    ps: TomlProfiles,
)
    requires
        libs.len() > 0,
        examples.len() > 0 || tests.len() > 0 || benches.len() > 0,
    ensures
        ({
            let r = normalize_of(libs, bins, custom_build, examples, tests, benches, meta, ps);
            exists|i: int|
                0 <= i < r.len() && r[i].kind == TargetKind::Lib && r[i].name == libs[0].name
                    && r[i].profile.kind == ProfileKind::Test && !r[i].profile.harness && !r[i].profile.test
        }),
        libs[0].test != Some(false) ==> ({
            let r = normalize_of(libs, bins, custom_build, examples, tests, benches, meta, ps);
            exists|i: int|
                0 <= i < r.len() && r[i].kind == TargetKind::Lib && r[i].name == libs[0].name
                    && r[i].profile.kind == ProfileKind::Test && r[i].profile.test
        }),
        ({
            let r = normalize_of(libs, bins, custom_build, examples, tests, benches, meta, ps);
            forall|i: int, j: int|
                0 <= i < r.len() && 0 <= j < r.len() && r[i].kind == TargetKind::Lib && r[j].kind == TargetKind::Lib
                    && r[i].profile.kind == ProfileKind::Test && r[i].profile.test && r[j].profile.kind
                    == ProfileKind::Test && r[j].profile.test ==> i == j
        }),
{
    lemma_one_running_library_test(libs, bins, custom_build, examples, tests, benches, meta, ps);
    let l = libs[0];
    let r = normalize_of(libs, bins, custom_build, examples, tests, benches, meta, ps);
    let lp = lib_targets_of(l, true, meta, ps);
    let profs = target_profiles_of(l, ps, true);
    let s0 = seq![
        crate::profile::merge_of(crate::profile::default_profile(ProfileKind::Dev), ps.dev),
        crate::profile::merge_of(crate::profile::default_profile(ProfileKind::Release), ps.release),
    ];
    let s1 = if crate::normalize::flag_or(l.test, true) {
        s0.push(crate::profile::merge_of(crate::profile::default_profile(ProfileKind::Test), ps.test))
    } else {
        s0
    };
    let doc = crate::profile::Profile {
        doctest: crate::normalize::flag_or(l.doctest, true),
        ..crate::profile::default_profile(ProfileKind::Doc)
    };
    let s2 = if crate::normalize::flag_or(l.doc, true) {
        s1.push(crate::profile::merge_of(doc, ps.doc))
    } else {
        s1
    };
    let s3 = if crate::normalize::flag_or(l.bench, true) {
        s2.push(crate::profile::merge_of(crate::profile::default_profile(ProfileKind::Bench), ps.bench))
    } else {
        s2
    };
    let s4 = s3 + linkable_variants(ps);
    assert(profs == if l.plugin == Some(true) {
        s4.map_values(|p: crate::profile::Profile| crate::profile::Profile { for_host: true, ..p })
    } else {
        s4
    });
    let k = s3.len() as int;
    assert(s4[k] == linkable_variants(ps)[0]);
    assert(profs[k].kind == ProfileKind::Test && !profs[k].harness && !profs[k].test);
    assert(lp[k].profile == profs[k]);
    assert(r[k] == lp[k]);
    if l.test != Some(false) {
        assert(s1[2].kind == ProfileKind::Test && s1[2].test);
        assert(s3[2] == s1[2]);
        assert(profs[2].kind == ProfileKind::Test && profs[2].test);
        assert(lp[2].profile == profs[2]);
        assert(r[2] == lp[2]);
    }
}

proof fn lemma_bins_kind(bs: Seq<TomlTargetView>, with_lib: bool, needed: bool, meta: MetadataView, ps: TomlProfiles)
    ensures
        forall|k: int|
            0 <= k < all_bin_targets_of(bs, with_lib, needed, meta, ps).len() ==> (#[trigger] all_bin_targets_of(
                bs,
                with_lib,
                needed,
                meta,
                ps,
            )[k]).kind == TargetKind::Bin,
    decreases bs.len(),
{
    if bs.len() > 0 {
        let last = bs.last();
        lemma_bins_kind(bs.drop_last(), with_lib, needed, meta, ps);
        let a = all_bin_targets_of(bs.drop_last(), with_lib, needed, meta, ps);
        let b = crate::normalize::bin_targets_of(last, with_lib, needed, meta, ps);
        let path = crate::normalize::or_path(last.path, crate::normalize::bin_default_path(last.name, with_lib));
        lemma_variants_distinct(TargetKind::Bin, last, seq![], path, meta, "bin-"@ + last.name, false, ps, needed);
        assert forall|k: int| 0 <= k < (a + b).len() implies (#[trigger] (a + b)[k]).kind == TargetKind::Bin by {
            if k < a.len() {
                assert((a + b)[k] == a[k]);
            } else {
                assert((a + b)[k] == b[k - a.len()]);
            }
        }
    }
}

/// A library has at most one test variant that runs its tests.
proof fn lemma_one_running_library_test(
    libs: Seq<TomlTargetView>,
    bins: Seq<TomlTargetView>,
    custom_build: Option<Seq<char>>,
    examples: Seq<TomlTargetView>,
    tests: Seq<TomlTargetView>,
    benches: Seq<TomlTargetView>,
    meta: MetadataView,
    ps: TomlProfiles,
)
    ensures
        ({
            let r = normalize_of(libs, bins, custom_build, examples, tests, benches, meta, ps);
            forall|i: int, j: int|
                0 <= i < r.len() && 0 <= j < r.len() && r[i].kind == TargetKind::Lib && r[j].kind == TargetKind::Lib
                    && r[i].profile.kind == ProfileKind::Test && r[i].profile.test && r[j].profile.kind
                    == ProfileKind::Test && r[j].profile.test ==> i == j
        }),
{
    let r = normalize_of(libs, bins, custom_build, examples, tests, benches, meta, ps);
    if libs.len() == 0 && bins.len() == 0 {
        return;
    }
    let needed = examples.len() > 0 || tests.len() > 0 || benches.len() > 0;
    let lp = if libs.len() > 0 {
        lib_targets_of(libs[0], needed, meta, ps)
    } else {
        seq![]
    };
    let bp = all_bin_targets_of(bins, libs.len() > 0, needed && libs.len() == 0, meta, ps);
    lemma_bins_kind(bins, libs.len() > 0, needed && libs.len() == 0, meta, ps);
    let cp: Seq<TargetView> = match custom_build {
        Some(c) => seq![custom_build_target_of(c, ps)],
        None => seq![],
    };
    let rest = bp + cp + all_single_targets_of(TargetKind::Example, examples, meta, ps) + all_single_targets_of(
        TargetKind::Test,
        tests,
        meta,
        ps,
    ) + all_single_targets_of(TargetKind::Bench, benches, meta, ps);
    assert(r =~= lp + rest);
    assert forall|k: int| 0 <= k < rest.len() implies (#[trigger] rest[k]).kind != TargetKind::Lib by {
        let e = all_single_targets_of(TargetKind::Example, examples, meta, ps);
        let te = all_single_targets_of(TargetKind::Test, tests, meta, ps);
        let be = all_single_targets_of(TargetKind::Bench, benches, meta, ps);
        if k < bp.len() {
            assert(rest[k] == bp[k]);
        } else if k < bp.len() + cp.len() {
            assert(rest[k] == cp[k - bp.len()]);
        } else if k < bp.len() + cp.len() + e.len() {
            assert(rest[k] == e[k - bp.len() - cp.len()]);
        } else if k < bp.len() + cp.len() + e.len() + te.len() {
            assert(rest[k] == te[k - bp.len() - cp.len() - e.len()]);
        } else {
            assert(rest[k] == be[k - bp.len() - cp.len() - e.len() - te.len()]);
        }
    }
    if libs.len() > 0 {
        let profs = target_profiles_of(libs[0], ps, needed);
        lemma_profiles_increasing(libs[0], ps, needed);
        assert forall|i: int, j: int|
            0 <= i < r.len() && 0 <= j < r.len() && r[i].kind == TargetKind::Lib && r[j].kind == TargetKind::Lib
                && r[i].profile.kind == ProfileKind::Test && r[i].profile.test && r[j].profile.kind == ProfileKind::Test
                && r[j].profile.test implies i == j by {
            if i >= lp.len() {
                assert(r[i] == rest[i - lp.len()]);
            }
            if j >= lp.len() {
                assert(r[j] == rest[j - lp.len()]);
            }
            if i < lp.len() && j < lp.len() {
                assert(r[i] == lp[i] && r[j] == lp[j]);
                assert(lp[i].profile == profs[i] && lp[j].profile == profs[j]);
                assert(rank(profs[i]) == 2 && rank(profs[j]) == 2);
                if i < j {
                    assert(rank(profs[i]) < rank(profs[j]));
                } else if j < i {
                    assert(rank(profs[j]) < rank(profs[i]));
                }
            }
        }
    } else {
        assert forall|i: int| 0 <= i < r.len() implies (#[trigger] r[i]).kind != TargetKind::Lib by {
            assert(r[i] == rest[i]);
        }
    }
}

/// The record of the registry dependency `name` on version requirement `v`,
/// with every other field at its default.
pub open spec fn registry_record(name: Seq<char>, v: Seq<char>) -> DependencyView {
    DependencyView {
        name,
        version_req: Some(v),
        source_id: SourceIdView::Registry,
        features: seq![],
        default_features: true,
        optional: false,
        kind: DependencyKind::Normal,
        only_for_platform: None,
    }
}

/// A dependency declared as a bare version requirement resolves to the same
/// record as the detailed form with only that version: a normal registry
/// dependency with default features, not optional.
pub proof fn lemma_shorthand_equals_detailed(
    name: Seq<char>,
    bare: TomlDependency,
    detailed: TomlDependency,
    root: Seq<char>,
)
    requires
        bare matches TomlDependency::SimpleDep(v) && detailed matches TomlDependency::DetailedDep(d) && d@
            == version_only(v@),
    ensures
        record_of(name, bare@, root, DependencyKind::Normal, None) == record_of(
            name,
            detailed@,
            root,
            DependencyKind::Normal,
            None,
        ),
        record_of(name, bare@, root, DependencyKind::Normal, None) == Some(
            registry_record(name, bare->SimpleDep_0@),
        ),
{
    assert(record_of(name, bare@, root, DependencyKind::Normal, None)->Some_0.features =~= seq![]);
}

/// A dependency with a local path and no remote resolves to a local source
/// relative to the referencing manifest, and adds its path to the nested
/// paths exactly once.
pub proof fn lemma_path_dependency(
    name: Seq<char>,
    d: DetailedView,
    root: Seq<char>,
    kind: DependencyKind,
    platform: Option<Seq<char>>,
)
    requires
        d.git is None,
        d.path is Some,
    ensures
        record_of(name, d, root, kind, platform) matches Some(r) && r.source_id == (SourceIdView::Path {
            location: join_of(root, d.path->Some_0),
        }),
        nested_of(d) == seq![d.path->Some_0],
{
}

/// A remote dependency checks out its tag when it names a tag and no
/// branch, and the default branch when it names no branch, tag or revision.
pub proof fn lemma_remote_reference(
    name: Seq<char>,
    d: DetailedView,
    root: Seq<char>,
    kind: DependencyKind,
    platform: Option<Seq<char>>,
)
    requires
        d.git is Some,
        parsed_url(d.git->Some_0) is Some,
    ensures
        record_of(name, d, root, kind, platform) matches Some(r) && r.source_id == (SourceIdView::Git {
            url: parsed_url(d.git->Some_0)->Some_0,
            reference: reference_of(d),
        }),
        d.branch is None && d.tag is Some ==> reference_of(d) == d.tag->Some_0,
        d.branch is None && d.tag is None && d.rev is None ==> reference_of(d) == default_reference(),
        nested_of(d) == Seq::<Seq<char>>::empty(),
{
}

/// With no library or binary, declared or found, there is no target; so
/// `to_manifest`, which only succeeds with a target, fails.
pub proof fn lemma_no_sources_no_targets(m: TomlManifest, p: TomlProject, layout: Layout, script_exists: bool)
    requires
        m.lib is None,
        m.bin is None,
        layout.lib is None,
        layout.bins@.len() == 0,
    ensures
        targets_of(m, p, layout, script_exists).len() == 0,
{
    assert(strs(layout.bins@) =~= seq![]);
    assert(crate::compile::bin_descs_of(m, crate::compile::lib_name_of(m, p, layout), layout) =~= seq![]);
}

/// Two targets build the same artifact: same role, name and profile.
pub open spec fn same_identity(a: TargetView, b: TargetView) -> bool {
    a.kind == b.kind && a.name == b.name && a.profile == b.profile
}

/// No two targets of `s` share role, name and profile.
pub open spec fn identities_distinct(s: Seq<TargetView>) -> bool {
    forall|i: int, j: int| 0 <= i < j < s.len() ==> !same_identity(#[trigger] s[i], #[trigger] s[j])
}

/// No two descriptors of `ts` share a name.
pub open spec fn names_distinct(ts: Seq<TomlTargetView>) -> bool {
    forall|i: int, j: int| 0 <= i < j < ts.len() ==> (#[trigger] ts[i]).name != (#[trigger] ts[j]).name
}

/// The position of a profile variant in the fan-out order.
spec fn rank(p: crate::profile::Profile) -> int {
    match p.kind {
        ProfileKind::Dev => 0,
        ProfileKind::Release => 1,
        ProfileKind::Test => if p.test {
            2
        } else {
            5
        },
        ProfileKind::Doc => if p.doc {
            3
        } else {
            6
        },
        ProfileKind::Bench => if p.test {
            4
        } else {
            7
        },
    }
}

spec fn increasing(s: Seq<crate::profile::Profile>) -> bool {
    forall|i: int, j: int| 0 <= i < j < s.len() ==> rank(#[trigger] s[i]) < rank(#[trigger] s[j])
}

spec fn below(s: Seq<crate::profile::Profile>, b: int) -> bool {
    forall|i: int| 0 <= i < s.len() ==> rank(#[trigger] s[i]) < b
}

proof fn lemma_push_increasing(s: Seq<crate::profile::Profile>, x: crate::profile::Profile)
    requires
        increasing(s),
        below(s, rank(x)),
    ensures
        increasing(s.push(x)),
        below(s.push(x), rank(x) + 1),
{
    assert forall|i: int, j: int| 0 <= i < j < s.push(x).len() implies rank(#[trigger] s.push(x)[i]) < rank(
        #[trigger] s.push(x)[j],
    ) by {
        if j < s.len() {
            assert(s.push(x)[i] == s[i] && s.push(x)[j] == s[j]);
        } else {
            assert(s.push(x)[i] == s[i]);
        }
    }
    assert forall|i: int| 0 <= i < s.push(x).len() implies rank(#[trigger] s.push(x)[i]) < rank(x) + 1 by {
        if i < s.len() {
            assert(s.push(x)[i] == s[i]);
        }
    }
}

proof fn lemma_below_weaken(s: Seq<crate::profile::Profile>, a: int, b: int)
    requires
        below(s, a),
        a <= b,
    ensures
        below(s, b),
{
}

/// The profile variants of one descriptor are pairwise different.
proof fn lemma_profiles_increasing(t: TomlTargetView, ps: TomlProfiles, needed: bool)
    ensures
        increasing(target_profiles_of(t, ps, needed)),
{
    let e: Seq<Profile> = seq![];
    let d0 = merge_of(default_profile(ProfileKind::Dev), ps.dev);
    let r0 = merge_of(default_profile(ProfileKind::Release), ps.release);
    lemma_push_increasing(e, d0);
    assert(e.push(d0).push(r0) =~= seq![d0, r0]);
    lemma_push_increasing(e.push(d0), r0);
    let s0 = seq![d0, r0];
    let tv = merge_of(default_profile(ProfileKind::Test), ps.test);
    let s1 = if flag_or(t.test, true) {
        s0.push(tv)
    } else {
        s0
    };
    if flag_or(t.test, true) {
        lemma_push_increasing(s0, tv);
    } else {
        lemma_below_weaken(s0, 2, 3);
    }
    let doc = Profile { doctest: flag_or(t.doctest, true), ..default_profile(ProfileKind::Doc) };
    let dv = merge_of(doc, ps.doc);
    let s2 = if flag_or(t.doc, true) {
        s1.push(dv)
    } else {
        s1
    };
    if flag_or(t.doc, true) {
        lemma_push_increasing(s1, dv);
    } else {
        lemma_below_weaken(s1, 3, 4);
    }
    let bv = merge_of(default_profile(ProfileKind::Bench), ps.bench);
    let s3 = if flag_or(t.bench, true) {
        s2.push(bv)
    } else {
        s2
    };
    if flag_or(t.bench, true) {
        lemma_push_increasing(s2, bv);
    } else {
        lemma_below_weaken(s2, 4, 5);
    }
    let lv = linkable_variants(ps);
    let s4 = if needed {
        s3 + lv
    } else {
        s3
    };
    if needed {
        lemma_push_increasing(s3, lv[0]);
        lemma_push_increasing(s3.push(lv[0]), lv[1]);
        lemma_push_increasing(s3.push(lv[0]).push(lv[1]), lv[2]);
        assert(s3 + lv =~= s3.push(lv[0]).push(lv[1]).push(lv[2]));
    }
    assert(increasing(s4));
    if t.plugin == Some(true) {
        let m = s4.map_values(|p: Profile| Profile { for_host: true, ..p });
        assert forall|i: int, j: int| 0 <= i < j < m.len() implies rank(#[trigger] m[i]) < rank(#[trigger] m[j]) by {
            assert(rank(m[i]) == rank(s4[i]) && rank(m[j]) == rank(s4[j]));
        }
    }
}

proof fn lemma_concat_distinct(a: Seq<TargetView>, b: Seq<TargetView>)
    requires
        identities_distinct(a),
        identities_distinct(b),
        forall|i: int, j: int| 0 <= i < a.len() && 0 <= j < b.len() ==> !same_identity(#[trigger] a[i], #[trigger] b[j]),
    ensures
        identities_distinct(a + b),
{
    let c = a + b;
    assert forall|i: int, j: int| 0 <= i < j < c.len() implies !same_identity(#[trigger] c[i], #[trigger] c[j]) by {
        if j < a.len() {
            assert(c[i] == a[i] && c[j] == a[j]);
        } else if i < a.len() {
            assert(c[i] == a[i] && c[j] == b[j - a.len()]);
        } else {
            assert(c[i] == b[i - a.len()] && c[j] == b[j - a.len()]);
        }
    }
}

proof fn lemma_variants_distinct(
    kind: TargetKind,
    t: TomlTargetView,
    cts: Seq<crate::target::LibKind>,
    path: Seq<char>,
    meta: MetadataView,
    tag: Seq<char>,
    keep: bool,
    ps: TomlProfiles,
    needed: bool,
)
    ensures
        identities_distinct(variants_of(kind, t, cts, path, meta, tag, keep, target_profiles_of(t, ps, needed))),
        forall|k: int|
            0 <= k < variants_of(kind, t, cts, path, meta, tag, keep, target_profiles_of(t, ps, needed)).len()
                ==> (#[trigger] variants_of(kind, t, cts, path, meta, tag, keep, target_profiles_of(t, ps, needed))[k]).kind
                == kind && variants_of(kind, t, cts, path, meta, tag, keep, target_profiles_of(t, ps, needed))[k].name
                == t.name,
{
    let profs = target_profiles_of(t, ps, needed);
    let v = variants_of(kind, t, cts, path, meta, tag, keep, profs);
    lemma_profiles_increasing(t, ps, needed);
    assert forall|i: int, j: int| 0 <= i < j < v.len() implies !same_identity(#[trigger] v[i], #[trigger] v[j]) by {
        assert(v[i].profile == profs[i] && v[j].profile == profs[j]);
        assert(rank(profs[i]) < rank(profs[j]));
    }
}

proof fn lemma_bins_distinct(
    bs: Seq<TomlTargetView>,
    with_lib: bool,
    needed: bool,
    meta: MetadataView,
    ps: TomlProfiles,
)
    requires
        names_distinct(bs),
    ensures
        identities_distinct(crate::normalize::all_bin_targets_of(bs, with_lib, needed, meta, ps)),
        forall|k: int|
            0 <= k < crate::normalize::all_bin_targets_of(bs, with_lib, needed, meta, ps).len() ==> (#[trigger] crate::normalize::all_bin_targets_of(
                bs,
                with_lib,
                needed,
                meta,
                ps,
            )[k]).kind == TargetKind::Bin && exists|m: int|
                0 <= m < bs.len() && crate::normalize::all_bin_targets_of(bs, with_lib, needed, meta, ps)[k].name
                    == bs[m].name,
    decreases bs.len(),
{
    let all = crate::normalize::all_bin_targets_of(bs, with_lib, needed, meta, ps);
    if bs.len() > 0 {
        let init = bs.drop_last();
        let last = bs.last();
        assert(names_distinct(init)) by {
            assert forall|i: int, j: int| 0 <= i < j < init.len() implies (#[trigger] init[i]).name != (
            #[trigger] init[j]).name by {
                assert(init[i] == bs[i] && init[j] == bs[j]);
            }
        }
        lemma_bins_distinct(init, with_lib, needed, meta, ps);
        let a = crate::normalize::all_bin_targets_of(init, with_lib, needed, meta, ps);
        let b = crate::normalize::bin_targets_of(last, with_lib, needed, meta, ps);
        let path = crate::normalize::or_path(last.path, crate::normalize::bin_default_path(last.name, with_lib));
        lemma_variants_distinct(TargetKind::Bin, last, seq![], path, meta, "bin-"@ + last.name, false, ps, needed);
        assert forall|i: int, j: int| 0 <= i < a.len() && 0 <= j < b.len() implies !same_identity(
            #[trigger] a[i],
            #[trigger] b[j],
        ) by {
            let m = choose|m: int| 0 <= m < init.len() && a[i].name == init[m].name;
            assert(init[m] == bs[m]);
            assert(b[j].name == bs[bs.len() - 1].name);
        }
        lemma_concat_distinct(a, b);
        assert(all == a + b);
        assert forall|k: int| 0 <= k < all.len() implies (#[trigger] all[k]).kind == TargetKind::Bin && exists|m: int|
            0 <= m < bs.len() && all[k].name == bs[m].name by {
            if k < a.len() {
                assert(all[k] == a[k]);
                let m = choose|m: int| 0 <= m < init.len() && a[k].name == init[m].name;
                assert(init[m] == bs[m]);
            } else {
                assert(all[k] == b[k - a.len()]);
                assert(all[k].name == bs[bs.len() - 1].name);
            }
        }
    }
}

proof fn lemma_singles_distinct(kind: TargetKind, ts: Seq<TomlTargetView>, meta: MetadataView, ps: TomlProfiles)
    requires
        names_distinct(ts),
    ensures
        identities_distinct(crate::normalize::all_single_targets_of(kind, ts, meta, ps)),
        forall|k: int|
            0 <= k < crate::normalize::all_single_targets_of(kind, ts, meta, ps).len() ==> (#[trigger] crate::normalize::all_single_targets_of(
                kind,
                ts,
                meta,
                ps,
            )[k]).kind == kind,
{
    let s = crate::normalize::all_single_targets_of(kind, ts, meta, ps);
    assert forall|i: int, j: int| 0 <= i < j < s.len() implies !same_identity(#[trigger] s[i], #[trigger] s[j]) by {
        assert(s[i].name == ts[i].name && s[j].name == ts[j].name);
    }
}

/// Whatever the profile overrides, no two targets share role, name and
/// profile, provided descriptors of the same role have distinct names.
pub proof fn lemma_target_identities_unique(
    libs: Seq<TomlTargetView>,
    bins: Seq<TomlTargetView>,
    custom_build: Option<Seq<char>>,
    examples: Seq<TomlTargetView>,
    tests: Seq<TomlTargetView>,
    benches: Seq<TomlTargetView>,
    meta: MetadataView,
    ps: TomlProfiles,
)
    requires
        names_distinct(bins),
        names_distinct(examples),
        names_distinct(tests),
        names_distinct(benches),
    ensures
        identities_distinct(normalize_of(libs, bins, custom_build, examples, tests, benches, meta, ps)),
{
    let needed = examples.len() > 0 || tests.len() > 0 || benches.len() > 0;
    let lp = if libs.len() > 0 {
        lib_targets_of(libs[0], needed, meta, ps)
    } else {
        seq![]
    };
    if libs.len() > 0 {
        let l = libs[0];
        let path = crate::normalize::or_path(l.path, "src/"@ + l.name + ".rs"@);
        lemma_variants_distinct(
            TargetKind::Lib,
            l,
            crate::normalize::crate_types_of(l),
            path,
            meta,
            "test"@,
            true,
            ps,
            needed,
        );
    }
    if libs.len() == 0 && bins.len() == 0 {
        return;
    }
    let bn = needed && libs.len() == 0;
    let bp = all_bin_targets_of(bins, libs.len() > 0, bn, meta, ps);
    lemma_bins_distinct(bins, libs.len() > 0, bn, meta, ps);
    let cp: Seq<TargetView> = match custom_build {
        Some(c) => seq![custom_build_target_of(c, ps)],
        None => seq![],
    };
    let ep = all_single_targets_of(TargetKind::Example, examples, meta, ps);
    let tp = all_single_targets_of(TargetKind::Test, tests, meta, ps);
    let np = all_single_targets_of(TargetKind::Bench, benches, meta, ps);
    lemma_singles_distinct(TargetKind::Example, examples, meta, ps);
    lemma_singles_distinct(TargetKind::Test, tests, meta, ps);
    lemma_singles_distinct(TargetKind::Bench, benches, meta, ps);
    lemma_concat_distinct(lp, bp);
    let a1 = lp + bp;
    lemma_concat_distinct(a1, cp);
    let a2 = a1 + cp;
    assert forall|i: int, j: int| 0 <= i < a2.len() && 0 <= j < ep.len() implies !same_identity(
        #[trigger] a2[i],
        #[trigger] ep[j],
    ) by {
        if i < lp.len() {
            assert(a2[i] == lp[i]);
        } else if i < a1.len() {
            assert(a2[i] == bp[i - lp.len()]);
        } else {
            assert(a2[i] == cp[i - a1.len()]);
        }
    }
    lemma_concat_distinct(a2, ep);
    let a3 = a2 + ep;
    assert forall|i: int, j: int| 0 <= i < a3.len() && 0 <= j < tp.len() implies !same_identity(
        #[trigger] a3[i],
        #[trigger] tp[j],
    ) by {
        if i < a2.len() {
            assert(a3[i] == a2[i]);
            if i < lp.len() {
                assert(a2[i] == lp[i]);
            } else if i < a1.len() {
                assert(a2[i] == bp[i - lp.len()]);
            } else {
                assert(a2[i] == cp[i - a1.len()]);
            }
        } else {
            assert(a3[i] == ep[i - a2.len()]);
        }
    }
    lemma_concat_distinct(a3, tp);
    let a4 = a3 + tp;
    assert forall|i: int, j: int| 0 <= i < a4.len() && 0 <= j < np.len() implies !same_identity(
        #[trigger] a4[i],
        #[trigger] np[j],
    ) by {
        if i < a3.len() {
            assert(a4[i] == a3[i]);
            if i < a2.len() {
                assert(a3[i] == a2[i]);
                if i < lp.len() {
                    assert(a2[i] == lp[i]);
                } else if i < a1.len() {
                    assert(a2[i] == bp[i - lp.len()]);
                } else {
                    assert(a2[i] == cp[i - a1.len()]);
                }
            } else {
                assert(a3[i] == ep[i - a2.len()]);
            }
        } else {
            assert(a4[i] == tp[i - a3.len()]);
        }
    }
    lemma_concat_distinct(a4, np);
    assert(normalize_of(libs, bins, custom_build, examples, tests, benches, meta, ps) == a4 + np);
}

} // verus!
