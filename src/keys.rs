//! The keys a manifest may hold, and the warnings for those it should not.
use vstd::prelude::*;
use crate::config::{
    ConfigValue, KeySchema, add_unknown_keys, add_unused_keys, extend_key, holds_table, is_table_of, lemma_leaf_in_entry,
    lemma_schema_lookup_member, lemma_unknown_in_entry,
    lemma_unknown_field_reported, leaf_paths, schema_lookup, unknown_paths, unused_warning, unused_warnings,
};
use crate::path::str_eq;
use crate::target::strs;

verus! {

/// The top-level keys of a manifest.
pub open spec fn is_manifest_key(k: Seq<char>) -> bool {
    k == "package"@ || k == "project"@ || k == "profile"@ || k == "lib"@ || k == "bin"@ || k == "example"@
        || k == "test"@ || k == "bench"@ || k == "dependencies"@ || k == "dev-dependencies"@
        || k == "dev_dependencies"@ || k == "build-dependencies"@ || k == "build_dependencies"@
        || k == "features"@ || k == "target"@
}

/// The fields the package section's decoder reads.
pub open spec fn is_package_field(k: Seq<char>) -> bool {
    k == "name"@ || k == "version"@ || k == "authors"@ || k == "build"@ || k == "links"@ || k == "exclude"@
        || k == "description"@ || k == "homepage"@ || k == "documentation"@ || k == "readme"@ || k == "keywords"@
        || k == "license"@ || k == "repository"@
}

/// The fields a target descriptor's decoder reads.
pub open spec fn is_target_field(k: Seq<char>) -> bool {
    k == "name"@ || k == "crate-type"@ || k == "crate_type"@ || k == "path"@ || k == "test"@ || k == "doctest"@
        || k == "bench"@ || k == "doc"@ || k == "plugin"@ || k == "harness"@
}


/// `o` is a table schema with package fields only.
pub open spec fn package_schema(o: Option<KeySchema>) -> bool {
    match o {
        Some(KeySchema::Fields(fs)) => forall|i: int| 0 <= i < fs@.len() ==> is_package_field(#[trigger] fs@[i].0@),
        _ => false,
    }
}

/// `o` is a table schema with target fields only.
pub open spec fn target_schema_of(o: Option<KeySchema>) -> bool {
    match o {
        Some(KeySchema::Fields(fs)) => forall|i: int| 0 <= i < fs@.len() ==> is_target_field(#[trigger] fs@[i].0@),
        _ => false,
    }
}

/// `b` begins with `a`.
pub open spec fn is_prefix(a: Seq<Seq<char>>, b: Seq<Seq<char>>) -> bool {
    a.len() <= b.len() && b.take(a.len() as int) == a
}

proof fn lemma_prefix_contains(a: Seq<Seq<char>>, b: Seq<Seq<char>>, x: Seq<char>)
    requires
        is_prefix(a, b),
        a.contains(x),
    ensures
        b.contains(x),
{
    let i = choose|i: int| 0 <= i < a.len() && a[i] == x;
    assert(b.take(a.len() as int)[i] == b[i]);
}

/// The fields a dependency table's decoder reads.
pub open spec fn is_dependency_field(k: Seq<char>) -> bool {
    k == "version"@ || k == "path"@ || k == "git"@ || k == "branch"@ || k == "tag"@ || k == "rev"@
        || k == "features"@ || k == "optional"@ || k == "default-features"@ || k == "default_features"@
}

/// The profile kinds the profile section's decoder reads.
pub open spec fn is_profile_kind(k: Seq<char>) -> bool {
    k == "test"@ || k == "doc"@ || k == "bench"@ || k == "dev"@ || k == "release"@
}

/// The fields a profile's decoder reads.
pub open spec fn is_profile_field(k: Seq<char>) -> bool {
    k == "opt-level"@ || k == "opt_level"@ || k == "codegen-units"@ || k == "codegen_units"@ || k == "debug"@
        || k == "rpath"@
}

/// The top-level sections of dependencies.
pub open spec fn is_dependency_section(k: Seq<char>) -> bool {
    k == "dependencies"@ || k == "dev-dependencies"@ || k == "dev_dependencies"@ || k == "build-dependencies"@
        || k == "build_dependencies"@
}

pub open spec fn dependency_fields_schema(sc: KeySchema) -> bool {
    match sc {
        KeySchema::Fields(fs) => forall|i: int| 0 <= i < fs@.len() ==> is_dependency_field(#[trigger] fs@[i].0@),
        _ => false,
    }
}

pub open spec fn profile_fields_schema(sc: KeySchema) -> bool {
    match sc {
        KeySchema::Fields(fs) => forall|i: int| 0 <= i < fs@.len() ==> is_profile_field(#[trigger] fs@[i].0@),
        _ => false,
    }
}

/// `o` takes a table of dependencies, each with dependency fields only.
pub open spec fn dependency_section_schema(o: Option<KeySchema>) -> bool {
    match o {
        Some(KeySchema::Entries(b)) => dependency_fields_schema(*b),
        _ => false,
    }
}

/// `o` takes profile kinds, each with profile fields only.
pub open spec fn profile_section_schema(o: Option<KeySchema>) -> bool {
    match o {
        Some(KeySchema::Fields(fs)) => forall|i: int|
            0 <= i < fs@.len() ==> is_profile_kind(#[trigger] fs@[i].0@) && profile_fields_schema(fs@[i].1),
        _ => false,
    }
}

/// Every leaf under a field that no dependency decoder reads, in the
/// dependency sections among the first `n` entries of `t`, is warned of.
pub open spec fn reports_unknown_dependency_fields(t: Seq<(String, ConfigValue)>, w: Seq<Seq<char>>, n: int) -> bool {
    forall|i: int, dt: Seq<(String, ConfigValue)>, j: int, ft: Seq<(String, ConfigValue)>, l: int, p: Seq<char>|
        0 <= i < n && is_dependency_section(t[i].0@) && is_table_of(t[i].1, dt) && 0 <= j < dt.len() && is_table_of(
            dt[j].1,
            ft,
        ) && 0 <= l < ft.len() && !is_dependency_field(ft[l].0@) && #[trigger] leaf_paths(
            ft[l].1,
            extend_key(extend_key(t[i].0@, dt[j].0@), ft[l].0@),
        ).contains(p) ==> w.contains(unused_warning(p))
}

/// Every leaf under a key of the profile section that is no profile kind,
/// or under a field of a profile that its decoder does not read, among the
/// first `n` entries of `t`, is warned of.
pub open spec fn reports_unknown_profile_keys(t: Seq<(String, ConfigValue)>, w: Seq<Seq<char>>, n: int) -> bool {
    &&& forall|i: int, pt: Seq<(String, ConfigValue)>, j: int, p: Seq<char>|
        0 <= i < n && t[i].0@ == "profile"@ && is_table_of(t[i].1, pt) && 0 <= j < pt.len() && !is_profile_kind(
            pt[j].0@,
        ) && #[trigger] leaf_paths(pt[j].1, extend_key(t[i].0@, pt[j].0@)).contains(p) ==> w.contains(
            unused_warning(p),
        )
    &&& forall|i: int, pt: Seq<(String, ConfigValue)>, j: int, kt: Seq<(String, ConfigValue)>, l: int, p: Seq<char>|
        0 <= i < n && t[i].0@ == "profile"@ && is_table_of(t[i].1, pt) && 0 <= j < pt.len() && is_table_of(
            pt[j].1,
            kt,
        ) && 0 <= l < kt.len() && !is_profile_field(kt[l].0@) && #[trigger] leaf_paths(
            kt[l].1,
            extend_key(extend_key(t[i].0@, pt[j].0@), kt[l].0@),
        ).contains(p) ==> w.contains(unused_warning(p))
}

/// `o` takes platforms, each with a dependency section only.
pub open spec fn target_section_schema(o: Option<KeySchema>) -> bool {
    match o {
        Some(KeySchema::Entries(b)) => match *b {
            KeySchema::Fields(fs) => forall|i: int|
                0 <= i < fs@.len() ==> (#[trigger] fs@[i]).0@ == "dependencies"@ && dependency_section_schema(
                    Some(fs@[i].1),
                ),
            _ => false,
        },
        _ => false,
    }
}

/// Every leaf under a key of a platform table other than its dependencies,
/// or under a field of a platform's dependency that no decoder reads, among
/// the first `n` entries of `t`, is warned of.
pub open spec fn reports_unknown_platform_keys(t: Seq<(String, ConfigValue)>, w: Seq<Seq<char>>, n: int) -> bool {
    &&& forall|i: int, pt: Seq<(String, ConfigValue)>, j: int, qt: Seq<(String, ConfigValue)>, l: int, p: Seq<char>|
        0 <= i < n && t[i].0@ == "target"@ && is_table_of(t[i].1, pt) && 0 <= j < pt.len() && is_table_of(
            pt[j].1,
            qt,
        ) && 0 <= l < qt.len() && qt[l].0@ != "dependencies"@ && #[trigger] leaf_paths(
            qt[l].1,
            extend_key(extend_key(t[i].0@, pt[j].0@), qt[l].0@),
        ).contains(p) ==> w.contains(unused_warning(p))
    &&& forall|
        i: int,
        pt: Seq<(String, ConfigValue)>,
        j: int,
        qt: Seq<(String, ConfigValue)>,
        l: int,
        dt: Seq<(String, ConfigValue)>,
        m: int,
        ft: Seq<(String, ConfigValue)>,
        q: int,
        p: Seq<char>,
    |
        0 <= i < n && t[i].0@ == "target"@ && is_table_of(t[i].1, pt) && 0 <= j < pt.len() && is_table_of(
            pt[j].1,
            qt,
        ) && 0 <= l < qt.len() && qt[l].0@ == "dependencies"@ && is_table_of(qt[l].1, dt) && 0 <= m < dt.len()
            && is_table_of(dt[m].1, ft) && 0 <= q < ft.len() && !is_dependency_field(ft[q].0@) && #[trigger] leaf_paths(
            ft[q].1,
            extend_key(extend_key(extend_key(extend_key(t[i].0@, pt[j].0@), qt[l].0@), dt[m].0@), ft[q].0@),
        ).contains(p) ==> w.contains(unused_warning(p))
}

/// `w` is an unused-key warning.
pub open spec fn is_unused_warning(w: Seq<char>) -> bool {
    exists|k: Seq<char>| w == unused_warning(k)
}

/// Every warning of `w` from position `n` on is an unused-key warning.
pub open spec fn appends_unused_only(n: int, w: Seq<Seq<char>>) -> bool {
    forall|j: int| n <= j < w.len() ==> is_unused_warning(#[trigger] w[j])
}

proof fn lemma_reported(before: Seq<Seq<char>>, x: Seq<Seq<char>>, p: Seq<char>)
    requires
        x.contains(p),
    ensures
        (before + x.map_values(|q: Seq<char>| unused_warning(q))).contains(unused_warning(p)),
{
    let m = choose|m: int| 0 <= m < x.len() && x[m] == p;
    assert((before + x.map_values(|q: Seq<char>| unused_warning(q)))[before.len() + m] == unused_warning(p));
}

proof fn lemma_appended_unused(n: int, before: Seq<Seq<char>>, x: Seq<Seq<char>>)
    requires
        0 <= n <= before.len(),
        appends_unused_only(n, before),
    ensures
        appends_unused_only(n, before + x.map_values(|p: Seq<char>| unused_warning(p))),
{
    let after = before + x.map_values(|p: Seq<char>| unused_warning(p));
    assert forall|j: int| n <= j < after.len() implies is_unused_warning(#[trigger] after[j]) by {
        if j < before.len() {
            assert(after[j] == before[j]);
        } else {
            assert(after[j] == unused_warning(x[j - before.len()]));
        }
    }
}

/// The sections whose tables hold named fields.
pub open spec fn is_fielded_section(k: Seq<char>) -> bool {
    k == "package"@ || k == "project"@ || k == "lib"@ || k == "bin"@ || k == "example"@ || k == "test"@
        || k == "bench"@
}

/// Whether the decoder of the section under `k` reads the field `f`.
pub open spec fn field_accepted(k: Seq<char>, f: Seq<char>) -> bool {
    if k == "package"@ || k == "project"@ {
        is_package_field(f)
    } else {
        is_target_field(f)
    }
}

/// Every leaf under a field that its section's decoder does not read, in
/// the sections among the first `n` entries of `t`, has its warning in `w`.
pub open spec fn reports_unknown_fields(t: Seq<(String, ConfigValue)>, w: Seq<Seq<char>>, n: int) -> bool {
    forall|i: int, tbl: Seq<(String, ConfigValue)>, j: int, p: Seq<char>|
        0 <= i < n && is_fielded_section(t[i].0@) && holds_table(t[i].1, tbl) && 0 <= j < tbl.len()
            && !field_accepted(t[i].0@, tbl[j].0@) && #[trigger] leaf_paths(
            tbl[j].1,
            extend_key(t[i].0@, tbl[j].0@),
        ).contains(p) ==> w.contains(unused_warning(p))
}

/// Every leaf under a top-level key that is no manifest key, among the
/// first `n` entries of `t`, has its warning in `w`.
pub open spec fn reports_unknown(t: Seq<(String, ConfigValue)>, w: Seq<Seq<char>>, n: int) -> bool {
    forall|j: int, p: Seq<char>|
        0 <= j < n && !is_manifest_key(t[j].0@) && #[trigger] leaf_paths(t[j].1, t[j].0@).contains(p)
            ==> w.contains(unused_warning(p))
}

fn leaf() -> KeySchema {
    KeySchema::Leaf
}

fn target_schema() -> (r: KeySchema)
    ensures
        target_schema_of(Some(r)),
{
    KeySchema::Fields(
        vec![
            ("name", leaf()),
            ("crate-type", leaf()),
            ("crate_type", leaf()),
            ("path", leaf()),
            ("test", leaf()),
            ("doctest", leaf()),
            ("bench", leaf()),
            ("doc", leaf()),
            ("plugin", leaf()),
            ("harness", leaf()),
        ],
    )
}

fn project_schema() -> (r: KeySchema)
    ensures
        package_schema(Some(r)),
{
    KeySchema::Fields(
        vec![
            ("name", leaf()),
            ("version", leaf()),
            ("authors", leaf()),
            ("build", leaf()),
            ("links", leaf()),
            ("exclude", leaf()),
            ("description", leaf()),
            ("homepage", leaf()),
            ("documentation", leaf()),
            ("readme", leaf()),
            ("keywords", leaf()),
            ("license", leaf()),
            ("repository", leaf()),
        ],
    )
}

fn profile_schema() -> (r: KeySchema)
    ensures
        profile_fields_schema(r),
{
    KeySchema::Fields(
        vec![
            ("opt-level", leaf()),
            ("opt_level", leaf()),
            ("codegen-units", leaf()),
            ("codegen_units", leaf()),
            ("debug", leaf()),
            ("rpath", leaf()),
        ],
    )
}

fn dependency_schema() -> (r: KeySchema)
    ensures
        dependency_section_schema(Some(r)),
{
    KeySchema::Entries(
        Box::new(
            KeySchema::Fields(
                vec![
                    ("version", leaf()),
                    ("path", leaf()),
                    ("git", leaf()),
                    ("branch", leaf()),
                    ("tag", leaf()),
                    ("rev", leaf()),
                    ("features", leaf()),
                    ("optional", leaf()),
                    ("default-features", leaf()),
                    ("default_features", leaf()),
                ],
            ),
        ),
    )
}

/// The shape of the section under a top-level key, if it is one.
fn section_schema(k: &str) -> (r: Option<KeySchema>)
    ensures
        r is Some <==> is_manifest_key(k@),
        (k@ == "package"@ || k@ == "project"@) ==> package_schema(r),
        (k@ == "lib"@ || k@ == "bin"@ || k@ == "example"@ || k@ == "test"@ || k@ == "bench"@) ==> target_schema_of(r),
        is_dependency_section(k@) ==> dependency_section_schema(r),
        k@ == "profile"@ ==> profile_section_schema(r),
        k@ == "target"@ ==> target_section_schema(r),
{
    proof {
        reveal_strlit("package");
        reveal_strlit("project");
        reveal_strlit("profile");
        reveal_strlit("lib");
        reveal_strlit("bin");
        reveal_strlit("example");
        reveal_strlit("test");
        reveal_strlit("bench");
        assert("test"@.len() == 4 && "profile"@.len() == 7 && "package"@.len() == 7 && "project"@.len() == 7);
        assert("lib"@.len() == 3 && "bin"@.len() == 3 && "bench"@.len() == 5 && "example"@.len() == 7);
        assert("example"@[0] != "profile"@[0] && "example"@[0] != "package"@[0] && "example"@[0] != "project"@[0]);
        assert("profile"@[1] != "package"@[1] && "profile"@[3] != "project"@[3]);
        reveal_strlit("target");
        reveal_strlit("features");
        assert("target"@.len() == 6 && "features"@.len() == 8);
        reveal_strlit("dependencies");
        reveal_strlit("dev-dependencies");
        reveal_strlit("dev_dependencies");
        reveal_strlit("build-dependencies");
        reveal_strlit("build_dependencies");
        assert("dependencies"@.len() == 12 && "dev-dependencies"@.len() == 16 && "dev_dependencies"@.len() == 16);
        assert("build-dependencies"@.len() == 18 && "build_dependencies"@.len() == 18);
    }
    if str_eq(k, "package") || str_eq(k, "project") {
        Some(project_schema())
    } else if str_eq(k, "profile") {
        let mut fs: Vec<(&'static str, KeySchema)> = Vec::new();
        fs.push(("test", profile_schema()));
        fs.push(("doc", profile_schema()));
        fs.push(("bench", profile_schema()));
        fs.push(("dev", profile_schema()));
        fs.push(("release", profile_schema()));
        assert forall|i: int| 0 <= i < fs@.len() implies is_profile_kind(#[trigger] fs@[i].0@) && profile_fields_schema(
            fs@[i].1,
        ) by {
            assert(0 <= i < 5);
        }
        Some(KeySchema::Fields(fs))
    } else if str_eq(k, "lib") || str_eq(k, "bin") || str_eq(k, "example") || str_eq(k, "test") || str_eq(
        k,
        "bench",
    ) {
        Some(target_schema())
    } else if str_eq(k, "dependencies") || str_eq(k, "dev-dependencies") || str_eq(k, "dev_dependencies")
        || str_eq(k, "build-dependencies") || str_eq(k, "build_dependencies") {
        Some(dependency_schema())
    } else if str_eq(k, "features") {
        Some(KeySchema::Entries(Box::new(leaf())))
    } else if str_eq(k, "target") {
        let mut fs: Vec<(&'static str, KeySchema)> = Vec::new();
        fs.push(("dependencies", dependency_schema()));
        assert forall|i: int| 0 <= i < fs@.len() implies (#[trigger] fs@[i]).0@ == "dependencies"@
            && dependency_section_schema(Some(fs@[i].1)) by {
            assert(i == 0);
        }
        Some(KeySchema::Entries(Box::new(KeySchema::Fields(fs))))
    } else {
        None
    }
}

/// Appends a warning for every key of the root table `t` that no
/// descriptor field accepts: every leaf under an unknown top-level key,
/// and the unknown keys inside known sections.
pub fn add_manifest_unknown_keys(warnings: &mut Vec<String>, t: &Vec<(String, ConfigValue)>)
    ensures
        is_prefix(strs(old(warnings)@), strs(final(warnings)@)),
        reports_unknown(t@, strs(final(warnings)@), t@.len() as int),
        reports_unknown_fields(t@, strs(final(warnings)@), t@.len() as int),
        appends_unused_only(strs(old(warnings)@).len() as int, strs(final(warnings)@)),
        reports_unknown_dependency_fields(t@, strs(final(warnings)@), t@.len() as int),
        reports_unknown_profile_keys(t@, strs(final(warnings)@), t@.len() as int),
        reports_unknown_platform_keys(t@, strs(final(warnings)@), t@.len() as int),
{
    let ghost w0 = strs(warnings@);
    let mut i: usize = 0;
    assert(strs(warnings@).take(w0.len() as int) =~= w0);
    while i < t.len()
        invariant
            i <= t@.len(),
            is_prefix(w0, strs(warnings@)),
            reports_unknown(t@, strs(warnings@), i as int),
            reports_unknown_fields(t@, strs(warnings@), i as int),
            appends_unused_only(w0.len() as int, strs(warnings@)),
            reports_unknown_dependency_fields(t@, strs(warnings@), i as int),
            reports_unknown_profile_keys(t@, strs(warnings@), i as int),
            reports_unknown_platform_keys(t@, strs(warnings@), i as int),
        decreases t@.len() - i,
    {
        let ghost before = strs(warnings@);
        let k = t[i].0.clone();
        match section_schema(t[i].0.as_str()) {
            Some(s) => {
                add_unknown_keys(warnings, &t[i].1, &s, &k);
                let ghost after = strs(warnings@);
                proof { lemma_appended_unused(w0.len() as int, before, unknown_paths(t@[i as int].1, s, k@)); }
                assert forall|tbl: Seq<(String, ConfigValue)>, j: int, p: Seq<char>|
                    is_fielded_section(t@[i as int].0@) && holds_table(t@[i as int].1, tbl) && 0 <= j < tbl.len()
                        && !field_accepted(t@[i as int].0@, tbl[j].0@) && #[trigger] leaf_paths(
                        tbl[j].1,
                        extend_key(t@[i as int].0@, tbl[j].0@),
                    ).contains(p) implies after.contains(unused_warning(p)) by {
                    if let KeySchema::Fields(fs) = s {
                        if schema_lookup(fs@, tbl[j].0@) is Some {
                            lemma_schema_lookup_member(fs@, tbl[j].0@);
                        }
                    }
                    lemma_unknown_field_reported(t@[i as int].1, s, k@, tbl, j, p);
                    let u = unknown_paths(t@[i as int].1, s, k@);
                    let m = choose|m: int| 0 <= m < u.len() && u[m] == p;
                    assert(after[before.len() + m] == unused_warning(p));
                }
                let ghost u = unknown_paths(t@[i as int].1, s, k@);
                assert forall|dt: Seq<(String, ConfigValue)>, j: int, ft: Seq<(String, ConfigValue)>, l: int, p: Seq<char>|
                    is_dependency_section(t@[i as int].0@) && is_table_of(t@[i as int].1, dt) && 0 <= j < dt.len()
                        && is_table_of(dt[j].1, ft) && 0 <= l < ft.len() && !is_dependency_field(ft[l].0@)
                        && #[trigger] leaf_paths(ft[l].1, extend_key(extend_key(t@[i as int].0@, dt[j].0@), ft[l].0@)).contains(
                        p,
                    ) implies after.contains(unused_warning(p)) by {
                    if let KeySchema::Entries(b) = s {
                        if let KeySchema::Fields(fs) = *b {
                            if schema_lookup(fs@, ft[l].0@) is Some {
                                lemma_schema_lookup_member(fs@, ft[l].0@);
                            }
                            lemma_unknown_in_entry(dt[j].1, *b, extend_key(k@, dt[j].0@), l, p);
                        }
                        lemma_unknown_in_entry(t@[i as int].1, s, k@, j, p);
                    }
                    lemma_reported(before, u, p);
                }
                assert forall|pt: Seq<(String, ConfigValue)>, j: int, p: Seq<char>|
                    t@[i as int].0@ == "profile"@ && is_table_of(t@[i as int].1, pt) && 0 <= j < pt.len()
                        && !is_profile_kind(pt[j].0@) && #[trigger] leaf_paths(
                        pt[j].1,
                        extend_key(t@[i as int].0@, pt[j].0@),
                    ).contains(p) implies after.contains(unused_warning(p)) by {
                    if let KeySchema::Fields(fs) = s {
                        if schema_lookup(fs@, pt[j].0@) is Some {
                            lemma_schema_lookup_member(fs@, pt[j].0@);
                        }
                    }
                    lemma_unknown_in_entry(t@[i as int].1, s, k@, j, p);
                    lemma_reported(before, u, p);
                }
                assert forall|pt: Seq<(String, ConfigValue)>, j: int, kt: Seq<(String, ConfigValue)>, l: int, p: Seq<char>|
                    t@[i as int].0@ == "profile"@ && is_table_of(t@[i as int].1, pt) && 0 <= j < pt.len()
                        && is_table_of(pt[j].1, kt) && 0 <= l < kt.len() && !is_profile_field(kt[l].0@)
                        && #[trigger] leaf_paths(kt[l].1, extend_key(extend_key(t@[i as int].0@, pt[j].0@), kt[l].0@)).contains(
                        p,
                    ) implies after.contains(unused_warning(p)) by {
                    if let KeySchema::Fields(fs) = s {
                        let path = extend_key(k@, pt[j].0@);
                        match schema_lookup(fs@, pt[j].0@) {
                            Some(ks) => {
                                lemma_schema_lookup_member(fs@, pt[j].0@);
                                if let KeySchema::Fields(gs) = ks {
                                    if schema_lookup(gs@, kt[l].0@) is Some {
                                        lemma_schema_lookup_member(gs@, kt[l].0@);
                                    }
                                }
                                lemma_unknown_in_entry(pt[j].1, ks, path, l, p);
                            },
                            None => {
                                lemma_leaf_in_entry(pt[j].1, path, l, p);
                            },
                        }
                    }
                    lemma_unknown_in_entry(t@[i as int].1, s, k@, j, p);
                    lemma_reported(before, u, p);
                }
                assert forall|pt: Seq<(String, ConfigValue)>, j: int, qt: Seq<(String, ConfigValue)>, l: int, p: Seq<char>|
                    t@[i as int].0@ == "target"@ && is_table_of(t@[i as int].1, pt) && 0 <= j < pt.len() && is_table_of(
                        pt[j].1,
                        qt,
                    ) && 0 <= l < qt.len() && qt[l].0@ != "dependencies"@ && #[trigger] leaf_paths(
                        qt[l].1,
                        extend_key(extend_key(t@[i as int].0@, pt[j].0@), qt[l].0@),
                    ).contains(p) implies after.contains(unused_warning(p)) by {
                    if let KeySchema::Entries(b) = s {
                        if let KeySchema::Fields(fs) = *b {
                            if schema_lookup(fs@, qt[l].0@) is Some {
                                lemma_schema_lookup_member(fs@, qt[l].0@);
                            }
                            lemma_unknown_in_entry(pt[j].1, *b, extend_key(k@, pt[j].0@), l, p);
                        }
                        lemma_unknown_in_entry(t@[i as int].1, s, k@, j, p);
                    }
                    lemma_reported(before, u, p);
                }
                assert forall|
                    pt: Seq<(String, ConfigValue)>,
                    j: int,
                    qt: Seq<(String, ConfigValue)>,
                    l: int,
                    dt: Seq<(String, ConfigValue)>,
                    m: int,
                    ft: Seq<(String, ConfigValue)>,
                    q: int,
                    p: Seq<char>,
                |
                    t@[i as int].0@ == "target"@ && is_table_of(t@[i as int].1, pt) && 0 <= j < pt.len() && is_table_of(
                        pt[j].1,
                        qt,
                    ) && 0 <= l < qt.len() && qt[l].0@ == "dependencies"@ && is_table_of(qt[l].1, dt) && 0 <= m
                        < dt.len() && is_table_of(dt[m].1, ft) && 0 <= q < ft.len() && !is_dependency_field(ft[q].0@)
                        && #[trigger] leaf_paths(
                        ft[q].1,
                        extend_key(
                            extend_key(extend_key(extend_key(t@[i as int].0@, pt[j].0@), qt[l].0@), dt[m].0@),
                            ft[q].0@,
                        ),
                    ).contains(p) implies after.contains(unused_warning(p)) by {
                    let p1 = extend_key(k@, pt[j].0@);
                    let p2 = extend_key(p1, qt[l].0@);
                    let p3 = extend_key(p2, dt[m].0@);
                    if let KeySchema::Entries(b) = s {
                        if let KeySchema::Fields(fs) = *b {
                            match schema_lookup(fs@, qt[l].0@) {
                                Some(ds) => {
                                    lemma_schema_lookup_member(fs@, qt[l].0@);
                                    if let KeySchema::Entries(c) = ds {
                                        if let KeySchema::Fields(gs) = *c {
                                            if schema_lookup(gs@, ft[q].0@) is Some {
                                                lemma_schema_lookup_member(gs@, ft[q].0@);
                                            }
                                            lemma_unknown_in_entry(dt[m].1, *c, p3, q, p);
                                        }
                                        lemma_unknown_in_entry(qt[l].1, ds, p2, m, p);
                                    }
                                },
                                None => {
                                    lemma_leaf_in_entry(dt[m].1, p3, q, p);
                                    lemma_leaf_in_entry(qt[l].1, p2, m, p);
                                },
                            }
                            lemma_unknown_in_entry(pt[j].1, *b, p1, l, p);
                        }
                        lemma_unknown_in_entry(t@[i as int].1, s, k@, j, p);
                    }
                    lemma_reported(before, u, p);
                }
            },
            None => {
                add_unused_keys(warnings, &t[i].1, &k);
                let ghost after = strs(warnings@);
                assert(after =~= before + unused_warnings(t@[i as int].1, k@));
                proof { lemma_appended_unused(w0.len() as int, before, leaf_paths(t@[i as int].1, k@)); }
                assert forall|p: Seq<char>| #[trigger] leaf_paths(t@[i as int].1, t@[i as int].0@).contains(p) implies after.contains(
                    unused_warning(p),
                ) by {
                    let m = choose|m: int| 0 <= m < leaf_paths(t@[i as int].1, k@).len() && leaf_paths(t@[i as int].1, k@)[m] == p;
                    assert(after[before.len() + m] == unused_warning(p));
                }
            },
        }
        let ghost after = strs(warnings@);
        assert(after.take(w0.len() as int) =~= before.take(w0.len() as int));
        assert(after.take(before.len() as int) =~= before);
        assert forall|j: int, p: Seq<char>|
            0 <= j < i + 1 && !is_manifest_key(t@[j].0@) && #[trigger] leaf_paths(t@[j].1, t@[j].0@).contains(p) implies after.contains(
            unused_warning(p),
        ) by {
            if j < i {
                lemma_prefix_contains(before, after, unused_warning(p));
            }
        }
        assert forall|ii: int, tbl: Seq<(String, ConfigValue)>, j: int, p: Seq<char>|
            0 <= ii < i + 1 && is_fielded_section(t@[ii].0@) && holds_table(t@[ii].1, tbl) && 0 <= j < tbl.len()
                && !field_accepted(t@[ii].0@, tbl[j].0@) && #[trigger] leaf_paths(
                tbl[j].1,
                extend_key(t@[ii].0@, tbl[j].0@),
            ).contains(p) implies after.contains(unused_warning(p)) by {
            if ii < i {
                lemma_prefix_contains(before, after, unused_warning(p));
            } else {
                assert(is_manifest_key(t@[ii].0@));
            }
        }
        assert forall|ii: int, dt: Seq<(String, ConfigValue)>, j: int, ft: Seq<(String, ConfigValue)>, l: int, p: Seq<char>|
            0 <= ii < i + 1 && is_dependency_section(t@[ii].0@) && is_table_of(t@[ii].1, dt) && 0 <= j < dt.len()
                && is_table_of(dt[j].1, ft) && 0 <= l < ft.len() && !is_dependency_field(ft[l].0@)
                && #[trigger] leaf_paths(ft[l].1, extend_key(extend_key(t@[ii].0@, dt[j].0@), ft[l].0@)).contains(p) implies after.contains(
            unused_warning(p),
        ) by {
            if ii < i {
                lemma_prefix_contains(before, after, unused_warning(p));
            } else {
                assert(is_manifest_key(t@[ii].0@));
            }
        }
        assert forall|ii: int, pt: Seq<(String, ConfigValue)>, j: int, qt: Seq<(String, ConfigValue)>, l: int, p: Seq<char>|
            0 <= ii < i + 1 && t@[ii].0@ == "target"@ && is_table_of(t@[ii].1, pt) && 0 <= j < pt.len() && is_table_of(
                pt[j].1,
                qt,
            ) && 0 <= l < qt.len() && qt[l].0@ != "dependencies"@ && #[trigger] leaf_paths(
                qt[l].1,
                extend_key(extend_key(t@[ii].0@, pt[j].0@), qt[l].0@),
            ).contains(p) implies after.contains(unused_warning(p)) by {
            if ii < i {
                lemma_prefix_contains(before, after, unused_warning(p));
            } else {
                assert(is_manifest_key(t@[ii].0@));
            }
        }
        assert forall|
            ii: int,
            pt: Seq<(String, ConfigValue)>,
            j: int,
            qt: Seq<(String, ConfigValue)>,
            l: int,
            dt: Seq<(String, ConfigValue)>,
            m: int,
            ft: Seq<(String, ConfigValue)>,
            q: int,
            p: Seq<char>,
        |
            0 <= ii < i + 1 && t@[ii].0@ == "target"@ && is_table_of(t@[ii].1, pt) && 0 <= j < pt.len() && is_table_of(
                pt[j].1,
                qt,
            ) && 0 <= l < qt.len() && qt[l].0@ == "dependencies"@ && is_table_of(qt[l].1, dt) && 0 <= m < dt.len()
                && is_table_of(dt[m].1, ft) && 0 <= q < ft.len() && !is_dependency_field(ft[q].0@) && #[trigger] leaf_paths(
                ft[q].1,
                extend_key(extend_key(extend_key(extend_key(t@[ii].0@, pt[j].0@), qt[l].0@), dt[m].0@), ft[q].0@),
            ).contains(p) implies after.contains(unused_warning(p)) by {
            if ii < i {
                lemma_prefix_contains(before, after, unused_warning(p));
            } else {
                assert(is_manifest_key(t@[ii].0@));
            }
        }
        assert forall|ii: int, pt: Seq<(String, ConfigValue)>, j: int, p: Seq<char>|
            0 <= ii < i + 1 && t@[ii].0@ == "profile"@ && is_table_of(t@[ii].1, pt) && 0 <= j < pt.len()
                && !is_profile_kind(pt[j].0@) && #[trigger] leaf_paths(pt[j].1, extend_key(t@[ii].0@, pt[j].0@)).contains(
                p,
            ) implies after.contains(unused_warning(p)) by {
            if ii < i {
                lemma_prefix_contains(before, after, unused_warning(p));
            } else {
                assert(is_manifest_key(t@[ii].0@));
            }
        }
        assert forall|ii: int, pt: Seq<(String, ConfigValue)>, j: int, kt: Seq<(String, ConfigValue)>, l: int, p: Seq<char>|
            0 <= ii < i + 1 && t@[ii].0@ == "profile"@ && is_table_of(t@[ii].1, pt) && 0 <= j < pt.len()
                && is_table_of(pt[j].1, kt) && 0 <= l < kt.len() && !is_profile_field(kt[l].0@)
                && #[trigger] leaf_paths(kt[l].1, extend_key(extend_key(t@[ii].0@, pt[j].0@), kt[l].0@)).contains(p) implies after.contains(
            unused_warning(p),
        ) by {
            if ii < i {
                lemma_prefix_contains(before, after, unused_warning(p));
            } else {
                assert(is_manifest_key(t@[ii].0@));
            }
        }
        i = i + 1;
    }
}

} // verus!
