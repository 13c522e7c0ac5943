//! Assembly of the final manifest from the typed descriptor and the layout.
use vstd::prelude::*;
use crate::dependency::{
    Dependency, DependencyKind, DependencyView, DetailedView, SourceId, dep_entry_views, dependency_views,
    all_nested_of, all_resolve, process_dependencies, records_of,
};
use crate::layout::{
    Layout, first_main_of, inferred_bin_of, inferred_bin_targets, inferred_bench_targets,
    inferred_example_targets, inferred_file_of, inferred_lib_target, inferred_test_targets,
};
use crate::manifest::{ManyOrOne, TomlBuildCommandsList, TomlManifest, TomlPlatform, TomlProject};
use crate::config::ConfigValue;
use crate::keys::{
    add_manifest_unknown_keys, appends_unused_only, reports_unknown, reports_unknown_dependency_fields,
    reports_unknown_fields, reports_unknown_platform_keys, reports_unknown_profile_keys,
};
use crate::decode::lookup_of;
use crate::decode::{dep_of, lookup2_of, target_value_of};
use crate::manifest::{build_field, decode_manifest, decoded_manifest, deps_field, platform_field, project_field, targets_field};
use crate::normalize::{concat3, normalize, normalize_of};
use crate::path::str_eq;
use crate::profile::TomlProfiles;
use crate::target::{
    Metadata, MetadataView, Target, TomlTarget, TomlTargetView, copy_strings, plain_target, strs,
    target_views, toml_target_views,
};

verus! {

/// The identity of a package: its name, version and source.
#[derive(Debug)]
pub struct PackageId {
    pub name: String,
    pub version: semver::Version,
    /// The version as written in the manifest.
    pub version_text: String,
    pub source_id: SourceId,
}

/// Descriptive package metadata, carried through unchanged.
#[derive(Debug)]
pub struct ManifestMetadata {
    pub description: Option<String>,
    pub homepage: Option<String>,
    pub documentation: Option<String>,
    pub readme: Option<String>,
    pub authors: Vec<String>,
    pub license: Option<String>,
    pub repository: Option<String>,
    pub keywords: Vec<String>,
}

/// The compiled manifest.
#[derive(Debug)]
pub struct Manifest {
    pub package_id: PackageId,
    pub dependencies: Vec<Dependency>,
    pub features: Vec<(String, Vec<String>)>,
    pub targets: Vec<Target>,
    pub target_dir: String,
    pub doc_dir: String,
    /// Legacy build commands, run as opaque shell commands.
    pub build: Vec<String>,
    pub exclude: Vec<String>,
    pub links: Option<String>,
    pub metadata: ManifestMetadata,
    pub warnings: Vec<String>,
}

impl Manifest {
    /// Records a non-fatal warning.
    pub fn add_warning(&mut self, w: String)
        ensures
            final(self).warnings@ == old(self).warnings@.push(w),
            final(self).targets@ == old(self).targets@,
            final(self).dependencies@ == old(self).dependencies@,
            final(self).build@ == old(self).build@,
    {
        self.warnings.push(w);
    }

    /// The targets of this manifest.
    pub fn get_targets(&self) -> (r: &Vec<Target>)
        ensures
            r == &self.targets,
    {
        &self.targets
    }
}

impl TomlProject {
    /// The identity of this package when it lives at `source_id`.
    pub fn to_package_id(&self, source_id: &SourceId) -> (r: PackageId)
        ensures
            r.name@ == self.name@,
            r.version_text@ == self.version.text@,
            r.source_id@ == source_id@,
    {
        PackageId {
            name: self.name.clone(),
            version: self.version.version.clone(),
            version_text: self.version.text.clone(),
            source_id: source_id.duplicate(),
        }
    }
}

/// The package section in force: `project`, else `package`.
pub open spec fn project_of(m: TomlManifest) -> Option<TomlProject> {
    match m.project {
        Some(p) => Some(p),
        None => m.package,
    }
}

/// `t` with `p` as its path when it declares none.
pub open spec fn fill_path(t: TomlTargetView, p: Option<Seq<char>>) -> TomlTargetView {
    if t.path is None && p is Some {
        TomlTargetView { path: p, ..t }
    } else {
        t
    }
}

pub open spec fn many_or_one_views(l: ManyOrOne<TomlTarget>) -> Seq<TomlTargetView> {
    match l {
        ManyOrOne::Many(v) => toml_target_views(v@),
        ManyOrOne::One(t) => seq![t@],
    }
}

pub open spec fn opt_view(o: Option<String>) -> Option<Seq<char>> {
    match o {
        Some(s) => Some(s@),
        None => None,
    }
}

/// The library descriptors: the declared ones, with the layout's library
/// file as the path of those that declare none, else the inferred one.
pub open spec fn lib_descs_of(m: TomlManifest, name: Seq<char>, layout: Layout) -> Seq<TomlTargetView> {
    match m.lib {
        Some(l) => many_or_one_views(l).map_values(|t: TomlTargetView| fill_path(t, opt_view(layout.lib))),
        None => match layout.lib {
            Some(p) => seq![plain_target(name, Some(p@))],
            None => seq![],
        },
    }
}

/// The binary descriptors: the declared ones, with the layout's main file
/// as the path of those that declare none, else the inferred ones.
pub open spec fn bin_descs_of(m: TomlManifest, name: Seq<char>, layout: Layout) -> Seq<TomlTargetView> {
    match m.bin {
        Some(b) => toml_target_views(b@).map_values(
            |t: TomlTargetView| fill_path(t, first_main_of(strs(layout.bins@))),
        ),
        None => strs(layout.bins@).map_values(|b: Seq<char>| inferred_bin_of(name, layout.root@, b)),
    }
}

/// The library's name: the first library descriptor's, else the package's.
pub open spec fn lib_name_of(m: TomlManifest, p: TomlProject, layout: Layout) -> Seq<char> {
    let ls = lib_descs_of(m, p.name@, layout);
    if ls.len() > 0 {
        ls[0].name
    } else {
        p.name@
    }
}

/// Declared descriptors, else those inferred from `files`.
pub open spec fn declared_or_inferred(d: Option<Vec<TomlTarget>>, files: Seq<Seq<char>>) -> Seq<TomlTargetView> {
    match d {
        Some(v) => toml_target_views(v@),
        None => files.map_values(|p: Seq<char>| inferred_file_of(p)),
    }
}

/// The benchmark descriptors: an empty declared list counts as none.
pub open spec fn bench_descs_of(m: TomlManifest, layout: Layout) -> Seq<TomlTargetView> {
    match m.bench {
        Some(v) => if v@.len() == 0 {
            declared_or_inferred(None, strs(layout.benches@))
        } else {
            toml_target_views(v@)
        },
        None => declared_or_inferred(None, strs(layout.benches@)),
    }
}

/// Whether `s` names a Rust source file by its suffix.
pub open spec fn ends_with_rs(s: Seq<char>) -> bool {
    s.len() >= 3 && s.subrange(s.len() - 3, s.len() as int) == ".rs"@
}

/// The custom build script: a single build command naming an existing
/// Rust source file.
pub open spec fn custom_build_of(p: TomlProject, script_exists: bool) -> Option<Seq<char>> {
    match p.build {
        Some(TomlBuildCommandsList::SingleBuildCommand(c)) => if ends_with_rs(c@) && script_exists {
            Some(c@)
        } else {
            None
        },
        _ => None,
    }
}

/// The legacy build commands.
pub open spec fn old_build_of(p: TomlProject, script_exists: bool) -> Seq<Seq<char>> {
    match p.build {
        Some(TomlBuildCommandsList::SingleBuildCommand(c)) => if ends_with_rs(c@) && script_exists {
            seq![]
        } else {
            seq![c@]
        },
        Some(TomlBuildCommandsList::MultipleBuildCommands(v)) => strs(v@),
        None => seq![],
    }
}

/// The package fingerprint: name and version.
pub open spec fn package_meta_of(p: TomlProject) -> MetadataView {
    MetadataView { package: p.name@ + "-"@ + p.version.text@, mixes: seq![] }
}

pub open spec fn profiles_or_empty(o: Option<TomlProfiles>) -> TomlProfiles {
    match o {
        Some(p) => p,
        None => TomlProfiles { test: None, doc: None, bench: None, dev: None, release: None },
    }
}

pub open spec fn dep_section(o: Option<Vec<(String, crate::dependency::TomlDependency)>>) -> Seq<(Seq<char>, DetailedView)> {
    match o {
        Some(v) => dep_entry_views(v@),
        None => seq![],
    }
}

/// The targets the descriptor `m` and the layout give.
pub open spec fn targets_of(m: TomlManifest, p: TomlProject, layout: Layout, script_exists: bool) -> Seq<crate::target::TargetView> {
    normalize_of(
        lib_descs_of(m, p.name@, layout),
        bin_descs_of(m, lib_name_of(m, p, layout), layout),
        custom_build_of(p, script_exists),
        declared_or_inferred(m.example, strs(layout.examples@)),
        declared_or_inferred(m.test, strs(layout.tests@)),
        bench_descs_of(m, layout),
        package_meta_of(p),
        profiles_or_empty(m.profile),
    )
}

fn fill_targets(ts: Vec<&TomlTarget>, p: Option<&String>) -> (r: Vec<TomlTarget>)
    ensures
        toml_target_views(r@) == ts@.map_values(|t: &TomlTarget| t@).map_values(
            |t: TomlTargetView| fill_path(t, match p { Some(x) => Some(x@), None => None }),
        ),
{
    let ghost pv = match p { Some(x) => Some(x@), None => None };
    let ghost vs = ts@.map_values(|t: &TomlTarget| t@);
    let mut out: Vec<TomlTarget> = Vec::new();
    let mut i: usize = 0;
    while i < ts.len()
        invariant
            i <= ts@.len(),
            vs == ts@.map_values(|t: &TomlTarget| t@),
            pv == (match p { Some(x) => Some(x@), None => None }),
            toml_target_views(out@) =~= vs.take(i as int).map_values(|t: TomlTargetView| fill_path(t, pv)),
        decreases ts@.len() - i,
    {
        let t = ts[i];
        let n = match p {
            Some(x) => {
                if t.path.is_none() {
                    t.with_path(x.clone())
                } else {
                    t.duplicate()
                }
            },
            None => t.duplicate(),
        };
        assert(n@ == fill_path(vs[i as int], pv));
        let ghost before = out@;
        out.push(n);
        assert(toml_target_views(out@) =~= toml_target_views(before).push(n@));
        assert(vs.take(i + 1).map_values(|t: TomlTargetView| fill_path(t, pv)) =~= vs.take(
            i as int,
        ).map_values(|t: TomlTargetView| fill_path(t, pv)).push(fill_path(vs[i as int], pv)));
        i = i + 1;
    }
    assert(vs.take(ts@.len() as int) =~= vs);
    out
}

fn refs(v: &Vec<TomlTarget>) -> (r: Vec<&TomlTarget>)
    ensures
        r@.map_values(|t: &TomlTarget| t@) == toml_target_views(v@),
{
    let mut out: Vec<&TomlTarget> = Vec::new();
    let mut i: usize = 0;
    while i < v.len()
        invariant
            i <= v@.len(),
            out@.map_values(|t: &TomlTarget| t@) =~= toml_target_views(v@).take(i as int),
        decreases v@.len() - i,
    {
        let ghost before = out@;
        out.push(&v[i]);
        assert(out@.map_values(|t: &TomlTarget| t@) =~= before.map_values(|t: &TomlTarget| t@).push(v@[i as int]@));
        assert(toml_target_views(v@).take(i + 1) =~= toml_target_views(v@).take(i as int).push(v@[i as int]@));
        i = i + 1;
    }
    assert(toml_target_views(v@).take(v@.len() as int) =~= toml_target_views(v@));
    out
}

fn copy_targets(v: &Vec<TomlTarget>) -> (r: Vec<TomlTarget>)
    ensures
        toml_target_views(r@) == toml_target_views(v@),
{
    let mut out: Vec<TomlTarget> = Vec::new();
    let mut i: usize = 0;
    while i < v.len()
        invariant
            i <= v@.len(),
            toml_target_views(out@) =~= toml_target_views(v@).take(i as int),
        decreases v@.len() - i,
    {
        let ghost before = out@;
        out.push(v[i].duplicate());
        assert(toml_target_views(out@) =~= toml_target_views(before).push(v@[i as int]@));
        i = i + 1;
    }
    assert(toml_target_views(v@).take(v@.len() as int) =~= toml_target_views(v@));
    out
}

fn is_rs_file(s: &String) -> (r: bool)
    ensures
        r == ends_with_rs(s@),
{
    let n = s.as_str().unicode_len();
    if n < 3 {
        false
    } else {
        str_eq(s.as_str().substring_char(n - 3, n), ".rs")
    }
}

pub open spec fn platform_views(v: Seq<(String, TomlPlatform)>) -> Seq<(Seq<char>, Seq<(Seq<char>, DetailedView)>)> {
    v.map_values(|e: (String, TomlPlatform)| (e.0@, dep_section(e.1.dependencies)))
}

/// Whether the dependencies of every platform resolve.
pub open spec fn platforms_resolve(ps: Seq<(Seq<char>, Seq<(Seq<char>, DetailedView)>)>, root: Seq<char>) -> bool {
    forall|i: int| 0 <= i < ps.len() ==> all_resolve(#[trigger] ps[i].1, root)
}

/// The records of the per-platform dependencies, platform by platform.
pub open spec fn platform_records_of(ps: Seq<(Seq<char>, Seq<(Seq<char>, DetailedView)>)>, root: Seq<char>) -> Seq<DependencyView>
    decreases ps.len(),
{
    if ps.len() == 0 {
        seq![]
    } else {
        platform_records_of(ps.drop_last(), root) + records_of(
            ps.last().1,
            root,
            DependencyKind::Normal,
            Some(ps.last().0),
        )
    }
}

pub open spec fn platform_nested_of(ps: Seq<(Seq<char>, Seq<(Seq<char>, DetailedView)>)>) -> Seq<Seq<char>>
    decreases ps.len(),
{
    if ps.len() == 0 {
        seq![]
    } else {
        platform_nested_of(ps.drop_last()) + all_nested_of(ps.last().1)
    }
}

pub open spec fn platforms_of(m: TomlManifest) -> Seq<(Seq<char>, Seq<(Seq<char>, DetailedView)>)> {
    match m.target {
        Some(v) => platform_views(v@),
        None => seq![],
    }
}

/// Whether every declared dependency resolves.
pub open spec fn deps_resolve(m: TomlManifest, root: Seq<char>) -> bool {
    &&& all_resolve(dep_section(m.dependencies), root)
    &&& all_resolve(dep_section(m.dev_dependencies), root)
    &&& all_resolve(dep_section(m.build_dependencies), root)
    &&& platforms_resolve(platforms_of(m), root)
}

/// The dependency records: normal, development, build, then per platform.
pub open spec fn dep_records_of(m: TomlManifest, root: Seq<char>) -> Seq<DependencyView> {
    records_of(dep_section(m.dependencies), root, DependencyKind::Normal, None) + records_of(
        dep_section(m.dev_dependencies),
        root,
        DependencyKind::Development,
        None,
    ) + records_of(dep_section(m.build_dependencies), root, DependencyKind::Build, None)
        + platform_records_of(platforms_of(m), root)
}

/// The local dependency paths, in the same order.
pub open spec fn nested_paths_of(m: TomlManifest) -> Seq<Seq<char>> {
    all_nested_of(dep_section(m.dependencies)) + all_nested_of(dep_section(m.dev_dependencies))
        + all_nested_of(dep_section(m.build_dependencies)) + platform_nested_of(platforms_of(m))
}

pub open spec fn lib_warning() -> Seq<char> {
    "the [[lib]] section has been deprecated in favor of [lib]"@
}

pub open spec fn build_warnings() -> Seq<Seq<char>> {
    seq![
        "warning: an arbitrary build command has now been deprecated."@,
        "         It has been replaced by custom build scripts."@,
        "         For more information, see http://doc.crates.io/build-script.html"@,
    ]
}

/// The deprecation warnings: the legacy list of libraries, and legacy
/// build commands.
pub open spec fn deprecation_warnings_of(m: TomlManifest, p: TomlProject, script_exists: bool) -> Seq<Seq<char>> {
    (if m.lib matches Some(ManyOrOne::Many(_)) {
        seq![lib_warning()]
    } else {
        seq![]
    }) + (if old_build_of(p, script_exists).len() >= 1 {
        build_warnings()
    } else {
        seq![]
    })
}

fn section_deps(
    out: &mut Vec<Dependency>,
    nested: &mut Vec<String>,
    o: &Option<Vec<(String, crate::dependency::TomlDependency)>>,
    root: &String,
    kind: DependencyKind,
    platform: &Option<String>,
) -> (r: Result<(), String>)
    ensures
        r is Ok <==> all_resolve(dep_section(*o), root@),
        r is Ok ==> dependency_views(final(out)@) == dependency_views(old(out)@) + records_of(
            dep_section(*o),
            root@,
            kind,
            crate::dependency::opt_str(*platform),
        ),
        r is Ok ==> strs(final(nested)@) == strs(old(nested)@) + all_nested_of(dep_section(*o)),
{
    match o {
        Some(v) => process_dependencies(out, nested, v, root, kind, platform),
        None => {
            assert(dependency_views(out@) =~= dependency_views(out@) + seq![]);
            assert(strs(nested@) =~= strs(nested@) + seq![]);
            Ok(())
        },
    }
}

fn platform_deps(
    out: &mut Vec<Dependency>,
    nested: &mut Vec<String>,
    ps: &Vec<(String, TomlPlatform)>,
    root: &String,
) -> (r: Result<(), String>)
    ensures
        r is Ok <==> platforms_resolve(platform_views(ps@), root@),
        r is Ok ==> dependency_views(final(out)@) == dependency_views(old(out)@) + platform_records_of(
            platform_views(ps@),
            root@,
        ),
        r is Ok ==> strs(final(nested)@) == strs(old(nested)@) + platform_nested_of(platform_views(ps@)),
{
    let ghost vs = platform_views(ps@);
    let ghost out0 = dependency_views(out@);
    let ghost nested0 = strs(nested@);
    let mut i: usize = 0;
    assert(vs.take(0) =~= seq![]);
    while i < ps.len()
        invariant
            i <= ps@.len(),
            vs == platform_views(ps@),
            platforms_resolve(vs.take(i as int), root@),
            dependency_views(out@) =~= out0 + platform_records_of(vs.take(i as int), root@),
            strs(nested@) =~= nested0 + platform_nested_of(vs.take(i as int)),
        decreases ps@.len() - i,
    {
        let name = Some(ps[i].0.clone());
        assert(vs.take(i + 1).drop_last() =~= vs.take(i as int));
        match section_deps(out, nested, &ps[i].1.dependencies, root, DependencyKind::Normal, &name) {
            Ok(()) => {},
            Err(e) => {
                assert(!all_resolve(vs[i as int].1, root@));
                return Err(e);
            },
        }
        assert(platforms_resolve(vs.take(i + 1), root@)) by {
            assert forall|j: int| 0 <= j < i + 1 implies all_resolve(#[trigger] vs.take(i + 1)[j].1, root@) by {
                if j < i {
                    assert(vs.take(i + 1)[j] == vs.take(i as int)[j]);
                }
            }
        }
        i = i + 1;
    }
    assert(vs.take(ps@.len() as int) =~= vs);
    Ok(())
}

fn copy_features(v: &Vec<(String, Vec<String>)>) -> (r: Vec<(String, Vec<String>)>)
    ensures
        same_features(r@, v@),
{
    let mut out: Vec<(String, Vec<String>)> = Vec::new();
    let mut i: usize = 0;
    while i < v.len()
        invariant
            i <= v@.len(),
            out@.len() == i,
            forall|j: int| 0 <= j < i ==> (#[trigger] out@[j]).0@ == v@[j].0@ && out@[j].1@ == v@[j].1@,
        decreases v@.len() - i,
    {
        out.push((v[i].0.clone(), copy_strings(&v[i].1)));
        i = i + 1;
    }
    out
}

/// The same features, in the same order.
pub open spec fn same_features(a: Seq<(String, Vec<String>)>, b: Seq<(String, Vec<String>)>) -> bool {
    a.len() == b.len() && forall|i: int| 0 <= i < a.len() ==> (#[trigger] a[i]).0@ == b[i].0@ && a[i].1@ == b[i].1@
}

/// The package-level data the manifest carries through from `p` and `m`.
pub open spec fn carried_through(man: Manifest, m: TomlManifest, p: TomlProject, layout: Layout) -> bool {
    &&& man.package_id.name@ == p.name@
    &&& man.links == p.links
    &&& (match p.exclude {
        Some(e) => man.exclude@ == e@,
        None => man.exclude@.len() == 0,
    })
    &&& (match m.features {
        Some(f) => same_features(man.features@, f@),
        None => man.features@.len() == 0,
    })
    &&& man.target_dir@ == crate::path::join_of(layout.root@, "target"@)
    &&& man.doc_dir@ == crate::path::join_of(layout.root@, "doc"@)
    &&& opt_view(man.metadata.description) == opt_view(p.description)
    &&& man.metadata.authors@ == p.authors@
    &&& man.package_id.version_text@ == p.version.text@
    &&& opt_view(man.metadata.homepage) == opt_view(p.homepage)
    &&& opt_view(man.metadata.documentation) == opt_view(p.documentation)
    &&& opt_view(man.metadata.readme) == opt_view(p.readme)
    &&& opt_view(man.metadata.license) == opt_view(p.license)
    &&& opt_view(man.metadata.repository) == opt_view(p.repository)
    &&& (match p.keywords {
        Some(k) => man.metadata.keywords@ == k@,
        None => man.metadata.keywords@.len() == 0,
    })
}

fn copy_opt(o: &Option<String>) -> (r: Option<String>)
    ensures
        opt_view(r) == opt_view(*o),
{
    match o {
        Some(s) => Some(s.clone()),
        None => None,
    }
}

fn list_or_empty(o: &Option<Vec<String>>) -> (r: Vec<String>)
    ensures
        match o {
            Some(v) => r@ == v@,
            None => r@.len() == 0,
        },
{
    match o {
        Some(v) => copy_strings(v),
        None => Vec::new(),
    }
}

/// The error of a descriptor without a package section.
pub open spec fn no_package_error() -> Seq<char> {
    "No `package` or `project` section found."@
}

impl TomlManifest {
    /// Compiles this descriptor against the layout: synthesizes the
    /// targets, resolves the dependencies relative to the layout's root and
    /// collects the deprecation warnings. Returns the manifest and the
    /// paths of local dependencies.
    #[verifier::rlimit(60)]
    pub fn to_manifest(&self, source_id: &SourceId, layout: &Layout, script_exists: bool) -> (r: Result<
        (Manifest, Vec<String>),
        String,
    >)
        ensures
            project_of(*self) is None ==> r is Err && r->Err_0@ == no_package_error(),
            project_of(*self) is Some ==> (r is Ok <==> deps_resolve(*self, layout.root@)),
            r matches Ok((m, nested)) ==> project_of(*self) matches Some(p) && target_views(m.targets@)
                == targets_of(*self, p, *layout, script_exists) && strs(m.warnings@)
                == deprecation_warnings_of(*self, p, script_exists) && strs(m.build@) == old_build_of(
                p,
                script_exists,
            ),
            r matches Ok((m, nested)) ==> dependency_views(m.dependencies@) == dep_records_of(*self, layout.root@)
                && strs(nested@) == nested_paths_of(*self),
            r matches Ok((m, _)) ==> carried_through(m, *self, project_of(*self)->Some_0, *layout),
    {
        let project = match &self.project {
            Some(p) => p,
            None => match &self.package {
                Some(p) => p,
                None => {
                    return Err(String::from_str("No `package` or `project` section found."));
                },
            },
        };
        assert(project_of(*self) == Some(*project));
        let pkgid = project.to_package_id(source_id);
        let metadata = Metadata::new(concat3(project.name.as_str(), "-", project.version.text.as_str()));
        let name = &project.name;

        let used_deprecated_lib = match &self.lib {
            Some(ManyOrOne::Many(_)) => true,
            _ => false,
        };
        let lib = match &self.lib {
            Some(libs) => {
                let sl = libs.as_slice();
                assert(sl@.map_values(|t: &TomlTarget| t@) =~= many_or_one_views(*libs));
                fill_targets(sl, layout.lib.as_ref())
            },
            None => inferred_lib_target(name, layout),
        };
        proof {
            assert(toml_target_views(lib@) =~= lib_descs_of(*self, project.name@, *layout));
        }
        let lib_name = if lib.len() > 0 {
            lib[0].name.clone()
        } else {
            name.clone()
        };
        let bins = match &self.bin {
            Some(bins) => {
                let main = layout.main();
                fill_targets(refs(bins), main)
            },
            None => inferred_bin_targets(&lib_name, layout),
        };
        let examples = match &self.example {
            Some(v) => copy_targets(v),
            None => inferred_example_targets(layout),
        };
        let tests = match &self.test {
            Some(v) => copy_targets(v),
            None => inferred_test_targets(layout),
        };
        let benches = match &self.bench {
            Some(v) => {
                if v.len() == 0 {
                    inferred_bench_targets(layout)
                } else {
                    copy_targets(v)
                }
            },
            None => inferred_bench_targets(layout),
        };
        let (new_build, old_build) = match &project.build {
            Some(TomlBuildCommandsList::SingleBuildCommand(cmd)) => {
                if is_rs_file(cmd) && script_exists {
                    (Some(cmd.clone()), Vec::new())
                } else {
                    (None, vec![cmd.clone()])
                }
            },
            Some(TomlBuildCommandsList::MultipleBuildCommands(cmds)) => (None, copy_strings(cmds)),
            None => (None, Vec::new()),
        };
        assert(strs(old_build@) =~= old_build_of(*project, script_exists));
        let profiles = match self.profile {
            Some(p) => p,
            None => TomlProfiles::empty(),
        };
        let ghost nb = opt_view(new_build);
        assert(custom_build_of(*project, script_exists) == nb);
        let targets = normalize(&lib, &bins, new_build, &examples, &tests, &benches, &metadata, &profiles);
        assert(metadata@ == package_meta_of(*project));
        assert(lib_name@ == lib_name_of(*self, *project, *layout));
        assert(toml_target_views(bins@) =~= bin_descs_of(*self, lib_name_of(*self, *project, *layout), *layout));
        assert(toml_target_views(examples@) =~= declared_or_inferred(self.example, strs(layout.examples@)));
        assert(toml_target_views(tests@) =~= declared_or_inferred(self.test, strs(layout.tests@)));
        assert(toml_target_views(benches@) =~= bench_descs_of(*self, *layout));
        assert(profiles == profiles_or_empty(self.profile));

        assert(target_views(targets@) == targets_of(*self, *project, *layout, script_exists));

        let mut deps: Vec<Dependency> = Vec::new();
        let mut nested_paths: Vec<String> = Vec::new();
        assert(dependency_views(deps@) =~= seq![]);
        assert(strs(nested_paths@) =~= seq![]);
        let none: Option<String> = None;
        section_deps(&mut deps, &mut nested_paths, &self.dependencies, &layout.root, DependencyKind::Normal, &none)?;
        section_deps(&mut deps, &mut nested_paths, &self.dev_dependencies, &layout.root, DependencyKind::Development, &none)?;
        section_deps(&mut deps, &mut nested_paths, &self.build_dependencies, &layout.root, DependencyKind::Build, &none)?;
        match &self.target {
            Some(ps) => {
                platform_deps(&mut deps, &mut nested_paths, ps, &layout.root)?;
            },
            None => {
                assert(dependency_views(deps@) =~= dependency_views(deps@) + seq![]);
                assert(strs(nested_paths@) =~= strs(nested_paths@) + seq![]);
                assert(platforms_resolve(platforms_of(*self), layout.root@));
            },
        }
        assert(dependency_views(deps@) =~= dep_records_of(*self, layout.root@));
        assert(strs(nested_paths@) =~= nested_paths_of(*self));

        let has_old_build = old_build.len() >= 1;
        let meta = ManifestMetadata {
            description: copy_opt(&project.description),
            homepage: copy_opt(&project.homepage),
            documentation: copy_opt(&project.documentation),
            readme: copy_opt(&project.readme),
            authors: copy_strings(&project.authors),
            license: copy_opt(&project.license),
            repository: copy_opt(&project.repository),
            keywords: list_or_empty(&project.keywords),
        };
        let mut warnings: Vec<String> = Vec::new();
        if used_deprecated_lib {
            warnings.push(String::from_str("the [[lib]] section has been deprecated in favor of [lib]"));
        }
        if has_old_build {
            warnings.push(String::from_str("warning: an arbitrary build command has now been deprecated."));
            warnings.push(String::from_str("         It has been replaced by custom build scripts."));
            warnings.push(String::from_str("         For more information, see http://doc.crates.io/build-script.html"));
        }
        assert(strs(warnings@) =~= deprecation_warnings_of(*self, *project, script_exists));
        let manifest = Manifest {
            package_id: pkgid,
            dependencies: deps,
            features: match &self.features {
                Some(f) => copy_features(f),
                None => Vec::new(),
            },
            targets,
            target_dir: crate::path::join(layout.root.as_str(), "target"),
            doc_dir: crate::path::join(layout.root.as_str(), "doc"),
            build: old_build,
            exclude: list_or_empty(&project.exclude),
            links: match &project.links {
                Some(l) => Some(l.clone()),
                None => None,
            },
            metadata: meta,
            warnings,
        };
        Ok((manifest, nested_paths))
    }
}

proof fn lemma_targets_field_unique(o: Option<ConfigValue>, x1: Option<Vec<TomlTarget>>, x2: Option<Vec<TomlTarget>>)
    requires
        targets_field(o, x1),
        targets_field(o, x2),
    ensures
        x1 is Some <==> x2 is Some,
        x1 matches Some(v1) ==> toml_target_views(v1@) == toml_target_views(x2->Some_0@),
{
    if let (Some(ConfigValue::Array(a)), Some(v1), Some(v2)) = (o, x1, x2) {
        assert forall|i: int| 0 <= i < v1@.len() implies #[trigger] toml_target_views(v1@)[i] == toml_target_views(v2@)[i] by {
            assert(target_value_of(a@[i]) == Some(v1@[i]@));
            assert(target_value_of(a@[i]) == Some(v2@[i]@));
        }
        assert(toml_target_views(v1@) =~= toml_target_views(v2@));
    }
}

proof fn lemma_deps_field_unique(
    o: Option<ConfigValue>,
    x1: Option<Vec<(String, crate::dependency::TomlDependency)>>,
    x2: Option<Vec<(String, crate::dependency::TomlDependency)>>,
)
    requires
        deps_field(o, x1),
        deps_field(o, x2),
    ensures
        dep_section(x1) == dep_section(x2),
{
    if let (Some(ConfigValue::Table(t)), Some(v1), Some(v2)) = (o, x1, x2) {
        assert forall|i: int| 0 <= i < v1@.len() implies #[trigger] dep_section(x1)[i] == dep_section(x2)[i] by {
            assert(dep_of(t@[i].1) == Some(v1@[i].1@));
            assert(dep_of(t@[i].1) == Some(v2@[i].1@));
        }
        assert(dep_section(x1) =~= dep_section(x2));
    }
}

proof fn lemma_project_unique(o: Option<ConfigValue>, x1: Option<TomlProject>, x2: Option<TomlProject>)
    requires
        project_field(o, x1),
        project_field(o, x2),
    ensures
        x1 is Some <==> x2 is Some,
        x1 matches Some(p1) ==> p1.name == x2->Some_0.name && p1.version.text == x2->Some_0.version.text && (
        forall|e: bool| custom_build_of(p1, e) == custom_build_of(x2->Some_0, e)),
{
    if let (Some(v), Some(p1), Some(p2)) = (o, x1, x2) {
        if let (Some(b), Some(b1), Some(b2)) = (lookup_of(v->Table_0@, "build"@), p1.build, p2.build) {
            assert(build_field(b, b1) && build_field(b, b2));
        }
    }
}

/// Two descriptors that a tree decodes to compile alike: decoding fixes
/// everything compilation reads.
proof fn lemma_decoding_determines(tree: ConfigValue, m1: TomlManifest, m2: TomlManifest, layout: Layout, e: bool)
    requires
        decoded_manifest(tree, m1),
        decoded_manifest(tree, m2),
    ensures
        project_of(m1) is Some <==> project_of(m2) is Some,
        deps_resolve(m1, layout.root@) == deps_resolve(m2, layout.root@),
        project_of(m1) is Some ==> targets_of(m1, project_of(m1)->Some_0, layout, e) == targets_of(
            m2,
            project_of(m2)->Some_0,
            layout,
            e,
        ),
{
    let t = tree->Table_0@;
    lemma_project_unique(lookup_of(t, "project"@), m1.project, m2.project);
    lemma_project_unique(lookup_of(t, "package"@), m1.package, m2.package);
    lemma_deps_field_unique(lookup_of(t, "dependencies"@), m1.dependencies, m2.dependencies);
    lemma_deps_field_unique(lookup2_of(t, "dev-dependencies"@, "dev_dependencies"@), m1.dev_dependencies, m2.dev_dependencies);
    lemma_deps_field_unique(
        lookup2_of(t, "build-dependencies"@, "build_dependencies"@),
        m1.build_dependencies,
        m2.build_dependencies,
    );
    if let (Some(ConfigValue::Table(pt)), Some(ps1), Some(ps2)) = (lookup_of(t, "target"@), m1.target, m2.target) {
        assert forall|i: int| 0 <= i < ps1@.len() implies #[trigger] platform_views(ps1@)[i] == platform_views(ps2@)[i] by {
            assert(platform_field(pt@[i].1, ps1@[i].1) && platform_field(pt@[i].1, ps2@[i].1));
            lemma_deps_field_unique(
                lookup_of(pt@[i].1->Table_0@, "dependencies"@),
                ps1@[i].1.dependencies,
                ps2@[i].1.dependencies,
            );
        }
        assert(platform_views(ps1@) =~= platform_views(ps2@));
    }
    assert(platforms_of(m1) == platforms_of(m2));
    if project_of(m1) is Some {
        let p1 = project_of(m1)->Some_0;
        let p2 = project_of(m2)->Some_0;
        lemma_targets_field_unique(lookup_of(t, "bin"@), m1.bin, m2.bin);
        lemma_targets_field_unique(lookup_of(t, "example"@), m1.example, m2.example);
        lemma_targets_field_unique(lookup_of(t, "test"@), m1.test, m2.test);
        lemma_targets_field_unique(lookup_of(t, "bench"@), m1.bench, m2.bench);
        match (lookup_of(t, "lib"@), m1.lib, m2.lib) {
            (Some(ConfigValue::Array(a)), Some(ManyOrOne::Many(v1)), Some(ManyOrOne::Many(v2))) => {
                assert forall|i: int| 0 <= i < v1@.len() implies #[trigger] toml_target_views(v1@)[i] == toml_target_views(v2@)[i] by {
                    assert(target_value_of(a@[i]) == Some(v1@[i]@));
                    assert(target_value_of(a@[i]) == Some(v2@[i]@));
                }
                assert(toml_target_views(v1@) =~= toml_target_views(v2@));
            },
            _ => {},
        }
        assert(lib_descs_of(m1, p1.name@, layout) == lib_descs_of(m2, p2.name@, layout));
        assert(lib_name_of(m1, p1, layout) == lib_name_of(m2, p2, layout));
        assert(bin_descs_of(m1, lib_name_of(m1, p1, layout), layout) == bin_descs_of(
            m2,
            lib_name_of(m2, p2, layout),
            layout,
        ));
        assert(declared_or_inferred(m1.example, strs(layout.examples@)) == declared_or_inferred(m2.example, strs(layout.examples@)));
        assert(declared_or_inferred(m1.test, strs(layout.tests@)) == declared_or_inferred(m2.test, strs(layout.tests@)));
        assert(bench_descs_of(m1, layout) == bench_descs_of(m2, layout));
        assert(custom_build_of(p1, e) == custom_build_of(p2, e));
        assert(package_meta_of(p1) == package_meta_of(p2));
        assert(profiles_or_empty(m1.profile) == profiles_or_empty(m2.profile));
    }
}

/// The error reported for a manifest that does not decode or compile.
fn invalid_manifest(path: &String, e: &String) -> (r: String)
    ensures
        r@ == path@ + " is not a valid manifest\n\n"@ + e@,
{
    concat3(path.as_str(), " is not a valid manifest\n\n", e.as_str())
}

/// The message of a manifest that yields no target.
pub open spec fn no_targets_error() -> Seq<char> {
    "either a [lib] or [[bin]] section must be present"@
}

/// The manifest declares no library or binary, and the layout holds no
/// library file and no executable.
pub open spec fn no_target_sources(tree: ConfigValue, layout: Layout) -> bool {
    &&& tree is Table
    &&& lookup_of(tree->Table_0@, "lib"@) is None
    &&& lookup_of(tree->Table_0@, "bin"@) is None
    &&& layout.lib is None
    &&& layout.bins@.len() == 0
}

/// The start of the error for a manifest that does not decode or compile.
pub open spec fn invalid_prefix(path: Seq<char>) -> Seq<char> {
    path + " is not a valid manifest\n\n"@
}

/// The tree decodes to a descriptor with a package section whose
/// dependencies resolve.
pub open spec fn decodes_and_resolves(tree: ConfigValue, layout: Layout) -> bool {
    exists|tm: TomlManifest| decoded_manifest(tree, tm) && project_of(tm) is Some && deps_resolve(tm, layout.root@)
}

/// `w` starts with the deprecation warnings `d`; all that follows are
/// unused-key warnings.
pub open spec fn kept_warnings(w: Seq<Seq<char>>, d: Seq<Seq<char>>) -> bool {
    d.len() <= w.len() && w.take(d.len() as int) == d && appends_unused_only(d.len() as int, w)
}

/// The tree decodes to a descriptor with a package section whose
/// dependencies resolve and which yields at least one target.
pub open spec fn compiles(tree: ConfigValue, layout: Layout, script_exists: bool) -> bool {
    exists|tm: TomlManifest|
        decoded_manifest(tree, tm) && project_of(tm) is Some && deps_resolve(tm, layout.root@) && targets_of(
            tm,
            project_of(tm)->Some_0,
            layout,
            script_exists,
        ).len() > 0
}

/// Compiles the parsed manifest at `manifest_path`: decodes it, compiles
/// the descriptor against the layout, reports unused keys as warnings and
/// rejects a manifest without targets. `script_exists` tells whether the
/// file named by `build_script_path` exists under the root.
pub fn to_manifest(
    tree: &ConfigValue,
    manifest_path: &String,
    source_id: &SourceId,
    layout: &Layout,
    script_exists: bool,
) -> (r: Result<(Manifest, Vec<String>), String>)
    ensures
        r matches Ok((m, _)) ==> m.targets@.len() > 0,
        r is Err && decodes_and_resolves(*tree, *layout) ==> r->Err_0@ == no_targets_error(),
        r is Err && !decodes_and_resolves(*tree, *layout) ==> r->Err_0@.take(
            invalid_prefix(manifest_path@).len() as int,
        ) == invalid_prefix(manifest_path@),
        no_target_sources(*tree, *layout) ==> r is Err,
        r is Ok <==> compiles(*tree, *layout, script_exists),
        r matches Ok((m, _)) ==> tree is Table && reports_unknown(
            tree->Table_0@,
            strs(m.warnings@),
            tree->Table_0@.len() as int,
        ) && reports_unknown_fields(tree->Table_0@, strs(m.warnings@), tree->Table_0@.len() as int)
            && reports_unknown_dependency_fields(tree->Table_0@, strs(m.warnings@), tree->Table_0@.len() as int)
            && reports_unknown_profile_keys(tree->Table_0@, strs(m.warnings@), tree->Table_0@.len() as int)
            && reports_unknown_platform_keys(tree->Table_0@, strs(m.warnings@), tree->Table_0@.len() as int),
        r matches Ok((m, nested)) ==> exists|tm: TomlManifest, p: TomlProject|
            decoded_manifest(*tree, tm) && project_of(tm) == Some(p) && target_views(m.targets@) == targets_of(
                tm,
                p,
                *layout,
                script_exists,
            ) && dependency_views(m.dependencies@) == dep_records_of(tm, layout.root@) && strs(nested@)
                == nested_paths_of(tm) && kept_warnings(
                strs(m.warnings@),
                deprecation_warnings_of(tm, p, script_exists),
            ) && carried_through(m, tm, p, *layout),
{
    let ghost path = manifest_path@;
    let tm = match decode_manifest(tree) {
        Ok(t) => t,
        Err(e) => {
            let r = invalid_manifest(manifest_path, &e);
            assert(r@.take(invalid_prefix(path).len() as int) =~= invalid_prefix(path));
            assert(!compiles(*tree, *layout, script_exists));
            assert(!decodes_and_resolves(*tree, *layout));
            return Err(r);
        },
    };
    let (mut m, paths) = match tm.to_manifest(source_id, layout, script_exists) {
        Ok(x) => x,
        Err(e) => {
            assert(decoded_manifest(*tree, tm));
            proof {
                assert forall|tm2: TomlManifest| #[trigger] decoded_manifest(*tree, tm2) implies !(project_of(tm2) is Some
                    && deps_resolve(tm2, layout.root@)) by {
                    lemma_decoding_determines(*tree, tm, tm2, *layout, script_exists);
                }
            }
            let r = invalid_manifest(manifest_path, &e);
            assert(r@.take(invalid_prefix(path).len() as int) =~= invalid_prefix(path));
            assert(!decodes_and_resolves(*tree, *layout));
            return Err(r);
        },
    };
    let ghost p = project_of(tm)->Some_0;
    let t = match tree {
        ConfigValue::Table(t) => t,
        _ => {
            let r = invalid_manifest(manifest_path, &String::from_str("expected a table"));
            assert(r@.take(invalid_prefix(path).len() as int) =~= invalid_prefix(path));
            return Err(r);
        },
    };
    let ghost dw = strs(m.warnings@);
    add_manifest_unknown_keys(&mut m.warnings, t);
    assert(kept_warnings(strs(m.warnings@), dw));
    proof {
        if no_target_sources(*tree, *layout) {
            crate::laws::lemma_no_sources_no_targets(tm, p, *layout, script_exists);
        }
    }
    if m.targets.len() == 0 {
        let r = String::from_str("either a [lib] or [[bin]] section must be present");
        assert(decoded_manifest(*tree, tm));
        assert(decodes_and_resolves(*tree, *layout));
        proof {
            assert forall|tm2: TomlManifest| #[trigger] decoded_manifest(*tree, tm2) implies !(project_of(tm2) is Some
                && targets_of(tm2, project_of(tm2)->Some_0, *layout, script_exists).len() > 0) by {
                lemma_decoding_determines(*tree, tm, tm2, *layout, script_exists);
            }
        }
        return Err(r);
    }
    assert(decoded_manifest(*tree, tm));
    assert(compiles(*tree, *layout, script_exists));
    Ok((m, paths))
}

/// The path of the custom build script the manifest names, if any: a
/// single build command that names a Rust source file. Whether the file
/// exists is for the caller to find out.
pub fn build_script_path(tree: &ConfigValue) -> (r: Option<String>)
    ensures
        forall|tm: TomlManifest| #[trigger]
            decoded_manifest(*tree, tm) ==> match project_of(tm) {
                Some(p) => opt_view(r) == custom_build_of(p, true),
                None => r is None,
            },
        r is Some ==> exists|tm: TomlManifest| decoded_manifest(*tree, tm),
{
    let tm = match decode_manifest(tree) {
        Ok(t) => t,
        Err(_) => {
            return None;
        },
    };
    let ghost t0 = tm;
    let project = match &tm.project {
        Some(p) => p,
        None => match &tm.package {
            Some(p) => p,
            None => {
                proof {
                    assert forall|tm2: TomlManifest| #[trigger] decoded_manifest(*tree, tm2) implies project_of(tm2) is None by {
                        lemma_project_unique(lookup_of(tree->Table_0@, "project"@), t0.project, tm2.project);
                        lemma_project_unique(lookup_of(tree->Table_0@, "package"@), t0.package, tm2.package);
                    }
                }
                return None;
            },
        },
    };
    let r = match &project.build {
        Some(TomlBuildCommandsList::SingleBuildCommand(cmd)) => {
            if is_rs_file(cmd) {
                Some(cmd.clone())
            } else {
                None
            }
        },
        _ => None,
    };
    assert(opt_view(r) == custom_build_of(*project, true));
    proof {
        assert forall|tm2: TomlManifest| #[trigger] decoded_manifest(*tree, tm2) implies (match project_of(tm2) {
            Some(p) => opt_view(r) == custom_build_of(p, true),
            None => r is None,
        }) by {
            lemma_project_unique(lookup_of(tree->Table_0@, "project"@), t0.project, tm2.project);
            lemma_project_unique(lookup_of(tree->Table_0@, "package"@), t0.package, tm2.package);
        }
    }
    r
}

} // verus!
