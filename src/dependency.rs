//! Dependency descriptors and their resolution into dependency records
//! with a concrete source.
use vstd::prelude::*;
use crate::outside::{parse_url, parsed_url};
use crate::path::{join, join_of};
use crate::target::{copy_strings, strs};

verus! {

/// Where a package's code comes from.
#[derive(Debug)]
pub enum SourceId {
    /// The canonical registry.
    Registry,
    /// A version-controlled remote: its URL and the reference to check out.
    Git { url: String, reference: String },
    /// A local directory.
    Path { location: String },
}

pub enum SourceIdView {
    Registry,
    Git { url: Seq<char>, reference: Seq<char> },
    Path { location: Seq<char> },
}

impl View for SourceId {
    type V = SourceIdView;

    open spec fn view(&self) -> SourceIdView {
        match self {
            SourceId::Registry => SourceIdView::Registry,
            SourceId::Git { url, reference } => SourceIdView::Git { url: url@, reference: reference@ },
            SourceId::Path { location } => SourceIdView::Path { location: location@ },
        }
    }
}

impl SourceId {
    /// A copy of this source.
    pub fn duplicate(&self) -> (r: SourceId)
        ensures
            r@ == self@,
    {
        match self {
            SourceId::Registry => SourceId::Registry,
            SourceId::Git { url, reference } => SourceId::Git { url: url.clone(), reference: reference.clone() },
            SourceId::Path { location } => SourceId::Path { location: location.clone() },
        }
    }
}

/// A dependency as declared: a bare version requirement, or a table.
#[derive(Debug)]
pub enum TomlDependency {
    SimpleDep(String),
    DetailedDep(DetailedTomlDependency),
}

/// The detailed form of a dependency declaration.
#[derive(Debug)]
pub struct DetailedTomlDependency {
    pub version: Option<String>,
    pub path: Option<String>,
    pub git: Option<String>,
    pub branch: Option<String>,
    pub tag: Option<String>,
    pub rev: Option<String>,
    pub features: Option<Vec<String>>,
    pub optional: Option<bool>,
    pub default_features: Option<bool>,
}

pub struct DetailedView {
    pub version: Option<Seq<char>>,
    pub path: Option<Seq<char>>,
    pub git: Option<Seq<char>>,
    pub branch: Option<Seq<char>>,
    pub tag: Option<Seq<char>>,
    pub rev: Option<Seq<char>>,
    pub features: Option<Seq<Seq<char>>>,
    pub optional: Option<bool>,
    pub default_features: Option<bool>,
}

pub open spec fn opt_str(o: Option<String>) -> Option<Seq<char>> {
    match o {
        Some(s) => Some(s@),
        None => None,
    }
}

impl View for DetailedTomlDependency {
    type V = DetailedView;

    open spec fn view(&self) -> DetailedView {
        DetailedView {
            version: opt_str(self.version),
            path: opt_str(self.path),
            git: opt_str(self.git),
            branch: opt_str(self.branch),
            tag: opt_str(self.tag),
            rev: opt_str(self.rev),
            features: match self.features {
                Some(v) => Some(strs(v@)),
                None => None,
            },
            optional: self.optional,
            default_features: self.default_features,
        }
    }
}

/// The detailed form with only a version requirement.
pub open spec fn version_only(v: Seq<char>) -> DetailedView {
    DetailedView {
        version: Some(v),
        path: None,
        git: None,
        branch: None,
        tag: None,
        rev: None,
        features: None,
        optional: None,
        default_features: None,
    }
}

impl View for TomlDependency {
    type V = DetailedView;

    /// Shorthand collapsed into the detailed shape.
    open spec fn view(&self) -> DetailedView {
        match self {
            TomlDependency::SimpleDep(v) => version_only(v@),
            TomlDependency::DetailedDep(d) => d@,
        }
    }
}

/// The kind of a dependency.
#[derive(Clone, Copy, Debug, PartialEq, Eq, Structural)]
pub enum DependencyKind {
    Normal,
    Development,
    Build,
}

/// A resolution-ready dependency record.
#[derive(Debug)]
pub struct Dependency {
    pub name: String,
    pub version_req: Option<String>,
    pub source_id: SourceId,
    pub features: Vec<String>,
    pub default_features: bool,
    pub optional: bool,
    pub kind: DependencyKind,
    pub only_for_platform: Option<String>,
}

pub struct DependencyView {
    pub name: Seq<char>,
    pub version_req: Option<Seq<char>>,
    pub source_id: SourceIdView,
    pub features: Seq<Seq<char>>,
    pub default_features: bool,
    pub optional: bool,
    pub kind: DependencyKind,
    pub only_for_platform: Option<Seq<char>>,
}

impl View for Dependency {
    type V = DependencyView;

    open spec fn view(&self) -> DependencyView {
        DependencyView {
            name: self.name@,
            version_req: opt_str(self.version_req),
            source_id: self.source_id@,
            features: strs(self.features@),
            default_features: self.default_features,
            optional: self.optional,
            kind: self.kind,
            only_for_platform: opt_str(self.only_for_platform),
        }
    }
}

pub open spec fn dependency_views(v: Seq<Dependency>) -> Seq<DependencyView> {
    v.map_values(|d: Dependency| d@)
}

/// The branch name checked out when a remote names no reference.
pub open spec fn default_reference() -> Seq<char> {
    "master"@
}

/// The reference selector: branch, else tag, else revision, else the
/// default branch.
pub open spec fn reference_of(d: DetailedView) -> Seq<char> {
    match d.branch {
        Some(b) => b,
        None => match d.tag {
            Some(t) => t,
            None => match d.rev {
                Some(r) => r,
                None => default_reference(),
            },
        },
    }
}

/// The source of a dependency whose remote URL, if any, parses; `root` is
/// the directory of the referencing manifest.
pub open spec fn source_of(d: DetailedView, root: Seq<char>) -> Option<SourceIdView> {
    match d.git {
        Some(g) => match parsed_url(g) {
            Some(u) => Some(SourceIdView::Git { url: u, reference: reference_of(d) }),
            None => None,
        },
        None => match d.path {
            Some(p) => Some(SourceIdView::Path { location: join_of(root, p) }),
            None => Some(SourceIdView::Registry),
        },
    }
}

/// The record of the dependency `name` declared as `d`, when its source
/// resolves.
pub open spec fn record_of(
    name: Seq<char>,
    d: DetailedView,
    root: Seq<char>,
    kind: DependencyKind,
    platform: Option<Seq<char>>,
) -> Option<DependencyView> {
    match source_of(d, root) {
        Some(src) => Some(
            DependencyView {
                name,
                version_req: d.version,
                source_id: src,
                features: match d.features {
                    Some(f) => f,
                    None => seq![],
                },
                default_features: match d.default_features {
                    Some(b) => b,
                    None => true,
                },
                optional: match d.optional {
                    Some(b) => b,
                    None => false,
                },
                kind,
                only_for_platform: platform,
            },
        ),
        None => None,
    }
}

/// The local path a dependency adds for recursive loading, if any.
pub open spec fn nested_of(d: DetailedView) -> Seq<Seq<char>> {
    match (d.git, d.path) {
        (None, Some(p)) => seq![p],
        _ => seq![],
    }
}

pub open spec fn dep_entry_views(v: Seq<(String, TomlDependency)>) -> Seq<(Seq<char>, DetailedView)> {
    v.map_values(|e: (String, TomlDependency)| (e.0@, e.1@))
}

/// Whether every remote URL among `ds` parses.
pub open spec fn all_resolve(ds: Seq<(Seq<char>, DetailedView)>, root: Seq<char>) -> bool {
    forall|i: int| 0 <= i < ds.len() ==> source_of(#[trigger] ds[i].1, root) is Some
}

/// The records of `ds`, in order, when all of them resolve.
pub open spec fn records_of(
    ds: Seq<(Seq<char>, DetailedView)>,
    root: Seq<char>,
    kind: DependencyKind,
    platform: Option<Seq<char>>,
) -> Seq<DependencyView>
    decreases ds.len(),
{
    if ds.len() == 0 {
        seq![]
    } else {
        records_of(ds.drop_last(), root, kind, platform).push(
            record_of(ds.last().0, ds.last().1, root, kind, platform).unwrap(),
        )
    }
}

/// The nested paths that `ds` add, in order.
pub open spec fn all_nested_of(ds: Seq<(Seq<char>, DetailedView)>) -> Seq<Seq<char>>
    decreases ds.len(),
{
    if ds.len() == 0 {
        seq![]
    } else {
        all_nested_of(ds.drop_last()) + nested_of(ds.last().1)
    }
}

fn copy_opt(o: &Option<String>) -> (r: Option<String>)
    ensures
        opt_str(r) == opt_str(*o),
{
    match o {
        Some(s) => Some(s.clone()),
        None => None,
    }
}

/// The reference selector of `d`.
pub fn reference(d: &DetailedTomlDependency) -> (r: String)
    ensures
        r@ == reference_of(d@),
{
    match &d.branch {
        Some(b) => b.clone(),
        None => match &d.tag {
            Some(t) => t.clone(),
            None => match &d.rev {
                Some(v) => v.clone(),
                None => String::from_str("master"),
            },
        },
    }
}

/// Resolves one declared dependency into its record, adding a local
/// dependency's path to `nested_paths`. Fails only on a remote URL that
/// does not parse, with the parser's message.
pub fn resolve_dependency(
    name: &String,
    dep: &TomlDependency,
    root: &String,
    kind: DependencyKind,
    platform: &Option<String>,
    nested_paths: &mut Vec<String>,
) -> (r: Result<Dependency, String>)
    ensures
        match r {
            Ok(d) => record_of(name@, dep@, root@, kind, opt_str(*platform)) == Some(d@)
                && strs(final(nested_paths)@) == strs(old(nested_paths)@) + nested_of(dep@),
            Err(_) => record_of(name@, dep@, root@, kind, opt_str(*platform)) is None,
        },
{
    let simple;
    let details = match dep {
        TomlDependency::SimpleDep(v) => {
            simple = DetailedTomlDependency {
                version: Some(v.clone()),
                path: None,
                git: None,
                branch: None,
                tag: None,
                rev: None,
                features: None,
                optional: None,
                default_features: None,
            };
            &simple
        },
        TomlDependency::DetailedDep(d) => d,
    };
    assert(details@ == dep@);
    let source_id = match &details.git {
        Some(g) => {
            let r = reference(details);
            match parse_url(g.as_str()) {
                Ok(u) => SourceId::Git { url: u, reference: r },
                Err(e) => {
                    return Err(e);
                },
            }
        },
        None => match &details.path {
            Some(p) => {
                let ghost before = nested_paths@;
                nested_paths.push(p.clone());
                assert(strs(nested_paths@) =~= strs(before) + seq![p@]);
                SourceId::Path { location: join(root.as_str(), p.as_str()) }
            },
            None => SourceId::Registry,
        },
    };
    proof {
        if !(details.git is None && details.path is Some) {
            assert(strs(nested_paths@) =~= strs(old(nested_paths)@) + nested_of(dep@));
        }
    }
    let d = Dependency {
        name: name.clone(),
        version_req: copy_opt(&details.version),
        source_id,
        features: match &details.features {
            Some(f) => copy_strings(f),
            None => Vec::new(),
        },
        default_features: match details.default_features {
            Some(b) => b,
            None => true,
        },
        optional: match details.optional {
            Some(b) => b,
            None => false,
        },
        kind,
        only_for_platform: copy_opt(platform),
    };
    assert(d@.features =~= record_of(name@, dep@, root@, kind, opt_str(*platform))->Some_0.features);
    Ok(d)
}

/// Resolves each dependency of `deps` in order, appending the records to
/// `out` and local paths to `nested_paths`; stops at the first remote URL
/// that does not parse.
pub fn process_dependencies(
    out: &mut Vec<Dependency>,
    nested_paths: &mut Vec<String>,
    deps: &Vec<(String, TomlDependency)>,
    root: &String,
    kind: DependencyKind,
    platform: &Option<String>,
) -> (r: Result<(), String>)
    ensures
        r is Ok <==> all_resolve(dep_entry_views(deps@), root@),
        r is Ok ==> dependency_views(final(out)@) == dependency_views(old(out)@) + records_of(
            dep_entry_views(deps@),
            root@,
            kind,
            opt_str(*platform),
        ),
        r is Ok ==> strs(final(nested_paths)@) == strs(old(nested_paths)@) + all_nested_of(
            dep_entry_views(deps@),
        ),
        r is Err ==> exists|k: int|
            0 <= k < deps@.len() && source_of(dep_entry_views(deps@)[k].1, root@) is None && all_resolve(
                dep_entry_views(deps@).take(k),
                root@,
            ) && dependency_views(final(out)@) == dependency_views(old(out)@) + records_of(
                dep_entry_views(deps@).take(k),
                root@,
                kind,
                opt_str(*platform),
            ),
{
    let ghost ds = dep_entry_views(deps@);
    let ghost plat = opt_str(*platform);
    let ghost out0 = dependency_views(out@);
    let ghost nested0 = strs(nested_paths@);
    let mut i: usize = 0;
    assert(ds.take(0) =~= seq![]);
    while i < deps.len()
        invariant
            i <= deps@.len(),
            ds == dep_entry_views(deps@),
            plat == opt_str(*platform),
            out0 == dependency_views(old(out)@),
            all_resolve(ds.take(i as int), root@),
            dependency_views(out@) =~= out0 + records_of(ds.take(i as int), root@, kind, plat),
            strs(nested_paths@) =~= nested0 + all_nested_of(ds.take(i as int)),
        decreases deps@.len() - i,
    {
        let ghost before = out@;
        assert(ds.take(i + 1).drop_last() =~= ds.take(i as int));
        match resolve_dependency(&deps[i].0, &deps[i].1, root, kind, platform, nested_paths) {
            Ok(d) => {
                out.push(d);
                assert(dependency_views(out@) =~= dependency_views(before).push(d@));
            },
            Err(e) => {
                assert(source_of(ds[i as int].1, root@) is None);
                assert(dependency_views(out@) == out0 + records_of(ds.take(i as int), root@, kind, plat));
                let ghost k = i as int;
                assert(0 <= k < deps@.len() && source_of(dep_entry_views(deps@)[k].1, root@) is None && all_resolve(
                    dep_entry_views(deps@).take(k),
                    root@,
                ) && dependency_views(out@) == dependency_views(old(out)@) + records_of(
                    dep_entry_views(deps@).take(k),
                    root@,
                    kind,
                    opt_str(*platform),
                ));
                return Err(e);
            },
        }
        assert(all_resolve(ds.take(i + 1), root@)) by {
            assert forall|j: int| 0 <= j < i + 1 implies source_of(#[trigger] ds.take(i + 1)[j].1, root@) is Some by {
                if j < i {
                    assert(ds.take(i + 1)[j] == ds.take(i as int)[j]);
                }
            }
        }
        i = i + 1;
    }
    assert(ds.take(deps@.len() as int) =~= ds);
    Ok(())
}

} // verus!
