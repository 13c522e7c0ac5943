//! Resolved build targets and the descriptors they are synthesized from.
use vstd::prelude::*;
use crate::profile::Profile;

verus! {

/// The output kind of a library target.
#[derive(Clone, Copy, Debug, PartialEq, Eq, Structural)]
pub enum LibKind {
    Lib,
    Rlib,
    Dylib,
    StaticLib,
}

/// The role of a target.
#[derive(Clone, Copy, Debug, PartialEq, Eq, Structural)]
pub enum TargetKind {
    Lib,
    Bin,
    Example,
    Test,
    Bench,
    CustomBuild,
}

/// The views of a sequence of strings.
pub open spec fn strs(v: Seq<String>) -> Seq<Seq<char>> {
    v.map_values(|s: String| s@)
}

/// A fingerprint of the package, mixed with extra strings to keep
/// artifacts of the same name apart.
#[derive(Debug)]
pub struct Metadata {
    pub package: String,
    pub mixes: Vec<String>,
}

pub struct MetadataView {
    pub package: Seq<char>,
    pub mixes: Seq<Seq<char>>,
}

impl View for Metadata {
    type V = MetadataView;

    open spec fn view(&self) -> MetadataView {
        MetadataView { package: self.package@, mixes: strs(self.mixes@) }
    }
}

/// `m` mixed with `s`.
pub open spec fn mixed(m: MetadataView, s: Seq<char>) -> MetadataView {
    MetadataView { mixes: m.mixes.push(s), ..m }
}

/// A copy of a vector of strings.
pub fn copy_strings(v: &Vec<String>) -> (r: Vec<String>)
    ensures
        r@ == v@,
{
    let mut r: Vec<String> = Vec::new();
    let mut i: usize = 0;
    while i < v.len()
        invariant
            i <= v@.len(),
            r@ == v@.take(i as int),
        decreases v@.len() - i,
    {
        r.push(v[i].clone());
        assert(v@.take(i + 1) =~= v@.take(i as int).push(v@[i as int]));
        i = i + 1;
    }
    assert(v@.take(v@.len() as int) =~= v@);
    r
}

impl Metadata {
    /// The fingerprint of a package, mixed with nothing yet.
    pub fn new(package: String) -> (r: Metadata)
        ensures
            r@ == (MetadataView { package: package@, mixes: seq![] }),
    {
        let r = Metadata { package, mixes: Vec::new() };
        assert(r@.mixes =~= seq![]);
        r
    }

    /// Mixes `s` into the fingerprint.
    pub fn mix(&mut self, s: &str)
        ensures
            final(self)@ == mixed(old(self)@, s@),
    {
        self.mixes.push(String::from_str(s));
        assert(final(self)@.mixes =~= old(self)@.mixes.push(s@));
    }

    /// A copy of this fingerprint.
    pub fn duplicate(&self) -> (r: Metadata)
        ensures
            r@ == self@,
    {
        Metadata { package: self.package.clone(), mixes: copy_strings(&self.mixes) }
    }
}

/// A resolved target: one role of one descriptor under one profile.
#[derive(Debug)]
pub struct Target {
    pub kind: TargetKind,
    pub name: String,
    pub crate_types: Vec<LibKind>,
    pub src_path: String,
    pub profile: Profile,
    pub metadata: Option<Metadata>,
}

pub struct TargetView {
    pub kind: TargetKind,
    pub name: Seq<char>,
    pub crate_types: Seq<LibKind>,
    pub src_path: Seq<char>,
    pub profile: Profile,
    pub metadata: Option<MetadataView>,
}

pub open spec fn opt_meta(m: Option<Metadata>) -> Option<MetadataView> {
    match m {
        Some(x) => Some(x@),
        None => None,
    }
}

impl View for Target {
    type V = TargetView;

    open spec fn view(&self) -> TargetView {
        TargetView {
            kind: self.kind,
            name: self.name@,
            crate_types: self.crate_types@,
            src_path: self.src_path@,
            profile: self.profile,
            metadata: opt_meta(self.metadata),
        }
    }
}

/// The views of a sequence of targets.
pub open spec fn target_views(v: Seq<Target>) -> Seq<TargetView> {
    v.map_values(|t: Target| t@)
}

/// A source path as written in the descriptor, or as a path value.
#[derive(Debug)]
pub enum TomlPathValue {
    TomlString(String),
    TomlPath(String),
}

impl View for TomlPathValue {
    type V = Seq<char>;

    open spec fn view(&self) -> Seq<char> {
        match self {
            TomlPathValue::TomlString(s) => s@,
            TomlPathValue::TomlPath(p) => p@,
        }
    }
}

impl TomlPathValue {
    /// The path this value names.
    pub fn to_path(&self) -> (r: String)
        ensures
            r@ == self@,
    {
        match self {
            TomlPathValue::TomlString(s) => s.clone(),
            TomlPathValue::TomlPath(p) => p.clone(),
        }
    }
}

/// A declared or inferred buildable unit.
#[derive(Debug)]
pub struct TomlTarget {
    pub name: String,
    pub crate_type: Option<Vec<String>>,
    pub path: Option<TomlPathValue>,
    pub test: Option<bool>,
    pub doctest: Option<bool>,
    pub bench: Option<bool>,
    pub doc: Option<bool>,
    pub plugin: Option<bool>,
    pub harness: Option<bool>,
}

pub struct TomlTargetView {
    pub name: Seq<char>,
    pub crate_type: Option<Seq<Seq<char>>>,
    pub path: Option<Seq<char>>,
    pub test: Option<bool>,
    pub doctest: Option<bool>,
    pub bench: Option<bool>,
    pub doc: Option<bool>,
    pub plugin: Option<bool>,
    pub harness: Option<bool>,
}

impl View for TomlTarget {
    type V = TomlTargetView;

    open spec fn view(&self) -> TomlTargetView {
        TomlTargetView {
            name: self.name@,
            crate_type: match self.crate_type {
                Some(v) => Some(strs(v@)),
                None => None,
            },
            path: match self.path {
                Some(p) => Some(p@),
                None => None,
            },
            test: self.test,
            doctest: self.doctest,
            bench: self.bench,
            doc: self.doc,
            plugin: self.plugin,
            harness: self.harness,
        }
    }
}

/// The views of a sequence of descriptors.
pub open spec fn toml_target_views(v: Seq<TomlTarget>) -> Seq<TomlTargetView> {
    v.map_values(|t: TomlTarget| t@)
}

/// A descriptor with only a name and, possibly, a path.
pub open spec fn plain_target(name: Seq<char>, path: Option<Seq<char>>) -> TomlTargetView {
    TomlTargetView {
        name,
        crate_type: None,
        path,
        test: None,
        doctest: None,
        bench: None,
        doc: None,
        plugin: None,
        harness: None,
    }
}

impl TomlTarget {
    /// A descriptor with an empty name and nothing else set.
    pub fn new() -> (r: TomlTarget)
        ensures
            r@ == plain_target(seq![], None),
    {
        let r = TomlTarget {
            name: String::new(),
            crate_type: None,
            path: None,
            test: None,
            doctest: None,
            bench: None,
            doc: None,
            plugin: None,
            harness: None,
        };
        assert(r@.name =~= seq![]);
        r
    }

    /// A copy of this descriptor.
    pub fn duplicate(&self) -> (r: TomlTarget)
        ensures
            r@ == self@,
    {
        TomlTarget {
            name: self.name.clone(),
            crate_type: match &self.crate_type {
                Some(v) => Some(copy_strings(v)),
                None => None,
            },
            path: match &self.path {
                Some(p) => Some(TomlPathValue::TomlPath(p.to_path())),
                None => None,
            },
            test: self.test,
            doctest: self.doctest,
            bench: self.bench,
            doc: self.doc,
            plugin: self.plugin,
            harness: self.harness,
        }
    }

    /// This descriptor with `path` as its source path.
    pub fn with_path(&self, path: String) -> (r: TomlTarget)
        ensures
            r@ == (TomlTargetView { path: Some(path@), ..self@ }),
    {
        let mut r = self.duplicate();
        r.path = Some(TomlPathValue::TomlPath(path));
        r
    }
}

} // verus!
