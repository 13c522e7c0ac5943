//! The typed manifest descriptor and its decoding from the generic tree.
use vstd::prelude::*;
use crate::config::ConfigValue;
use crate::decode::{
    all_strs, decode_dependencies, decode_profiles, decode_target, decode_targets, dep_of, lookup,
    lookup_of, opt_str_of, opt_string, opt_strings, opt_strs_of, str_items, string_items, target_value_of,
    type_error, profiles_of, lookup2_of,
};
use crate::dependency::{TomlDependency, opt_str};
use crate::outside::{parse_version, semver_accepts};
use crate::profile::TomlProfiles;
use crate::target::{TomlTarget, strs};

verus! {

/// A package version: the parsed value and the text it was read from.
#[derive(Debug)]
pub struct TomlVersion {
    pub version: semver::Version,
    pub text: String,
}

/// A custom build command: one command, or the legacy list of commands.
#[derive(Debug)]
pub enum TomlBuildCommandsList {
    SingleBuildCommand(String),
    MultipleBuildCommands(Vec<String>),
}

/// A section given either as one table or as a list of tables.
#[derive(Debug)]
pub enum ManyOrOne<T> {
    Many(Vec<T>),
    One(T),
}

impl<T> ManyOrOne<T> {
    /// The tables of this section, in order.
    pub fn as_slice(&self) -> (r: Vec<&T>)
        ensures
            match self {
                ManyOrOne::Many(v) => r@.len() == v@.len() && forall|i: int|
                    0 <= i < v@.len() ==> *#[trigger] r@[i] == v@[i],
                ManyOrOne::One(t) => r@.len() == 1 && *r@[0] == *t,
            },
    {
        match self {
            ManyOrOne::Many(v) => {
                let mut out: Vec<&T> = Vec::new();
                let mut i: usize = 0;
                while i < v.len()
                    invariant
                        i <= v@.len(),
                        out@.len() == i,
                        forall|j: int| 0 <= j < i ==> *#[trigger] out@[j] == v@[j],
                    decreases v@.len() - i,
                {
                    out.push(&v[i]);
                    i = i + 1;
                }
                out
            },
            ManyOrOne::One(t) => {
                let mut out: Vec<&T> = Vec::new();
                out.push(t);
                out
            },
        }
    }
}

/// The package section.
#[derive(Debug)]
pub struct TomlProject {
    pub name: String,
    pub version: TomlVersion,
    pub authors: Vec<String>,
    pub build: Option<TomlBuildCommandsList>,
    pub links: Option<String>,
    pub exclude: Option<Vec<String>>,
    pub description: Option<String>,
    pub homepage: Option<String>,
    pub documentation: Option<String>,
    pub readme: Option<String>,
    pub keywords: Option<Vec<String>>,
    pub license: Option<String>,
    pub repository: Option<String>,
}

/// The dependencies declared for one platform.
#[derive(Debug)]
pub struct TomlPlatform {
    pub dependencies: Option<Vec<(String, TomlDependency)>>,
}

/// The whole typed descriptor.
#[derive(Debug)]
pub struct TomlManifest {
    pub package: Option<TomlProject>,
    pub project: Option<TomlProject>,
    pub profile: Option<TomlProfiles>,
    pub lib: Option<ManyOrOne<TomlTarget>>,
    pub bin: Option<Vec<TomlTarget>>,
    pub example: Option<Vec<TomlTarget>>,
    pub test: Option<Vec<TomlTarget>>,
    pub bench: Option<Vec<TomlTarget>>,
    pub dependencies: Option<Vec<(String, TomlDependency)>>,
    pub dev_dependencies: Option<Vec<(String, TomlDependency)>>,
    pub build_dependencies: Option<Vec<(String, TomlDependency)>>,
    pub features: Option<Vec<(String, Vec<String>)>>,
    pub target: Option<Vec<(String, TomlPlatform)>>,
}

/// `b` is what the build value `v` decodes to: one command from a string,
/// the legacy list from an array of strings.
pub open spec fn build_field(v: ConfigValue, b: TomlBuildCommandsList) -> bool {
    match (v, b) {
        (ConfigValue::Str(s), TomlBuildCommandsList::SingleBuildCommand(c)) => c@ == s@,
        (ConfigValue::Array(a), TomlBuildCommandsList::MultipleBuildCommands(cs)) => all_strs(a@) && strs(cs@)
            == str_items(a@),
        _ => false,
    }
}

fn opt_list(t: &Vec<(String, ConfigValue)>, k: &str, path: &String) -> (r: Result<Option<Vec<String>>, String>)
    ensures
        match r {
            Ok(x) => opt_strs_of(lookup2_of(t@, k@, k@)) == Some(
                match x {
                    Some(v) => Some(strs(v@)),
                    None => None,
                },
            ),
            Err(_) => opt_strs_of(lookup2_of(t@, k@, k@)) is None,
        },
{
    opt_strings(t, k, k, path)
}

pub open spec fn opt_strs_view(o: Option<Vec<String>>) -> Option<Seq<Seq<char>>> {
    match o {
        Some(v) => Some(strs(v@)),
        None => None,
    }
}

/// `p` is what the package table `v` decodes to, field by field.
pub open spec fn decoded_project(v: ConfigValue, p: TomlProject) -> bool {
    &&& v is Table
    &&& lookup_of(v->Table_0@, "name"@) == Some(ConfigValue::Str(p.name))
    &&& lookup_of(v->Table_0@, "version"@) == Some(ConfigValue::Str(p.version.text))
    &&& semver_accepts(p.version.text@)
    &&& lookup_of(v->Table_0@, "authors"@) matches Some(ConfigValue::Array(a)) && all_strs(a@) && strs(p.authors@)
        == str_items(a@)
    &&& match (lookup_of(v->Table_0@, "build"@), p.build) {
        (None, None) => true,
        (Some(b), Some(pb)) => build_field(b, pb),
        _ => false,
    }
    &&& opt_str_of(lookup_of(v->Table_0@, "links"@)) == Some(opt_str(p.links))
    &&& opt_strs_of(lookup2_of(v->Table_0@, "exclude"@, "exclude"@)) == Some(opt_strs_view(p.exclude))
    &&& opt_str_of(lookup_of(v->Table_0@, "description"@)) == Some(opt_str(p.description))
    &&& opt_str_of(lookup_of(v->Table_0@, "homepage"@)) == Some(opt_str(p.homepage))
    &&& opt_str_of(lookup_of(v->Table_0@, "documentation"@)) == Some(opt_str(p.documentation))
    &&& opt_str_of(lookup_of(v->Table_0@, "readme"@)) == Some(opt_str(p.readme))
    &&& opt_strs_of(lookup2_of(v->Table_0@, "keywords"@, "keywords"@)) == Some(opt_strs_view(p.keywords))
    &&& opt_str_of(lookup_of(v->Table_0@, "license"@)) == Some(opt_str(p.license))
    &&& opt_str_of(lookup_of(v->Table_0@, "repository"@)) == Some(opt_str(p.repository))
}

/// `x` is what the optional package section `o` decodes to.
pub open spec fn project_field(o: Option<ConfigValue>, x: Option<TomlProject>) -> bool {
    match (o, x) {
        (None, None) => true,
        (Some(v), Some(p)) => decoded_project(v, p),
        _ => false,
    }
}

/// The start of the error for a version that semver rejects.
pub open spec fn version_error_prefix(path: Seq<char>) -> Seq<char> {
    "invalid version for the key `"@ + path + ".version`: "@
}

/// The package table has a string name and a version string that semver
/// rejects.
pub open spec fn bad_version(v: ConfigValue) -> bool {
    &&& v is Table
    &&& lookup_of(v->Table_0@, "name"@) is Some
    &&& lookup_of(v->Table_0@, "name"@)->Some_0 is Str
    &&& lookup_of(v->Table_0@, "version"@) is Some
    &&& lookup_of(v->Table_0@, "version"@)->Some_0 is Str
    &&& !semver_accepts(lookup_of(v->Table_0@, "version"@)->Some_0->Str_0@)
}

/// Decodes the package section.
pub fn decode_project(v: &ConfigValue, path: &String) -> (r: Result<TomlProject, String>)
    ensures
        r matches Ok(p) ==> decoded_project(*v, p),
        bad_version(*v) ==> r is Err && r->Err_0@.take(version_error_prefix(path@).len() as int)
            == version_error_prefix(path@),
        r is Err ==> forall|p: TomlProject| !decoded_project(*v, p),
{
    let t = match v {
        ConfigValue::Table(t) => t,
        _ => {
            return Err(type_error("table", path));
        },
    };
    let name = match lookup(t, "name") {
        Some(ConfigValue::Str(n)) => n.clone(),
        _ => {
            return Err(type_error("string", &crate::normalize::concat3(path.as_str(), ".", "name")));
        },
    };
    let version = match lookup(t, "version") {
        Some(ConfigValue::Str(s)) => match parse_version(s.as_str()) {
            Ok(ver) => TomlVersion { version: ver, text: s.clone() },
            Err(e) => {
                let mut m = String::from_str("invalid version for the key `");
                m.append(path.as_str());
                m.append(".version`: ");
                let r = m.concat(e.as_str());
                assert(r@.take(version_error_prefix(path@).len() as int) =~= version_error_prefix(path@));
                return Err(r);
            },
        },
        _ => {
            return Err(type_error("string", &crate::normalize::concat3(path.as_str(), ".", "version")));
        },
    };
    let authors = match lookup(t, "authors") {
        Some(ConfigValue::Array(a)) => match string_items(a) {
            Some(x) => x,
            None => {
                return Err(type_error("array of strings", &crate::normalize::concat3(path.as_str(), ".", "authors")));
            },
        },
        _ => {
            return Err(type_error("array", &crate::normalize::concat3(path.as_str(), ".", "authors")));
        },
    };
    let build = match lookup(t, "build") {
        None => None,
        Some(ConfigValue::Str(s)) => Some(TomlBuildCommandsList::SingleBuildCommand(s.clone())),
        Some(ConfigValue::Array(a)) => match string_items(a) {
            Some(x) => Some(TomlBuildCommandsList::MultipleBuildCommands(x)),
            None => {
                return Err(type_error("array of strings", &crate::normalize::concat3(path.as_str(), ".", "build")));
            },
        },
        Some(_) => {
            return Err(type_error("string", &crate::normalize::concat3(path.as_str(), ".", "build")));
        },
    };
    let links = opt_string(t, "links", path)?;
    let exclude = opt_list(t, "exclude", path)?;
    let description = opt_string(t, "description", path)?;
    let homepage = opt_string(t, "homepage", path)?;
    let documentation = opt_string(t, "documentation", path)?;
    let readme = opt_string(t, "readme", path)?;
    let keywords = opt_list(t, "keywords", path)?;
    let license = opt_string(t, "license", path)?;
    let repository = opt_string(t, "repository", path)?;
    Ok(
        TomlProject {
            name,
            version,
            authors,
            build,
            links,
            exclude,
            description,
            homepage,
            documentation,
            readme,
            keywords,
            license,
            repository,
        },
    )
}

/// `x` is what the optional target-list section `o` decodes to.
pub open spec fn targets_field(o: Option<ConfigValue>, x: Option<Vec<TomlTarget>>) -> bool {
    match (o, x) {
        (None, None) => true,
        (Some(ConfigValue::Array(a)), Some(ts)) => ts@.len() == a@.len() && forall|i: int|
            0 <= i < ts@.len() ==> target_value_of(a@[i]) == Some(#[trigger] ts@[i]@),
        _ => false,
    }
}

/// `x` is what the optional library section `o` decodes to: one table, or
/// the legacy list of tables.
pub open spec fn lib_field(o: Option<ConfigValue>, x: Option<ManyOrOne<TomlTarget>>) -> bool {
    match (o, x) {
        (None, None) => true,
        (Some(ConfigValue::Table(t)), Some(ManyOrOne::One(l))) => target_value_of(ConfigValue::Table(t)) == Some(l@),
        (Some(ConfigValue::Array(a)), Some(ManyOrOne::Many(ts))) => ts@.len() == a@.len() && forall|i: int|
            0 <= i < ts@.len() ==> target_value_of(a@[i]) == Some(#[trigger] ts@[i]@),
        _ => false,
    }
}

/// `x` is what the optional dependency section `o` decodes to.
pub open spec fn deps_field(o: Option<ConfigValue>, x: Option<Vec<(String, TomlDependency)>>) -> bool {
    match (o, x) {
        (None, None) => true,
        (Some(ConfigValue::Table(t)), Some(ds)) => crate::decode::keys_distinct(t@) && ds@.len() == t@.len()
            && forall|i: int|
            0 <= i < ds@.len() ==> (#[trigger] ds@[i]).0@ == t@[i].0@ && dep_of(t@[i].1) == Some(ds@[i].1@),
        _ => false,
    }
}

/// No two dependencies of a section share a name.
pub open spec fn section_names_distinct(x: Option<Vec<(String, TomlDependency)>>) -> bool {
    match x {
        Some(ds) => forall|a: int, b: int| 0 <= a < b < ds@.len() ==> (#[trigger] ds@[a]).0@ != (#[trigger] ds@[b]).0@,
        None => true,
    }
}

/// Every dependency section of `m`, the per-platform ones included, names
/// each dependency once.
pub open spec fn dependency_names_distinct(m: TomlManifest) -> bool {
    &&& section_names_distinct(m.dependencies)
    &&& section_names_distinct(m.dev_dependencies)
    &&& section_names_distinct(m.build_dependencies)
    &&& match m.target {
        Some(ps) => forall|i: int| 0 <= i < ps@.len() ==> section_names_distinct(#[trigger] ps@[i].1.dependencies),
        None => true,
    }
}

proof fn lemma_deps_field_names(o: Option<ConfigValue>, x: Option<Vec<(String, TomlDependency)>>)
    requires
        deps_field(o, x),
    ensures
        section_names_distinct(x),
{
    if let (Some(ConfigValue::Table(t)), Some(ds)) = (o, x) {
        assert forall|a: int, b: int| 0 <= a < b < ds@.len() implies (#[trigger] ds@[a]).0@ != (#[trigger] ds@[b]).0@ by {
            assert(ds@[a].0@ == t@[a].0@ && ds@[b].0@ == t@[b].0@);
        }
    }
}

/// No two features share a name.
pub open spec fn feature_names_distinct(m: TomlManifest) -> bool {
    match m.features {
        Some(fs) => forall|a: int, b: int| 0 <= a < b < fs@.len() ==> (#[trigger] fs@[a]).0@ != (#[trigger] fs@[b]).0@,
        None => true,
    }
}

/// A decoded descriptor names each feature once.
pub proof fn lemma_decoded_features_distinct(v: ConfigValue, m: TomlManifest)
    requires
        decoded_manifest(v, m),
    ensures
        feature_names_distinct(m),
{
    if let (Some(ConfigValue::Table(t)), Some(fs)) = (lookup_of(v->Table_0@, "features"@), m.features) {
        assert forall|a: int, b: int| 0 <= a < b < fs@.len() implies (#[trigger] fs@[a]).0@ != (#[trigger] fs@[b]).0@ by {
            assert(fs@[a].0@ == t@[a].0@ && fs@[b].0@ == t@[b].0@);
        }
    }
}

/// A decoded descriptor names each dependency once per section.
pub proof fn lemma_decoded_names_distinct(v: ConfigValue, m: TomlManifest)
    requires
        decoded_manifest(v, m),
    ensures
        dependency_names_distinct(m),
{
    let t = v->Table_0@;
    lemma_deps_field_names(lookup_of(t, "dependencies"@), m.dependencies);
    lemma_deps_field_names(lookup2_of(t, "dev-dependencies"@, "dev_dependencies"@), m.dev_dependencies);
    lemma_deps_field_names(lookup2_of(t, "build-dependencies"@, "build_dependencies"@), m.build_dependencies);
    if let (Some(ConfigValue::Table(pt)), Some(ps)) = (lookup_of(t, "target"@), m.target) {
        assert forall|i: int| 0 <= i < ps@.len() implies section_names_distinct(#[trigger] ps@[i].1.dependencies) by {
            assert(platform_field(pt@[i].1, ps@[i].1));
            lemma_deps_field_names(lookup_of(pt@[i].1->Table_0@, "dependencies"@), ps@[i].1.dependencies);
        }
    }
}

/// `x` is what the feature entry `v` decodes to: an array of strings.
pub open spec fn feature_of(v: ConfigValue, x: Vec<String>) -> bool {
    match v {
        ConfigValue::Array(a) => all_strs(a@) && strs(x@) == str_items(a@),
        _ => false,
    }
}

/// `x` is what the platform table `v` decodes to.
pub open spec fn platform_field(v: ConfigValue, x: TomlPlatform) -> bool {
    v is Table && deps_field(lookup_of(v->Table_0@, "dependencies"@), x.dependencies)
}

/// `x` is what the optional profile section `o` decodes to.
pub open spec fn profile_field(o: Option<ConfigValue>, x: Option<TomlProfiles>) -> bool {
    match (o, x) {
        (None, None) => true,
        (Some(ConfigValue::Table(t)), Some(p)) => profiles_of(t@) == Some(p),
        _ => false,
    }
}

fn opt_targets(t: &Vec<(String, ConfigValue)>, k: &str) -> (r: Result<Option<Vec<TomlTarget>>, String>)
    ensures
        r matches Ok(x) ==> targets_field(lookup_of(t@, k@), x),
        r is Err ==> forall|x: Option<Vec<TomlTarget>>| !targets_field(lookup_of(t@, k@), x),
{
    match lookup(t, k) {
        None => Ok(None),
        Some(v) => match decode_targets(v, &String::from_str(k)) {
            Ok(ts) => Ok(Some(ts)),
            Err(e) => {
                proof {
                    lemma_targets_field_all(*v);
                }
                Err(e)
            },
        },
    }
}

proof fn lemma_targets_field_all(v: ConfigValue)
    ensures
        forall|x: Option<Vec<TomlTarget>>| #[trigger] targets_field(Some(v), x) ==> v is Array && crate::decode::all_targets(v->Array_0@),
{
    assert forall|x: Option<Vec<TomlTarget>>| #[trigger] targets_field(Some(v), x) implies v is Array && crate::decode::all_targets(v->Array_0@) by {
        if let (ConfigValue::Array(a), Some(ts)) = (v, x) {
            assert forall|i: int| 0 <= i < a@.len() implies target_value_of(#[trigger] a@[i]) is Some by {
                assert(target_value_of(a@[i]) == Some(ts@[i]@));
            }
        }
    }
}

proof fn lemma_deps_field_all(v: ConfigValue)
    ensures
        forall|x: Option<Vec<(String, TomlDependency)>>| #[trigger] deps_field(Some(v), x) ==> v is Table
            && crate::decode::keys_distinct(v->Table_0@) && forall|i: int|
            0 <= i < v->Table_0@.len() ==> dep_of(#[trigger] v->Table_0@[i].1) is Some,
{
    assert forall|x: Option<Vec<(String, TomlDependency)>>| #[trigger] deps_field(Some(v), x) implies v is Table
        && crate::decode::keys_distinct(v->Table_0@) && forall|i: int|
        0 <= i < v->Table_0@.len() ==> dep_of(#[trigger] v->Table_0@[i].1) is Some by {
        if let (ConfigValue::Table(t), Some(ds)) = (v, x) {
            assert forall|i: int| 0 <= i < t@.len() implies dep_of(#[trigger] t@[i].1) is Some by {
                assert(dep_of(t@[i].1) == Some(ds@[i].1@));
            }
        }
    }
}

fn opt_deps(t: &Vec<(String, ConfigValue)>, k1: &str, k2: &str) -> (r: Result<Option<Vec<(String, TomlDependency)>>, String>)
    ensures
        r matches Ok(x) ==> deps_field(lookup2_of(t@, k1@, k2@), x),
        r is Err ==> forall|x: Option<Vec<(String, TomlDependency)>>| !deps_field(lookup2_of(t@, k1@, k2@), x),
{
    match crate::decode::lookup2(t, k1, k2) {
        None => Ok(None),
        Some(v) => match decode_dependencies(v, &String::from_str(k1)) {
            Ok(ds) => Ok(Some(ds)),
            Err(e) => {
                proof {
                    lemma_deps_field_all(*v);
                }
                Err(e)
            },
        },
    }
}

/// Whether a feature entry is an array of strings.
pub open spec fn feature_ok(v: ConfigValue) -> bool {
    v matches ConfigValue::Array(a) && all_strs(a@)
}

fn decode_features(v: &ConfigValue) -> (r: Result<Vec<(String, Vec<String>)>, String>)
    ensures
        r is Err ==> !(v is Table && crate::decode::keys_distinct(v->Table_0@) && forall|i: int|
            0 <= i < v->Table_0@.len() ==> feature_ok(#[trigger] v->Table_0@[i].1)),
        r matches Ok(x) ==> v is Table && crate::decode::keys_distinct(v->Table_0@) && x@.len() == v->Table_0@.len()
            && forall|i: int|
            0 <= i < x@.len() ==> (#[trigger] x@[i]).0@ == v->Table_0@[i].0@ && feature_of(v->Table_0@[i].1, x@[i].1),
{
    let path = String::from_str("features");
    let t = match v {
        ConfigValue::Table(t) => t,
        _ => {
            return Err(type_error("table", &path));
        },
    };
    let mut out: Vec<(String, Vec<String>)> = Vec::new();
    let mut i: usize = 0;
    while i < t.len()
        invariant
            *v == ConfigValue::Table(*t),
            i <= t@.len(),
            out@.len() == i,
            crate::decode::keys_distinct(t@.take(i as int)),
            forall|j: int|
                0 <= j < i ==> (#[trigger] out@[j]).0@ == t@[j].0@ && feature_of(t@[j].1, out@[j].1),
        decreases t@.len() - i,
    {
        if crate::decode::earlier_key(t, i) {
            return Err(crate::normalize::concat3("duplicate key `features.", t[i].0.as_str(), "`"));
        }
        assert(crate::decode::keys_distinct(t@.take(i + 1))) by {
            assert forall|a: int, b: int| 0 <= a < b < i + 1 implies (#[trigger] t@.take(i + 1)[a]).0@ != (
            #[trigger] t@.take(i + 1)[b]).0@ by {
                if b < i {
                    assert(t@.take(i + 1)[a] == t@.take(i as int)[a] && t@.take(i + 1)[b] == t@.take(i as int)[b]);
                }
            }
        }
        match &t[i].1 {
            ConfigValue::Array(a) => match string_items(a) {
                Some(x) => out.push((t[i].0.clone(), x)),
                None => {
                    assert(!feature_ok(v->Table_0@[i as int].1));
                    return Err(type_error("array of strings", &crate::normalize::concat3("features", ".", t[i].0.as_str())));
                },
            },
            _ => {
                assert(!feature_ok(v->Table_0@[i as int].1));
                return Err(type_error("array", &crate::normalize::concat3("features", ".", t[i].0.as_str())));
            },
        }
        i = i + 1;
    }
    assert(t@.take(t@.len() as int) =~= t@);
    Ok(out)
}

/// Whether a platform entry decodes.
pub open spec fn platform_ok(v: ConfigValue) -> bool {
    v matches ConfigValue::Table(t) && match lookup_of(t@, "dependencies"@) {
        None => true,
        Some(ConfigValue::Table(d)) => crate::decode::keys_distinct(d@) && forall|i: int|
            0 <= i < d@.len() ==> dep_of(#[trigger] d@[i].1) is Some,
        _ => false,
    }
}

fn decode_platforms(v: &ConfigValue) -> (r: Result<Vec<(String, TomlPlatform)>, String>)
    ensures
        r is Err ==> !(v is Table && forall|i: int| 0 <= i < v->Table_0@.len() ==> platform_ok(#[trigger] v->Table_0@[i].1)),
        r matches Ok(x) ==> v is Table && x@.len() == v->Table_0@.len() && forall|i: int|
            0 <= i < x@.len() ==> (#[trigger] x@[i]).0@ == v->Table_0@[i].0@ && platform_field(
                v->Table_0@[i].1,
                x@[i].1,
            ),
{
    let path = String::from_str("target");
    let t = match v {
        ConfigValue::Table(t) => t,
        _ => {
            return Err(type_error("table", &path));
        },
    };
    let mut out: Vec<(String, TomlPlatform)> = Vec::new();
    let mut i: usize = 0;
    while i < t.len()
        invariant
            *v == ConfigValue::Table(*t),
            i <= t@.len(),
            out@.len() == i,
            forall|j: int| 0 <= j < i ==> (#[trigger] out@[j]).0@ == t@[j].0@ && platform_field(t@[j].1, out@[j].1),
        decreases t@.len() - i,
    {
        let key = crate::normalize::concat3("target", ".", t[i].0.as_str());
        let deps = match &t[i].1 {
            ConfigValue::Table(p) => match lookup(p, "dependencies") {
                None => None,
                Some(d) => match decode_dependencies(d, &crate::normalize::concat3(key.as_str(), ".", "dependencies")) {
                    Ok(ds) => Some(ds),
                    Err(e) => {
                        assert(!platform_ok(v->Table_0@[i as int].1));
                        return Err(e);
                    },
                },
            },
            _ => {
                assert(!platform_ok(v->Table_0@[i as int].1));
                return Err(type_error("table", &key));
            },
        };
        out.push((t[i].0.clone(), TomlPlatform { dependencies: deps }));
        i = i + 1;
    }
    Ok(out)
}

/// `m` is what the root table `v` decodes to, section by section.
pub open spec fn decoded_manifest(v: ConfigValue, m: TomlManifest) -> bool {
    &&& v is Table
    &&& project_field(lookup_of(v->Table_0@, "package"@), m.package)
    &&& project_field(lookup_of(v->Table_0@, "project"@), m.project)
    &&& match (lookup_of(v->Table_0@, "features"@), m.features) {
        (None, None) => true,
        (Some(ConfigValue::Table(t)), Some(fs)) => crate::decode::keys_distinct(t@) && fs@.len() == t@.len() && forall|i: int|
            0 <= i < fs@.len() ==> (#[trigger] fs@[i]).0@ == t@[i].0@ && feature_of(t@[i].1, fs@[i].1),
        _ => false,
    }
    &&& profile_field(lookup_of(v->Table_0@, "profile"@), m.profile)
    &&& lib_field(lookup_of(v->Table_0@, "lib"@), m.lib)
    &&& targets_field(lookup_of(v->Table_0@, "bin"@), m.bin)
    &&& targets_field(lookup_of(v->Table_0@, "example"@), m.example)
    &&& targets_field(lookup_of(v->Table_0@, "test"@), m.test)
    &&& targets_field(lookup_of(v->Table_0@, "bench"@), m.bench)
    &&& deps_field(lookup_of(v->Table_0@, "dependencies"@), m.dependencies)
    &&& deps_field(lookup2_of(v->Table_0@, "dev-dependencies"@, "dev_dependencies"@), m.dev_dependencies)
    &&& deps_field(lookup2_of(v->Table_0@, "build-dependencies"@, "build_dependencies"@), m.build_dependencies)
    &&& match (lookup_of(v->Table_0@, "target"@), m.target) {
        (None, None) => true,
        (Some(ConfigValue::Table(t)), Some(ps)) => ps@.len() == t@.len() && forall|i: int|
            0 <= i < ps@.len() ==> (#[trigger] ps@[i]).0@ == t@[i].0@ && platform_field(t@[i].1, ps@[i].1),
        _ => false,
    }
}

/// Decodes the whole typed descriptor from the root table.
pub fn decode_manifest(v: &ConfigValue) -> (r: Result<TomlManifest, String>)
    ensures
        r is Ok ==> v is Table,
        r matches Ok(m) ==> decoded_manifest(*v, m) && dependency_names_distinct(m) && feature_names_distinct(m),
        r is Err ==> forall|m: TomlManifest| !decoded_manifest(*v, m),
{
    let t = match v {
        ConfigValue::Table(t) => t,
        _ => {
            return Err(type_error("table", &String::new()));
        },
    };
    let package = match lookup(t, "package") {
        None => None,
        Some(p) => Some(decode_project(p, &String::from_str("package"))?),
    };
    let project = match lookup(t, "project") {
        None => None,
        Some(p) => Some(decode_project(p, &String::from_str("project"))?),
    };
    let profile = match lookup(t, "profile") {
        None => None,
        Some(p) => Some(decode_profiles(p, &String::from_str("profile"))?),
    };
    let lib = match lookup(t, "lib") {
        None => None,
        Some(ConfigValue::Array(a)) => {
            let l = lookup(t, "lib").unwrap();
            match decode_targets(l, &String::from_str("lib")) {
                Ok(ts) => Some(ManyOrOne::Many(ts)),
                Err(e) => {
                    proof {
                        assert forall|m: TomlManifest| !decoded_manifest(*v, m) by {
                            if decoded_manifest(*v, m) {
                                if let Some(ManyOrOne::Many(ts)) = m.lib {
                                    assert forall|i: int| 0 <= i < a@.len() implies target_value_of(#[trigger] a@[i]) is Some by {
                                        assert(target_value_of(a@[i]) == Some(ts@[i]@));
                                    }
                                }
                            }
                        }
                    }
                    return Err(e);
                },
            }
        },
        Some(l) => {
            let x = decode_target(l, &String::from_str("lib"))?;
            Some(ManyOrOne::One(x))
        },
    };
    let bin = opt_targets(t, "bin")?;
    let example = opt_targets(t, "example")?;
    let test = opt_targets(t, "test")?;
    let bench = opt_targets(t, "bench")?;
    let dependencies = opt_deps(t, "dependencies", "dependencies")?;
    let dev_dependencies = opt_deps(t, "dev-dependencies", "dev_dependencies")?;
    let build_dependencies = opt_deps(t, "build-dependencies", "build_dependencies")?;
    let features = match lookup(t, "features") {
        None => None,
        Some(f) => match decode_features(f) {
            Ok(fs) => Some(fs),
            Err(e) => {
                proof {
                    assert forall|m: TomlManifest| !decoded_manifest(*v, m) by {
                        if decoded_manifest(*v, m) {
                            if let (ConfigValue::Table(ft), Some(fs)) = (*f, m.features) {
                                assert forall|i: int| 0 <= i < ft@.len() implies feature_ok(#[trigger] ft@[i].1) by {
                                    assert(feature_of(ft@[i].1, fs@[i].1));
                                }
                            }
                        }
                    }
                }
                return Err(e);
            },
        },
    };
    let target = match lookup(t, "target") {
        None => None,
        Some(p) => match decode_platforms(p) {
            Ok(ps) => Some(ps),
            Err(e) => {
                proof {
                    assert forall|m: TomlManifest| !decoded_manifest(*v, m) by {
                        if decoded_manifest(*v, m) {
                            if let (ConfigValue::Table(pt), Some(ps)) = (*p, m.target) {
                                assert forall|i: int| 0 <= i < pt@.len() implies platform_ok(#[trigger] pt@[i].1) by {
                                    assert(platform_field(pt@[i].1, ps@[i].1));
                                    if let Some(d) = lookup_of(pt@[i].1->Table_0@, "dependencies"@) {
                                        lemma_deps_field_all(d);
                                    }
                                }
                            }
                        }
                    }
                }
                return Err(e);
            },
        },
    };
    let m = TomlManifest {
        package,
        project,
        profile,
        lib,
        bin,
        example,
        test,
        bench,
        dependencies,
        dev_dependencies,
        build_dependencies,
        features,
        target,
    };
    proof {
        lemma_decoded_names_distinct(*v, m);
        lemma_decoded_features_distinct(*v, m);
    }
    Ok(m)
}

} // verus!
