//! Field-level decoding of the generic tree into typed descriptors.
use vstd::prelude::*;
use crate::config::{ConfigValue, extend_key};
use crate::dependency::{DetailedTomlDependency, DetailedView, TomlDependency, opt_str};
use crate::path::str_eq;
use crate::target::{TomlPathValue, TomlTarget, TomlTargetView, strs};
use crate::profile::{TomlProfile, TomlProfiles};

verus! {

/// The value of the first entry of `t` whose key is `k`.
pub open spec fn lookup_of(t: Seq<(String, ConfigValue)>, k: Seq<char>) -> Option<ConfigValue>
    decreases t.len(),
{
    if t.len() == 0 {
        None
    } else if t[0].0@ == k {
        Some(t[0].1)
    } else {
        lookup_of(t.drop_first(), k)
    }
}

/// The value under `k1`, else under its other spelling `k2`.
pub open spec fn lookup2_of(t: Seq<(String, ConfigValue)>, k1: Seq<char>, k2: Seq<char>) -> Option<ConfigValue> {
    match lookup_of(t, k1) {
        Some(v) => Some(v),
        None => lookup_of(t, k2),
    }
}

/// An optional string field: `None` when the value has another type.
pub open spec fn opt_str_of(o: Option<ConfigValue>) -> Option<Option<Seq<char>>> {
    match o {
        None => Some(None),
        Some(ConfigValue::Str(s)) => Some(Some(s@)),
        _ => None,
    }
}

pub open spec fn opt_bool_of(o: Option<ConfigValue>) -> Option<Option<bool>> {
    match o {
        None => Some(None),
        Some(ConfigValue::Bool(b)) => Some(Some(b)),
        _ => None,
    }
}

pub open spec fn opt_u32_of(o: Option<ConfigValue>) -> Option<Option<u32>> {
    match o {
        None => Some(None),
        Some(ConfigValue::Int(i)) => if 0 <= i <= u32::MAX {
            Some(Some(i as u32))
        } else {
            None
        },
        _ => None,
    }
}

/// Whether every element is a string.
pub open spec fn all_strs(a: Seq<ConfigValue>) -> bool {
    forall|i: int| 0 <= i < a.len() ==> (#[trigger] a[i]) is Str
}

pub open spec fn str_items(a: Seq<ConfigValue>) -> Seq<Seq<char>> {
    a.map_values(|v: ConfigValue| match v {
        ConfigValue::Str(s) => s@,
        _ => seq![],
    })
}

pub open spec fn opt_strs_of(o: Option<ConfigValue>) -> Option<Option<Seq<Seq<char>>>> {
    match o {
        None => Some(None),
        Some(ConfigValue::Array(a)) => if all_strs(a@) {
            Some(Some(str_items(a@)))
        } else {
            None
        },
        _ => None,
    }
}

/// The message of a decode error: the expected type and the dotted key.
pub fn type_error(ty: &str, key: &String) -> (r: String)
    ensures
        r@ == "expected a value of type `"@ + ty@ + "` for the key `"@ + key@ + "`"@,
{
    let mut s = String::from_str("expected a value of type `");
    s.append(ty);
    s.append("` for the key `");
    s.append(key.as_str());
    s.append("`");
    s
}

/// The value of the first entry of `t` whose key is `k`.
pub fn lookup<'a>(t: &'a Vec<(String, ConfigValue)>, k: &str) -> (r: Option<&'a ConfigValue>)
    ensures
        match r {
            Some(v) => lookup_of(t@, k@) == Some(*v),
            None => lookup_of(t@, k@) is None,
        },
{
    let mut i: usize = 0;
    assert(t@.subrange(0, t@.len() as int) =~= t@);
    while i < t.len()
        invariant
            i <= t@.len(),
            lookup_of(t@, k@) == lookup_of(t@.subrange(i as int, t@.len() as int), k@),
        decreases t@.len() - i,
    {
        assert(t@.subrange(i as int, t@.len() as int).drop_first() =~= t@.subrange(i + 1, t@.len() as int));
        if str_eq(t[i].0.as_str(), k) {
            return Some(&t[i].1);
        }
        i = i + 1;
    }
    None
}

/// The value under `k1`, else under `k2`.
pub fn lookup2<'a>(t: &'a Vec<(String, ConfigValue)>, k1: &str, k2: &str) -> (r: Option<&'a ConfigValue>)
    ensures
        match r {
            Some(v) => lookup2_of(t@, k1@, k2@) == Some(*v),
            None => lookup2_of(t@, k1@, k2@) is None,
        },
{
    match lookup(t, k1) {
        Some(v) => Some(v),
        None => lookup(t, k2),
    }
}

fn child_key(path: &String, k: &str) -> (r: String)
    ensures
        r@ == extend_key(path@, k@),
{
    let ks = String::from_str(k);
    if path.as_str().unicode_len() == 0 {
        ks
    } else {
        let mut s = path.clone();
        s.append(".");
        s.append(k);
        s
    }
}

/// An optional string field of `t`.
pub fn opt_string(t: &Vec<(String, ConfigValue)>, k: &str, path: &String) -> (r: Result<Option<String>, String>)
    ensures
        match r {
            Ok(x) => opt_str_of(lookup_of(t@, k@)) == Some(opt_str(x)),
            Err(_) => opt_str_of(lookup_of(t@, k@)) is None,
        },
{
    match lookup(t, k) {
        None => Ok(None),
        Some(ConfigValue::Str(s)) => Ok(Some(s.clone())),
        Some(_) => Err(type_error("string", &child_key(path, k))),
    }
}

/// An optional boolean field of `t`.
pub fn opt_bool(t: &Vec<(String, ConfigValue)>, k: &str, path: &String) -> (r: Result<Option<bool>, String>)
    ensures
        match r {
            Ok(x) => opt_bool_of(lookup_of(t@, k@)) == Some(x),
            Err(_) => opt_bool_of(lookup_of(t@, k@)) is None,
        },
{
    match lookup(t, k) {
        None => Ok(None),
        Some(ConfigValue::Bool(b)) => Ok(Some(*b)),
        Some(_) => Err(type_error("boolean", &child_key(path, k))),
    }
}

/// An optional unsigned integer field of `t`, under either spelling.
pub fn opt_u32(t: &Vec<(String, ConfigValue)>, k1: &str, k2: &str, path: &String) -> (r: Result<Option<u32>, String>)
    ensures
        match r {
            Ok(x) => opt_u32_of(lookup2_of(t@, k1@, k2@)) == Some(x),
            Err(_) => opt_u32_of(lookup2_of(t@, k1@, k2@)) is None,
        },
{
    match lookup2(t, k1, k2) {
        None => Ok(None),
        Some(ConfigValue::Int(i)) => {
            if 0 <= *i && *i <= u32::MAX as i64 {
                Ok(Some(*i as u32))
            } else {
                Err(type_error("u32", &child_key(path, k1)))
            }
        },
        Some(_) => Err(type_error("integer", &child_key(path, k1))),
    }
}

/// The strings of an array whose elements are all strings.
pub fn string_items(a: &Vec<ConfigValue>) -> (r: Option<Vec<String>>)
    ensures
        match r {
            Some(v) => all_strs(a@) && strs(v@) == str_items(a@),
            None => !all_strs(a@),
        },
{
    let mut out: Vec<String> = Vec::new();
    let mut i: usize = 0;
    while i < a.len()
        invariant
            i <= a@.len(),
            all_strs(a@.take(i as int)),
            strs(out@) =~= str_items(a@.take(i as int)),
        decreases a@.len() - i,
    {
        match &a[i] {
            ConfigValue::Str(s) => {
                let ghost before = out@;
                out.push(s.clone());
                assert(strs(out@) =~= strs(before).push(s@));
                assert(a@.take(i + 1) =~= a@.take(i as int).push(a@[i as int]));
                assert(str_items(a@.take(i + 1)) =~= str_items(a@.take(i as int)).push(s@));
            },
            _ => {
                return None;
            },
        }
        i = i + 1;
    }
    assert(a@.take(a@.len() as int) =~= a@);
    Some(out)
}

/// An optional list-of-strings field of `t`, under either spelling.
pub fn opt_strings(t: &Vec<(String, ConfigValue)>, k1: &str, k2: &str, path: &String) -> (r: Result<Option<Vec<String>>, String>)
    ensures
        match r {
            Ok(x) => opt_strs_of(lookup2_of(t@, k1@, k2@)) == Some(
                match x {
                    Some(v) => Some(strs(v@)),
                    None => None,
                },
            ),
            Err(_) => opt_strs_of(lookup2_of(t@, k1@, k2@)) is None,
        },
{
    match lookup2(t, k1, k2) {
        None => Ok(None),
        Some(ConfigValue::Array(a)) => match string_items(a) {
            Some(v) => Ok(Some(v)),
            None => Err(type_error("array of strings", &child_key(path, k1))),
        },
        Some(_) => Err(type_error("array", &child_key(path, k1))),
    }
}

/// The descriptor a table decodes to, if every field has its type.
pub open spec fn target_of(t: Seq<(String, ConfigValue)>) -> Option<TomlTargetView> {
    match (
        lookup_of(t, "name"@),
        opt_strs_of(lookup2_of(t, "crate-type"@, "crate_type"@)),
        opt_str_of(lookup_of(t, "path"@)),
    ) {
        (Some(ConfigValue::Str(name)), Some(crate_type), Some(path)) => match (
            opt_bool_of(lookup_of(t, "test"@)),
            opt_bool_of(lookup_of(t, "doctest"@)),
            opt_bool_of(lookup_of(t, "bench"@)),
            opt_bool_of(lookup_of(t, "doc"@)),
            opt_bool_of(lookup_of(t, "plugin"@)),
            opt_bool_of(lookup_of(t, "harness"@)),
        ) {
            (Some(test), Some(doctest), Some(bench), Some(doc), Some(plugin), Some(harness)) => Some(
                TomlTargetView { name: name@, crate_type, path, test, doctest, bench, doc, plugin, harness },
            ),
            _ => None,
        },
        _ => None,
    }
}

/// The descriptor a value decodes to: it must be a table.
pub open spec fn target_value_of(v: ConfigValue) -> Option<TomlTargetView> {
    match v {
        ConfigValue::Table(t) => target_of(t@),
        _ => None,
    }
}

/// Decodes a target descriptor from a table.
pub fn decode_target(v: &ConfigValue, path: &String) -> (r: Result<TomlTarget, String>)
    ensures
        match r {
            Ok(x) => target_value_of(*v) == Some(x@),
            Err(_) => target_value_of(*v) is None,
        },
{
    let t = match v {
        ConfigValue::Table(t) => t,
        _ => {
            return Err(type_error("table", path));
        },
    };
    let name = match lookup(t, "name") {
        Some(ConfigValue::Str(n)) => n.clone(),
        _ => {
            return Err(type_error("string", &child_key(path, "name")));
        },
    };
    let crate_type = opt_strings(t, "crate-type", "crate_type", path)?;
    let p = opt_string(t, "path", path)?;
    let test = opt_bool(t, "test", path)?;
    let doctest = opt_bool(t, "doctest", path)?;
    let bench = opt_bool(t, "bench", path)?;
    let doc = opt_bool(t, "doc", path)?;
    let plugin = opt_bool(t, "plugin", path)?;
    let harness = opt_bool(t, "harness", path)?;
    let r = TomlTarget {
        name,
        crate_type,
        path: match p {
            Some(x) => Some(TomlPathValue::TomlString(x)),
            None => None,
        },
        test,
        doctest,
        bench,
        doc,
        plugin,
        harness,
    };
    Ok(r)
}

/// Whether every element of `a` decodes to a descriptor.
pub open spec fn all_targets(a: Seq<ConfigValue>) -> bool {
    forall|i: int| 0 <= i < a.len() ==> target_value_of(#[trigger] a[i]) is Some
}

/// Decodes an array of target descriptors.
pub fn decode_targets(v: &ConfigValue, path: &String) -> (r: Result<Vec<TomlTarget>, String>)
    ensures
        match r {
            Ok(x) => v is Array && all_targets(v->Array_0@) && x@.len() == v->Array_0@.len() && forall|i: int|
                0 <= i < x@.len() ==> target_value_of(v->Array_0@[i]) == Some(#[trigger] x@[i]@),
            Err(_) => !(v is Array && all_targets(v->Array_0@)),
        },
{
    let a = match v {
        ConfigValue::Array(a) => a,
        _ => {
            return Err(type_error("array", path));
        },
    };
    let mut out: Vec<TomlTarget> = Vec::new();
    let mut i: usize = 0;
    while i < a.len()
        invariant
            *v == ConfigValue::Array(*a),
            i <= a@.len(),
            out@.len() == i,
            forall|j: int| 0 <= j < i ==> target_value_of(a@[j]) == Some(#[trigger] out@[j]@),
        decreases a@.len() - i,
    {
        match decode_target(&a[i], path) {
            Ok(t) => out.push(t),
            Err(e) => {
                return Err(e);
            },
        }
        i = i + 1;
    }
    assert(all_targets(a@)) by {
        assert forall|j: int| 0 <= j < a@.len() implies target_value_of(#[trigger] a@[j]) is Some by {
            assert(target_value_of(a@[j]) == Some(out@[j]@));
        }
    }
    Ok(out)
}

/// The overrides a table decodes to.
pub open spec fn profile_of(t: Seq<(String, ConfigValue)>) -> Option<TomlProfile> {
    match (
        opt_u32_of(lookup2_of(t, "opt-level"@, "opt_level"@)),
        opt_u32_of(lookup2_of(t, "codegen-units"@, "codegen_units"@)),
        opt_bool_of(lookup_of(t, "debug"@)),
        opt_bool_of(lookup_of(t, "rpath"@)),
    ) {
        (Some(opt_level), Some(codegen_units), Some(debug), Some(rpath)) => Some(
            TomlProfile { opt_level, codegen_units, debug, rpath },
        ),
        _ => None,
    }
}

/// An optional profile section: absent, or a table of overrides.
pub open spec fn opt_profile_of(o: Option<ConfigValue>) -> Option<Option<TomlProfile>> {
    match o {
        None => Some(None),
        Some(ConfigValue::Table(t)) => match profile_of(t@) {
            Some(p) => Some(Some(p)),
            None => None,
        },
        _ => None,
    }
}

fn opt_profile(t: &Vec<(String, ConfigValue)>, k: &str, path: &String) -> (r: Result<Option<TomlProfile>, String>)
    ensures
        match r {
            Ok(x) => opt_profile_of(lookup_of(t@, k@)) == Some(x),
            Err(_) => opt_profile_of(lookup_of(t@, k@)) is None,
        },
{
    let key = child_key(path, k);
    match lookup(t, k) {
        None => Ok(None),
        Some(ConfigValue::Table(p)) => {
            let opt_level = opt_u32(p, "opt-level", "opt_level", &key)?;
            let codegen_units = opt_u32(p, "codegen-units", "codegen_units", &key)?;
            let debug = opt_bool(p, "debug", &key)?;
            let rpath = opt_bool(p, "rpath", &key)?;
            Ok(Some(TomlProfile { opt_level, codegen_units, debug, rpath }))
        },
        Some(_) => Err(type_error("table", &key)),
    }
}

/// The profile overrides a table decodes to.
pub open spec fn profiles_of(t: Seq<(String, ConfigValue)>) -> Option<TomlProfiles> {
    match (
        opt_profile_of(lookup_of(t, "test"@)),
        opt_profile_of(lookup_of(t, "doc"@)),
        opt_profile_of(lookup_of(t, "bench"@)),
        opt_profile_of(lookup_of(t, "dev"@)),
        opt_profile_of(lookup_of(t, "release"@)),
    ) {
        (Some(test), Some(doc), Some(bench), Some(dev), Some(release)) => Some(
            TomlProfiles { test, doc, bench, dev, release },
        ),
        _ => None,
    }
}

/// Decodes the overrides of each profile kind from a table.
pub fn decode_profiles(v: &ConfigValue, path: &String) -> (r: Result<TomlProfiles, String>)
    ensures
        match r {
            Ok(x) => v is Table && profiles_of(v->Table_0@) == Some(x),
            Err(_) => !(v is Table && profiles_of(v->Table_0@) is Some),
        },
{
    let t = match v {
        ConfigValue::Table(t) => t,
        _ => {
            return Err(type_error("table", path));
        },
    };
    let test = opt_profile(t, "test", path)?;
    let doc = opt_profile(t, "doc", path)?;
    let bench = opt_profile(t, "bench", path)?;
    let dev = opt_profile(t, "dev", path)?;
    let release = opt_profile(t, "release", path)?;
    Ok(TomlProfiles { test, doc, bench, dev, release })
}

/// The declaration a dependency value decodes to: a bare version
/// requirement, or a table of details.
pub open spec fn dep_of(v: ConfigValue) -> Option<DetailedView> {
    match v {
        ConfigValue::Str(s) => Some(crate::dependency::version_only(s@)),
        ConfigValue::Table(tt) => {
            let t = tt@;
            match (
                opt_str_of(lookup_of(t, "version"@)),
                opt_str_of(lookup_of(t, "path"@)),
                opt_str_of(lookup_of(t, "git"@)),
                opt_str_of(lookup_of(t, "branch"@)),
                opt_str_of(lookup_of(t, "tag"@)),
                opt_str_of(lookup_of(t, "rev"@)),
            ) {
                (Some(version), Some(path), Some(git), Some(branch), Some(tag), Some(rev)) => match (
                    opt_strs_of(lookup2_of(t, "features"@, "features"@)),
                    opt_bool_of(lookup_of(t, "optional"@)),
                    opt_bool_of(lookup2_of(t, "default-features"@, "default_features"@)),
                ) {
                    (Some(features), Some(optional), Some(default_features)) => Some(
                        DetailedView { version, path, git, branch, tag, rev, features, optional, default_features },
                    ),
                    _ => None,
                },
                _ => None,
            }
        },
        _ => None,
    }
}

fn opt_bool2(t: &Vec<(String, ConfigValue)>, k1: &str, k2: &str, path: &String) -> (r: Result<Option<bool>, String>)
    ensures
        match r {
            Ok(x) => opt_bool_of(lookup2_of(t@, k1@, k2@)) == Some(x),
            Err(_) => opt_bool_of(lookup2_of(t@, k1@, k2@)) is None,
        },
{
    match lookup2(t, k1, k2) {
        None => Ok(None),
        Some(ConfigValue::Bool(b)) => Ok(Some(*b)),
        Some(_) => Err(type_error("boolean", &child_key(path, k1))),
    }
}

/// Decodes one dependency declaration.
pub fn decode_dependency(v: &ConfigValue, path: &String) -> (r: Result<TomlDependency, String>)
    ensures
        match r {
            Ok(x) => dep_of(*v) == Some(x@),
            Err(_) => dep_of(*v) is None,
        },
{
    match v {
        ConfigValue::Str(s) => Ok(TomlDependency::SimpleDep(s.clone())),
        ConfigValue::Table(t) => {
            let version = opt_string(t, "version", path)?;
            let p = opt_string(t, "path", path)?;
            let git = opt_string(t, "git", path)?;
            let branch = opt_string(t, "branch", path)?;
            let tag = opt_string(t, "tag", path)?;
            let rev = opt_string(t, "rev", path)?;
            let features = opt_strings(t, "features", "features", path)?;
            let optional = opt_bool(t, "optional", path)?;
            let default_features = opt_bool2(t, "default-features", "default_features", path)?;
            Ok(
                TomlDependency::DetailedDep(
                    DetailedTomlDependency { version, path: p, git, branch, tag, rev, features, optional, default_features },
                ),
            )
        },
        _ => Err(type_error("string or table", path)),
    }
}

/// No two entries of `t` share a key.
pub open spec fn keys_distinct(t: Seq<(String, ConfigValue)>) -> bool {
    forall|a: int, b: int| 0 <= a < b < t.len() ==> (#[trigger] t[a]).0@ != (#[trigger] t[b]).0@
}

/// Whether an entry before position `i` has the key of entry `i`.
pub(crate) fn earlier_key(t: &Vec<(String, ConfigValue)>, i: usize) -> (r: bool)
    requires
        i < t@.len(),
    ensures
        r == exists|a: int| 0 <= a < i && #[trigger] t@[a].0@ == t@[i as int].0@,
{
    let mut j: usize = 0;
    while j < i
        invariant
            j <= i < t@.len(),
            forall|a: int| 0 <= a < j ==> #[trigger] t@[a].0@ != t@[i as int].0@,
        decreases i - j,
    {
        if str_eq(t[j].0.as_str(), t[i].0.as_str()) {
            return true;
        }
        j = j + 1;
    }
    false
}

/// Decodes a table of dependency declarations, keyed by package name;
/// a name may appear once.
pub fn decode_dependencies(v: &ConfigValue, path: &String) -> (r: Result<Vec<(String, TomlDependency)>, String>)
    ensures
        match r {
            Ok(x) => v is Table && keys_distinct(v->Table_0@) && x@.len() == v->Table_0@.len() && forall|i: int|
                0 <= i < x@.len() ==> (#[trigger] x@[i]).0@ == v->Table_0@[i].0@ && dep_of(v->Table_0@[i].1)
                    == Some(x@[i].1@),
            Err(_) => !(v is Table && keys_distinct(v->Table_0@) && forall|i: int|
                0 <= i < v->Table_0@.len() ==> dep_of(#[trigger] v->Table_0@[i].1) is Some),
        },
{
    let t = match v {
        ConfigValue::Table(t) => t,
        _ => {
            return Err(type_error("table", path));
        },
    };
    let mut out: Vec<(String, TomlDependency)> = Vec::new();
    let mut i: usize = 0;
    while i < t.len()
        invariant
            *v == ConfigValue::Table(*t),
            i <= t@.len(),
            out@.len() == i,
            keys_distinct(t@.take(i as int)),
            forall|j: int|
                0 <= j < i ==> (#[trigger] out@[j]).0@ == t@[j].0@ && dep_of(t@[j].1) == Some(out@[j].1@),
        decreases t@.len() - i,
    {
        if earlier_key(t, i) {
            return Err(crate::normalize::concat3("duplicate key `", child_key(path, t[i].0.as_str()).as_str(), "`"));
        }
        assert(keys_distinct(t@.take(i + 1))) by {
            assert forall|a: int, b: int| 0 <= a < b < i + 1 implies (#[trigger] t@.take(i + 1)[a]).0@ != (
            #[trigger] t@.take(i + 1)[b]).0@ by {
                if b < i {
                    assert(t@.take(i + 1)[a] == t@.take(i as int)[a] && t@.take(i + 1)[b] == t@.take(i as int)[b]);
                }
            }
        }
        let key = child_key(path, t[i].0.as_str());
        match decode_dependency(&t[i].1, &key) {
            Ok(d) => out.push((t[i].0.clone(), d)),
            Err(e) => {
                return Err(e);
            },
        }
        i = i + 1;
    }
    assert(t@.take(t@.len() as int) =~= t@);
    Ok(out)
}

} // verus!
