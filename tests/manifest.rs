use cargo_manifest::compile::{build_script_path, to_manifest, Manifest};
use cargo_manifest::config::ConfigValue;
use cargo_manifest::dependency::{
    process_dependencies, resolve_dependency, DependencyKind, DetailedTomlDependency, SourceId, TomlDependency,
};
use cargo_manifest::layout::{project_layout, Layout, LayoutProbe};
use cargo_manifest::normalize::normalize;
use cargo_manifest::path::{file_name, file_stem, has_extension, join};
use cargo_manifest::profile::{merge, Profile, ProfileKind, TomlProfile, TomlProfiles};
use cargo_manifest::target::{Metadata, TargetKind, TomlTarget};

fn st(x: &str) -> ConfigValue {
    ConfigValue::Str(x.to_string())
}

fn table(entries: Vec<(&str, ConfigValue)>) -> ConfigValue {
    ConfigValue::Table(entries.into_iter().map(|(k, v)| (k.to_string(), v)).collect())
}

fn package(name: &str) -> (&'static str, ConfigValue) {
    (
        "package",
        table(vec![("name", st(name)), ("version", st("0.1.0")), ("authors", ConfigValue::Array(vec![]))]),
    )
}

fn probe(lib: bool, main: bool, bins: Vec<&str>, examples: Vec<&str>) -> LayoutProbe {
    LayoutProbe {
        lib_exists: lib,
        main_exists: main,
        bin_dir: Some(bins.into_iter().map(|s| s.to_string()).collect()),
        examples_dir: Some(examples.into_iter().map(|s| s.to_string()).collect()),
        tests_dir: None,
        benches_dir: None,
    }
}

fn layout(p: &LayoutProbe) -> Layout {
    project_layout(&"/p".to_string(), p)
}

fn compile(tree: &ConfigValue, l: &Layout) -> Result<(Manifest, Vec<String>), String> {
    to_manifest(tree, &"/p/Cargo.toml".to_string(), &SourceId::Path { location: "/p".to_string() }, l, false)
}

fn kinds(m: &Manifest, kind: TargetKind, name: &str) -> Vec<ProfileKind> {
    m.targets.iter().filter(|t| t.kind == kind && t.name == name).map(|t| t.profile.kind).collect()
}

#[test]
fn library_and_binary_from_layout() {
    let l = layout(&probe(true, false, vec!["/p/src/bin/tool.rs", "/p/src/bin/notes.txt"], vec![]));
    assert_eq!(l.lib.as_deref(), Some("/p/src/lib.rs"));
    assert_eq!(l.bins, vec!["/p/src/bin/tool.rs".to_string()]);
    let tree = table(vec![package("foo")]);
    let (m, nested) = compile(&tree, &l).unwrap();
    assert!(nested.is_empty());
    let libk = kinds(&m, TargetKind::Lib, "foo");
    for k in [ProfileKind::Dev, ProfileKind::Release, ProfileKind::Test, ProfileKind::Doc, ProfileKind::Bench] {
        assert!(libk.contains(&k));
    }
    let bink = kinds(&m, TargetKind::Bin, "tool");
    assert_eq!(
        bink,
        vec![ProfileKind::Dev, ProfileKind::Release, ProfileKind::Test, ProfileKind::Doc, ProfileKind::Bench]
    );
    let bin_test = m
        .targets
        .iter()
        .find(|t| t.kind == TargetKind::Bin && t.profile.kind == ProfileKind::Test)
        .unwrap();
    let meta = bin_test.metadata.as_ref().unwrap();
    assert_eq!(meta.mixes, vec!["bin-tool".to_string()]);
    assert_eq!(meta.package, "foo-0.1.0");
    assert_eq!(bin_test.src_path, "/p/src/bin/tool.rs");
    let lib_test = m
        .targets
        .iter()
        .find(|t| t.kind == TargetKind::Lib && t.profile.kind == ProfileKind::Test && t.profile.test)
        .unwrap();
    assert_eq!(lib_test.metadata.as_ref().unwrap().mixes, vec!["test".to_string()]);
    assert_eq!(m.target_dir, "/p/target");
    assert_eq!(m.doc_dir, "/p/doc");
}

#[test]
fn library_gets_linkable_test_variant() {
    let l = layout(&probe(true, false, vec![], vec!["/p/examples/demo.rs"]));
    let tree = table(vec![package("foo")]);
    let (m, _) = compile(&tree, &l).unwrap();
    let lib_tests: Vec<&Profile> = m
        .targets
        .iter()
        .filter(|t| t.kind == TargetKind::Lib && t.profile.kind == ProfileKind::Test)
        .map(|t| &t.profile)
        .collect();
    assert!(lib_tests.iter().any(|p| p.test && p.harness));
    assert!(lib_tests.iter().any(|p| !p.test && !p.harness));
    let ex = m.targets.iter().find(|t| t.kind == TargetKind::Example).unwrap();
    assert_eq!(ex.name, "demo");
    assert!(!ex.profile.test);
}

#[test]
fn target_identities_are_unique_under_overrides() {
    let overrides = [(0i64, true), (3, false), (1, true)];
    for (opt, debug) in overrides {
        let prof = table(vec![("opt-level", ConfigValue::Int(opt)), ("debug", ConfigValue::Bool(debug))]);
        let tree = table(vec![
            package("foo"),
            ("profile", table(vec![("dev", prof), ("test", table(vec![("codegen-units", ConfigValue::Int(4))]))])),
        ]);
        let l = layout(&probe(true, true, vec!["/p/src/bin/a.rs"], vec!["/p/examples/e.rs"]));
        let (m, _) = compile(&tree, &l).unwrap();
        for (i, a) in m.targets.iter().enumerate() {
            for b in m.targets.iter().skip(i + 1) {
                assert!(!(a.kind == b.kind && a.name == b.name && a.profile == b.profile));
            }
        }
        let dev = m.targets.iter().find(|t| t.profile.kind == ProfileKind::Dev).unwrap();
        assert_eq!(dev.profile.opt_level, opt as u32);
        assert_eq!(dev.profile.debug, debug);
    }
}

#[test]
fn bare_version_equals_detailed_form() {
    let mut nested = Vec::new();
    let root = "/p".to_string();
    let bare = TomlDependency::SimpleDep("1.2".to_string());
    let detailed = TomlDependency::DetailedDep(DetailedTomlDependency {
        version: Some("1.2".to_string()),
        path: None,
        git: None,
        branch: None,
        tag: None,
        rev: None,
        features: None,
        optional: None,
        default_features: None,
    });
    let a = resolve_dependency(&"serde".to_string(), &bare, &root, DependencyKind::Normal, &None, &mut nested).unwrap();
    let b = resolve_dependency(&"serde".to_string(), &detailed, &root, DependencyKind::Normal, &None, &mut nested)
        .unwrap();
    for d in [&a, &b] {
        assert_eq!(d.name, "serde");
        assert_eq!(d.version_req.as_deref(), Some("1.2"));
        assert!(matches!(d.source_id, SourceId::Registry));
        assert!(d.default_features);
        assert!(!d.optional);
        assert_eq!(d.kind, DependencyKind::Normal);
        assert!(d.features.is_empty());
        assert!(d.only_for_platform.is_none());
    }
    assert!(nested.is_empty());
}

#[test]
fn path_dependency_is_local_and_nested_once() {
    let l = layout(&probe(true, false, vec![], vec![]));
    let tree = table(vec![package("foo"), ("dependencies", table(vec![("bar", table(vec![("path", st("../foo"))]))]))]);
    let (m, nested) = compile(&tree, &l).unwrap();
    assert_eq!(nested, vec!["../foo".to_string()]);
    match &m.dependencies[0].source_id {
        SourceId::Path { location } => assert_eq!(location, "/p/../foo"),
        other => panic!("unexpected source {:?}", other),
    }
}

#[test]
fn remote_reference_selection() {
    let root = "/p".to_string();
    let mut nested = Vec::new();
    let tagged = TomlDependency::DetailedDep(DetailedTomlDependency {
        version: None,
        path: None,
        git: Some("https://example.com/repo".to_string()),
        branch: None,
        tag: Some("v1.0".to_string()),
        rev: None,
        features: None,
        optional: None,
        default_features: None,
    });
    let d = resolve_dependency(&"r".to_string(), &tagged, &root, DependencyKind::Normal, &None, &mut nested).unwrap();
    match &d.source_id {
        SourceId::Git { url, reference } => {
            assert_eq!(reference, "v1.0");
            assert_eq!(url, "https://example.com/repo");
        },
        other => panic!("unexpected source {:?}", other),
    }
    let plain = TomlDependency::DetailedDep(DetailedTomlDependency {
        version: None,
        path: None,
        git: Some("https://example.com".to_string()),
        branch: None,
        tag: None,
        rev: None,
        features: None,
        optional: None,
        default_features: None,
    });
    let d = resolve_dependency(&"r".to_string(), &plain, &root, DependencyKind::Normal, &None, &mut nested).unwrap();
    match &d.source_id {
        SourceId::Git { url, reference } => {
            assert_eq!(reference, "master");
            assert_eq!(url, "https://example.com/");
        },
        other => panic!("unexpected source {:?}", other),
    }
    assert!(nested.is_empty());
}

#[test]
fn malformed_remote_url_fails() {
    let l = layout(&probe(true, false, vec![], vec![]));
    let tree = table(vec![package("foo"), ("dependencies", table(vec![("bar", table(vec![("git", st("not a url"))]))]))]);
    let e = compile(&tree, &l).unwrap_err();
    assert!(e.starts_with("/p/Cargo.toml is not a valid manifest"));
}

#[test]
fn no_targets_is_an_error() {
    let l = layout(&probe(false, false, vec![], vec![]));
    let tree = table(vec![package("foo")]);
    let e = compile(&tree, &l).unwrap_err();
    assert_eq!(e, "either a [lib] or [[bin]] section must be present");
}

#[test]
fn unknown_keys_are_warned() {
    let l = layout(&probe(true, false, vec![], vec![]));
    let tree = table(vec![
        package("foo"),
        ("foo", table(vec![("bar", ConfigValue::Int(1))])),
        ("lib", table(vec![("name", st("foo")), ("colour", st("red"))])),
    ]);
    let (m, _) = compile(&tree, &l).unwrap();
    assert!(m.warnings.contains(&"unused manifest key: foo.bar".to_string()));
    assert!(m.warnings.contains(&"unused manifest key: lib.colour".to_string()));
    assert_eq!(m.warnings.len(), 2);
}

#[test]
fn missing_package_section_fails() {
    let l = layout(&probe(true, false, vec![], vec![]));
    let e = compile(&table(vec![]), &l).unwrap_err();
    assert!(e.contains("No `package` or `project` section found."));
}

#[test]
fn invalid_version_fails() {
    let l = layout(&probe(true, false, vec![], vec![]));
    let tree = table(vec![(
        "package",
        table(vec![("name", st("foo")), ("version", st("1.0")), ("authors", ConfigValue::Array(vec![]))]),
    )]);
    assert!(compile(&tree, &l).is_err());
}

#[test]
fn mistyped_field_names_its_key() {
    let l = layout(&probe(true, false, vec![], vec![]));
    let tree = table(vec![package("foo"), ("lib", table(vec![("name", st("foo")), ("test", st("yes"))]))]);
    let e = compile(&tree, &l).unwrap_err();
    assert!(e.contains("expected a value of type `boolean` for the key `lib.test`"));
}

#[test]
fn legacy_library_list_warns() {
    let l = layout(&probe(true, false, vec![], vec![]));
    let tree = table(vec![package("foo"), ("lib", ConfigValue::Array(vec![table(vec![("name", st("foo"))])]))]);
    let (m, _) = compile(&tree, &l).unwrap();
    assert_eq!(m.warnings, vec!["the [[lib]] section has been deprecated in favor of [lib]".to_string()]);
    let lib = m.targets.iter().find(|t| t.kind == TargetKind::Lib).unwrap();
    assert_eq!(lib.src_path, "/p/src/lib.rs");
}

#[test]
fn legacy_build_command_warns() {
    let l = layout(&probe(true, false, vec![], vec![]));
    let mut pkg = match package("foo").1 {
        ConfigValue::Table(t) => t,
        _ => unreachable!(),
    };
    pkg.push(("build".to_string(), st("make")));
    let tree = table(vec![("package", ConfigValue::Table(pkg))]);
    let (m, _) = compile(&tree, &l).unwrap();
    assert_eq!(m.build, vec!["make".to_string()]);
    assert_eq!(m.warnings.len(), 3);
    assert!(m.targets.iter().all(|t| t.kind != TargetKind::CustomBuild));
}

#[test]
fn build_script_becomes_a_target() {
    let l = layout(&probe(true, false, vec![], vec![]));
    let mut pkg = match package("foo").1 {
        ConfigValue::Table(t) => t,
        _ => unreachable!(),
    };
    pkg.push(("build".to_string(), st("build.rs")));
    let tree = table(vec![("package", ConfigValue::Table(pkg))]);
    assert_eq!(build_script_path(&tree).as_deref(), Some("build.rs"));
    let (m, _) = to_manifest(&tree, &"Cargo.toml".to_string(), &SourceId::Registry, &l, true).unwrap();
    let b: Vec<_> = m.targets.iter().filter(|t| t.kind == TargetKind::CustomBuild).collect();
    assert_eq!(b.len(), 1);
    assert_eq!(b[0].name, "build-script-build");
    assert!(b[0].profile.for_host && b[0].profile.custom_build);
    assert_eq!(b[0].profile.kind, ProfileKind::Dev);
    assert!(m.build.is_empty() && m.warnings.is_empty());
}

#[test]
fn declared_binary_takes_main_path() {
    let l = layout(&probe(false, true, vec![], vec![]));
    let tree = table(vec![package("foo"), ("bin", ConfigValue::Array(vec![table(vec![("name", st("app"))])]))]);
    let (m, _) = compile(&tree, &l).unwrap();
    let b = m.targets.iter().find(|t| t.kind == TargetKind::Bin).unwrap();
    assert_eq!(b.name, "app");
    assert_eq!(b.src_path, "/p/src/main.rs");
}

#[test]
fn inferred_main_binary_takes_package_name() {
    let l = layout(&probe(false, true, vec![], vec![]));
    let (m, _) = compile(&table(vec![package("foo")]), &l).unwrap();
    assert!(m.targets.iter().all(|t| t.kind == TargetKind::Bin && t.name == "foo"));
    assert_eq!(m.targets.len(), 5);
}

#[test]
fn dependency_kinds_and_platforms() {
    let l = layout(&probe(true, false, vec![], vec![]));
    let tree = table(vec![
        package("foo"),
        ("dev-dependencies", table(vec![("a", st("1"))])),
        ("build-dependencies", table(vec![("b", table(vec![("features", ConfigValue::Array(vec![st("x")])), ("optional", ConfigValue::Bool(true)), ("default-features", ConfigValue::Bool(false))]))])),
        ("target", table(vec![("linux", table(vec![("dependencies", table(vec![("c", st("2"))]))]))])),
    ]);
    let (m, _) = compile(&tree, &l).unwrap();
    assert_eq!(m.dependencies.len(), 3);
    assert_eq!(m.dependencies[0].kind, DependencyKind::Development);
    let b = &m.dependencies[1];
    assert_eq!(b.kind, DependencyKind::Build);
    assert_eq!(b.features, vec!["x".to_string()]);
    assert!(b.optional && !b.default_features);
    assert_eq!(m.dependencies[2].only_for_platform.as_deref(), Some("linux"));
}

#[test]
fn process_dependencies_stops_on_bad_url() {
    let mut out = Vec::new();
    let mut nested = Vec::new();
    let bad = TomlDependency::DetailedDep(DetailedTomlDependency {
        version: None,
        path: None,
        git: Some("::".to_string()),
        branch: None,
        tag: None,
        rev: None,
        features: None,
        optional: None,
        default_features: None,
    });
    let deps = vec![("x".to_string(), TomlDependency::SimpleDep("1".to_string())), ("y".to_string(), bad)];
    assert!(process_dependencies(&mut out, &mut nested, &deps, &"/p".to_string(), DependencyKind::Normal, &None).is_err());
}

#[test]
fn profile_merge_keeps_absent_fields() {
    let base = Profile::default_of(ProfileKind::Release);
    assert_eq!(base.opt_level, 3);
    let o = TomlProfile { opt_level: None, codegen_units: Some(2), debug: Some(true), rpath: None };
    let m = merge(base, Some(o));
    assert_eq!(m.opt_level, 3);
    assert_eq!(m.codegen_units, Some(2));
    assert!(m.debug && !m.rpath);
    assert_eq!(merge(base, None), base);
}

#[test]
fn normalize_default_paths() {
    let mut t = TomlTarget::new();
    t.name = "test".to_string();
    let mut b = TomlTarget::new();
    b.name = "x".to_string();
    let r = normalize(&vec![], &vec![b], None, &vec![], &vec![t], &vec![], &Metadata::new("p-1".to_string()), &TomlProfiles::empty());
    let bin = r.iter().find(|t| t.kind == TargetKind::Bin).unwrap();
    assert_eq!(bin.src_path, "src/x.rs");
    let test = r.iter().find(|t| t.kind == TargetKind::Test).unwrap();
    assert_eq!(test.src_path, "src/test.rs");
    assert_eq!(test.metadata.as_ref().unwrap().mixes, vec!["test-test".to_string()]);
    // a test target makes the binary's linkable variants appear
    assert_eq!(r.iter().filter(|t| t.kind == TargetKind::Bin).count(), 8);
}

#[test]
fn path_helpers() {
    assert_eq!(file_name("a/b/c.rs"), "c.rs");
    assert_eq!(file_stem("a/b/c.rs"), "c");
    assert_eq!(file_stem("a/.hidden"), ".hidden");
    assert!(has_extension("x/y.rs", "rs"));
    assert!(!has_extension("x/y.rsx", "rs"));
    assert_eq!(join("/p", "src"), "/p/src");
    assert_eq!(join("/p/", "src"), "/p/src");
    assert_eq!(join("", "src"), "src");
}

#[test]
fn unknown_fields_in_sections_are_warned() {
    let l = layout(&probe(false, false, vec![], vec![]));
    let mut pkg = match package("foo").1 {
        ConfigValue::Table(t) => t,
        _ => unreachable!(),
    };
    pkg.push(("colour".to_string(), table(vec![("shade", st("dark"))])));
    let tree = table(vec![
        ("package", ConfigValue::Table(pkg)),
        ("bin", ConfigValue::Array(vec![table(vec![("name", st("app")), ("flavour", ConfigValue::Bool(true))])])),
        ("dependencies", table(vec![("d", table(vec![("version", st("1")), ("extra", st("x"))]))])),
    ]);
    let (m, _) = compile(&tree, &l).unwrap();
    assert!(m.warnings.contains(&"unused manifest key: package.colour.shade".to_string()));
    assert!(m.warnings.contains(&"unused manifest key: bin.flavour".to_string()));
    assert!(m.warnings.contains(&"unused manifest key: dependencies.d.extra".to_string()));
    assert_eq!(m.warnings.len(), 3);
}

#[test]
fn library_without_dependents_has_five_variants() {
    let l = layout(&probe(true, false, vec!["/p/src/bin/tool.rs"], vec![]));
    let (m, _) = compile(&table(vec![package("foo")]), &l).unwrap();
    let five = vec![ProfileKind::Dev, ProfileKind::Release, ProfileKind::Test, ProfileKind::Doc, ProfileKind::Bench];
    assert_eq!(kinds(&m, TargetKind::Lib, "foo"), five);
    assert_eq!(kinds(&m, TargetKind::Bin, "tool"), five);
    assert!(m.targets.iter().filter(|t| t.kind == TargetKind::Lib).all(|t| t.profile.harness));
}

#[test]
fn binaries_beside_a_library_get_no_linkable_variants() {
    let l = layout(&probe(true, false, vec!["/p/src/bin/tool.rs"], vec!["/p/examples/e.rs"]));
    let (m, _) = compile(&table(vec![package("foo")]), &l).unwrap();
    assert_eq!(kinds(&m, TargetKind::Lib, "foo").len(), 8);
    assert_eq!(kinds(&m, TargetKind::Bin, "tool").len(), 5);
}

#[test]
fn examples_without_library_or_binary_fail() {
    let l = layout(&probe(false, false, vec![], vec!["/p/examples/e.rs"]));
    let e = compile(&table(vec![package("foo")]), &l).unwrap_err();
    assert_eq!(e, "either a [lib] or [[bin]] section must be present");
}

#[test]
fn main_binary_takes_declared_library_name() {
    let l = layout(&probe(true, true, vec![], vec![]));
    let tree = table(vec![package("foo"), ("lib", table(vec![("name", st("core"))]))]);
    let (m, _) = compile(&tree, &l).unwrap();
    assert!(m.targets.iter().any(|t| t.kind == TargetKind::Bin && t.name == "core"));
    assert!(m.targets.iter().all(|t| t.name == "core"));
}

#[test]
fn version_error_names_the_field() {
    let l = layout(&probe(true, false, vec![], vec![]));
    let tree = table(vec![(
        "package",
        table(vec![("name", st("foo")), ("version", st("1.0")), ("authors", ConfigValue::Array(vec![]))]),
    )]);
    let e = compile(&tree, &l).unwrap_err();
    assert!(e.starts_with("/p/Cargo.toml is not a valid manifest\n\ninvalid version for the key `package.version`: "));
}

#[test]
fn repeated_dependency_name_is_rejected() {
    let l = layout(&probe(true, false, vec![], vec![]));
    let tree = table(vec![package("foo"), ("dependencies", table(vec![("a", st("1")), ("a", st("2"))]))]);
    let e = compile(&tree, &l).unwrap_err();
    assert!(e.contains("duplicate key `dependencies.a`"));
}

#[test]
fn unknown_profile_keys_are_warned() {
    let l = layout(&probe(true, false, vec![], vec![]));
    let tree = table(vec![
        package("foo"),
        ("profile", table(vec![("fast", table(vec![("lto", ConfigValue::Bool(true))])), ("dev", table(vec![("lto", ConfigValue::Bool(true))]))])),
    ]);
    let (m, _) = compile(&tree, &l).unwrap();
    assert!(m.warnings.contains(&"unused manifest key: profile.fast.lto".to_string()));
    assert!(m.warnings.contains(&"unused manifest key: profile.dev.lto".to_string()));
    assert_eq!(m.warnings.len(), 2);
}

#[test]
fn unknown_platform_keys_are_warned() {
    let l = layout(&probe(true, false, vec![], vec![]));
    let plat = table(vec![
        ("dependencies", table(vec![("c", table(vec![("version", st("2")), ("odd", st("x"))]))])),
        ("cfg", st("y")),
    ]);
    let tree = table(vec![package("foo"), ("target", table(vec![("linux", plat)]))]);
    let (m, _) = compile(&tree, &l).unwrap();
    assert!(m.warnings.contains(&"unused manifest key: target.linux.dependencies.c.odd".to_string()));
    assert!(m.warnings.contains(&"unused manifest key: target.linux.cfg".to_string()));
    assert_eq!(m.warnings.len(), 2);
    assert_eq!(m.dependencies[0].only_for_platform.as_deref(), Some("linux"));
}
