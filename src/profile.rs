//! Build profiles: the built-in defaults of each kind and the merge of a
//! sparse override onto them.
use vstd::prelude::*;

verus! {

/// The kind of a build profile.
#[derive(Clone, Copy, Debug, PartialEq, Eq, Structural)]
pub enum ProfileKind {
    Dev,
    Release,
    Test,
    Doc,
    Bench,
}

/// A resolved build configuration attached to one target.
#[derive(Clone, Copy, Debug, PartialEq, Eq, Structural)]
pub struct Profile {
    pub kind: ProfileKind,
    pub opt_level: u32,
    pub codegen_units: Option<u32>,
    pub debug: bool,
    pub rpath: bool,
    /// The artifact is built with the test harness and run as a test.
    pub test: bool,
    /// Documentation is generated for the artifact.
    pub doc: bool,
    pub doctest: bool,
    pub harness: bool,
    /// Built for the host platform rather than the target platform.
    pub for_host: bool,
    pub custom_build: bool,
}

/// Sparse overrides of one profile kind.
#[derive(Clone, Copy, Debug, PartialEq, Eq, Structural)]
pub struct TomlProfile {
    pub opt_level: Option<u32>,
    pub codegen_units: Option<u32>,
    pub debug: Option<bool>,
    pub rpath: Option<bool>,
}

/// The overrides declared for each profile kind.
#[derive(Clone, Copy, Debug, PartialEq, Eq, Structural)]
pub struct TomlProfiles {
    pub test: Option<TomlProfile>,
    pub doc: Option<TomlProfile>,
    pub bench: Option<TomlProfile>,
    pub dev: Option<TomlProfile>,
    pub release: Option<TomlProfile>,
}

/// The settings every default profile starts from.
pub open spec fn base_profile(kind: ProfileKind) -> Profile {
    Profile {
        kind,
        opt_level: 0,
        codegen_units: None,
        debug: false,
        rpath: false,
        test: false,
        doc: false,
        doctest: false,
        harness: true,
        for_host: false,
        custom_build: false,
    }
}

/// The built-in default profile of each kind.
pub open spec fn default_profile(kind: ProfileKind) -> Profile {
    let b = base_profile(kind);
    match kind {
        ProfileKind::Dev => Profile { debug: true, ..b },
        ProfileKind::Release => Profile { opt_level: 3, ..b },
        ProfileKind::Test => Profile { debug: true, test: true, ..b },
        ProfileKind::Doc => Profile { doc: true, ..b },
        ProfileKind::Bench => Profile { opt_level: 3, test: true, ..b },
    }
}

/// `o` laid over `p`: each field the override sets replaces the baseline's.
pub open spec fn merge_of(p: Profile, o: Option<TomlProfile>) -> Profile {
    match o {
        None => p,
        Some(t) => Profile {
            opt_level: match t.opt_level {
                Some(v) => v,
                None => p.opt_level,
            },
            codegen_units: match t.codegen_units {
                Some(v) => Some(v),
                None => p.codegen_units,
            },
            debug: match t.debug {
                Some(v) => v,
                None => p.debug,
            },
            rpath: match t.rpath {
                Some(v) => v,
                None => p.rpath,
            },
            ..p
        },
    }
}

/// The override declared for a profile kind.
pub open spec fn override_of(ps: TomlProfiles, kind: ProfileKind) -> Option<TomlProfile> {
    match kind {
        ProfileKind::Dev => ps.dev,
        ProfileKind::Release => ps.release,
        ProfileKind::Test => ps.test,
        ProfileKind::Doc => ps.doc,
        ProfileKind::Bench => ps.bench,
    }
}

impl Profile {
    /// The built-in default profile of `kind`.
    pub fn default_of(kind: ProfileKind) -> (r: Profile)
        ensures
            r == default_profile(kind),
    {
        let b = Profile {
            kind,
            opt_level: 0,
            codegen_units: None,
            debug: false,
            rpath: false,
            test: false,
            doc: false,
            doctest: false,
            harness: true,
            for_host: false,
            custom_build: false,
        };
        match kind {
            ProfileKind::Dev => Profile { debug: true, ..b },
            ProfileKind::Release => Profile { opt_level: 3, ..b },
            ProfileKind::Test => Profile { debug: true, test: true, ..b },
            ProfileKind::Doc => Profile { doc: true, ..b },
            ProfileKind::Bench => Profile { opt_level: 3, test: true, ..b },
        }
    }
}

impl TomlProfiles {
    /// No overrides for any kind.
    pub fn empty() -> (r: TomlProfiles)
        ensures
            r.test is None && r.doc is None && r.bench is None && r.dev is None && r.release is None,
    {
        TomlProfiles { test: None, doc: None, bench: None, dev: None, release: None }
    }

    /// The override declared for `kind`.
    pub fn get(&self, kind: ProfileKind) -> (r: Option<TomlProfile>)
        ensures
            r == override_of(*self, kind),
    {
        match kind {
            ProfileKind::Dev => self.dev,
            ProfileKind::Release => self.release,
            ProfileKind::Test => self.test,
            ProfileKind::Doc => self.doc,
            ProfileKind::Bench => self.bench,
        }
    }
}

/// Lays the override `o` over the baseline `p`; absent fields keep the
/// baseline's value.
pub fn merge(p: Profile, o: Option<TomlProfile>) -> (r: Profile)
    ensures
        r == merge_of(p, o),
{
    match o {
        None => p,
        Some(t) => Profile {
            opt_level: match t.opt_level {
                Some(v) => v,
                None => p.opt_level,
            },
            codegen_units: match t.codegen_units {
                Some(v) => Some(v),
                None => p.codegen_units,
            },
            debug: match t.debug {
                Some(v) => v,
                None => p.debug,
            },
            rpath: match t.rpath {
                Some(v) => v,
                None => p.rpath,
            },
            ..p
        },
    }
}

} // verus!
