//! Which compiled artifacts of the placeholder sources are removed after
//! the dependency build.
use vstd::prelude::*;
use crate::recipe::OptimisationProfile;
use crate::skeleton::{Manifest, Skeleton};
use crate::target::{Target, TargetKind};
use crate::text::{copy_string, join, joined, owned, str_eq};
use crate::toml_value::TomlValue;

verus! {

/// A set of paths to delete: those under `root` that match the glob
/// `pattern`; matching directories go too when `include_dirs` holds.
#[derive(Debug, Clone, PartialEq, Eq)]
pub struct ArtifactGlob {
    pub root: String,
    pub pattern: String,
    pub include_dirs: bool,
}

pub open spec fn glob_view(g: ArtifactGlob) -> (Seq<char>, Seq<char>, bool) {
    (g.root@, g.pattern@, g.include_dirs)
}

pub open spec fn globs_view(gs: Seq<ArtifactGlob>) -> Seq<(Seq<char>, Seq<char>, bool)> {
    gs.map_values(|g: ArtifactGlob| glob_view(g))
}

/// The output subdirectory of a profile. The `bench` profile shares the
/// release directory and `dev` and `test` share the debug one.
pub open spec fn profile_dir_of(p: OptimisationProfile) -> Seq<char> {
    match p {
        OptimisationProfile::Release => "release"@,
        OptimisationProfile::Debug => "debug"@,
        OptimisationProfile::Other(name) => {
            if name@ == "bench"@ {
                "release"@
            } else if name@ == "dev"@ || name@ == "test"@ {
                "debug"@
            } else {
                name@
            }
        },
    }
}

/// The output subdirectory of profile `profile`.
pub fn profile_dir(profile: &OptimisationProfile) -> (r: String)
    ensures
        r@ == profile_dir_of(*profile),
{
    match profile {
        OptimisationProfile::Release => owned("release"),
        OptimisationProfile::Debug => owned("debug"),
        OptimisationProfile::Other(name) => {
            if str_eq(name.as_str(), "bench") {
                owned("release")
            } else if str_eq(name.as_str(), "dev") || str_eq(name.as_str(), "test") {
                owned("debug")
            } else {
                copy_string(name)
            }
        },
    }
}

/// A target triple with every trailing `.json` taken off: a custom target
/// given as a specification file builds into a directory named without it.
pub open spec fn trimmed_target(t: Seq<char>) -> Seq<char>
    decreases t.len(),
{
    if t.len() >= 5 && t.subrange(t.len() - 5, t.len() as int) == ".json"@ {
        trimmed_target(t.subrange(0, t.len() - 5))
    } else {
        t
    }
}

/// The output directory name of the target `target`.
pub fn target_str(target: &str) -> (r: &str)
    ensures
        r@ == trimmed_target(target@),
{
    proof { reveal_strlit(".json"); }
    let mut cur = target;
    while cur.unicode_len() >= 5
        && str_eq(cur.substring_char(cur.unicode_len() - 5, cur.unicode_len()), ".json")
        invariant
            trimmed_target(cur@) == trimmed_target(target@),
        decreases cur@.len(),
    {
        cur = cur.substring_char(0, cur.unicode_len() - 5);
    }
    cur
}

/// The directories whose artifacts are examined: the profile directory
/// under the output root, or under each target's directory there.
pub open spec fn output_dirs(root: Seq<char>, profile: Seq<char>, targets: Option<Seq<String>>) -> Seq<
    Seq<char>,
> {
    match targets {
        None => seq![joined(root, profile)],
        Some(ts) => ts.map_values(
            |t: String| joined(joined(root, trimmed_target(t@)), profile),
        ),
    }
}

/// Hyphens replaced by underscores, as in a crate name.
pub open spec fn underscored(s: Seq<char>) -> Seq<char> {
    s.map_values(|c: char| if c == '-' { '_' } else { c })
}

/// The crate name with hyphens replaced by underscores.
pub fn crate_name(s: &str) -> (r: String)
    ensures
        r@ == underscored(s@),
{
    proof { reveal_strlit("_"); }
    let n = s.unicode_len();
    let mut r = String::new();
    let mut i: usize = 0;
    while i < n
        invariant
            n == s@.len(),
            0 <= i <= n,
            r@ == underscored(s@.subrange(0, i as int)),
        decreases n - i,
    {
        let ghost before = r@;
        let c = s.get_char(i);
        proof {
            reveal_strlit("_");
            assert(s@.subrange(i as int, i + 1) =~= seq![c]);
        }
        if c == '-' {
            r.append("_");
        } else {
            r.append(s.substring_char(i, i + 1));
        }
        assert(r@ =~= before + seq![if c == '-' { '_' } else { c }]);
        assert(underscored(s@.subrange(0, i + 1)) =~= underscored(s@.subrange(0, i as int))
            + underscored(s@.subrange(i as int, i + 1)));
        i = i + 1;
    }
    assert(s@.subrange(0, n as int) =~= s@);
    r
}

/// What a package leaves in the output directory that came from its
/// placeholders: its name, its library's crate name if it has a library,
/// and whether it has a build script.
#[derive(Debug, Clone, PartialEq, Eq)]
pub struct PackageArtifacts {
    pub package: String,
    pub library: Option<String>,
    pub build_script: bool,
}

pub open spec fn has_kind(ts: Seq<Target>, lib: bool) -> bool {
    exists|i: int|
        0 <= i < ts.len() && if lib {
            ts[i].kind is Lib
        } else {
            ts[i].kind == TargetKind::BuildScript
        }
}

pub open spec fn string_field(v: Option<TomlValue>, key: Seq<char>) -> Option<Seq<char>> {
    match v {
        Some(t) => match t.field(key) {
            Some(TomlValue::Str(s)) => Some(s@),
            _ => None,
        },
        None => None,
    }
}

/// The artifacts named by manifest `m`, whose parsed text is `parsed`:
/// `None` unless it declares a package with a name. The library's name is
/// that of its `[lib]` section, else the package's, in underscored form;
/// it has a library when it has a `[lib]` section or a library target, and
/// a build script when `package.build` is set to anything but `false` or
/// it has a build-script target.
pub open spec fn artifacts_of(m: Manifest, parsed: TomlValue) -> Option<(Seq<char>, Option<Seq<char>>, bool)> {
    match string_field(parsed.field("package"@), "name"@) {
        None => None,
        Some(pkg) => {
            let lib_section = parsed.field("lib"@);
            let has_lib = lib_section is Some || has_kind(m.targets@, true);
            let lib_name = match string_field(lib_section, "name"@) {
                Some(n) => n,
                None => pkg,
            };
            let build_field = match parsed.field("package"@) {
                Some(p) => p.field("build"@),
                None => None,
            };
            let has_build = match build_field {
                Some(TomlValue::Bool(b)) => b,
                Some(_) => true,
                None => has_kind(m.targets@, false),
            };
            Some((pkg, if has_lib { Some(underscored(lib_name)) } else { None }, has_build))
        },
    }
}

pub open spec fn artifacts_view(a: PackageArtifacts) -> (Seq<char>, Option<Seq<char>>, bool) {
    (a.package@, match a.library {
        Some(l) => Some(l@),
        None => None,
    }, a.build_script)
}

fn string_field_exec<'a>(v: Option<&'a TomlValue>, key: &str) -> (r: Option<&'a str>)
    ensures
        match r {
            Some(s) => string_field(
                match v {
                    Some(t) => Some(*t),
                    None => None,
                },
                key@,
            ) == Some(s@),
            None => string_field(
                match v {
                    Some(t) => Some(*t),
                    None => None,
                },
                key@,
            ) is None,
        },
{
    match v {
        Some(t) => match t.get(key) {
            Some(TomlValue::Str(s)) => Some(s.as_str()),
            _ => None,
        },
        None => None,
    }
}

fn has_kind_exec(ts: &Vec<Target>, lib: bool) -> (r: bool)
    ensures
        r == has_kind(ts@, lib),
{
    let mut i: usize = 0;
    while i < ts.len()
        invariant
            0 <= i <= ts@.len(),
            forall|j: int|
                0 <= j < i ==> !(if lib {
                    ts@[j].kind is Lib
                } else {
                    ts@[j].kind == TargetKind::BuildScript
                }),
        decreases ts@.len() - i,
    {
        let found = if lib {
            matches!(ts[i].kind, TargetKind::Lib { .. })
        } else {
            ts[i].kind == TargetKind::BuildScript
        };
        if found {
            return true;
        }
        i = i + 1;
    }
    false
}

/// The placeholder artifacts of manifest `m`, whose parsed text is
/// `parsed`; `None` when it declares no package.
pub fn package_artifacts(m: &Manifest, parsed: &TomlValue) -> (r: Option<PackageArtifacts>)
    ensures
        match r {
            Some(a) => artifacts_of(*m, *parsed) == Some(artifacts_view(a)),
            None => artifacts_of(*m, *parsed) is None,
        },
{
    let package = parsed.get("package");
    let pkg = match string_field_exec(package, "name") {
        Some(n) => n,
        None => {
            return None;
        },
    };
    let lib_section = parsed.get("lib");
    let has_lib = lib_section.is_some() || has_kind_exec(&m.targets, true);
    let library = if has_lib {
        match string_field_exec(lib_section, "name") {
            Some(n) => Some(crate_name(n)),
            None => Some(crate_name(pkg)),
        }
    } else {
        None
    };
    let build_field = match package {
        Some(p) => p.get("build"),
        None => None,
    };
    let build_script = match build_field {
        Some(TomlValue::Bool(b)) => *b,
        Some(_) => true,
        None => has_kind_exec(&m.targets, false),
    };
    Some(PackageArtifacts { package: owned(pkg), library, build_script })
}

/// Glob selecting a library's compiled files, and directories, named after
/// it: the crate name followed by `.`.
pub open spec fn lib_dot_pattern(lib: Seq<char>) -> Seq<char> {
    "/**/lib"@ + lib + ".*"@
}

/// The same, for the crate name followed by `-`.
pub open spec fn lib_dash_pattern(lib: Seq<char>) -> Seq<char> {
    "/**/lib"@ + lib + "-*"@
}

/// Glob selecting the compiled build-script runners of package `pkg`.
pub open spec fn build_pattern(pkg: Seq<char>) -> Seq<char> {
    "/build/"@ + pkg + "-*/build[-_]script[-_]build*"@
}

/// The globs for one package in one output directory.
pub open spec fn dir_globs(a: (Seq<char>, Option<Seq<char>>, bool), dir: Seq<char>) -> Seq<
    (Seq<char>, Seq<char>, bool),
> {
    (match a.1 {
        Some(lib) => seq![(dir, lib_dot_pattern(lib), true), (dir, lib_dash_pattern(lib), true)],
        None => Seq::empty(),
    }) + (if a.2 {
        seq![(dir, build_pattern(a.0), false)]
    } else {
        Seq::empty()
    })
}

/// The globs for one package in the first `n` output directories.
pub open spec fn package_globs(
    a: (Seq<char>, Option<Seq<char>>, bool),
    dirs: Seq<Seq<char>>,
    n: int,
) -> Seq<(Seq<char>, Seq<char>, bool)>
    decreases n,
{
    if n <= 0 {
        Seq::empty()
    } else {
        package_globs(a, dirs, n - 1) + dir_globs(a, dirs[n - 1])
    }
}

/// The globs for the packages of the first `n` manifests.
pub open spec fn manifests_globs(
    ms: Seq<Manifest>,
    parsed: Seq<TomlValue>,
    dirs: Seq<Seq<char>>,
    n: int,
) -> Seq<(Seq<char>, Seq<char>, bool)>
    decreases n,
{
    if n <= 0 {
        Seq::empty()
    } else {
        manifests_globs(ms, parsed, dirs, n - 1) + match artifacts_of(ms[n - 1], parsed[n - 1]) {
            Some(a) => package_globs(a, dirs, dirs.len() as int),
            None => Seq::empty(),
        }
    }
}

fn concat3(a: &str, b: &str, c: &str) -> (r: String)
    ensures
        r@ == a@ + b@ + c@,
{
    let mut r = String::from_str(a);
    r.append(b);
    r.append(c);
    r
}

fn push_glob(out: &mut Vec<ArtifactGlob>, root: &String, pattern: String, include_dirs: bool)
    ensures
        globs_view(final(out)@) == globs_view(old(out)@) + seq![(root@, pattern@, include_dirs)],
{
    let ghost before = out@;
    out.push(ArtifactGlob { root: copy_string(root), pattern, include_dirs });
    assert(globs_view(out@) =~= globs_view(before) + seq![(root@, pattern@, include_dirs)]);
}

fn push_dir_globs(out: &mut Vec<ArtifactGlob>, a: &PackageArtifacts, dir: &String)
    ensures
        globs_view(final(out)@) == globs_view(old(out)@) + dir_globs(artifacts_view(*a), dir@),
{
    let ghost start = globs_view(out@);
    if let Some(lib) = &a.library {
        push_glob(out, dir, concat3("/**/lib", lib.as_str(), ".*"), true);
        push_glob(out, dir, concat3("/**/lib", lib.as_str(), "-*"), true);
    }
    let ghost mid = globs_view(out@);
    if a.build_script {
        push_glob(
            out,
            dir,
            concat3("/build/", a.package.as_str(), "-*/build[-_]script[-_]build*"),
            false,
        );
    }
    assert(globs_view(out@) =~= start + dir_globs(artifacts_view(*a), dir@));
}

/// The directories under `root` that hold the artifacts of profile
/// `profile`, for each of `targets` when they are given.
pub fn output_directories(root: &str, profile: &OptimisationProfile, targets: &Option<Vec<String>>) -> (r: Vec<String>)
    ensures
        r@.map_values(|d: String| d@) == output_dirs(
            root@,
            profile_dir_of(*profile),
            match targets {
                Some(ts) => Some(ts@),
                None => None,
            },
        ),
{
    let pdir = profile_dir(profile);
    let mut out: Vec<String> = Vec::new();
    match targets {
        None => {
            out.push(join(root, pdir.as_str()));
            assert(out@.map_values(|d: String| d@) =~= seq![joined(root@, pdir@)]);
        },
        Some(ts) => {
            let mut i: usize = 0;
            while i < ts.len()
                invariant
                    0 <= i <= ts@.len(),
                    pdir@ == profile_dir_of(*profile),
                    out@.map_values(|d: String| d@) =~= ts@.subrange(0, i as int).map_values(
                        |t: String| joined(joined(root@, trimmed_target(t@)), pdir@),
                    ),
                decreases ts@.len() - i,
            {
                let ghost before = out@;
                let t_dir = join(root, target_str(ts[i].as_str()));
                out.push(join(t_dir.as_str(), pdir.as_str()));
                assert(out@.map_values(|d: String| d@) =~= before.map_values(|d: String| d@)
                    + seq![joined(joined(root@, trimmed_target(ts@[i as int]@)), pdir@)]);
                assert(ts@.subrange(0, i + 1).map_values(
                    |t: String| joined(joined(root@, trimmed_target(t@)), pdir@),
                ) =~= ts@.subrange(0, i as int).map_values(
                    |t: String| joined(joined(root@, trimmed_target(t@)), pdir@),
                ) + seq![joined(joined(root@, trimmed_target(ts@[i as int]@)), pdir@)]);
                i = i + 1;
            }
            assert(ts@.subrange(0, i as int) =~= ts@);
        },
    }
    out
}

/// The output root: the override when given, else `target` under the
/// workspace root.
pub open spec fn output_root(base: Seq<char>, target_dir: Option<String>) -> Seq<char> {
    match target_dir {
        Some(d) => d@,
        None => joined(base, "target"@),
    }
}

fn push_package_globs(out: &mut Vec<ArtifactGlob>, a: &PackageArtifacts, dirs: &Vec<String>)
    ensures
        globs_view(final(out)@) == globs_view(old(out)@) + package_globs(
            artifacts_view(*a),
            dirs@.map_values(|d: String| d@),
            dirs@.len() as int,
        ),
{
    let ghost start = globs_view(out@);
    let ghost dv = dirs@.map_values(|d: String| d@);
    let mut k: usize = 0;
    while k < dirs.len()
        invariant
            0 <= k <= dirs@.len(),
            dv == dirs@.map_values(|d: String| d@),
            globs_view(out@) == start + package_globs(artifacts_view(*a), dv, k as int),
        decreases dirs@.len() - k,
    {
        push_dir_globs(out, a, &dirs[k]);
        assert(dv[k as int] == dirs@[k as int]@);
        assert(globs_view(out@) =~= start + package_globs(artifacts_view(*a), dv, k + 1));
        k = k + 1;
    }
}

impl Skeleton {
    /// Plans the removal of the artifacts that the placeholder sources left
    /// in the output directories: for each manifest that declares a package,
    /// and each directory of `output_dirs`, the library's files (and
    /// directories) named after its crate name followed by `.` or `-`, and
    /// the package's compiled build-script runners. Only names of the
    /// skeleton's own packages are used. `parsed[i]` is the parsed text of
    /// the `i`-th manifest.
    pub fn remove_compiled_dummies(
        &self,
        parsed: &Vec<TomlValue>,
        base_path: &str,
        profile: &OptimisationProfile,
        target: &Option<Vec<String>>,
        target_dir: &Option<String>,
    ) -> (r: Vec<ArtifactGlob>)
        requires
            parsed@.len() == self.manifests@.len(),
        ensures
            globs_view(r@) == manifests_globs(
                self.manifests@,
                parsed@,
                output_dirs(
                    output_root(base_path@, *target_dir),
                    profile_dir_of(*profile),
                    match target {
                        Some(ts) => Some(ts@),
                        None => None,
                    },
                ),
                self.manifests@.len() as int,
            ),
    {
        let root = match target_dir {
            Some(d) => copy_string(d),
            None => {
                proof { reveal_strlit("target"); }
                join(base_path, "target")
            },
        };
        let dirs = output_directories(root.as_str(), profile, target);
        let ghost dv = dirs@.map_values(|d: String| d@);
        let mut out: Vec<ArtifactGlob> = Vec::new();
        let mut i: usize = 0;
        assert(globs_view(out@) =~= Seq::empty());
        while i < self.manifests.len()
            invariant
                0 <= i <= self.manifests@.len() == parsed@.len(),
                dv == dirs@.map_values(|d: String| d@),
                globs_view(out@) == manifests_globs(self.manifests@, parsed@, dv, i as int),
            decreases self.manifests@.len() - i,
        {
            let ghost before = globs_view(out@);
            match package_artifacts(&self.manifests[i], &parsed[i]) {
                Some(a) => {
                    push_package_globs(&mut out, &a, &dirs);
                },
                None => {},
            }
            assert(globs_view(out@) =~= manifests_globs(self.manifests@, parsed@, dv, i + 1));
            i = i + 1;
        }
        out
    }
}

} // verus!
