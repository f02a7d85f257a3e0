//! The persisted recipe and the arguments of the dependency build.
use vstd::prelude::*;
use crate::skeleton::{sorted_by_path, Manifest, RustToolchainFile, Skeleton};
use crate::text::{copy_string, owned, str_eq};

verus! {

/// What `prepare` hands to `cook`.
#[derive(Debug, Clone, PartialEq, Eq)]
pub struct Recipe {
    pub skeleton: Skeleton,
}

/// Which extra target groups the build covers.
#[derive(Debug, Clone, Copy, PartialEq, Eq, Structural)]
pub struct TargetArgs {
    pub benches: bool,
    pub tests: bool,
    pub examples: bool,
    pub all_targets: bool,
}

/// The build tool subcommand that compiles the scaffold.
#[derive(Debug, Clone, Copy, PartialEq, Eq, Structural)]
pub enum CommandArg {
    Build,
    Check,
    Clippy,
    Zigbuild,
    NoBuild,
}

/// The optimisation profile of the build.
#[derive(Debug, Clone, PartialEq, Eq)]
pub enum OptimisationProfile {
    Release,
    Debug,
    Other(String),
}

#[derive(Debug, Clone, Copy, PartialEq, Eq, Structural)]
pub enum DefaultFeatures {
    Enabled,
    Disabled,
}

#[derive(Debug, Clone, Copy, PartialEq, Eq, Structural)]
pub enum AllFeatures {
    Enabled,
    Disabled,
}

/// Everything `cook` needs to know about the build it runs.
#[derive(Debug, Clone, PartialEq, Eq)]
pub struct CookArgs {
    pub profile: OptimisationProfile,
    pub command: CommandArg,
    pub default_features: DefaultFeatures,
    pub all_features: AllFeatures,
    pub features: Option<Vec<String>>,
    pub unstable_features: Option<Vec<String>>,
    pub target: Option<Vec<String>>,
    pub target_dir: Option<String>,
    pub target_args: TargetArgs,
    pub manifest_path: Option<String>,
    pub ignore_manifest: Option<Vec<String>>,
    pub package: Option<Vec<String>>,
    pub workspace: bool,
    pub offline: bool,
    pub locked: bool,
    pub frozen: bool,
    pub verbose: bool,
    pub timings: bool,
    pub no_std: bool,
    pub bin: Option<Vec<String>>,
    pub bins: bool,
    pub no_build: bool,
}

/// The characters of each string.
pub open spec fn strs(v: Seq<String>) -> Seq<Seq<char>> {
    v.map_values(|s: String| s@)
}

/// `flag` when `on`, nothing otherwise.
pub open spec fn flag_if(on: bool, flag: Seq<char>) -> Seq<Seq<char>> {
    if on { seq![flag] } else { Seq::empty() }
}

/// `flag v` for each value `v`, in order.
pub open spec fn repeated(flag: Seq<char>, vals: Seq<String>) -> Seq<Seq<char>>
    decreases vals.len(),
{
    if vals.len() == 0 {
        Seq::empty()
    } else {
        repeated(flag, vals.drop_last()) + seq![flag, vals.last()@]
    }
}

/// `flag v1 flag v2 ...` when the list is given.
pub open spec fn repeated_opt(flag: Seq<char>, vals: Option<Vec<String>>) -> Seq<Seq<char>> {
    match vals {
        Some(v) => repeated(flag, v@),
        None => Seq::empty(),
    }
}

/// `flag value` when the value is given.
pub open spec fn valued_opt(flag: Seq<char>, val: Option<String>) -> Seq<Seq<char>> {
    match val {
        Some(v) => seq![flag, v@],
        None => Seq::empty(),
    }
}

/// The values separated by commas.
pub open spec fn comma_list(vals: Seq<String>) -> Seq<char>
    decreases vals.len(),
{
    if vals.len() == 0 {
        Seq::empty()
    } else if vals.len() == 1 {
        vals[0]@
    } else {
        comma_list(vals.drop_last()) + seq![','] + vals.last()@
    }
}

/// The subcommand word, or `None` when no build is run.
pub open spec fn subcommand(c: CommandArg) -> Option<Seq<char>> {
    match c {
        CommandArg::Build => Some("build"@),
        CommandArg::Check => Some("check"@),
        CommandArg::Clippy => Some("clippy"@),
        CommandArg::Zigbuild => Some("zigbuild"@),
        CommandArg::NoBuild => None,
    }
}

pub open spec fn profile_args(p: OptimisationProfile) -> Seq<Seq<char>> {
    match p {
        OptimisationProfile::Release => seq!["--release"@],
        OptimisationProfile::Debug => Seq::empty(),
        OptimisationProfile::Other(name) => seq!["--profile"@, name@],
    }
}

pub open spec fn feature_args(a: CookArgs) -> Seq<Seq<char>> {
    flag_if(a.default_features == DefaultFeatures::Disabled, "--no-default-features"@) + match a.features {
        Some(fs) => seq!["--features"@, comma_list(fs@)],
        None => Seq::empty(),
    } + flag_if(a.all_features == AllFeatures::Enabled, "--all-features"@) + repeated_opt(
        "-Z"@,
        a.unstable_features,
    )
}

pub open spec fn target_args(a: CookArgs) -> Seq<Seq<char>> {
    repeated_opt("--target"@, a.target) + valued_opt("--target-dir"@, a.target_dir) + flag_if(
        a.target_args.benches,
        "--benches"@,
    ) + flag_if(a.target_args.tests, "--tests"@) + flag_if(a.target_args.examples, "--examples"@)
        + flag_if(a.target_args.all_targets, "--all-targets"@)
}

pub open spec fn scope_args(a: CookArgs) -> Seq<Seq<char>> {
    valued_opt("--manifest-path"@, a.manifest_path) + repeated_opt("--package"@, a.package)
        + repeated_opt("--bin"@, a.bin) + flag_if(a.workspace, "--workspace"@)
}

pub open spec fn check_args(a: CookArgs) -> Seq<Seq<char>> {
    flag_if(a.offline, "--offline"@) + flag_if(a.frozen, "--frozen"@) + flag_if(a.locked, "--locked"@)
}

pub open spec fn report_args(a: CookArgs) -> Seq<Seq<char>> {
    flag_if(a.verbose, "--verbose"@) + flag_if(a.timings, "--timings"@) + flag_if(a.bins, "--bins"@)
}

pub open spec fn mode_args(a: CookArgs) -> Seq<Seq<char>> {
    check_args(a) + report_args(a)
}

/// The arguments handed to the build tool, or `None` when no build runs.
pub open spec fn cargo_args(a: CookArgs) -> Option<Seq<Seq<char>>> {
    match subcommand(a.command) {
        Some(word) => Some(seq![word] + profile_args(a.profile) + feature_args(a) + target_args(a)
            + scope_args(a) + mode_args(a)),
        None => None,
    }
}

fn push_if(out: &mut Vec<String>, on: bool, flag: &str)
    ensures
        strs(final(out)@) == strs(old(out)@) + flag_if(
            on,
            flag@,
        ),
{
    let ghost before = out@;
    if on {
        out.push(owned(flag));
    }
    assert(strs(out@) =~= before.map_values(|s: String| s@) + flag_if(
        on,
        flag@,
    ));
}

fn push_valued(out: &mut Vec<String>, flag: &str, val: &Option<String>)
    ensures
        strs(final(out)@) == strs(old(out)@) + valued_opt(
            flag@,
            *val,
        ),
{
    let ghost before = out@;
    if let Some(v) = val {
        out.push(owned(flag));
        out.push(copy_string(v));
    }
    assert(strs(out@) =~= before.map_values(|s: String| s@) + valued_opt(
        flag@,
        *val,
    ));
}

fn push_repeated(out: &mut Vec<String>, flag: &str, vals: &Option<Vec<String>>)
    ensures
        strs(final(out)@) == strs(old(out)@)
            + repeated_opt(flag@, *vals),
{
    let ghost before = strs(out@);
    if let Some(vs) = vals {
        let mut i: usize = 0;
        assert(vs@.subrange(0, 0).len() == 0);
        while i < vs.len()
            invariant
                0 <= i <= vs@.len(),
                strs(out@) == before + repeated(
                    flag@,
                    vs@.subrange(0, i as int),
                ),
            decreases vs@.len() - i,
        {
            let ghost mid = strs(out@);
            out.push(owned(flag));
            out.push(copy_string(&vs[i]));
            assert(vs@.subrange(0, i + 1).drop_last() =~= vs@.subrange(0, i as int));
            assert(strs(out@) =~= mid + seq![flag@, vs@[i as int]@]);
            i = i + 1;
        }
        assert(vs@.subrange(0, i as int) =~= vs@);
    } else {
        assert(strs(out@) =~= before);
    }
}

/// The values of `vals` separated by commas.
pub fn comma_join(vals: &Vec<String>) -> (r: String)
    ensures
        r@ == comma_list(vals@),
{
    let mut r = String::new();
    let mut i: usize = 0;
    while i < vals.len()
        invariant
            0 <= i <= vals@.len(),
            r@ == comma_list(vals@.subrange(0, i as int)),
        decreases vals@.len() - i,
    {
        assert(vals@.subrange(0, i + 1).drop_last() =~= vals@.subrange(0, i as int));
        if i > 0 {
            r.append(",");
            proof { reveal_strlit(","); }
        } else {
            assert(r@ =~= Seq::<char>::empty());
        }
        r.append(vals[i].as_str());
        i = i + 1;
    }
    assert(vals@.subrange(0, i as int) =~= vals@);
    r
}

fn push_features(out: &mut Vec<String>, args: &CookArgs)
    ensures
        strs(final(out)@) == strs(old(out)@)
            + feature_args(*args),
{
    let ghost a = strs(out@);
    push_if(out, args.default_features == DefaultFeatures::Disabled, "--no-default-features");
    let joined_features = match &args.features {
        Some(fs) => Some(comma_join(fs)),
        None => None,
    };
    push_valued(out, "--features", &joined_features);
    push_if(out, args.all_features == AllFeatures::Enabled, "--all-features");
    push_repeated(out, "-Z", &args.unstable_features);
    assert(strs(out@) =~= a + feature_args(*args));
}

fn push_targets(out: &mut Vec<String>, args: &CookArgs)
    ensures
        strs(final(out)@) == strs(old(out)@)
            + target_args(*args),
{
    let ghost a = strs(out@);
    push_repeated(out, "--target", &args.target);
    push_valued(out, "--target-dir", &args.target_dir);
    push_if(out, args.target_args.benches, "--benches");
    push_if(out, args.target_args.tests, "--tests");
    push_if(out, args.target_args.examples, "--examples");
    push_if(out, args.target_args.all_targets, "--all-targets");
    assert(strs(out@) =~= a + target_args(*args));
}

fn push_scope(out: &mut Vec<String>, args: &CookArgs)
    ensures
        strs(final(out)@) == strs(old(out)@)
            + scope_args(*args),
{
    let ghost a = strs(out@);
    push_valued(out, "--manifest-path", &args.manifest_path);
    push_repeated(out, "--package", &args.package);
    push_repeated(out, "--bin", &args.bin);
    push_if(out, args.workspace, "--workspace");
    assert(strs(out@) =~= a + scope_args(*args));
}

fn push_checks(out: &mut Vec<String>, args: &CookArgs)
    ensures
        strs(final(out)@) == strs(old(out)@) + check_args(*args),
{
    let ghost a = strs(out@);
    push_if(out, args.offline, "--offline");
    push_if(out, args.frozen, "--frozen");
    push_if(out, args.locked, "--locked");
    assert(strs(out@) =~= a + check_args(*args));
}

fn push_reporting(out: &mut Vec<String>, args: &CookArgs)
    ensures
        strs(final(out)@) == strs(old(out)@) + report_args(*args),
{
    let ghost a = strs(out@);
    push_if(out, args.verbose, "--verbose");
    push_if(out, args.timings, "--timings");
    push_if(out, args.bins, "--bins");
    assert(strs(out@) =~= a + report_args(*args));
}

fn push_modes(out: &mut Vec<String>, args: &CookArgs)
    ensures
        strs(final(out)@) == strs(old(out)@) + mode_args(*args),
{
    let ghost a = strs(out@);
    push_checks(out, args);
    push_reporting(out, args);
    assert(strs(out@) =~= a + mode_args(*args));
}

/// The arguments of the dependency build that `args` ask for, or `None`
/// when they ask for no build.
pub fn build_arguments(args: &CookArgs) -> (r: Option<Vec<String>>)
    ensures
        match r {
            Some(v) => cargo_args(*args) == Some(strs(v@)),
            None => cargo_args(*args) is None,
        },
{
    let word = match args.command {
        CommandArg::Build => "build",
        CommandArg::Check => "check",
        CommandArg::Clippy => "clippy",
        CommandArg::Zigbuild => "zigbuild",
        CommandArg::NoBuild => {
            return None;
        },
    };
    let mut out: Vec<String> = Vec::new();
    out.push(owned(word));
    assert(strs(out@) =~= seq![word@]);
    match &args.profile {
        OptimisationProfile::Release => push_if(&mut out, true, "--release"),
        OptimisationProfile::Debug => {},
        OptimisationProfile::Other(name) => {
            let n = Some(copy_string(name));
            push_valued(&mut out, "--profile", &n);
        },
    }
    assert(strs(out@) =~= seq![word@] + profile_args(args.profile));
    push_features(&mut out, args);
    push_targets(&mut out, args);
    push_scope(&mut out, args);
    push_modes(&mut out, args);
    Some(out)
}

impl Recipe {
    /// The recipe of a workspace from what was read of it (see
    /// `Skeleton::derive`).
    pub fn prepare(
        manifests: Vec<Manifest>,
        config_file: Option<String>,
        lock_file: Option<String>,
        rust_toolchain_file: Option<(RustToolchainFile, String)>,
    ) -> (r: Recipe)
        ensures
            sorted_by_path(r.skeleton.manifests@, manifests@),
            r.skeleton.config_file == config_file,
            r.skeleton.lock_file == lock_file,
            r.skeleton.rust_toolchain_file == rust_toolchain_file,
    {
        Recipe { skeleton: Skeleton::derive(manifests, config_file, lock_file, rust_toolchain_file) }
    }
}

/// The optimisation profile asked for by the `--release` flag and the
/// `--profile` option, or `None` when both are given. The profile `dev`
/// is the debug profile and `release` the release one.
pub fn select_profile(release: bool, profile: Option<String>) -> (r: Option<OptimisationProfile>)
    ensures
        match profile {
            None => r == Some(
                if release {
                    OptimisationProfile::Release
                } else {
                    OptimisationProfile::Debug
                },
            ),
            Some(p) => if release {
                r is None
            } else if p@ == "dev"@ {
                r == Some(OptimisationProfile::Debug)
            } else if p@ == "release"@ {
                r == Some(OptimisationProfile::Release)
            } else {
                r == Some(OptimisationProfile::Other(p))
            },
        },
{
    match profile {
        None => Some(if release { OptimisationProfile::Release } else { OptimisationProfile::Debug }),
        Some(p) => {
            if release {
                None
            } else if str_eq(p.as_str(), "dev") {
                Some(OptimisationProfile::Debug)
            } else if str_eq(p.as_str(), "release") {
                Some(OptimisationProfile::Release)
            } else {
                Some(OptimisationProfile::Other(p))
            }
        },
    }
}

/// The subcommand asked for by the four exclusive flags: `None` when more
/// than one is set, a plain build when none is.
pub open spec fn command_choice(check: bool, clippy: bool, zigbuild: bool, no_build: bool) -> Option<CommandArg> {
    if check && !clippy && !zigbuild && !no_build {
        Some(CommandArg::Check)
    } else if !check && clippy && !zigbuild && !no_build {
        Some(CommandArg::Clippy)
    } else if !check && !clippy && zigbuild && !no_build {
        Some(CommandArg::Zigbuild)
    } else if !check && !clippy && !zigbuild && no_build {
        Some(CommandArg::NoBuild)
    } else if !check && !clippy && !zigbuild && !no_build {
        Some(CommandArg::Build)
    } else {
        None
    }
}

/// The subcommand asked for, or `None` when flags conflict.
pub fn select_command(check: bool, clippy: bool, zigbuild: bool, no_build: bool) -> (r: Option<CommandArg>)
    ensures
        r == command_choice(check, clippy, zigbuild, no_build),
{
    match (check, clippy, zigbuild, no_build) {
        (true, false, false, false) => Some(CommandArg::Check),
        (false, true, false, false) => Some(CommandArg::Clippy),
        (false, false, true, false) => Some(CommandArg::Zigbuild),
        (false, false, false, true) => Some(CommandArg::NoBuild),
        (false, false, false, false) => Some(CommandArg::Build),
        _ => None,
    }
}

/// The distinct values of `vals`, each at its first place.
pub open spec fn distinct_values(vals: Seq<String>) -> Seq<Seq<char>>
    decreases vals.len(),
{
    if vals.len() == 0 {
        Seq::empty()
    } else {
        let before = distinct_values(vals.drop_last());
        if before.contains(vals.last()@) {
            before
        } else {
            before.push(vals.last()@)
        }
    }
}

/// A list of features as a set: `None` when it is absent or empty, else
/// its distinct values in order of first appearance.
pub fn feature_set(vals: Option<Vec<String>>) -> (r: Option<Vec<String>>)
    ensures
        match vals {
            Some(v) if v@.len() > 0 => r matches Some(s) && strs(s@) == distinct_values(v@),
            _ => r is None,
        },
{
    match vals {
        None => None,
        Some(v) => {
            if v.len() == 0 {
                return None;
            }
            let mut out: Vec<String> = Vec::new();
            let mut i: usize = 0;
            while i < v.len()
                invariant
                    0 <= i <= v@.len(),
                    strs(out@) == distinct_values(v@.subrange(0, i as int)),
                decreases v@.len() - i,
            {
                assert(v@.subrange(0, i + 1).drop_last() =~= v@.subrange(0, i as int));
                let mut seen = false;
                let mut k: usize = 0;
                while k < out.len()
                    invariant
                        0 <= k <= out@.len(),
                        i < v@.len(),
                        seen == exists|j: int| 0 <= j < k && out@[j]@ == v@[i as int]@,
                    decreases out@.len() - k,
                {
                    if str_eq(out[k].as_str(), v[i].as_str()) {
                        seen = true;
                    }
                    k = k + 1;
                }
                proof {
                    if seen {
                        let j = choose|j: int| 0 <= j < k && out@[j]@ == v@[i as int]@;
                        assert(strs(out@)[j] == v@[i as int]@);
                    }
                    if strs(out@).contains(v@[i as int]@) {
                        let j = choose|j: int| 0 <= j < strs(out@).len() && strs(out@)[j] == v@[i as int]@;
                        assert(out@[j]@ == v@[i as int]@);
                    }
                }
                if !seen {
                    let ghost before = out@;
                    out.push(copy_string(&v[i]));
                    assert(strs(out@) =~= strs(before).push(v@[i as int]@));
                }
                i = i + 1;
            }
            assert(v@.subrange(0, i as int) =~= v@);
            Some(out)
        },
    }
}

} // verus!
