//! What the firmware packaging tool decides: the build settings of each
//! device, and the arguments of its `package` command.

use vstd::prelude::*;

verus! {

/// How a device's firmware is built and packaged.
pub struct DeviceCfg {
    pub device: &'static str,
    pub package: &'static str,
    pub features: Vec<&'static str>,
    pub elf_name: &'static str,
    pub target_triple: &'static str,
    pub syx_product: &'static str,
    pub default_version: &'static str,
    pub artifact_stem: &'static str,
    pub objcopy_pad_to: Option<&'static str>,
}

/// The short name a device is known by, for each name it accepts.
pub open spec fn canonical(name: Seq<char>) -> Option<Seq<char>> {
    if name == "lpx"@ {
        Some("lpx"@)
    } else if name == "mini"@ {
        Some("mini"@)
    } else if name == "lps"@ || name == "launchpad-s"@ {
        Some("lps"@)
    } else if name == "minimk1"@ {
        Some("minimk1"@)
    } else if name == "mk2"@ {
        Some("mk2"@)
    } else if name == "lpp"@ || name == "pro"@ {
        Some("lpp"@)
    } else if name == "lppmk3"@ || name == "pro-mk3"@ {
        Some("lppmk3"@)
    } else {
        None
    }
}

/// The settings of a device as sequences: package, features, ELF name,
/// target, SysEx product, default version, artifact stem, and the address
/// the binary is padded to.
pub type CfgView = (
    Seq<char>,
    Seq<Seq<char>>,
    Seq<char>,
    Seq<char>,
    Seq<char>,
    Seq<char>,
    Seq<char>,
    Option<Seq<char>>,
);

/// The settings of the device called `name`, by the same names as
/// `canonical`.
pub open spec fn cfg_of(name: Seq<char>) -> CfgView {
    if name == "lpx"@ {
        (
            "launchpad-x"@,
            seq![],
            "launchpad-x"@,
            "thumbv7em-none-eabihf"@,
            "/x"@,
            "351"@,
            "core-launchpad-x"@,
            None,
        )
    } else if name == "mini"@ {
        (
            "launchpad-mini-mk3"@,
            seq![],
            "launchpad-mini-mk3"@,
            "thumbv7em-none-eabihf"@,
            "/minimk3"@,
            "407"@,
            "core-launchpad-mini-mk3"@,
            None,
        )
    } else if name == "lps"@ || name == "launchpad-s"@ {
        (
            "launchpad-s-and-mini"@,
            seq!["--no-default-features"@, "--features"@, "launchpad-s"@],
            "launchpad-s-and-mini"@,
            "thumbv7m-none-eabi"@,
            "/lps"@,
            "999"@,
            "core-launchpad-s"@,
            None,
        )
    } else if name == "minimk1"@ {
        (
            "launchpad-s-and-mini"@,
            seq!["--no-default-features"@, "--features"@, "launchpad-mini-mk1"@],
            "launchpad-s-and-mini"@,
            "thumbv7m-none-eabi"@,
            "/minimk1"@,
            "999"@,
            "core-launchpad-mini-mk1"@,
            None,
        )
    } else if name == "mk2"@ {
        (
            "launchpad-mk2"@,
            seq![],
            "launchpad-mk2"@,
            "thumbv7m-none-eabi"@,
            "/mk2"@,
            "999"@,
            "core-launchpad-mk2"@,
            None,
        )
    } else if name == "lpp"@ || name == "pro"@ {
        (
            "launchpad-pro"@,
            seq![],
            "launchpad-pro"@,
            "thumbv7m-none-eabi"@,
            "/lpp"@,
            "154"@,
            "core-launchpad-pro"@,
            None,
        )
    } else {
        (
            "launchpad-pro-mk3"@,
            seq![],
            "launchpad-pro-mk3"@,
            "thumbv7em-none-eabihf"@,
            "/lppmk3"@,
            "999"@,
            "core-launchpad-pro-mk3"@,
            Some("0x08080000"@),
        )
    }
}

impl DeviceCfg {
    /// The settings as sequences.
    pub open spec fn view(self) -> CfgView {
        (
            self.package@,
            self.features@.map_values(|f: &'static str| f@),
            self.elf_name@,
            self.target_triple@,
            self.syx_product@,
            self.default_version@,
            self.artifact_stem@,
            match self.objcopy_pad_to {
                Some(p) => Some(p@),
                None => None,
            },
        )
    }
}

/// Whether two strings hold the same characters.
pub fn same_str(a: &str, b: &str) -> (r: bool)
    ensures
        r == (a@ == b@),
{
    a.to_owned() == b.to_owned()
}

/// A device's settings with the given short name.
fn cfg(
    device: &'static str,
    package: &'static str,
    features: Vec<&'static str>,
    elf_name: &'static str,
    target_triple: &'static str,
    syx_product: &'static str,
    default_version: &'static str,
    artifact_stem: &'static str,
    objcopy_pad_to: Option<&'static str>,
) -> (r: DeviceCfg)
    ensures
        r.device == device,
        r.package == package,
        r.features == features,
        r.elf_name == elf_name,
        r.target_triple == target_triple,
        r.syx_product == syx_product,
        r.default_version == default_version,
        r.artifact_stem == artifact_stem,
        r.objcopy_pad_to == objcopy_pad_to,
{
    DeviceCfg {
        device,
        package,
        features,
        elf_name,
        target_triple,
        syx_product,
        default_version,
        artifact_stem,
        objcopy_pad_to,
    }
}

/// The settings of the device called `name` (by its short name or an
/// alias), if there is one.
pub fn device_cfg(name: &str) -> (r: Option<DeviceCfg>)
    ensures
        r is Some <==> canonical(name@) is Some,
        r matches Some(c) ==> Some(c.device@) == canonical(name@) && c.view() == cfg_of(name@),
{
    if same_str(name, "lpx") {
        Some(cfg("lpx", "launchpad-x", Vec::new(), "launchpad-x", "thumbv7em-none-eabihf", "/x", "351", "core-launchpad-x", None))
    } else if same_str(name, "mini") {
        Some(cfg("mini", "launchpad-mini-mk3", Vec::new(), "launchpad-mini-mk3", "thumbv7em-none-eabihf", "/minimk3", "407", "core-launchpad-mini-mk3", None))
    } else if same_str(name, "lps") || same_str(name, "launchpad-s") {
        let features = vec!["--no-default-features", "--features", "launchpad-s"];
        assert(features@.map_values(|f: &'static str| f@) =~= seq![
            "--no-default-features"@,
            "--features"@,
            "launchpad-s"@,
        ]);
        Some(cfg("lps", "launchpad-s-and-mini", features, "launchpad-s-and-mini", "thumbv7m-none-eabi", "/lps", "999", "core-launchpad-s", None))
    } else if same_str(name, "minimk1") {
        let features = vec!["--no-default-features", "--features", "launchpad-mini-mk1"];
        assert(features@.map_values(|f: &'static str| f@) =~= seq![
            "--no-default-features"@,
            "--features"@,
            "launchpad-mini-mk1"@,
        ]);
        Some(cfg("minimk1", "launchpad-s-and-mini", features, "launchpad-s-and-mini", "thumbv7m-none-eabi", "/minimk1", "999", "core-launchpad-mini-mk1", None))
    } else if same_str(name, "mk2") {
        Some(cfg("mk2", "launchpad-mk2", Vec::new(), "launchpad-mk2", "thumbv7m-none-eabi", "/mk2", "999", "core-launchpad-mk2", None))
    } else if same_str(name, "lpp") || same_str(name, "pro") {
        Some(cfg("lpp", "launchpad-pro", Vec::new(), "launchpad-pro", "thumbv7m-none-eabi", "/lpp", "154", "core-launchpad-pro", None))
    } else if same_str(name, "lppmk3") || same_str(name, "pro-mk3") {
        Some(cfg("lppmk3", "launchpad-pro-mk3", Vec::new(), "launchpad-pro-mk3", "thumbv7em-none-eabihf", "/lppmk3", "999", "core-launchpad-pro-mk3", Some("0x08080000")))
    } else {
        None
    }
}

/// Why the arguments of `package` were refused.
#[derive(Clone, Debug)]
pub enum PackageArgsError {
    /// No device was named.
    Usage,
    /// `--version` came last, without its value.
    MissingVersion,
    /// An argument the command does not know.
    UnknownArgument(String),
}

/// The error as the contracts see it: its kind and, for an unknown
/// argument, that argument.
pub open spec fn error_view(e: PackageArgsError) -> (u8, Seq<char>) {
    match e {
        PackageArgsError::Usage => (0, Seq::empty()),
        PackageArgsError::MissingVersion => (1, Seq::empty()),
        PackageArgsError::UnknownArgument(a) => (2, a@),
    }
}

/// The options read from `args[i..]`, given those read before: the last
/// `--version` value wins, `--release` may come any number of times, and any
/// other argument is refused.
pub open spec fn options_from(
    args: Seq<Seq<char>>,
    i: int,
    version: Option<Seq<char>>,
    release: bool,
) -> Result<(Option<Seq<char>>, bool), (u8, Seq<char>)>
    decreases args.len() - i,
{
    if i >= args.len() {
        Ok((version, release))
    } else if args[i] == "--version"@ {
        if i + 1 >= args.len() {
            Err((1u8, Seq::empty()))
        } else {
            options_from(args, i + 2, Some(args[i + 1]), release)
        }
    } else if args[i] == "--release"@ {
        options_from(args, i + 1, version, true)
    } else {
        Err((2u8, args[i]))
    }
}

/// The arguments as sequences of characters.
pub open spec fn args_view(args: Seq<String>) -> Seq<Seq<char>> {
    args.map_values(|a: String| a@)
}

/// Reads the arguments of `package <device> [--version <hex3>] [--release]`,
/// the command name first: the device, the version if given, and whether to
/// build for release.
pub fn parse_package_args(args: &[String]) -> (r: Result<(String, Option<String>, bool), PackageArgsError>)
    ensures
        args@.len() < 2 ==> (r matches Err(e) && error_view(e) == (0u8, Seq::<char>::empty())),
        args@.len() >= 2 ==> match options_from(args_view(args@), 2, None, false) {
            Ok((version, release)) => (r matches Ok((d, v, rel)) && d@ == args@[1]@ && rel
                == release && match v {
                Some(s) => version == Some(s@),
                None => version is None,
            }),
            Err(ev) => (r matches Err(e) && error_view(e) == ev),
        },
{
    if args.len() < 2 {
        return Err(PackageArgsError::Usage);
    }
    let device = args[1].clone();
    let mut version: Option<String> = None;
    let mut release = false;
    let mut i: usize = 2;
    let ghost view = args_view(args@);
    while i < args.len()
        invariant
            2 <= i <= args@.len(),
            view == args_view(args@),
            device@ == args@[1]@,
            options_from(view, 2, None, false) == options_from(
                view,
                i as int,
                match version {
                    Some(s) => Some(s@),
                    None => None,
                },
                release,
            ),
        decreases args.len() - i,
    {
        let arg = args[i].as_str();
        if same_str(arg, "--version") {
            i = i + 1;
            if i >= args.len() {
                return Err(PackageArgsError::MissingVersion);
            }
            version = Some(args[i].clone());
        } else if same_str(arg, "--release") {
            release = true;
        } else {
            return Err(PackageArgsError::UnknownArgument(args[i].clone()));
        }
        i = i + 1;
    }
    Ok((device, version, release))
}

/// The short names of every device, in the order they are packaged by
/// the `all` command.
pub open spec fn all_device_names() -> Seq<Seq<char>> {
    seq!["lpx"@, "mini"@, "minimk1"@, "lps"@, "mk2"@, "lpp"@, "lppmk3"@]
}

/// The short names of every device, in packaging order.
pub fn all_devices() -> (r: Vec<&'static str>)
    ensures
        r@.map_values(|s: &'static str| s@) == all_device_names(),
{
    let r = vec!["lpx", "mini", "minimk1", "lps", "mk2", "lpp", "lppmk3"];
    assert(r@.map_values(|s: &'static str| s@) =~= all_device_names());
    r
}

/// What `package` builds: whether for release, the version stamped into
/// the SysEx file, the build profile, and the arguments given to cargo.
pub struct PackagePlan {
    pub release: bool,
    pub version: String,
    pub profile: &'static str,
    pub cargo_args: Vec<&'static str>,
}

/// The devices that are always built for release.
pub open spec fn forced_release(device: Seq<char>) -> bool {
    device == "mk2"@ || device == "minimk1"@
}

/// The characters of an optional string.
pub open spec fn opt_chars(s: Option<&str>) -> Option<Seq<char>> {
    match s {
        Some(v) => Some(v@),
        None => None,
    }
}

/// The version to stamp: the one asked for, else the one from the
/// environment, else the device's default.
pub open spec fn chosen_version(
    asked: Option<Seq<char>>,
    env: Option<Seq<char>>,
    default: Seq<char>,
) -> Seq<char> {
    match asked {
        Some(v) => v,
        None => match env {
            Some(e) => e,
            None => default,
        },
    }
}

/// cargo's arguments: build the device's package for its target with its
/// features, in release mode when `release`.
pub open spec fn cargo_args_spec(cfg: DeviceCfg, release: bool) -> Seq<Seq<char>> {
    seq!["build"@, "-p"@, cfg.package@, "--target"@, cfg.target_triple@] + cfg.features@.map_values(
        |f: &'static str| f@,
    ) + if release {
        seq!["--release"@]
    } else {
        Seq::<Seq<char>>::empty()
    }
}

/// The build of `package` for a device: `release` as asked, or always for
/// the devices that need it; the version as asked (`version`), else from
/// the environment (`env_version`), else the device's default.
pub fn package_plan(cfg: &DeviceCfg, version: Option<&str>, env_version: Option<&str>, release: bool) -> (r:
    PackagePlan)
    ensures
        r.release == (release || forced_release(cfg.device@)),
        r.version@ == chosen_version(opt_chars(version), opt_chars(env_version), cfg.default_version@),
        r.profile@ == (if r.release {
            "release"@
        } else {
            "debug"@
        }),
        r.cargo_args@.map_values(|a: &'static str| a@) == cargo_args_spec(*cfg, r.release),
{
    let release = release || same_str(cfg.device, "mk2") || same_str(cfg.device, "minimk1");
    let version: String = match version {
        Some(v) => v.to_owned(),
        None => match env_version {
            Some(e) => e.to_owned(),
            None => cfg.default_version.to_owned(),
        },
    };
    let profile = if release {
        "release"
    } else {
        "debug"
    };
    let mut cargo_args: Vec<&'static str> = vec!["build", "-p", cfg.package, "--target", cfg.target_triple];
    let ghost base = seq!["build"@, "-p"@, cfg.package@, "--target"@, cfg.target_triple@];
    assert(cargo_args@.map_values(|a: &'static str| a@) =~= base);
    let ghost feats = cfg.features@.map_values(|f: &'static str| f@);
    let mut i: usize = 0;
    while i < cfg.features.len()
        invariant
            i <= cfg.features@.len(),
            feats == cfg.features@.map_values(|f: &'static str| f@),
            cargo_args@.map_values(|a: &'static str| a@) == base + feats.take(i as int),
        decreases cfg.features.len() - i,
    {
        let ghost before = cargo_args@;
        let f = cfg.features[i];
        cargo_args.push(f);
        assert(cargo_args@.map_values(|a: &'static str| a@) =~= before.map_values(
            |a: &'static str| a@,
        ).push(f@));
        assert(feats.take(i + 1) =~= feats.take(i as int).push(feats[i as int]));
        i = i + 1;
    }
    assert(feats.take(i as int) =~= feats);
    if release {
        cargo_args.push("--release");
        assert(cargo_args@.map_values(|a: &'static str| a@) =~= base + feats + seq!["--release"@]);
    } else {
        assert(base + feats =~= base + feats + Seq::<Seq<char>>::empty());
    }
    PackagePlan { release, version, profile, cargo_args }
}

} // verus!
