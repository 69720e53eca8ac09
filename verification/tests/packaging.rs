use firmware_core::packaging::{all_devices, device_cfg, package_plan, parse_package_args, PackageArgsError};

fn args(list: &[&str]) -> Vec<String> {
    list.iter().map(|s| s.to_string()).collect()
}

#[test]
fn device_cfg_accepts_names_and_aliases() {
    let pro = device_cfg("pro").unwrap();
    assert_eq!(pro.device, "lpp");
    assert_eq!(pro.package, "launchpad-pro");
    assert_eq!(pro.target_triple, "thumbv7m-none-eabi");
    assert_eq!(pro.default_version, "154");
    assert_eq!(pro.artifact_stem, "core-launchpad-pro");
    assert_eq!(pro.objcopy_pad_to, None);
    assert_eq!(device_cfg("lpp").unwrap().device, "lpp");
    let mk3 = device_cfg("pro-mk3").unwrap();
    assert_eq!(mk3.device, "lppmk3");
    assert_eq!(mk3.objcopy_pad_to, Some("0x08080000"));
    assert_eq!(mk3.target_triple, "thumbv7em-none-eabihf");
    let lps = device_cfg("launchpad-s").unwrap();
    assert_eq!(lps.device, "lps");
    assert_eq!(lps.features, vec!["--no-default-features", "--features", "launchpad-s"]);
    let mini1 = device_cfg("minimk1").unwrap();
    assert_eq!(mini1.features, vec!["--no-default-features", "--features", "launchpad-mini-mk1"]);
    assert_eq!(device_cfg("lpx").unwrap().syx_product, "/x");
    assert_eq!(device_cfg("mini").unwrap().default_version, "407");
    assert_eq!(device_cfg("mk2").unwrap().elf_name, "launchpad-mk2");
}

#[test]
fn device_cfg_refuses_unknown_names() {
    assert!(device_cfg("x").is_none());
    assert!(device_cfg("").is_none());
    assert!(device_cfg("LPX").is_none());
}

#[test]
fn parse_package_args_reads_device_version_and_release() {
    let (device, version, release) =
        parse_package_args(&args(&["package", "lpx", "--version", "352", "--release"])).unwrap();
    assert_eq!(device, "lpx");
    assert_eq!(version.as_deref(), Some("352"));
    assert!(release);
    let (device, version, release) = parse_package_args(&args(&["package", "mk2"])).unwrap();
    assert_eq!(device, "mk2");
    assert_eq!(version, None);
    assert!(!release);
}

#[test]
fn parse_package_args_last_version_wins() {
    let (_, version, _) =
        parse_package_args(&args(&["package", "lpp", "--version", "1", "--version", "2"])).unwrap();
    assert_eq!(version.as_deref(), Some("2"));
}

#[test]
fn parse_package_args_errors() {
    assert!(matches!(parse_package_args(&args(&["package"])), Err(PackageArgsError::Usage)));
    assert!(matches!(
        parse_package_args(&args(&["package", "lpx", "--version"])),
        Err(PackageArgsError::MissingVersion)
    ));
    match parse_package_args(&args(&["package", "lpx", "--fast"])) {
        Err(PackageArgsError::UnknownArgument(a)) => assert_eq!(a, "--fast"),
        _ => panic!("expected an unknown argument"),
    }
}

#[test]
fn package_plan_forces_release_and_picks_version() {
    let lps = device_cfg("lps").unwrap();
    let plan = package_plan(&lps, None, None, false);
    assert!(!plan.release);
    assert_eq!(plan.profile, "debug");
    assert_eq!(plan.version, "999");
    assert_eq!(
        plan.cargo_args,
        vec!["build", "-p", "launchpad-s-and-mini", "--target", "thumbv7m-none-eabi", "--no-default-features", "--features", "launchpad-s"]
    );
    let mk2 = device_cfg("mk2").unwrap();
    let plan = package_plan(&mk2, None, Some("123"), false);
    assert!(plan.release);
    assert_eq!(plan.profile, "release");
    assert_eq!(plan.version, "123");
    assert_eq!(plan.cargo_args, vec!["build", "-p", "launchpad-mk2", "--target", "thumbv7m-none-eabi", "--release"]);
    let lpx = device_cfg("lpx").unwrap();
    let plan = package_plan(&lpx, Some("400"), Some("123"), true);
    assert!(plan.release);
    assert_eq!(plan.version, "400");
    assert_eq!(device_cfg("minimk1").map(|c| package_plan(&c, None, None, false).release), Some(true));
}

#[test]
fn all_devices_in_packaging_order() {
    assert_eq!(all_devices(), vec!["lpx", "mini", "minimk1", "lps", "mk2", "lpp", "lppmk3"]);
    for name in all_devices() {
        assert_eq!(device_cfg(name).unwrap().device, name);
    }
}
