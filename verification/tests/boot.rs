use bah::config::Config;
use bah::tx_helper::boot::{
    boot_mount_candidates_from_fstab, boot_mountinfo_summary, boot_path_steps,
    mountinfo_mount_point, mountinfo_mount_points, pkg_requires_writable_boot, relative_path,
    select_boot_mountpoint, transaction_touches_boot_sensitive_pkg, BootCheck, BootFact, BootPhase,
    PathFault,
};

const BOOT: &str = "36 35 98:0 / /boot rw,noatime shared:1 - vfat /dev/sda1 rw";
const ROOT: &str = "35 1 98:1 / / rw - ext4 /dev/sda2 rw";
const ODD: &str = "37 35 98:2 / /mnt/a\\040b\\011c\\134d rw - ext4 /dev/sda3 rw";

fn strings(list: &[&str]) -> Vec<String> {
    list.iter().map(|s| s.to_string()).collect()
}

#[test]
fn mount_points_are_read() {
    assert_eq!(mountinfo_mount_point(BOOT), Some("/boot".into()));
    assert_eq!(mountinfo_mount_point(ODD), Some("/mnt/a b\tc\\d".into()));
    assert_eq!(mountinfo_mount_point("1 2 3 4"), None);
    assert_eq!(mountinfo_mount_point("1 2 3 4 - 5"), None);
    assert_eq!(
        mountinfo_mount_points(&strings(&[BOOT, "x", ROOT])),
        vec!["/boot", "/"]
    );
}

#[test]
fn mounts_of_the_boot_partition_are_summed_up() {
    let efi = "38 36 98:3 / /boot/efi rw - vfat /dev/sda4 rw";
    let info = format!("{}\n  {}  \n{}\n{}", ROOT, BOOT, efi, ODD);
    assert_eq!(
        boot_mountinfo_summary("/boot/", Some(&info)),
        format!("{} | {}", BOOT, efi)
    );
    assert_eq!(boot_mountinfo_summary("/boot", None), "(read mountinfo failed)");
    assert_eq!(
        boot_mountinfo_summary("/efi", Some(&info)),
        "(no mountinfo line matched boot path)"
    );
    let many = vec![BOOT; 40].join("\n");
    let summary = boot_mountinfo_summary("/boot", Some(&many));
    assert_eq!(summary.len(), 900);
    assert!(summary.ends_with("..."));
}

#[test]
fn file_system_tables_name_boot_partitions() {
    let fstab = "# /dev/x /boot vfat\n\n/dev/a / ext4\n  /dev/b\t/boot/efi vfat\n/dev/c /boot x\nlone\n/dev/d /boot/ x\n";
    assert_eq!(
        boot_mount_candidates_from_fstab(Some(fstab)),
        vec!["/boot/efi", "/boot"]
    );
    assert!(boot_mount_candidates_from_fstab(None).is_empty());
}

#[test]
fn the_boot_partition_is_selected() {
    let select = |a: &[&str], b: &[&str]| select_boot_mountpoint(&strings(a), &strings(b));
    assert_eq!(select(&[], &[]), Ok("/boot"));
    assert_eq!(select(&[], &["/", "/efi"]), Ok("/efi"));
    assert_eq!(select(&[], &["/efi", "/boot/efi"]), Ok("/boot/efi"));
    assert_eq!(select(&["/efi"], &["/boot", "/efi"]), Ok("/efi"));
    assert_eq!(
        select(&["/boot", "/efi"], &["/"]),
        Err("expected boot/EFI mountpoint(s) from /etc/fstab not mounted: /boot, /efi. Mount \
             them before updating kernel, initramfs, or bootloader."
            .to_string())
    );
}

#[test]
fn paths_are_entered_step_by_step() {
    let steps = |p: &str| {
        let s = boot_path_steps(p);
        (s.names, s.fault)
    };
    assert_eq!(steps("boot/efi"), (strings(&["boot", "efi"]), None));
    assert_eq!(steps("./boot//efi/"), (strings(&["boot", "efi"]), None));
    assert_eq!(steps("boot/../etc"), (strings(&["boot"]), Some(PathFault::ParentDir)));
    assert_eq!(steps(""), (vec![], Some(PathFault::Empty)));
    assert_eq!(PathFault::ParentDir.message(), "invalid boot mountpoint path (parent dir)");
    assert_eq!(PathFault::Empty.message(), "invalid boot mountpoint path (empty)");
    assert_eq!(relative_path("/boot/efi"), "boot/efi");
    assert_eq!(relative_path("boot"), "boot");
}

#[test]
fn kernels_and_boot_loaders_need_the_boot_partition() {
    for name in [
        "linux", "linux-lts", "mkinitcpio", "mkinitcpio-busybox", "grub", "grub-btrfs", "refind",
        "limine", "syslinux", "sbctl", "efibootmgr",
    ] {
        assert!(pkg_requires_writable_boot(name), "{}", name);
    }
    for name in [
        "linux-api-headers", "linux-docs", "linux-firmware", "linux-tools", "linuxconsole", "nano",
        "mkinitcpiox", "sbctl2", "",
    ] {
        assert!(!pkg_requires_writable_boot(name), "{}", name);
    }
    assert!(transaction_touches_boot_sensitive_pkg(&strings(&["a"]), &strings(&["linux"])));
    assert!(transaction_touches_boot_sensitive_pkg(&strings(&["linux"]), &vec![]));
    assert!(!transaction_touches_boot_sensitive_pkg(&strings(&["a"]), &strings(&["b"])));
}

fn check(config: &Config, root: &str, facts: Vec<BootFact>) -> BootCheck {
    let mut c = BootCheck::new();
    for f in &facts {
        c.ensure_boot_rw_for_transaction(config, root, f);
    }
    c
}

fn kernel() -> BootFact {
    BootFact::Packages(strings(&["linux"]), vec![])
}

fn mounts() -> BootFact {
    BootFact::Mounts(vec![], strings(&["/efi"]))
}

fn facts(last: Vec<BootFact>) -> Vec<BootFact> {
    let mut all = vec![kernel(), mounts()];
    all.extend(last);
    all
}

#[test]
fn a_writable_boot_partition_passes() {
    let cfg = Config::default();
    let c = check(
        &cfg,
        "/mnt",
        facts(vec![
            BootFact::Done,
            BootFact::Done,
            BootFact::ReadOnly(false),
            BootFact::Done,
            BootFact::Free(4096, 100 * 256),
        ]),
    );
    assert_eq!(c.phase, BootPhase::Finished);
    assert_eq!(c.error, None);
    assert_eq!((c.mount, c.boot.as_str()), ("/efi", "/mnt/efi"));
    let c = check(&cfg, "/", vec![BootFact::Packages(strings(&["nano"]), vec![])]);
    assert_eq!((c.phase, c.error), (BootPhase::Finished, None));
    assert_eq!(check(&cfg, "/", facts(vec![])).boot, "/efi");
}

#[test]
fn each_fault_of_the_boot_partition_is_reported() {
    let cfg = Config::default();
    let error = |last: Vec<BootFact>| {
        let c = check(&cfg, "/mnt/", facts(last));
        assert_eq!(c.phase, BootPhase::Finished);
        c.error.unwrap()
    };
    assert_eq!(
        error(vec![BootFact::Failed]),
        "cannot open pacman root /mnt/ (missing path or symlink chain?)"
    );
    assert!(error(vec![BootFact::Done, BootFact::Failed])
        .starts_with("/mnt/efi does not exist or is not a real directory"));
    assert_eq!(
        error(vec![BootFact::Done, BootFact::Done, BootFact::Failed]),
        "statfs on /mnt/efi failed (is /boot mounted?)"
    );
    assert!(error(vec![BootFact::Done, BootFact::Done, BootFact::ReadOnly(true)])
        .starts_with("/mnt/efi is read-only."));
    let open = || vec![BootFact::Done, BootFact::Done, BootFact::ReadOnly(false)];
    let with = |mut a: Vec<BootFact>, b: Vec<BootFact>| {
        a.extend(b);
        a
    };
    assert_eq!(
        error(with(open(), vec![BootFact::Failed])),
        "cannot write to /mnt/efi (access W_OK failed); hooks may fail to refresh /boot"
    );
    assert_eq!(
        error(with(open(), vec![BootFact::Done, BootFact::Failed])),
        "fstatvfs on /mnt/efi failed"
    );
    assert_eq!(
        error(with(open(), vec![BootFact::Done, BootFact::Free(1024, 5)])),
        "/mnt/efi has critically low free space (5120 bytes free; need at least ~100 MB for \
         kernel/initramfs hooks). Free space before upgrading."
    );
    let c = check(
        &cfg,
        "/",
        vec![kernel(), BootFact::Mounts(strings(&["/boot"]), vec![])],
    );
    assert!(c.error.unwrap().starts_with("expected boot/EFI mountpoint(s)"));
}

#[test]
fn the_least_free_space_can_be_switched_off() {
    let mut cfg = Config::default();
    let run = |cfg: &Config, block, blocks| {
        check(
            cfg,
            "/",
            facts(vec![
                BootFact::Done,
                BootFact::Done,
                BootFact::ReadOnly(false),
                BootFact::Done,
                BootFact::Free(block, blocks),
            ]),
        )
        .error
    };
    assert_eq!(run(&cfg, u64::MAX, u64::MAX), None);
    assert!(run(&cfg, 1, 100 * 1024 * 1024 - 1).is_some());
    cfg.boot_min_free_mb = 0;
    assert_eq!(run(&cfg, 0, 0), None);
    cfg.boot_min_free_mb = u64::MAX;
    assert!(run(&cfg, 1, 1)
        .unwrap()
        .contains("need at least ~17592186044415 MB"));
}

#[test]
fn facts_out_of_turn_change_nothing_at_first() {
    let c = check(&Config::default(), "/", vec![BootFact::Done, mounts()]);
    assert_eq!((c.phase, c.error), (BootPhase::Packages, None));
}
