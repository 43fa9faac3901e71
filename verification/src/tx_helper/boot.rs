//! The check that the boot partition can be written before packages that need it change.

use crate::config::Config;
use crate::fmt::truncate_to_width;
#[allow(unused_imports)]
use crate::fmt::{min, truncated};
use crate::number::decimal_text;
#[allow(unused_imports)]
use crate::number::decimal;
use crate::text::{
    chars_of, is_blank, is_one_of, join, lines_of, put, replace, same, split_at_char, starts_with,
    string_of, text_before, trim, trim_tail_char, words_of,
};
#[allow(unused_imports)]
use crate::text::{
    before, joined, lines, opt_str, opt_text, replaced, split_char, texts, trim_end_char, trimmed,
    words,
};
use vstd::prelude::*;

verus! {

/// The mount point that a line of the kernel's list of mounts names, its escapes undone.
pub open spec fn mount_point(line: Seq<char>) -> Option<Seq<char>> {
    let fields = words(before(line, " - "@));
    if fields.len() < 5 {
        None
    } else {
        Some(
            replaced(
                replaced(replaced(fields[4], "\\040"@, " "@), "\\011"@, "\t"@),
                "\\134"@,
                "\\"@,
            ),
        )
    }
}

/// The mount point that a line of the kernel's list of mounts names.
pub fn mountinfo_mount_point(line: &str) -> (r: Option<String>)
    ensures
        opt_text(r) == mount_point(line@),
{
    let fields = words_of(text_before(line, " - ").as_str());
    assert(texts(fields@).len() == fields@.len());
    if fields.len() < 5 {
        return None;
    }
    assert(texts(fields@)[4] == fields@[4]@);
    let spaces = replace(fields[4].as_str(), "\\040", " ");
    let tabs = replace(spaces.as_str(), "\\011", "\t");
    Some(replace(tabs.as_str(), "\\134", "\\"))
}

/// Whether a mount is that of `wanted`, or lies under it.
pub open spec fn concerns(mount: Seq<char>, wanted: Seq<char>) -> bool {
    let norm = trim_end_char(wanted, '/');
    trim_end_char(mount, '/') == norm || (norm + "/"@).is_prefix_of(mount)
}

/// The lines that concern `wanted`.
pub open spec fn mount_hits(list: Seq<Seq<char>>, wanted: Seq<char>) -> Seq<Seq<char>>
    decreases list.len(),
{
    if list.len() == 0 {
        seq![]
    } else {
        let hits = mount_hits(list.drop_last(), wanted);
        match mount_point(list.last()) {
            Some(m) => if concerns(m, wanted) {
                hits.push(trimmed(list.last()))
            } else {
                hits
            },
            None => hits,
        }
    }
}

/// What the kernel's list of mounts says of the boot partition.
pub open spec fn mount_summary(boot: Seq<char>, mountinfo: Option<Seq<char>>) -> Seq<char> {
    match mountinfo {
        None => "(read mountinfo failed)"@,
        Some(text) => {
            let hits = mount_hits(lines(text), boot);
            if hits.len() == 0 {
                "(no mountinfo line matched boot path)"@
            } else {
                truncated(joined(hits, " | "@), 900)
            }
        },
    }
}

/// What the kernel's list of mounts says of the boot partition.
pub fn boot_mountinfo_summary(boot: &str, mountinfo: Option<&str>) -> (r: String)
    ensures
        r@ == mount_summary(boot@, opt_str(mountinfo)),
{
    let text = match mountinfo {
        None => {
            return "(read mountinfo failed)".to_owned();
        },
        Some(t) => t,
    };
    let norm = trim_tail_char(boot, '/');
    let mut under = norm.clone();
    put(&mut under, "/");
    let list = lines_of(text);
    let mut hits: Vec<String> = Vec::new();
    let mut i: usize = 0;
    let ghost all = texts(list@);
    assert(all.take(0) =~= seq![]);
    assert(texts(hits@) =~= seq![]);
    while i < list.len()
        invariant
            i <= list.len(),
            all == texts(list@),
            norm@ == trim_end_char(boot@, '/'),
            under@ == norm@ + "/"@,
            texts(hits@) == mount_hits(all.take(i as int), boot@),
        decreases list.len() - i,
    {
        assert(all.take(i + 1).drop_last() =~= all.take(i as int));
        let ghost so_far = hits@;
        match mountinfo_mount_point(list[i].as_str()) {
            Some(mount) => {
                let own = trim_tail_char(mount.as_str(), '/');
                if same(own.as_str(), norm.as_str()) || starts_with(mount.as_str(), under.as_str()) {
                    hits.push(trim(list[i].as_str()));
                    assert(texts(hits@) =~= texts(so_far).push(trimmed(list@[i as int]@)));
                }
            },
            None => {},
        }
        i += 1;
    }
    assert(all.take(i as int) =~= all);
    assert(texts(hits@).len() == hits@.len());
    if hits.len() == 0 {
        "(no mountinfo line matched boot path)".to_owned()
    } else {
        truncate_to_width(join(&hits, " | ").as_str(), 900)
    }
}

/// Whether a path is one where a boot partition is mounted.
pub open spec fn is_boot_mount(path: Seq<char>) -> bool {
    path == "/boot"@ || path == "/boot/efi"@ || path == "/efi"@
}

/// The boot partition that a line of the table of file systems names.
pub open spec fn fstab_mount(line: Seq<char>) -> Option<Seq<char>> {
    let t = trimmed(line);
    let fields = words(t);
    if t.len() == 0 || "#"@.is_prefix_of(t) || fields.len() < 2 || !is_boot_mount(fields[1]) {
        None
    } else {
        Some(fields[1])
    }
}

/// The boot partitions that the table of file systems names.
pub open spec fn fstab_mounts(list: Seq<Seq<char>>) -> Seq<Seq<char>>
    decreases list.len(),
{
    if list.len() == 0 {
        seq![]
    } else {
        match fstab_mount(list.last()) {
            Some(m) => fstab_mounts(list.drop_last()).push(m),
            None => fstab_mounts(list.drop_last()),
        }
    }
}

fn fstab_mount_of(line: &str) -> (r: Option<String>)
    ensures
        opt_text(r) == fstab_mount(line@),
{
    let t = trim(line);
    if is_blank(t.as_str()) || starts_with(t.as_str(), "#") {
        return None;
    }
    let fields = words_of(t.as_str());
    assert(texts(fields@).len() == fields@.len());
    if fields.len() < 2 {
        return None;
    }
    assert(texts(fields@)[1] == fields@[1]@);
    let mount = fields[1].as_str();
    if same(mount, "/boot") || same(mount, "/boot/efi") || same(mount, "/efi") {
        Some(fields[1].clone())
    } else {
        None
    }
}

/// The boot partitions that the table of file systems names; none where it cannot be read.
pub fn boot_mount_candidates_from_fstab(fstab: Option<&str>) -> (r: Vec<String>)
    ensures
        texts(r@) == (match fstab {
            Some(text) => fstab_mounts(lines(text@)),
            None => seq![],
        }),
{
    let mut out: Vec<String> = Vec::new();
    assert(texts(out@) =~= seq![]);
    let text = match fstab {
        None => {
            return out;
        },
        Some(t) => t,
    };
    let list = lines_of(text);
    let mut i: usize = 0;
    let ghost all = texts(list@);
    assert(all.take(0) =~= seq![]);
    while i < list.len()
        invariant
            i <= list.len(),
            all == texts(list@),
            texts(out@) == fstab_mounts(all.take(i as int)),
        decreases list.len() - i,
    {
        assert(all.take(i + 1).drop_last() =~= all.take(i as int));
        let ghost so_far = out@;
        match fstab_mount_of(list[i].as_str()) {
            Some(m) => {
                let ghost text = m@;
                out.push(m);
                assert(texts(out@) =~= texts(so_far).push(text));
            },
            None => {},
        }
        i += 1;
    }
    assert(all.take(i as int) =~= all);
    out
}

/// The mount points of a list of mounts.
pub open spec fn mount_points(list: Seq<Seq<char>>) -> Seq<Seq<char>>
    decreases list.len(),
{
    if list.len() == 0 {
        seq![]
    } else {
        match mount_point(list.last()) {
            Some(m) => mount_points(list.drop_last()).push(m),
            None => mount_points(list.drop_last()),
        }
    }
}

/// The mount points of the kernel's list of mounts, line by line.
pub fn mountinfo_mount_points(list: &Vec<String>) -> (r: Vec<String>)
    ensures
        texts(r@) == mount_points(texts(list@)),
{
    let mut out: Vec<String> = Vec::new();
    let mut i: usize = 0;
    let ghost all = texts(list@);
    assert(all.take(0) =~= seq![]);
    assert(texts(out@) =~= seq![]);
    while i < list.len()
        invariant
            i <= list.len(),
            all == texts(list@),
            texts(out@) == mount_points(all.take(i as int)),
        decreases list.len() - i,
    {
        assert(all.take(i + 1).drop_last() =~= all.take(i as int));
        let ghost so_far = out@;
        match mountinfo_mount_point(list[i].as_str()) {
            Some(m) => {
                let ghost text = m@;
                out.push(m);
                assert(texts(out@) =~= texts(so_far).push(text));
            },
            None => {},
        }
        i += 1;
    }
    assert(all.take(i as int) =~= all);
    out
}

/// Whether a path may be the boot partition: it is mounted, and, where the table of file systems
/// names any, it is one of those.
pub open spec fn eligible(path: Seq<char>, expected: Seq<Seq<char>>, mounted: Seq<Seq<char>>) -> bool {
    mounted.contains(path) && (expected.len() > 0 ==> expected.contains(path))
}

/// The boot partition: the first of the usual places that is eligible. Where the table of file
/// systems names some and none is mounted there is none; where it names none, it is `/boot`.
pub open spec fn boot_mountpoint(expected: Seq<Seq<char>>, mounted: Seq<Seq<char>>) -> Option<
    Seq<char>,
> {
    if eligible("/boot"@, expected, mounted) {
        Some("/boot"@)
    } else if eligible("/boot/efi"@, expected, mounted) {
        Some("/boot/efi"@)
    } else if eligible("/efi"@, expected, mounted) {
        Some("/efi"@)
    } else if expected.len() > 0 {
        None
    } else {
        Some("/boot"@)
    }
}

/// The report that no expected boot partition is mounted.
pub open spec fn not_mounted_text(expected: Seq<Seq<char>>) -> Seq<char> {
    "expected boot/EFI mountpoint(s) from /etc/fstab not mounted: "@ + joined(expected, ", "@)
        + ". Mount them before updating kernel, initramfs, or bootloader."@
}

fn is_eligible(path: &str, expected: &Vec<String>, mounted: &Vec<String>) -> (r: bool)
    ensures
        r == eligible(path@, texts(expected@), texts(mounted@)),
{
    assert(texts(expected@).len() == expected@.len());
    is_one_of(path, mounted) && (expected.len() == 0 || is_one_of(path, expected))
}

/// The boot partition.
pub fn select_boot_mountpoint(expected: &Vec<String>, mounted: &Vec<String>) -> (r: Result<
    &'static str,
    String,
>)
    ensures
        match r {
            Ok(path) => boot_mountpoint(texts(expected@), texts(mounted@)) == Some(path@),
            Err(e) => boot_mountpoint(texts(expected@), texts(mounted@)) is None && e@
                == not_mounted_text(texts(expected@)),
        },
{
    assert(texts(expected@).len() == expected@.len());
    if is_eligible("/boot", expected, mounted) {
        return Ok("/boot");
    }
    if is_eligible("/boot/efi", expected, mounted) {
        return Ok("/boot/efi");
    }
    if is_eligible("/efi", expected, mounted) {
        return Ok("/efi");
    }
    if expected.len() > 0 {
        let mut text = "expected boot/EFI mountpoint(s) from /etc/fstab not mounted: ".to_owned();
        put(&mut text, join(expected, ", ").as_str());
        put(&mut text, ". Mount them before updating kernel, initramfs, or bootloader.");
        return Err(text);
    }
    Ok("/boot")
}

/// The directories that are entered one after the other on a path, and what is wrong with it.
#[derive(Debug)]
pub struct PathSteps {
    pub names: Vec<String>,
    pub fault: Option<PathFault>,
}

/// What is wrong with the path of a boot partition.
#[derive(Debug, Clone, Copy, PartialEq, Eq, Structural)]
pub enum PathFault {
    ParentDir,
    Empty,
}

/// The parts of a path that are entered: no empty ones, and not the current directory. The path
/// ends where it goes up.
pub open spec fn entered(parts: Seq<Seq<char>>) -> Seq<Seq<char>>
    decreases parts.len(),
{
    if parts.len() == 0 || parts[0] == ".."@ {
        seq![]
    } else if parts[0].len() == 0 || parts[0] == "."@ {
        entered(parts.skip(1))
    } else {
        seq![parts[0]] + entered(parts.skip(1))
    }
}

/// What is wrong with the path of a boot partition: it goes up, or leads nowhere.
pub open spec fn path_fault(parts: Seq<Seq<char>>) -> Option<PathFault> {
    if parts.contains(".."@) {
        Some(PathFault::ParentDir)
    } else if entered(parts).len() == 0 {
        Some(PathFault::Empty)
    } else {
        None
    }
}

/// The directories on a path. They are entered without following links; only then is the fault
/// reported.
pub fn boot_path_steps(rel: &str) -> (r: PathSteps)
    ensures
        texts(r.names@) == entered(split_char(rel@, '/')),
        r.fault == path_fault(split_char(rel@, '/')),
{
    let parts = split_at_char(rel, '/');
    let ghost all = texts(parts@);
    let mut names: Vec<String> = Vec::new();
    let mut i: usize = 0;
    assert(all.skip(0) =~= all);
    assert(texts(names@) + entered(all) =~= entered(all));
    while i < parts.len()
        invariant
            i <= parts.len(),
            all == texts(parts@),
            all == split_char(rel@, '/'),
            texts(names@) + entered(all.skip(i as int)) == entered(all),
            forall|k: int| 0 <= k < i ==> #[trigger] all[k] != ".."@,
        decreases parts.len() - i,
    {
        let ghost rest = all.skip(i as int);
        let ghost so_far = names@;
        let part = parts[i].as_str();
        assert(rest[0] == part@);
        assert(rest.skip(1) =~= all.skip(i + 1));
        if same(part, "..") {
            assert(all[i as int] == ".."@);
            assert(texts(names@) + seq![] =~= texts(names@));
            return PathSteps { names, fault: Some(PathFault::ParentDir) };
        }
        if !is_blank(part) && !same(part, ".") {
            names.push(parts[i].clone());
            assert(texts(names@) =~= texts(so_far).push(part@));
            assert(texts(names@) + entered(all.skip(i + 1)) =~= texts(so_far) + (seq![part@]
                + entered(all.skip(i + 1))));
        }
        i += 1;
    }
    assert(all.skip(i as int) =~= seq![]);
    assert(texts(names@) + seq![] =~= texts(names@));
    assert(!all.contains(".."@));
    let fault = if names.len() == 0 {
        Some(PathFault::Empty)
    } else {
        None
    };
    assert(texts(names@).len() == names@.len());
    PathSteps { names, fault }
}

impl PathFault {
    pub fn message(self) -> (r: &'static str)
        ensures
            r@ == (match self {
                PathFault::ParentDir => "invalid boot mountpoint path (parent dir)"@,
                PathFault::Empty => "invalid boot mountpoint path (empty)"@,
            }),
    {
        match self {
            PathFault::ParentDir => "invalid boot mountpoint path (parent dir)",
            PathFault::Empty => "invalid boot mountpoint path (empty)",
        }
    }
}

/// Whether a package usually needs a writable boot partition for its hooks.
pub open spec fn needs_boot(name: Seq<char>) -> bool {
    &&& name != "linux-api-headers"@ && name != "linux-docs"@ && name != "linux-firmware"@ && name
        != "linux-tools"@
    &&& name == "linux"@ || "linux-"@.is_prefix_of(name) || name == "mkinitcpio"@
        || "mkinitcpio-"@.is_prefix_of(name) || "grub"@.is_prefix_of(name)
        || "refind"@.is_prefix_of(name) || "limine"@.is_prefix_of(name)
        || "syslinux"@.is_prefix_of(name) || name == "sbctl"@ || name == "efibootmgr"@
}

/// Whether a package usually needs a writable boot partition for its hooks: kernels, what builds
/// their images, and boot loaders.
pub fn pkg_requires_writable_boot(name: &str) -> (r: bool)
    ensures
        r == needs_boot(name@),
{
    if same(name, "linux-api-headers") || same(name, "linux-docs") || same(name, "linux-firmware")
        || same(name, "linux-tools") {
        return false;
    }
    same(name, "linux") || starts_with(name, "linux-") || same(name, "mkinitcpio") || starts_with(
        name,
        "mkinitcpio-",
    ) || starts_with(name, "grub") || starts_with(name, "refind") || starts_with(name, "limine")
        || starts_with(name, "syslinux") || same(name, "sbctl") || same(name, "efibootmgr")
}

/// Whether a list names a package that needs the boot partition.
pub open spec fn any_needs_boot(list: Seq<String>) -> bool {
    exists|i: int| 0 <= i < list.len() && needs_boot(#[trigger] list[i]@)
}

fn has_boot_pkg(list: &Vec<String>) -> (r: bool)
    ensures
        r == any_needs_boot(list@),
{
    let mut i: usize = 0;
    while i < list.len()
        invariant
            i <= list.len(),
            forall|k: int| 0 <= k < i ==> !needs_boot(#[trigger] list@[k]@),
        decreases list.len() - i,
    {
        if pkg_requires_writable_boot(list[i].as_str()) {
            assert(needs_boot(list@[i as int]@));
            return true;
        }
        i += 1;
    }
    false
}

/// Whether a transaction adds or removes a package that needs the boot partition.
pub fn transaction_touches_boot_sensitive_pkg(add: &Vec<String>, remove: &Vec<String>) -> (r: bool)
    ensures
        r == (any_needs_boot(add@) || any_needs_boot(remove@)),
{
    has_boot_pkg(add) || has_boot_pkg(remove)
}

/// A path below a root.
pub open spec fn path_below(root: Seq<char>, mount: Seq<char>) -> Seq<char> {
    let rel = relative(mount);
    if root.len() == 0 {
        rel
    } else if root.last() == '/' {
        root + rel
    } else {
        root + "/"@ + rel
    }
}

/// A path without the slash at its start.
pub open spec fn relative(mount: Seq<char>) -> Seq<char> {
    if "/"@.is_prefix_of(mount) {
        mount.skip("/"@.len() as int)
    } else {
        mount
    }
}

/// A path without the slash at its start.
pub fn relative_path(mount: &str) -> (r: String)
    ensures
        r@ == relative(mount@),
{
    proof {
        reveal_strlit("/");
    }
    if starts_with(mount, "/") {
        let v = chars_of(mount);
        assert(v@.subrange(1, v@.len() as int) =~= v@.skip(1));
        string_of(&v, 1, v.len())
    } else {
        mount.to_owned()
    }
}

fn join_path(root: &str, mount: &str) -> (r: String)
    ensures
        r@ == path_below(root@, mount@),
{
    let rel = relative_path(mount);
    let v = chars_of(root);
    if v.len() == 0 {
        return rel;
    }
    let mut out = root.to_owned();
    if v[v.len() - 1] != '/' {
        put(&mut out, "/");
    }
    put(&mut out, rel.as_str());
    out
}

/// What the check waits for.
#[derive(Debug, Clone, Copy, PartialEq, Eq, Structural)]
pub enum BootPhase {
    Packages,
    Mounts,
    OpenRoot,
    OpenBoot,
    ReadFlags,
    Access,
    Space,
    Finished,
}

/// What was found out.
#[derive(Debug)]
pub enum BootFact {
    /// The names of the packages that the transaction adds and removes.
    Packages(Vec<String>, Vec<String>),
    /// The boot partitions in the table of file systems, and what is mounted.
    Mounts(Vec<String>, Vec<String>),
    /// The step was done.
    Done,
    /// Whether the file system is mounted read-only.
    ReadOnly(bool),
    /// The size of a block and the number of blocks that are free.
    Free(u64, u64),
    /// The step failed.
    Failed,
}

/// A check of the boot partition.
#[derive(Debug)]
pub struct BootCheck {
    pub phase: BootPhase,
    /// The mount point of the boot partition; the usual one until it is known.
    pub mount: &'static str,
    /// The path of the boot partition below the root; empty until it is known.
    pub boot: String,
    pub error: Option<String>,
}

/// The free bytes, as far as they can be counted.
pub open spec fn free_bytes(block: u64, blocks: u64) -> int {
    min(block * blocks, u64::MAX as int)
}

/// The bytes that have to be free.
pub open spec fn wanted_bytes(config: Config) -> int {
    min(config.boot_min_free_mb * 0x10_0000, u64::MAX as int)
}

/// Whether too little space is free.
pub open spec fn is_low(config: Config, block: u64, blocks: u64) -> bool {
    wanted_bytes(config) > 0 && free_bytes(block, blocks) < wanted_bytes(config)
}

/// What comes after a fact. The first two steps wait for the facts that they ask for; the others
/// end the check where they fail.
pub open spec fn boot_next(config: Config, phase: BootPhase, f: BootFact) -> BootPhase {
    match (phase, f) {
        (BootPhase::Packages, BootFact::Packages(add, remove)) => if any_needs_boot(add@)
            || any_needs_boot(remove@) {
            BootPhase::Mounts
        } else {
            BootPhase::Finished
        },
        (BootPhase::Mounts, BootFact::Mounts(expected, mounted)) => if boot_mountpoint(
            texts(expected@),
            texts(mounted@),
        ) is Some {
            BootPhase::OpenRoot
        } else {
            BootPhase::Finished
        },
        (BootPhase::Packages, _) => BootPhase::Packages,
        (BootPhase::Mounts, _) => BootPhase::Mounts,
        (BootPhase::OpenRoot, BootFact::Done) => BootPhase::OpenBoot,
        (BootPhase::OpenBoot, BootFact::Done) => BootPhase::ReadFlags,
        (BootPhase::ReadFlags, BootFact::ReadOnly(ro)) => if ro {
            BootPhase::Finished
        } else {
            BootPhase::Access
        },
        (BootPhase::Access, BootFact::Done) => BootPhase::Space,
        _ => BootPhase::Finished,
    }
}

/// The failure that a fact means, given the root and the path of the boot partition.
pub open spec fn boot_failure(
    config: Config,
    phase: BootPhase,
    root: Seq<char>,
    boot: Seq<char>,
    f: BootFact,
) -> Option<Seq<char>> {
    match (phase, f) {
        (BootPhase::Packages, _) => None,
        (BootPhase::Mounts, BootFact::Mounts(expected, mounted)) => if boot_mountpoint(
            texts(expected@),
            texts(mounted@),
        ) is Some {
            None
        } else {
            Some(not_mounted_text(texts(expected@)))
        },
        (BootPhase::Mounts, _) => None,
        (BootPhase::OpenRoot, BootFact::Done) => None,
        (BootPhase::OpenRoot, _) => Some(
            "cannot open pacman root "@ + root + " (missing path or symlink chain?)"@,
        ),
        (BootPhase::OpenBoot, BootFact::Done) => None,
        (BootPhase::OpenBoot, _) => Some(
            boot
                + " does not exist or is not a real directory (symlinks under the chroot root are rejected). Mount your EFI/boot partition before updating kernel, initramfs, or bootloader."@,
        ),
        (BootPhase::ReadFlags, BootFact::ReadOnly(ro)) => if ro {
            Some(
                boot
                    + " is read-only. Mount it read-write (check fstab) before updating kernel, initramfs, or bootloader so hooks can refresh images and bootloaders."@,
            )
        } else {
            None
        },
        (BootPhase::ReadFlags, _) => Some("statfs on "@ + boot + " failed (is /boot mounted?)"@),
        (BootPhase::Access, BootFact::Done) => None,
        (BootPhase::Access, _) => Some(
            "cannot write to "@ + boot
                + " (access W_OK failed); hooks may fail to refresh /boot"@,
        ),
        (BootPhase::Space, BootFact::Free(block, blocks)) => if is_low(config, block, blocks) {
            Some(
                boot + " has critically low free space ("@ + decimal(
                    free_bytes(block, blocks) as nat,
                ) + " bytes free; need at least ~"@ + decimal(
                    (wanted_bytes(config) / 0x10_0000) as nat,
                ) + " MB for kernel/initramfs hooks). Free space before upgrading."@,
            )
        } else {
            None
        },
        (BootPhase::Space, _) => Some("fstatvfs on "@ + boot + " failed"@),
        (BootPhase::Finished, _) => None,
    }
}

fn product(a: u64, b: u64) -> (r: u64)
    ensures
        r == min(a * b, u64::MAX as int),
{
    proof {
        assert(0 <= a * b <= u64::MAX * u64::MAX) by (nonlinear_arith)
            requires
                0 <= a <= u64::MAX,
                0 <= b <= u64::MAX,
        ;
    }
    let p: u128 = a as u128 * b as u128;
    if p < u64::MAX as u128 {
        p as u64
    } else {
        u64::MAX
    }
}

impl BootCheck {
    /// A check that starts: it first asks for the packages of the transaction, and knows no path of
    /// the boot partition yet.
    pub fn new() -> (r: BootCheck)
        ensures
            r.phase == BootPhase::Packages,
            r.mount@ == "/boot"@,
            r.boot@ == ""@,
            r.error is None,
    {
        let boot = String::new();
        assert(boot@ =~= ""@) by {
            reveal_strlit("");
        }
        BootCheck { phase: BootPhase::Packages, mount: "/boot", boot, error: None }
    }

    fn space_report(&self, block: u64, blocks: u64, config: &Config) -> (r: Option<String>)
        ensures
            opt_text(r) == (if is_low(*config, block, blocks) {
                Some(
                    self.boot@ + " has critically low free space ("@ + decimal(
                        free_bytes(block, blocks) as nat,
                    ) + " bytes free; need at least ~"@ + decimal(
                        (wanted_bytes(*config) / 0x10_0000) as nat,
                    ) + " MB for kernel/initramfs hooks). Free space before upgrading."@,
                )
            } else {
                None
            }),
    {
        let free = product(block, blocks);
        let wanted = product(config.boot_min_free_mb, 0x10_0000);
        if wanted > 0 && free < wanted {
            let mut text = self.boot.clone();
            put(&mut text, " has critically low free space (");
            put(&mut text, decimal_text(free as u128).as_str());
            put(&mut text, " bytes free; need at least ~");
            put(&mut text, decimal_text((wanted / 0x10_0000) as u128).as_str());
            put(&mut text, " MB for kernel/initramfs hooks). Free space before upgrading.");
            Some(text)
        } else {
            None
        }
    }

    /// A failure ends the check.
    fn fail(&mut self, text: String)
        ensures
            final(self).phase == BootPhase::Finished,
            final(self).mount@ == old(self).mount@,
            final(self).boot@ == old(self).boot@,
            opt_text(final(self).error) == Some(text@),
    {
        self.phase = BootPhase::Finished;
        self.error = Some(text);
    }

    fn with_boot(&self, head: &str, tail: &str) -> (r: String)
        ensures
            r@ == head@ + self.boot@ + tail@,
    {
        let mut text = head.to_owned();
        put(&mut text, self.boot.as_str());
        put(&mut text, tail);
        text
    }

    /// Goes on with a fact. `root` is the root of the installation. A check that ends without a
    /// failure lets the transaction go on.
    pub fn ensure_boot_rw_for_transaction(&mut self, config: &Config, root: &str, fact: &BootFact)
        ensures
            final(self).phase == boot_next(*config, old(self).phase, *fact),
            opt_text(final(self).error) == (match boot_failure(
                *config,
                old(self).phase,
                root@,
                old(self).boot@,
                *fact,
            ) {
                Some(text) => Some(text),
                None => opt_text(old(self).error),
            }),
            ({
                let chosen = match (old(self).phase, *fact) {
                    (BootPhase::Mounts, BootFact::Mounts(expected, mounted)) => boot_mountpoint(
                        texts(expected@),
                        texts(mounted@),
                    ),
                    _ => None,
                };
                match chosen {
                    Some(path) => final(self).mount@ == path && final(self).boot@ == path_below(
                        root@,
                        path,
                    ),
                    None => final(self).mount@ == old(self).mount@ && final(self).boot@ == old(
                        self,
                    ).boot@,
                }
            }),
    {
        match self.phase {
            BootPhase::Packages => match fact {
                BootFact::Packages(add, remove) => {
                    self.phase = if transaction_touches_boot_sensitive_pkg(add, remove) {
                        BootPhase::Mounts
                    } else {
                        BootPhase::Finished
                    };
                },
                _ => {},
            },
            BootPhase::Mounts => match fact {
                BootFact::Mounts(expected, mounted) => {
                    match select_boot_mountpoint(expected, mounted) {
                        Ok(path) => {
                            self.mount = path;
                            self.boot = join_path(root, path);
                            self.phase = BootPhase::OpenRoot;
                        },
                        Err(text) => self.fail(text),
                    }
                },
                _ => {},
            },
            BootPhase::OpenRoot => match fact {
                BootFact::Done => {
                    self.phase = BootPhase::OpenBoot;
                },
                _ => {
                    let mut text = "cannot open pacman root ".to_owned();
                    put(&mut text, root);
                    put(&mut text, " (missing path or symlink chain?)");
                    self.fail(text)
                },
            },
            BootPhase::OpenBoot => match fact {
                BootFact::Done => {
                    self.phase = BootPhase::ReadFlags;
                },
                _ => {
                    let mut text = self.boot.clone();
                    put(
                        &mut text,
                        " does not exist or is not a real directory (symlinks under the chroot root are rejected). Mount your EFI/boot partition before updating kernel, initramfs, or bootloader.",
                    );
                    self.fail(text)
                },
            },
            BootPhase::ReadFlags => match fact {
                BootFact::ReadOnly(ro) => {
                    if *ro {
                        let mut text = self.boot.clone();
                        put(
                            &mut text,
                            " is read-only. Mount it read-write (check fstab) before updating kernel, initramfs, or bootloader so hooks can refresh images and bootloaders.",
                        );
                        self.fail(text)
                    } else {
                        self.phase = BootPhase::Access;
                    }
                },
                _ => {
                    let text = self.with_boot("statfs on ", " failed (is /boot mounted?)");
                    self.fail(text)
                },
            },
            BootPhase::Access => match fact {
                BootFact::Done => {
                    self.phase = BootPhase::Space;
                },
                _ => {
                    let text = self.with_boot(
                        "cannot write to ",
                        " (access W_OK failed); hooks may fail to refresh /boot",
                    );
                    self.fail(text)
                },
            },
            BootPhase::Space => match fact {
                BootFact::Free(block, blocks) => {
                    match self.space_report(*block, *blocks, config) {
                        Some(text) => self.fail(text),
                        None => {
                            self.phase = BootPhase::Finished;
                        },
                    }
                },
                _ => {
                    let text = self.with_boot("fstatvfs on ", " failed");
                    self.fail(text)
                },
            },
            BootPhase::Finished => {},
        }
    }
}

/// The phase of a check after the first `n` facts.
pub open spec fn boot_phase_after(config: Config, facts: Seq<BootFact>, n: int) -> BootPhase
    decreases n,
{
    if n <= 0 {
        BootPhase::Packages
    } else {
        boot_next(config, boot_phase_after(config, facts, n - 1), facts[n - 1])
    }
}

/// How many steps a phase is from the start.
pub open spec fn boot_rank(p: BootPhase) -> int {
    match p {
        BootPhase::Packages => 0,
        BootPhase::Mounts => 1,
        BootPhase::OpenRoot => 2,
        BootPhase::OpenBoot => 3,
        BootPhase::ReadFlags => 4,
        BootPhase::Access => 5,
        BootPhase::Space => 6,
        BootPhase::Finished => 7,
    }
}

/// A check that is told the packages and the mounts first ends after at most seven facts.
pub proof fn boot_check_ends(config: Config, facts: Seq<BootFact>, n: int)
    requires
        7 <= n <= facts.len(),
        facts[0] is Packages,
        facts[1] is Mounts,
    ensures
        boot_phase_after(config, facts, n) is Finished,
{
    lemma_boot_rank(config, facts, n);
}

proof fn lemma_boot_rank(config: Config, facts: Seq<BootFact>, n: int)
    requires
        0 <= n,
        facts[0] is Packages,
        facts[1] is Mounts,
    ensures
        boot_rank(boot_phase_after(config, facts, n)) >= n || boot_phase_after(config, facts, n) is Finished,
    decreases n,
{
    if n > 0 {
        lemma_boot_rank(config, facts, n - 1);
        if n - 1 > 1 {
            lemma_boot_start(config, facts, n - 1);
        }
    }
}

proof fn lemma_boot_start(config: Config, facts: Seq<BootFact>, n: int)
    requires
        2 <= n,
        facts[0] is Packages,
        facts[1] is Mounts,
    ensures
        !(boot_phase_after(config, facts, n) is Packages),
        !(boot_phase_after(config, facts, n) is Mounts),
    decreases n,
{
    if n > 2 {
        lemma_boot_start(config, facts, n - 1);
    } else {
        reveal_with_fuel(boot_phase_after, 3);
    }
}

/// A transaction that needs the boot partition passes the check only where the partition is
/// mounted writable, can be written, and has enough space: a check that has come to its last
/// step and finds no failure there has seen all of this.
pub proof fn boot_check_is_thorough(config: Config, facts: Seq<BootFact>, root: Seq<char>, boot: Seq<char>)
    requires
        facts.len() >= 7,
        boot_phase_after(config, facts, 6) is Space,
        boot_failure(config, BootPhase::Space, root, boot, facts[6]) is None,
    ensures
        facts[0] matches BootFact::Packages(add, remove) && (any_needs_boot(add@) || any_needs_boot(
            remove@,
        )),
        facts[1] matches BootFact::Mounts(expected, mounted) && boot_mountpoint(
            texts(expected@),
            texts(mounted@),
        ) is Some,
        facts[2] is Done,
        facts[3] is Done,
        facts[4] == BootFact::ReadOnly(false),
        facts[5] is Done,
        facts[6] matches BootFact::Free(block, blocks) && !is_low(config, block, blocks),
{
    reveal_with_fuel(boot_phase_after, 7);
}

} // verus!
