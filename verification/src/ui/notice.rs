//! Warnings and the lines of the hook phase.

use crate::config::Config;
use crate::number::decimal_text;
#[allow(unused_imports)]
use crate::number::decimal;
use crate::style::{heading_text, paint};
#[allow(unused_imports)]
use crate::style::{heading, painted};
use crate::text::{contains, join, put, repeat};
#[allow(unused_imports)]
use crate::text::{joined, lowercase, mentions, opt_str, repeated, texts};
use vstd::prelude::*;

verus! {

/// Lines in the colour of warnings.
pub open spec fn warning_lines(lines: Seq<Seq<char>>) -> Seq<char>
    decreases lines.len(),
{
    if lines.len() == 0 {
        seq![]
    } else {
        warning_lines(lines.drop_last()) + "\x1b[33m"@ + lines.last() + "\x1b[0m"@ + "\n"@
    }
}

/// A block of warnings with an empty line after it; nothing for no line.
pub open spec fn warning_block(lines: Seq<Seq<char>>) -> Seq<char> {
    if lines.len() == 0 {
        seq![]
    } else {
        warning_lines(lines) + "\n"@
    }
}

/// A block of warnings.
pub fn print_warning_block(lines: &Vec<String>) -> (r: String)
    ensures
        r@ == warning_block(texts(lines@)),
{
    let mut out = String::new();
    if lines.len() == 0 {
        return out;
    }
    let mut i: usize = 0;
    assert(texts(lines@).take(0) =~= seq![]);
    while i < lines.len()
        invariant
            i <= lines.len(),
            out@ =~= warning_lines(texts(lines@).take(i as int)),
        decreases lines.len() - i,
    {
        assert(texts(lines@).take(i + 1).drop_last() =~= texts(lines@).take(i as int));
        put(&mut out, "\x1b[33m");
        put(&mut out, lines[i].as_str());
        put(&mut out, "\x1b[0m");
        put(&mut out, "\n");
        i += 1;
    }
    assert(texts(lines@).take(i as int) =~= texts(lines@));
    put(&mut out, "\n");
    out
}

/// The lines of the warning about critical packages.
pub open spec fn critical_lines(pkgs: Seq<Seq<char>>) -> Seq<Seq<char>> {
    seq![
        ":: Warning: This transaction includes critical system packages:"@,
        "   "@ + joined(pkgs, ", "@),
        "   Interrupting this operation may leave your system unbootable."@,
        "   Ensure /boot is mounted before proceeding."@,
    ]
}

/// The warning about critical packages.
pub open spec fn critical_warning(pkgs: Seq<Seq<char>>) -> Seq<char> {
    if pkgs.len() == 0 {
        seq![]
    } else {
        warning_block(critical_lines(pkgs))
    }
}

/// The warning about critical packages; nothing where there are none.
pub fn print_critical_pkg_warning(pkgs: &Vec<String>) -> (r: String)
    ensures
        r@ == critical_warning(texts(pkgs@)),
{
    assert(texts(pkgs@).len() == pkgs@.len());
    if pkgs.len() == 0 {
        let none = String::new();
        assert(none@ =~= seq![]);
        return none;
    }
    let mut list = "   ".to_owned();
    put(&mut list, join(pkgs, ", ").as_str());
    let mut lines: Vec<String> = Vec::new();
    lines.push(":: Warning: This transaction includes critical system packages:".to_owned());
    lines.push(list);
    lines.push("   Interrupting this operation may leave your system unbootable.".to_owned());
    lines.push("   Ensure /boot is mounted before proceeding.".to_owned());
    assert(texts(lines@) =~= critical_lines(texts(pkgs@)));
    print_warning_block(&lines)
}

/// The line at the start of the hooks.
pub fn print_hook_phase_start(config: &Config) -> (r: String)
    ensures
        r@ == heading(config.color, "Running post-transaction hooks..."@) + "\n"@,
{
    let mut out = heading_text(&config.color, "Running post-transaction hooks...");
    put(&mut out, "\n");
    out
}

/// The line at the end of the hooks.
pub fn print_hook_phase_done(config: &Config) -> (r: String)
    ensures
        r@ == heading(config.color, "Post-transaction hooks completed."@) + "\n"@,
{
    let mut out = heading_text(&config.color, "Post-transaction hooks completed.");
    put(&mut out, "\n");
    out
}

/// The line of a hook.
pub fn print_hook_step(config: &Config, current: usize, total: usize, desc: &str) -> (r: String)
    ensures
        r@ == painted(
            config.color.field,
            "["@ + decimal(current as nat) + "/"@ + decimal(total as nat) + "]"@,
        ) + " "@ + painted(config.color.install_version, desc@) + "\n"@,
{
    let mut step = "[".to_owned();
    put(&mut step, decimal_text(current as u128).as_str());
    put(&mut step, "/");
    put(&mut step, decimal_text(total as u128).as_str());
    put(&mut step, "]");
    let mut out = paint(config.color.field, step.as_str());
    put(&mut out, " ");
    put(&mut out, paint(config.color.install_version, desc).as_str());
    put(&mut out, "\n");
    out
}

/// The mark of a hook that went well.
pub open spec fn ok_mark() -> Seq<char> {
    "\x1b[32m::\x1b[0m"@
}

/// The mark of a hook that went well.
pub fn ansi_ok() -> (r: String)
    ensures
        r@ == ok_mark(),
{
    "\x1b[32m::\x1b[0m".to_owned()
}

/// Whether a failed hook may leave the system unable to start, told from its name in lower case.
pub open spec fn is_boot_hook(lower: Seq<char>) -> bool {
    mentions(lower, "mkinitcpio"@) || mentions(lower, "initramfs"@) || mentions(lower, "linux"@)
        || mentions(lower, "kernel"@) || mentions(lower, "grub"@) || mentions(lower, "boot"@)
}

/// Whether a failed hook may leave the system unable to start.
pub fn touches_boot(lower: &str) -> (r: bool)
    ensures
        r == is_boot_hook(lower@),
{
    contains(lower, "mkinitcpio") || contains(lower, "initramfs") || contains(lower, "linux")
        || contains(lower, "kernel") || contains(lower, "grub") || contains(lower, "boot")
}

/// A line in the colour of alarms.
pub open spec fn alarm(line: Seq<char>) -> Seq<char> {
    "\x1b[1;31m"@ + line + "\x1b[0m\n"@
}

fn put_alarm(out: &mut String, line: &str)
    ensures
        final(out)@ == old(out)@ + alarm(line@),
{
    let mut text = "\x1b[1;31m".to_owned();
    put(&mut text, line);
    put(&mut text, "\x1b[0m\n");
    put(out, text.as_str());
}

/// The alarm about a hook that failed.
pub open spec fn hook_alarm(hook: Seq<char>) -> Seq<char> {
    "\n"@ + alarm(repeated('=', 70)) + alarm("⚠️  CRITICAL HOOK FAILURE DETECTED ⚠️"@) + alarm(
        repeated('=', 70),
    ) + "\n"@ + alarm("SYSTEM MAY BE UNBOOTABLE. DO NOT REBOOT."@) + "\n"@ + alarm(
        "Failed hook: "@ + hook,
    ) + "\n"@ + alarm("RECOMMENDED ACTIONS:"@) + alarm("1. Do NOT reboot your system"@) + alarm(
        "2. Check /boot partition space: df -h /boot"@,
    ) + alarm("3. Verify /boot is mounted: mount | grep /boot"@) + alarm(
        "4. Re-run mkinitcpio manually: mkinitcpio -P"@,
    ) + alarm("5. Check logs: journalctl -xb | grep -i error"@) + "\n"@ + alarm(repeated('=', 70))
        + "\n"@
}

fn hook_alarm_text(hook: &str) -> (r: String)
    ensures
        r@ == hook_alarm(hook@),
{
    let bar = repeat('=', 70);
    let mut failed = "Failed hook: ".to_owned();
    put(&mut failed, hook);
    let mut out = "\n".to_owned();
    put_alarm(&mut out, bar.as_str());
    put_alarm(&mut out, "⚠️  CRITICAL HOOK FAILURE DETECTED ⚠️");
    put_alarm(&mut out, bar.as_str());
    put(&mut out, "\n");
    put_alarm(&mut out, "SYSTEM MAY BE UNBOOTABLE. DO NOT REBOOT.");
    put(&mut out, "\n");
    put_alarm(&mut out, failed.as_str());
    put(&mut out, "\n");
    put_alarm(&mut out, "RECOMMENDED ACTIONS:");
    put_alarm(&mut out, "1. Do NOT reboot your system");
    put_alarm(&mut out, "2. Check /boot partition space: df -h /boot");
    put_alarm(&mut out, "3. Verify /boot is mounted: mount | grep /boot");
    put_alarm(&mut out, "4. Re-run mkinitcpio manually: mkinitcpio -P");
    put_alarm(&mut out, "5. Check logs: journalctl -xb | grep -i error");
    put(&mut out, "\n");
    put_alarm(&mut out, bar.as_str());
    put(&mut out, "\n");
    out
}

/// The alarm about the hook that ran last.
pub open spec fn failure_alarm(hook: Option<Seq<char>>) -> Seq<char> {
    match hook {
        Some(h) => if is_boot_hook(lowercase(h)) {
            hook_alarm(h)
        } else {
            seq![]
        },
        None => seq![],
    }
}

/// The alarm about the hook that ran last when a transaction failed; nothing where there was
/// none, or where it does not concern how the system starts.
pub fn print_critical_hook_failure_warning(hook: Option<&str>) -> (r: String)
    ensures
        r@ == failure_alarm(opt_str(hook)),
{
    match hook {
        Some(h) => {
            if touches_boot(h.to_lowercase().as_str()) {
                return hook_alarm_text(h);
            }
        },
        None => {},
    }
    let none = String::new();
    assert(none@ =~= seq![]);
    none
}

} // verus!
