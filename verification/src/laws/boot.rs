//! What the check of the boot partition promises.

#[allow(unused_imports)]
use crate::config::Config;
#[allow(unused_imports)]
use crate::text::{mentions, occurs_at, texts, trim_end_char, trimmed, words};
#[allow(unused_imports)]
use crate::tx_helper::boot::{
    boot_failure, boot_mountpoint, boot_next, boot_phase_after, entered, fstab_mount, fstab_mounts,
    is_low, mount_hits, mount_point, mount_points, mount_summary, needs_boot, not_mounted_text,
    path_below, BootFact, BootPhase,
};
use vstd::prelude::*;

verus! {

/// The usual places of a boot partition, in the order in which they are preferred.
pub open spec fn usual_places() -> Seq<Seq<char>> {
    seq!["/boot"@, "/boot/efi"@, "/efi"@]
}

/// Whether a place is mounted, and named by the table of file systems or not contradicted by it.
pub open spec fn is_in_use(place: Seq<char>, expected: Seq<Seq<char>>, mounted: Seq<Seq<char>>) -> bool {
    mounted.contains(place) && (expected.len() == 0 || expected.contains(place))
}

/// Where a usual place is in use, the first of them is the boot partition. There is none only where
/// the table of file systems names some places and none of the usual ones is in use. Where it
/// names none and none is mounted, `/boot` is taken.
pub proof fn the_first_place_in_use_is_the_boot_partition(
    expected: Seq<Seq<char>>,
    mounted: Seq<Seq<char>>,
    i: int,
)
    requires
        0 <= i < 3,
    ensures
        is_in_use(usual_places()[i], expected, mounted) && (forall|j: int|
            0 <= j < i ==> !is_in_use(#[trigger] usual_places()[j], expected, mounted))
            ==> boot_mountpoint(expected, mounted) == Some(usual_places()[i]),
        (forall|j: int|
            0 <= j < 3 ==> !is_in_use(#[trigger] usual_places()[j], expected, mounted)) ==> boot_mountpoint(
            expected,
            mounted,
        ) == (if expected.len() == 0 {
            Some("/boot"@)
        } else {
            None
        }),
{
    let u = usual_places();
    assert(u[0] == "/boot"@ && u[1] == "/boot/efi"@ && u[2] == "/efi"@);
    if is_in_use(u[i], expected, mounted) && (forall|j: int|
        0 <= j < i ==> !is_in_use(#[trigger] u[j], expected, mounted)) {
        assert(i > 0 ==> !is_in_use(u[0], expected, mounted));
        assert(i > 1 ==> !is_in_use(u[1], expected, mounted));
    }
    if forall|j: int| 0 <= j < 3 ==> !is_in_use(#[trigger] u[j], expected, mounted) {
        assert(!is_in_use(u[0], expected, mounted));
        assert(!is_in_use(u[1], expected, mounted));
        assert(!is_in_use(u[2], expected, mounted));
    }
}

/// The report that nothing is mounted names every place that was expected.
pub proof fn missing_places_are_named(expected: Seq<Seq<char>>, i: int)
    requires
        0 <= i < expected.len(),
    ensures
        mentions(not_mounted_text(expected), expected[i]),
{
    let all = crate::text::joined(expected, ", "@);
    crate::laws::transactions::lemma_joined_mentions(expected, ", "@, i);
    let k = choose|k: int| occurs_at(all, expected[i], k);
    let at = "expected boot/EFI mountpoint(s) from /etc/fstab not mounted: "@.len() + k;
    let text = not_mounted_text(expected);
    assert(text.subrange(at, at + expected[i].len()) =~= all.subrange(k, k + expected[i].len()));
    assert(occurs_at(text, expected[i], at));
}

/// Whether a line of the table of file systems mounts something at a place: it is no comment, and
/// the place is its second word.
pub open spec fn mounts_at(line: Seq<char>, place: Seq<char>) -> bool {
    let t = trimmed(line);
    &&& t.len() > 0 && !"#"@.is_prefix_of(t)
    &&& words(t).len() >= 2 && words(t)[1] == place
}

/// The boot partitions of the table of file systems are the usual places at which one of its lines
/// mounts something.
pub proof fn the_table_names_what_its_lines_mount(list: Seq<Seq<char>>, place: Seq<char>)
    ensures
        fstab_mounts(list).contains(place) <==> usual_places().contains(place) && exists|i: int|
            0 <= i < list.len() && mounts_at(#[trigger] list[i], place),
    decreases list.len(),
{
    let u = usual_places();
    assert(u[0] == "/boot"@ && u[1] == "/boot/efi"@ && u[2] == "/efi"@);
    assert(u.contains(place) <==> place == "/boot"@ || place == "/boot/efi"@ || place == "/efi"@)
        by {
        assert(u.contains(u[0]) && u.contains(u[1]) && u.contains(u[2]));
    }
    if list.len() > 0 {
        let front = list.drop_last();
        the_table_names_what_its_lines_mount(front, place);
        let all = fstab_mounts(list);
        let less = fstab_mounts(front);
        let last = fstab_mount(list.last());
        assert(last == Some(place) <==> u.contains(place) && mounts_at(list.last(), place));
        if last is Some {
            assert(all == less.push(last->0));
            assert(all.contains(place) <==> less.contains(place) || last->0 == place) by {
                lemma_push_contains(less, last->0, place);
            }
        }
        if exists|i: int| 0 <= i < list.len() && mounts_at(#[trigger] list[i], place) {
            let i = choose|i: int| 0 <= i < list.len() && mounts_at(#[trigger] list[i], place);
            if i < front.len() {
                assert(mounts_at(front[i], place));
            }
        }
        if exists|i: int| 0 <= i < front.len() && mounts_at(#[trigger] front[i], place) {
            let i = choose|i: int| 0 <= i < front.len() && mounts_at(#[trigger] front[i], place);
            assert(mounts_at(list[i], place));
        }
        if mounts_at(list.last(), place) {
            assert(mounts_at(list[list.len() - 1], place));
        }
    }
}

/// A list with something at its end holds that and what it held.
pub proof fn lemma_push_contains<T>(list: Seq<T>, x: T, y: T)
    ensures
        list.push(x).contains(y) <==> list.contains(y) || x == y,
{
    let all = list.push(x);
    if all.contains(y) {
        let k = choose|k: int| 0 <= k < all.len() && all[k] == y;
        if k < list.len() {
            assert(list[k] == y);
        }
    }
    if list.contains(y) {
        let k = choose|k: int| 0 <= k < list.len() && list[k] == y;
        assert(all[k] == y);
    }
    if x == y {
        assert(all[list.len() as int] == y);
    }
}

/// What is mounted is what the lines of the kernel's list say, no more and no less.
pub proof fn mounts_are_those_of_the_lines(list: Seq<Seq<char>>, place: Seq<char>)
    ensures
        mount_points(list).contains(place) <==> exists|i: int|
            0 <= i < list.len() && mount_point(#[trigger] list[i]) == Some(place),
    decreases list.len(),
{
    if list.len() > 0 {
        let front = list.drop_last();
        mounts_are_those_of_the_lines(front, place);
        let last = mount_point(list.last());
        if last is Some {
            lemma_push_contains(mount_points(front), last->0, place);
        }
        if exists|i: int| 0 <= i < list.len() && mount_point(#[trigger] list[i]) == Some(place) {
            let i = choose|i: int| 0 <= i < list.len() && mount_point(#[trigger] list[i]) == Some(place);
            if i < front.len() {
                assert(mount_point(front[i]) == Some(place));
            }
        }
        if exists|i: int| 0 <= i < front.len() && mount_point(#[trigger] front[i]) == Some(place) {
            let i = choose|i: int|
                0 <= i < front.len() && mount_point(#[trigger] front[i]) == Some(place);
            assert(mount_point(list[i]) == Some(place));
        }
        if last == Some(place) {
            assert(mount_point(list[list.len() - 1]) == Some(place));
        }
    }
}

/// A line of the kernel's list of mounts whose fifth word holds no backslash names that word as its
/// mount point; a line with fewer words names none.
pub proof fn the_fifth_word_is_the_mount_point(line: Seq<char>)
    ensures
        ({
            let fields = words(crate::text::before(line, " - "@));
            &&& fields.len() < 5 <==> mount_point(line) is None
            &&& fields.len() >= 5 && !fields[4].contains('\\') ==> mount_point(line) == Some(fields[4])
        }),
{
    let fields = words(crate::text::before(line, " - "@));
    if fields.len() >= 5 && !fields[4].contains('\\') {
        reveal_strlit("\\040");
        reveal_strlit("\\011");
        reveal_strlit("\\134");
        lemma_nothing_replaced(fields[4], "\\040"@, " "@);
        lemma_nothing_replaced(fields[4], "\\011"@, "\t"@);
        lemma_nothing_replaced(fields[4], "\\134"@, "\\"@);
    }
}

proof fn lemma_nothing_replaced(s: Seq<char>, from: Seq<char>, to: Seq<char>)
    requires
        from.len() > 0,
        !s.contains(from[0]),
    ensures
        crate::text::replaced(s, from, to) == s,
    decreases s.len(),
{
    if s.len() >= from.len() {
        if occurs_at(s, from, 0) {
            assert(s.subrange(0, from.len() as int)[0] == s[0]);
            assert(s.contains(s[0]));
        }
        let rest = s.skip(1);
        assert(!rest.contains(from[0])) by {
            if rest.contains(from[0]) {
                let k = choose|k: int| 0 <= k < rest.len() && rest[k] == from[0];
                assert(s[k + 1] == from[0]);
            }
        }
        lemma_nothing_replaced(rest, from, to);
        assert(seq![s[0]] + rest =~= s);
    }
}

/// A blank, a tab and a backslash in a mount point, which the kernel writes as numbers, are read as
/// what they are.
pub proof fn escapes_in_mount_points_are_undone(a: Seq<char>, b: Seq<char>)
    requires
        !a.contains('\\'),
        !b.contains('\\'),
    ensures
        crate::text::replaced(a + "\\040"@ + b, "\\040"@, " "@) == a + " "@ + b,
        crate::text::replaced(a + "\\011"@ + b, "\\011"@, "\t"@) == a + "\t"@ + b,
        crate::text::replaced(a + "\\134"@ + b, "\\134"@, "\\"@) == a + "\\"@ + b,
{
    reveal_strlit("\\040");
    reveal_strlit("\\011");
    reveal_strlit("\\134");
    lemma_one_replaced(a, "\\040"@, " "@, b);
    lemma_one_replaced(a, "\\011"@, "\t"@, b);
    lemma_one_replaced(a, "\\134"@, "\\"@, b);
}

proof fn lemma_one_replaced(a: Seq<char>, from: Seq<char>, to: Seq<char>, b: Seq<char>)
    requires
        from.len() > 0,
        !a.contains(from[0]),
        !b.contains(from[0]),
    ensures
        crate::text::replaced(a + from + b, from, to) == a + to + b,
    decreases a.len(),
{
    let s = a + from + b;
    if a.len() == 0 {
        assert(s.subrange(0, from.len() as int) =~= from);
        assert(s.skip(from.len() as int) =~= b);
        lemma_nothing_replaced(b, from, to);
        assert(a + to + b =~= to + b);
    } else {
        let rest = a.skip(1);
        assert(a.contains(a[0]));
        assert(s[0] == a[0]);
        if occurs_at(s, from, 0) {
            assert(s.subrange(0, from.len() as int)[0] == s[0]);
        }
        assert(!rest.contains(from[0])) by {
            if rest.contains(from[0]) {
                let k = choose|k: int| 0 <= k < rest.len() && rest[k] == from[0];
                assert(a[k + 1] == from[0]);
            }
        }
        lemma_one_replaced(rest, from, to, b);
        assert(s.skip(1) =~= rest + from + b);
        assert(seq![a[0]] + (rest + to + b) =~= a + to + b);
    }
}

/// Kernels need the boot partition, whatever they are called, but for what only comes with a kernel;
/// so do the builder of their images and boot loaders.
pub proof fn kernels_and_loaders_need_the_boot_partition(rest: Seq<char>)
    ensures
        needs_boot("linux"@),
        needs_boot("linux-"@ + rest) <==> rest != "api-headers"@ && rest != "docs"@ && rest
            != "firmware"@ && rest != "tools"@,
        needs_boot("mkinitcpio"@),
        needs_boot("mkinitcpio-"@ + rest),
        needs_boot("grub"@ + rest),
        needs_boot("refind"@ + rest),
        needs_boot("limine"@ + rest),
        needs_boot("syslinux"@ + rest),
        needs_boot("sbctl"@),
        needs_boot("efibootmgr"@),
{
    reveal_strlit("linux");
    reveal_strlit("linux-");
    reveal_strlit("linux-api-headers");
    reveal_strlit("linux-docs");
    reveal_strlit("linux-firmware");
    reveal_strlit("linux-tools");
    reveal_strlit("api-headers");
    reveal_strlit("docs");
    reveal_strlit("firmware");
    reveal_strlit("tools");
    reveal_strlit("mkinitcpio");
    reveal_strlit("mkinitcpio-");
    reveal_strlit("grub");
    reveal_strlit("refind");
    reveal_strlit("limine");
    reveal_strlit("syslinux");
    reveal_strlit("sbctl");
    reveal_strlit("efibootmgr");
    assert("linux-api-headers"@ =~= "linux-"@ + "api-headers"@);
    assert("linux-docs"@ =~= "linux-"@ + "docs"@);
    assert("linux-firmware"@ =~= "linux-"@ + "firmware"@);
    assert("linux-tools"@ =~= "linux-"@ + "tools"@);
    let k = "linux-"@ + rest;
    assert(k.skip(6) =~= rest);
    assert(("linux-"@ + "api-headers"@).skip(6) =~= "api-headers"@);
    assert(("linux-"@ + "docs"@).skip(6) =~= "docs"@);
    assert(("linux-"@ + "firmware"@).skip(6) =~= "firmware"@);
    assert(("linux-"@ + "tools"@).skip(6) =~= "tools"@);
    lemma_prefix("linux-"@, rest);
    lemma_prefix("mkinitcpio-"@, rest);
    lemma_prefix("grub"@, rest);
    lemma_prefix("refind"@, rest);
    lemma_prefix("limine"@, rest);
    lemma_prefix("syslinux"@, rest);
    assert(("mkinitcpio-"@ + rest)[0] == 'm');
    assert(("grub"@ + rest)[0] == 'g');
    assert(("refind"@ + rest)[0] == 'r');
    assert(("limine"@ + rest)[2] == 'm');
    assert(("syslinux"@ + rest)[0] == 's');
    assert("linux-api-headers"@[0] == 'l' && "linux-docs"@[0] == 'l' && "linux-firmware"@[0] == 'l'
        && "linux-tools"@[0] == 'l');
    assert("linux-api-headers"@[2] == 'n' && "linux-docs"@[2] == 'n' && "linux-firmware"@[2] == 'n'
        && "linux-tools"@[2] == 'n');
    assert("linux"@.len() == 5);
    assert("mkinitcpio"@[0] == 'm' && "sbctl"@[0] == 's' && "efibootmgr"@[0] == 'e');
}

proof fn lemma_prefix(p: Seq<char>, rest: Seq<char>)
    ensures
        p.is_prefix_of(p + rest),
{
    assert((p + rest).subrange(0, p.len() as int) =~= p);
}

/// No other package needs the boot partition.
pub proof fn other_packages_do_not_need_the_boot_partition(name: Seq<char>)
    requires
        !"linux"@.is_prefix_of(name),
        !"mkinitcpio"@.is_prefix_of(name),
        !"grub"@.is_prefix_of(name),
        !"refind"@.is_prefix_of(name),
        !"limine"@.is_prefix_of(name),
        !"syslinux"@.is_prefix_of(name),
        name != "sbctl"@,
        name != "efibootmgr"@,
    ensures
        !needs_boot(name),
{
    reveal_strlit("linux");
    reveal_strlit("linux-");
    reveal_strlit("mkinitcpio");
    reveal_strlit("mkinitcpio-");
    assert("linux"@.subrange(0, 5) =~= "linux"@);
    assert("mkinitcpio"@.subrange(0, 10) =~= "mkinitcpio"@);
    if "linux-"@.is_prefix_of(name) {
        assert(name.subrange(0, 5) =~= "linux-"@.subrange(0, 5));
        assert("linux-"@.subrange(0, 5) =~= "linux"@);
    }
    if "mkinitcpio-"@.is_prefix_of(name) {
        assert(name.subrange(0, 10) =~= "mkinitcpio-"@.subrange(0, 10));
        assert("mkinitcpio-"@.subrange(0, 10) =~= "mkinitcpio"@);
    }
}

/// A transaction is checked if and only if a package that it adds or removes needs the boot
/// partition.
pub proof fn a_transaction_is_checked_for_any_such_package(
    config: Config,
    add: Vec<String>,
    remove: Vec<String>,
)
    ensures
        boot_next(config, BootPhase::Packages, BootFact::Packages(add, remove)) is Mounts <==> (
        exists|i: int| 0 <= i < add@.len() && needs_boot((#[trigger] add@[i])@)) || (exists|i: int|
            0 <= i < remove@.len() && needs_boot((#[trigger] remove@[i])@)),
        boot_next(config, BootPhase::Packages, BootFact::Packages(add, remove)) is Mounts || boot_next(
            config,
            BootPhase::Packages,
            BootFact::Packages(add, remove),
        ) is Finished,
{
}

/// Space is too low if and only if less is free than the settings ask for, in mebibytes; nothing is
/// asked for where they say zero.
pub proof fn space_is_measured_in_mebibytes(config: Config, block: u64, blocks: u64)
    requires
        block * blocks <= u64::MAX,
        config.boot_min_free_mb * 1_048_576 <= u64::MAX,
    ensures
        is_low(config, block, blocks) <==> block * blocks < config.boot_min_free_mb * 1_048_576,
        config.boot_min_free_mb == 0 ==> !is_low(config, block, blocks),
{
    assert(0 <= block * blocks) by (nonlinear_arith)
        requires
            0 <= block,
            0 <= blocks,
    ;
}

/// Whatever the sizes, more free blocks never turn enough space into too little.
pub proof fn more_space_is_never_too_low(config: Config, block: u64, blocks: u64, more: u64)
    requires
        blocks <= more,
        !is_low(config, block, blocks),
    ensures
        !is_low(config, block, more),
{
    assert(block * blocks <= block * more) by (nonlinear_arith)
        requires
            0 <= block,
            blocks <= more,
    ;
}

/// The boot partition lies below the root, with one slash between them.
pub proof fn the_boot_partition_lies_below_the_root(root: Seq<char>, rel: Seq<char>)
    requires
        root.len() > 0,
    ensures
        root.last() != '/' ==> path_below(root, "/"@ + rel) == root + "/"@ + rel,
        root.last() == '/' ==> path_below(root, "/"@ + rel) == root + rel,
{
    reveal_strlit("/");
    lemma_prefix("/"@, rel);
    assert(("/"@ + rel).skip(1) =~= rel);
}

/// The directories that are entered on a path are those of its parts that are neither empty nor the
/// current directory, in their order, as long as the path does not go up.
pub proof fn paths_are_entered_part_by_part(parts: Seq<Seq<char>>, part: Seq<char>)
    requires
        !parts.contains(".."@),
        part != ".."@,
    ensures
        entered(seq![]) == Seq::<Seq<char>>::empty(),
        part.len() > 0 && part != "."@ ==> entered(seq![part] + parts) == seq![part] + entered(parts),
        part.len() == 0 || part == "."@ ==> entered(seq![part] + parts) == entered(parts),
        entered(seq![".."@] + parts) == Seq::<Seq<char>>::empty(),
{
    assert((seq![part] + parts).skip(1) =~= parts);
}

/// The phase at step `k` of a check in which everything is as it should be.
pub open spec fn good_boot_phase(k: int) -> BootPhase {
    if k <= 0 {
        BootPhase::Packages
    } else if k == 1 {
        BootPhase::Mounts
    } else if k == 2 {
        BootPhase::OpenRoot
    } else if k == 3 {
        BootPhase::OpenBoot
    } else if k == 4 {
        BootPhase::ReadFlags
    } else if k == 5 {
        BootPhase::Access
    } else if k == 6 {
        BootPhase::Space
    } else {
        BootPhase::Finished
    }
}

/// A check in which everything is as it should be ends without a failure: a package needs the boot
/// partition, it is mounted, the directories can be entered, it is not read-only, it can be
/// written, and it has enough space.
pub proof fn a_boot_partition_in_order_passes(
    config: Config,
    facts: Seq<BootFact>,
    root: Seq<char>,
    boot: Seq<char>,
    k: int,
)
    requires
        facts.len() == 7,
        0 <= k < 7,
        facts[0] matches BootFact::Packages(add, remove) && exists|i: int|
            0 <= i < add@.len() && needs_boot((#[trigger] add@[i])@),
        facts[1] matches BootFact::Mounts(expected, mounted) && texts(mounted@).contains("/boot"@)
            && (expected@.len() == 0 || texts(expected@).contains("/boot"@)),
        facts[2] is Done,
        facts[3] is Done,
        facts[4] == BootFact::ReadOnly(false),
        facts[5] is Done,
        facts[6] matches BootFact::Free(block, blocks) && !is_low(config, block, blocks),
    ensures
        boot_failure(config, boot_phase_after(config, facts, k), root, boot, facts[k]) is None,
        boot_phase_after(config, facts, k) == good_boot_phase(k),
        boot_phase_after(config, facts, 7) is Finished,
{
    reveal_with_fuel(boot_phase_after, 8);
    match facts[1] {
        BootFact::Mounts(expected, mounted) => {
            assert(texts(expected@).len() == expected@.len());
            the_first_place_in_use_is_the_boot_partition(texts(expected@), texts(mounted@), 0);
            assert(usual_places()[0] == "/boot"@);
            assert(is_in_use(usual_places()[0], texts(expected@), texts(mounted@)));
        },
        _ => {},
    }
}

/// What is wrong with the boot partition is reported with its path, and ends the check: it cannot be
/// entered, its flags cannot be read, it is read-only, it cannot be written, its space cannot be
/// read or is too low.
pub proof fn faults_of_the_boot_partition_are_reported(
    config: Config,
    phase: BootPhase,
    root: Seq<char>,
    boot: Seq<char>,
    f: BootFact,
)
    requires
        phase is OpenBoot || phase is ReadFlags || phase is Access || phase is Space,
        phase is OpenBoot || phase is Access ==> !(f is Done),
        phase is ReadFlags ==> f != BootFact::ReadOnly(false),
        phase is Space ==> !(f matches BootFact::Free(block, blocks) && !is_low(
            config,
            block,
            blocks,
        )),
    ensures
        boot_failure(config, phase, root, boot, f) matches Some(text) && mentions(text, boot),
        boot_next(config, phase, f) is Finished,
{
    let text = boot_failure(config, phase, root, boot, f)->0;
    let at = if phase is Access {
        "cannot write to "@.len() as int
    } else if phase is ReadFlags && !(f is ReadOnly) {
        "statfs on "@.len() as int
    } else if phase is Space && !(f is Free) {
        "fstatvfs on "@.len() as int
    } else {
        0
    };
    assert(text.subrange(at, at + boot.len()) =~= boot);
    assert(occurs_at(text, boot, at));
}

/// The summary of the mounts holds each line that mounts something at the boot partition or below
/// it, and no other; it tells where there is no such line, or no list at all.
pub proof fn mounts_of_the_boot_partition_are_summed_up(
    list: Seq<Seq<char>>,
    line: Seq<char>,
    boot: Seq<char>,
    below: Seq<char>,
)
    requires
        boot.len() > 0,
        boot.last() != '/',
    ensures
        mount_hits(seq![], boot).len() == 0,
        mount_point(line) is None ==> mount_hits(list.push(line), boot) == mount_hits(list, boot),
        mount_point(line) == Some(boot) || mount_point(line) == Some(boot + "/"@ + below) ==> mount_hits(
            list.push(line),
            boot,
        ) == mount_hits(list, boot).push(trimmed(line)),
        mount_point(line) matches Some(m) && m.len() > 0 && m.last() != '/' && m != boot && !(boot
            + "/"@).is_prefix_of(m) ==> mount_hits(list.push(line), boot) == mount_hits(list, boot),
        mount_summary(boot, None) == "(read mountinfo failed)"@,
{
    assert(list.push(line).drop_last() =~= list);
    lemma_no_slash(boot);
    let m = boot + "/"@ + below;
    assert(m.subrange(0, boot.len() as int + "/"@.len()) =~= boot + "/"@);
    assert((boot + "/"@).is_prefix_of(m));
    match mount_point(line) {
        Some(m) => if m.len() > 0 && m.last() != '/' {
            lemma_no_slash(m);
        },
        None => {},
    }
}

proof fn lemma_no_slash(s: Seq<char>)
    requires
        s.len() > 0,
        s.last() != '/',
    ensures
        trim_end_char(s, '/') == s,
{
    assert(s.take(s.len() as int) =~= s);
}

} // verus!
