use bah::number::{decimal_int_text, decimal_text, parse_i32, scale};
use bah::text::{is_control_char, is_space_char, lower_ascii, trim};
use bah::ui::preview::format_bytes_u64;

fn float_bytes(n: u64) -> String {
    let k = 1024u128;
    let n = n as u128;
    if n < k {
        format!("{} B", n)
    } else if n < k * k {
        format!("{:.1} KiB", n as f64 / k as f64)
    } else if n < k * k * k {
        format!("{:.1} MiB", n as f64 / (k * k) as f64)
    } else {
        format!("{:.2} GiB", n as f64 / (k * k * k) as f64)
    }
}

fn next(seed: &mut u64) -> u64 {
    *seed ^= *seed << 13;
    *seed ^= *seed >> 7;
    *seed ^= *seed << 17;
    *seed
}

#[test]
fn sizes_have_fixed_texts() {
    assert_eq!(format_bytes_u64(0), "0 B");
    assert_eq!(format_bytes_u64(1023), "1023 B");
    assert_eq!(format_bytes_u64(1024), "1.0 KiB");
    assert_eq!(format_bytes_u64(1536), "1.5 KiB");
    assert_eq!(format_bytes_u64(1048575), "1024.0 KiB");
    assert_eq!(format_bytes_u64(1048576), "1.0 MiB");
    assert_eq!(format_bytes_u64(5 * 1024 * 1024 * 1024), "5.00 GiB");
    assert_eq!(format_bytes_u64(1073741824 + 5368709), "1.00 GiB");
    assert_eq!(format_bytes_u64(u64::MAX), "17179869184.00 GiB");
}

#[test]
fn sizes_round_as_doubles_do() {
    let mut seed = 0x1234_5678_9abc_def1u64;
    for _ in 0..200_000 {
        let n = next(&mut seed) >> (next(&mut seed) % 64);
        assert_eq!(format_bytes_u64(n), float_bytes(n), "{}", n);
    }
    for k in 0..4096u64 {
        for n in [1024 * 20 + k, 1048576 * 3 + k * 52428, u64::MAX - k, (1 << 53) + k] {
            assert_eq!(format_bytes_u64(n), float_bytes(n), "{}", n);
        }
    }
}

#[test]
fn scaling_rounds_as_doubles_do() {
    let mut seed = 0xfeed_beef_1357_2468u64;
    for _ in 0..200_000 {
        let whole = 1 + (next(&mut seed) >> (next(&mut seed) % 63));
        let part = next(&mut seed) % whole;
        let w = next(&mut seed) % (whole + 1);
        let factor = part as f64 / whole as f64;
        let expected = (w as f64 * factor).floor() as u128;
        assert_eq!(
            scale(w as u128, part as u128, whole as u128),
            expected,
            "{} * {} / {}",
            w,
            part,
            whole
        );
    }
    for whole in 1..200u128 {
        for part in 0..whole {
            for w in [0, 1, 7, 39, whole / 2, whole] {
                let factor = part as f64 / whole as f64;
                assert_eq!(scale(w, part, whole), (w as f64 * factor).floor() as u128);
            }
        }
    }
}

#[test]
fn decimals_are_written_out() {
    assert_eq!(decimal_text(0), "0");
    assert_eq!(decimal_text(u128::MAX), u128::MAX.to_string());
    assert_eq!(decimal_int_text(i64::MIN), i64::MIN.to_string());
    assert_eq!(decimal_int_text(-1), "-1");
    assert_eq!(decimal_int_text(907), "907");
}

#[test]
fn integers_are_read_as_the_standard_library_reads_them() {
    for s in [
        "", " ", "0", "42\n", " -7 ", "+9", "-", "+", "--1", "2147483647", "2147483648",
        "-2147483648", "-2147483649", "12a", "00012", "99999999999999999999", "1 2", "\u{0661}",
    ] {
        assert_eq!(parse_i32(s), s.trim().parse::<i32>().ok(), "{:?}", s);
    }
}

#[test]
fn character_classes_are_those_of_the_standard_library() {
    for n in 0..=0x10ffffu32 {
        if let Some(c) = char::from_u32(n) {
            assert_eq!(is_space_char(c), c.is_whitespace(), "{:x}", n);
            assert_eq!(is_control_char(c), c.is_control(), "{:x}", n);
        }
    }
}

#[test]
fn text_helpers_agree_with_the_standard_library() {
    for s in ["", " a ", "\u{a0}x\u{3000}", "a b", "\t\n", "ÄÖ x"] {
        assert_eq!(trim(s), s.trim());
        assert_eq!(lower_ascii(s), s.to_ascii_lowercase());
        assert_eq!(bah::text::trim_tail(s), s.trim_end());
        assert_eq!(
            bah::text::words_of(s),
            s.split_whitespace().collect::<Vec<_>>()
        );
    }
    for s in ["", "\n", "a\nb", "a\r\nb\r", "\r\n\r\n", "x\n\ny\n"] {
        assert_eq!(bah::text::lines_of(s), s.lines().collect::<Vec<_>>());
    }
    for s in ["", "/", "a/b", "//", "a/b/c/"] {
        assert_eq!(
            bah::text::split_at_char(s, '/'),
            s.split('/').collect::<Vec<_>>()
        );
        assert_eq!(
            bah::text::cut_once(s, '/'),
            s.split_once('/').map(|(a, b)| (a.to_string(), b.to_string()))
        );
        assert_eq!(bah::text::tail_after(s, '/'), s.rsplit('/').next().unwrap());
        assert_eq!(bah::text::trim_tail_char(s, '/'), s.trim_end_matches('/'));
    }
    for (s, a, b) in [("aaa", "aa", "x"), ("a{}b{}", "{}", "{}"), ("", "q", "r"), ("abab", "b", "")] {
        assert_eq!(bah::text::replace(s, a, b), s.replace(a, b));
        assert_eq!(bah::text::contains(s, a), s.contains(a));
        assert_eq!(bah::text::text_before(s, a), s.split(a).next().unwrap());
        assert_eq!(bah::text::starts_with(s, a), s.starts_with(a));
        assert_eq!(bah::text::ends_with(s, a), s.ends_with(a));
    }
}

#[test]
fn scaled_parts_fit_together() {
    let mut seed = 0x1234_5678_9abc_def1u64;
    for _ in 0..100_000 {
        let part = 1 + (next(&mut seed) as u128) % ((1 << 52) - 1);
        let a = (next(&mut seed) >> (11 + next(&mut seed) % 50)) as u128 / 2;
        let b = (next(&mut seed) >> (11 + next(&mut seed) % 50)) as u128 / 2;
        if a + b > part {
            let (x, y) = (scale(a, part, a + b), scale(b, part, a + b));
            assert!(x <= part && y <= part && x + y <= part, "{a} {b} {part}");
        }
    }
    assert_eq!((scale(1, 38, 90), scale(89, 38, 90)), (0, 37));
}
