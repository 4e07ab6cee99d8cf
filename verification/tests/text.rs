use std::path::Path;

use arisa::text;

#[test]
fn trim_agrees_with_std() {
    let mut samples: Vec<String> = Vec::new();
    for c in '\u{0}'..='\u{3100}' {
        samples.push(format!("{c}a b{c}"));
        samples.push(format!("{c}{c}"));
        assert_eq!(text::white_space(c), c.is_whitespace(), "{c:?}");
    }
    samples.push(String::new());
    samples.push("plain".to_string());
    samples.push(" \t\n 한국어 \u{3000}".to_string());
    for sample in samples {
        assert_eq!(text::trim(&sample), sample.trim());
        assert_eq!(text::blank(&sample), sample.trim().is_empty());
    }
}

#[test]
fn all_white_space_is_known() {
    for c in '\u{0}'..=char::MAX {
        assert_eq!(text::white_space(c), c.is_whitespace());
    }
}

#[test]
fn numbers_are_read_as_std_reads_them() {
    let samples = [
        "", "0", "-0", "+0", "7", "007", "+7", "-7", "--7", "+-7", "-", "+", "1 ", " 1", "1_000", "12a",
        "a12", "0x10", "1.5", "٣", "2147483647", "2147483648", "-2147483648", "-2147483649",
        "00000000000000000000000000000002147483647", "18446744073709551615", "18446744073709551616",
        "99999999999999999999999999", "-18446744073709551616",
    ];
    for sample in samples {
        assert_eq!(text::parse_i32(sample), sample.parse().ok(), "{sample}");
        assert_eq!(text::parse_u64(sample), sample.parse().ok(), "{sample}");
    }
    assert_eq!(text::parse_i32("-2147483648"), Some(i32::MIN));
    assert_eq!(text::parse_u64("18446744073709551615"), Some(u64::MAX));
}

#[test]
fn truth_values_are_read_as_std_reads_them() {
    for sample in ["true", "false", "True", "FALSE", "1", "0", "", "true ", "yes"] {
        assert_eq!(text::parse_bool(sample), sample.parse().ok(), "{sample}");
    }
    assert_eq!(text::parse_bool("true"), Some(true));
    assert_eq!(text::parse_bool("false"), Some(false));
}

#[test]
fn numbers_are_written_as_std_writes_them_and_read_back() {
    for n in [0, 1, 9, 10, 42, 100, 1_234_567_890, i32::MAX, -1, -10, -987, i32::MIN] {
        assert_eq!(text::format_i32(n), n.to_string());
        assert_eq!(text::parse_i32(&text::format_i32(n)), Some(n));
    }
    assert_eq!(text::format_i32(-2147483648), "-2147483648");
}

#[test]
fn same_compares_whole_texts() {
    assert!(text::same("", ""));
    assert!(text::same("日本", "日本"));
    assert!(!text::same("a", "ab"));
    assert!(!text::same("ab", "ac"));
}

#[test]
fn substrings_split_as_std_splits() {
    for (hay, needle) in [
        ("", "x"),
        ("abc", "abcd"),
        ("abc", "b"),
        ("abab", "ab"),
        ("aaab", "aab"),
        ("xaay", "aa"),
        ("가나다나", "나"),
        ("no match", "zz"),
        ("abc", ""),
    ] {
        assert_eq!(text::text_before(hay, needle), hay.split_once(needle).map_or(hay, |p| p.0));
        assert_eq!(text::text_after(hay, needle), hay.split_once(needle).map(|p| p.1));
    }
    assert_eq!(text::text_after("key=value=x", "="), Some("value=x"));
    assert_eq!(text::text_before("key=value=x", "="), "key");
}

#[test]
fn paths_are_joined_as_std_joins_them() {
    for dir in ["", "/", "/tmp", "/tmp/", "relative", "a//", "/sdcard/arisa_temp", "길"] {
        for name in ["", "x", "x/y", "/x", "."] {
            assert_eq!(
                text::join_path(dir, name),
                Path::new(dir).join(name).to_string_lossy().into_owned(),
                "{dir} {name}"
            );
        }
    }
    assert_eq!(text::join_path("/sdcard/arisa_temp", "f"), "/sdcard/arisa_temp/f");
}
