use baluchon::clock::{chrono_stamp, entry, stamp};
use baluchon::scan::{
    blank, contains, join_path, joined, lines_of, number, parse_u32, replaced, starts_with, trimmed,
    without_prefixes, words,
};
use baluchon::text::{same_text, white_space};

#[test]
fn white_space_is_that_of_unicode() {
    for n in 0u32..0x11_0000 {
        if let Some(c) = char::from_u32(n) {
            assert_eq!(white_space(c), c.is_whitespace(), "U+{:04X}", n);
        }
    }
}

#[test]
fn trimmed_as_the_standard_library_does() {
    for s in ["", " ", "a", "  a b\t", "\u{3000}é\u{a0}", "\n\n", "x\u{200b} "] {
        assert_eq!(trimmed(s), s.trim());
        assert_eq!(blank(s), s.trim().is_empty());
    }
}

#[test]
fn words_as_splitn_does() {
    for s in ["", " ", "a b", "FAIL f a b c d", "a  b", "un deux trois quatre cinq six"] {
        for n in 1..7 {
            let want: Vec<String> = s.splitn(n, ' ').map(|p| p.to_string()).collect();
            assert_eq!(words(s, n), want);
            assert_eq!(joined(&words(s, n), 0, " "), s);
        }
    }
}

#[test]
fn joined_from_the_middle() {
    let parts = words("a b c d", 9);
    assert_eq!(joined(&parts, 2, "--"), "c--d");
    assert_eq!(joined(&parts, 3, "--"), "d");
    assert_eq!(joined(&parts, 4, "--"), "");
}

#[test]
fn lines_as_the_standard_library_does() {
    for s in ["", "a", "a\n", "a\r\nb", "\n\n", "a\r", "\r\n", "é\n\nà\r\r\n", "x\ny\nz"] {
        let want: Vec<String> = s.lines().map(|l| l.to_string()).collect();
        assert_eq!(lines_of(s), want);
    }
}

#[test]
fn searching() {
    assert!(contains("ubuntu:gnome", "gnome"));
    assert!(contains("abc", ""));
    assert!(contains("", ""));
    assert!(!contains("ab", "abc"));
    assert!(!contains("gnom", "gnome"));
    assert!(starts_with("fr_FR.UTF-8", "fr"));
    assert!(!starts_with("f", "fr"));
    assert!(!starts_with("en_US", "fr"));
    assert!(same_text("é", "é"));
    assert!(!same_text("e", "é"));
}

#[test]
fn prefixes_and_replacements() {
    assert_eq!(without_prefixes("-c-c /x/y", "-c"), "-c-c /x/y".trim_start_matches("-c"));
    assert_eq!(without_prefixes("/x", "-c"), "/x");
    assert_eq!(without_prefixes("-", "-c"), "-");
    assert_eq!(replaced("l'app d'ici", '\'', "''"), "l''app d''ici");
    assert_eq!(replaced("a b  c", ' ', "_"), "a_b__c");
    assert_eq!(replaced("", ' ', "_"), "");
}

#[test]
fn numbers_written() {
    for n in [0u64, 7, 10, 99, 100, 86400, 4294967295, u64::MAX] {
        assert_eq!(number(n), n.to_string());
    }
}

#[test]
fn numbers_read_as_the_standard_library_does() {
    for s in [
        "", "0", "+", "-", "+5", "-0", "12", "007", "4294967295", "4294967296", "99999999999999999",
        "1 ", "1a", "++1", "\u{0661}", "00000000000000000000001",
    ] {
        assert_eq!(parse_u32(s), s.parse::<u32>().ok(), "{}", s);
    }
}

#[test]
fn paths_joined_as_the_standard_library_does() {
    for base in ["", "/", "/media", "/media/", "rel", "/média/clé"] {
        for rel in ["", "user", "/abs", "a/b.sh", "../x"] {
            let want = std::path::Path::new(base).join(rel);
            assert_eq!(join_path(base, rel), want.to_string_lossy());
        }
    }
}

#[test]
fn stamps() {
    assert_eq!(stamp(0), "00:00:00");
    assert_eq!(stamp(86399), "23:59:59");
    assert_eq!(stamp(86400 + 3661), "01:01:01");
    assert_eq!(entry("01:02:03", "bonjour"), "[01:02:03] bonjour");
}

#[test]
fn the_clock_is_read() {
    let now = std::time::SystemTime::now()
        .duration_since(std::time::UNIX_EPOCH)
        .unwrap()
        .as_secs();
    let shown = chrono_stamp();
    assert!((0..5).any(|late| stamp(now + late) == shown));
}
